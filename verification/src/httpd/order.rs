//! The order in which the entries of a directory are listed.

use vstd::prelude::*;
use vstd::relations::{sorted_by, total_ordering};
use vstd::seq_lib::lemma_sorted_unique;
use vstd::utf8::encode_utf8;

verus! {

/// One entry of a directory: its name and the size of what it names, in bytes.
#[derive(Clone, Debug, PartialEq, Eq)]
pub struct DirEntry {
    pub name: String,
    pub size: u64,
}

/// A `DirEntry` with its name as a sequence of characters.
pub struct DirEntryView {
    pub name: Seq<char>,
    pub size: u64,
}

impl View for DirEntry {
    type V = DirEntryView;

    open spec fn view(&self) -> DirEntryView {
        DirEntryView { name: self.name@, size: self.size }
    }
}

/// The views of the entries, in their order.
pub open spec fn views(entries: Seq<DirEntry>) -> Seq<DirEntryView> {
    entries.map_values(|e: DirEntry| e@)
}

/// How one value stands to another in an order.
#[derive(Clone, Copy, Debug, PartialEq, Eq, Structural)]
pub enum Order {
    Less,
    Equal,
    Greater,
}

/// How `a` stands to `b` in the order of the dictionary: the first byte in
/// which they differ decides, and where one ends before they differ, the
/// shorter comes first.
pub open spec fn bytes_order(a: Seq<u8>, b: Seq<u8>) -> Order
    decreases a.len(),
{
    if a.len() == 0 {
        if b.len() == 0 {
            Order::Equal
        } else {
            Order::Less
        }
    } else if b.len() == 0 {
        Order::Greater
    } else if a[0] < b[0] {
        Order::Less
    } else if a[0] > b[0] {
        Order::Greater
    } else {
        bytes_order(a.drop_first(), b.drop_first())
    }
}

/// Whether `a` is listed no later than `b`: the bytes of the names decide, and
/// between equal names the smaller size comes first.
pub open spec fn entry_le(a: DirEntryView, b: DirEntryView) -> bool {
    match bytes_order(encode_utf8(a.name), encode_utf8(b.name)) {
        Order::Less => true,
        Order::Equal => a.size <= b.size,
        Order::Greater => false,
    }
}

/// `entry_le` as a relation.
pub open spec fn entry_order() -> spec_fn(DirEntryView, DirEntryView) -> bool {
    |a: DirEntryView, b: DirEntryView| entry_le(a, b)
}

/// The entries in the order in which they are listed.
pub open spec fn sorted_entries(entries: Seq<DirEntryView>) -> Seq<DirEntryView> {
    entries.sort_by(entry_order())
}

/// Two sequences of bytes are `Equal` in the order exactly if they are the
/// same sequence.
pub proof fn lemma_bytes_order_equal(a: Seq<u8>, b: Seq<u8>)
    ensures
        bytes_order(a, b) == Order::Equal <==> a == b,
    decreases a.len(),
{
    if a.len() > 0 && b.len() > 0 {
        lemma_bytes_order_equal(a.drop_first(), b.drop_first());
        if a[0] == b[0] && a.drop_first() == b.drop_first() {
            assert(a =~= seq![a[0]] + a.drop_first());
            assert(b =~= seq![b[0]] + b.drop_first());
        }
    } else if a.len() == 0 && b.len() == 0 {
        assert(a =~= b);
    }
}

/// Turning the two around turns the order around.
pub proof fn lemma_bytes_order_flip(a: Seq<u8>, b: Seq<u8>)
    ensures
        bytes_order(a, b) == Order::Less <==> bytes_order(b, a) == Order::Greater,
        bytes_order(a, b) == Order::Equal <==> bytes_order(b, a) == Order::Equal,
    decreases a.len(),
{
    if a.len() > 0 && b.len() > 0 {
        lemma_bytes_order_flip(a.drop_first(), b.drop_first());
    }
}

/// What is no greater than something that is no greater than a third is no
/// greater than the third.
pub proof fn lemma_bytes_order_transitive(a: Seq<u8>, b: Seq<u8>, c: Seq<u8>)
    requires
        bytes_order(a, b) != Order::Greater,
        bytes_order(b, c) != Order::Greater,
    ensures
        bytes_order(a, c) != Order::Greater,
        bytes_order(a, c) == Order::Equal ==> bytes_order(a, b) == Order::Equal && bytes_order(
            b,
            c,
        ) == Order::Equal,
    decreases a.len(),
{
    if a.len() > 0 && b.len() > 0 && c.len() > 0 {
        if a[0] == b[0] && b[0] == c[0] {
            lemma_bytes_order_transitive(a.drop_first(), b.drop_first(), c.drop_first());
        }
    }
}

/// The order of the listing is a total order: any two entries are ordered,
/// and only equal entries both ways.
pub proof fn lemma_entry_order_is_total()
    ensures
        total_ordering(entry_order()),
{
    let leq = entry_order();
    assert forall|x: DirEntryView| #[trigger] leq(x, x) by {
        lemma_bytes_order_equal(encode_utf8(x.name), encode_utf8(x.name));
    }
    assert forall|x: DirEntryView, y: DirEntryView| #[trigger]
        leq(x, y) && #[trigger] leq(y, x) implies x == y by {
        let a = encode_utf8(x.name);
        let b = encode_utf8(y.name);
        lemma_bytes_order_flip(a, b);
        lemma_bytes_order_equal(a, b);
        vstd::utf8::encode_utf8_decode_utf8(x.name);
        vstd::utf8::encode_utf8_decode_utf8(y.name);
        assert(x.name == y.name);
    }
    assert forall|x: DirEntryView, y: DirEntryView, z: DirEntryView| #[trigger]
        leq(x, y) && #[trigger] leq(y, z) implies leq(x, z) by {
        lemma_bytes_order_transitive(
            encode_utf8(x.name),
            encode_utf8(y.name),
            encode_utf8(z.name),
        );
    }
    assert forall|x: DirEntryView, y: DirEntryView| #[trigger]
        leq(x, y) || #[trigger] leq(y, x) by {
        lemma_bytes_order_flip(encode_utf8(x.name), encode_utf8(y.name));
    }
}

/// The listed order holds the same entries as were given, each as often, and
/// no entry stands before one that the order puts first.
pub proof fn law_listing_is_sorted(entries: Seq<DirEntryView>)
    ensures
        sorted_entries(entries).to_multiset() == entries.to_multiset(),
        sorted_by(sorted_entries(entries), entry_order()),
        forall|i: int, j: int|
            0 <= i < j < sorted_entries(entries).len() ==> bytes_order(
                encode_utf8(#[trigger] sorted_entries(entries)[i].name),
                encode_utf8(#[trigger] sorted_entries(entries)[j].name),
            ) != Order::Greater,
{
    lemma_entry_order_is_total();
    entries.lemma_sort_by_ensures(entry_order());
    let sorted = sorted_entries(entries);
    assert forall|i: int, j: int| 0 <= i < j < sorted.len() implies bytes_order(
        encode_utf8(#[trigger] sorted[i].name),
        encode_utf8(#[trigger] sorted[j].name),
    ) != Order::Greater by {
        assert(entry_order()(sorted[i], sorted[j]));
    }
}

/// Whatever holds the given entries in the order of the listing is the listed
/// order: there is one way only to sort them.
pub proof fn lemma_sorted_is_listed(entries: Seq<DirEntryView>, sorted: Seq<DirEntryView>)
    requires
        sorted.to_multiset() == entries.to_multiset(),
        sorted_by(sorted, entry_order()),
    ensures
        sorted == sorted_entries(entries),
{
    lemma_entry_order_is_total();
    entries.lemma_sort_by_ensures(entry_order());
    lemma_sorted_unique(sorted, sorted_entries(entries), entry_order());
}

/// How `a` stands to `b` in the order of the dictionary.
pub fn order_bytes(a: &[u8], b: &[u8]) -> (r: Order)
    ensures
        r == bytes_order(a@, b@),
{
    let mut i: usize = 0;
    proof {
        assert(a@.skip(0) =~= a@);
        assert(b@.skip(0) =~= b@);
    }
    while i < a.len() && i < b.len()
        invariant
            i <= a@.len(),
            i <= b@.len(),
            bytes_order(a@, b@) == bytes_order(a@.skip(i as int), b@.skip(i as int)),
        decreases a@.len() - i,
    {
        if a[i] < b[i] {
            return Order::Less;
        }
        if a[i] > b[i] {
            return Order::Greater;
        }
        proof {
            assert(a@.skip(i as int).drop_first() =~= a@.skip(i as int + 1));
            assert(b@.skip(i as int).drop_first() =~= b@.skip(i as int + 1));
        }
        i = i + 1;
    }
    if i < b.len() {
        Order::Less
    } else if i < a.len() {
        Order::Greater
    } else {
        Order::Equal
    }
}

/// Whether `a` is listed no later than `b`.
pub fn in_order(a: &DirEntry, b: &DirEntry) -> (r: bool)
    ensures
        r == entry_le(a@, b@),
{
    match order_bytes(a.name.as_str().as_bytes(), b.name.as_str().as_bytes()) {
        Order::Less => true,
        Order::Equal => a.size <= b.size,
        Order::Greater => false,
    }
}

/// The entries get no greater from first to last.
spec fn descends(entries: Seq<DirEntryView>) -> bool {
    forall|i: int, j: int| 0 <= i < j < entries.len() ==> entry_le(entries[j], entries[i])
}

/// No entry of `low` comes after an entry of `high`.
spec fn all_below(low: Seq<DirEntryView>, high: Seq<DirEntryView>) -> bool {
    forall|i: int, k: int| 0 <= i < low.len() && 0 <= k < high.len() ==> entry_le(low[i], high[k])
}

/// Taking the last entry off a vector takes it out of the multiset of its
/// views.
proof fn lemma_last_taken(before: Seq<DirEntry>, after: Seq<DirEntry>)
    requires
        before.len() > 0,
        after == before.drop_last(),
    ensures
        views(after) == views(before).drop_last(),
        views(before).to_multiset() == views(after).to_multiset().insert(views(before).last()),
{
    assert(views(after) =~= views(before).drop_last());
    assert(views(before) =~= views(after).push(views(before).last()));
    vstd::seq_lib::to_multiset_build(views(after), views(before).last());
}

/// One step of merging: the last entry of `taken`, which is no less than the
/// last of `other`, goes to the end of `down`.
proof fn lemma_merge_step(
    taken: Seq<DirEntryView>,
    other: Seq<DirEntryView>,
    down: Seq<DirEntryView>,
)
    requires
        taken.len() > 0,
        sorted_by(taken, entry_order()),
        sorted_by(other, entry_order()),
        descends(down),
        all_below(taken, down),
        all_below(other, down),
        other.len() > 0 ==> entry_le(other.last(), taken.last()),
    ensures
        sorted_by(taken.drop_last(), entry_order()),
        descends(down.push(taken.last())),
        all_below(taken.drop_last(), down.push(taken.last())),
        all_below(other, down.push(taken.last())),
{
    lemma_entry_order_is_total();
    let leq = entry_order();
    let top = taken.last();
    let grown = down.push(top);
    assert forall|i: int, j: int| 0 <= i < j < taken.drop_last().len() implies #[trigger] leq(
        taken.drop_last()[i],
        taken.drop_last()[j],
    ) by {
        assert(leq(taken[i], taken[j]));
    }
    assert forall|i: int, j: int| 0 <= i < j < grown.len() implies entry_le(grown[j], grown[i]) by {
        if j < down.len() {
            assert(entry_le(down[j], down[i]));
        } else {
            assert(entry_le(taken[taken.len() - 1], down[i]));
        }
    }
    assert forall|i: int, k: int|
        0 <= i < taken.drop_last().len() && 0 <= k < grown.len() implies entry_le(
        taken.drop_last()[i],
        grown[k],
    ) by {
        if k < down.len() {
            assert(entry_le(taken[i], down[k]));
        } else {
            assert(leq(taken[i], taken[taken.len() - 1]));
        }
    }
    assert forall|i: int, k: int| 0 <= i < other.len() && 0 <= k < grown.len() implies entry_le(
        other[i],
        grown[k],
    ) by {
        if k < down.len() {
            assert(entry_le(other[i], down[k]));
        } else if i < other.len() - 1 {
            assert(leq(other[i], other[other.len() - 1]));
            assert(leq(other[other.len() - 1], top));
        }
    }
}

/// One step of turning `down` around: its last entry, the least of it, goes
/// to the end of `merged`.
proof fn lemma_turn_step(merged: Seq<DirEntryView>, down: Seq<DirEntryView>)
    requires
        down.len() > 0,
        sorted_by(merged, entry_order()),
        descends(down),
        all_below(merged, down),
    ensures
        sorted_by(merged.push(down.last()), entry_order()),
        descends(down.drop_last()),
        all_below(merged.push(down.last()), down.drop_last()),
{
    let leq = entry_order();
    let grown = merged.push(down.last());
    assert forall|i: int, j: int| 0 <= i < j < grown.len() implies #[trigger] leq(
        grown[i],
        grown[j],
    ) by {
        if j < merged.len() {
            assert(leq(merged[i], merged[j]));
        } else {
            assert(entry_le(merged[i], down[down.len() - 1]));
        }
    }
    assert forall|i: int, j: int| 0 <= i < j < down.drop_last().len() implies entry_le(
        down.drop_last()[j],
        down.drop_last()[i],
    ) by {
        assert(entry_le(down[j], down[i]));
    }
    assert forall|i: int, k: int|
        0 <= i < grown.len() && 0 <= k < down.drop_last().len() implies entry_le(
        grown[i],
        down.drop_last()[k],
    ) by {
        if i < merged.len() {
            assert(entry_le(merged[i], down[k]));
        } else {
            assert(entry_le(down[down.len() - 1], down[k]));
        }
    }
}

/// Merges two sorted vectors into one.
fn merge(left: Vec<DirEntry>, right: Vec<DirEntry>) -> (merged: Vec<DirEntry>)
    requires
        sorted_by(views(left@), entry_order()),
        sorted_by(views(right@), entry_order()),
    ensures
        sorted_by(views(merged@), entry_order()),
        views(merged@).to_multiset() == views(left@).to_multiset().add(
            views(right@).to_multiset(),
        ),
{
    let ghost all = views(left@).to_multiset().add(views(right@).to_multiset());
    let mut left = left;
    let mut right = right;
    let mut down: Vec<DirEntry> = Vec::new();
    proof {
        assert(views(down@) =~= Seq::<DirEntryView>::empty());
        assert(views(down@).to_multiset().add(views(left@).to_multiset()).add(
            views(right@).to_multiset(),
        ) =~= all) by {
            broadcast use vstd::seq_lib::group_to_multiset_ensures;

        }
    }
    // The greatest entry that is left is the last of `left` or of `right`. It
    // goes to the end of `down`, which so holds the entries from last to first.
    while left.len() > 0 || right.len() > 0
        invariant
            sorted_by(views(left@), entry_order()),
            sorted_by(views(right@), entry_order()),
            descends(views(down@)),
            all_below(views(left@), views(down@)),
            all_below(views(right@), views(down@)),
            views(down@).to_multiset().add(views(left@).to_multiset()).add(
                views(right@).to_multiset(),
            ) == all,
        decreases left@.len() + right@.len(),
    {
        let ghost left_before = left@;
        let ghost right_before = right@;
        let ghost down_before = views(down@);
        let from_left = if left.len() == 0 {
            false
        } else if right.len() == 0 {
            true
        } else {
            !in_order(&left[left.len() - 1], &right[right.len() - 1])
        };
        let entry = if from_left {
            left.pop().unwrap()
        } else {
            right.pop().unwrap()
        };
        down.push(entry);
        proof {
            lemma_entry_order_is_total();
            if from_left {
                if right_before.len() > 0 {
                    let (a, b) = (views(left_before).last(), views(right_before).last());
                    assert(entry_order()(a, b) || entry_order()(b, a));
                }
                lemma_last_taken(left_before, left@);
                lemma_merge_step(views(left_before), views(right_before), down_before);
            } else {
                lemma_last_taken(right_before, right@);
                lemma_merge_step(views(right_before), views(left_before), down_before);
            }
            assert(views(down@) =~= down_before.push(entry@));
            vstd::seq_lib::to_multiset_build(down_before, entry@);
            assert(views(down@).to_multiset().add(views(left@).to_multiset()).add(
                views(right@).to_multiset(),
            ) =~= all);
        }
    }
    let mut merged: Vec<DirEntry> = Vec::new();
    proof {
        assert(views(left@) =~= Seq::<DirEntryView>::empty());
        assert(views(right@) =~= Seq::<DirEntryView>::empty());
        assert(views(merged@) =~= Seq::<DirEntryView>::empty());
        assert(views(merged@).to_multiset().add(views(down@).to_multiset()) =~= all) by {
            broadcast use vstd::seq_lib::group_to_multiset_ensures;

        }
    }
    while down.len() > 0
        invariant
            sorted_by(views(merged@), entry_order()),
            descends(views(down@)),
            all_below(views(merged@), views(down@)),
            views(merged@).to_multiset().add(views(down@).to_multiset()) == all,
        decreases down@.len(),
    {
        let ghost down_before = down@;
        let ghost merged_before = views(merged@);
        let entry = down.pop().unwrap();
        merged.push(entry);
        proof {
            lemma_last_taken(down_before, down@);
            lemma_turn_step(merged_before, views(down_before));
            assert(views(merged@) =~= merged_before.push(entry@));
            vstd::seq_lib::to_multiset_build(merged_before, entry@);
            assert(views(merged@).to_multiset().add(views(down@).to_multiset()) =~= all);
        }
    }
    proof {
        assert(views(down@) =~= Seq::<DirEntryView>::empty());
        assert(views(merged@).to_multiset() =~= all) by {
            broadcast use vstd::seq_lib::group_to_multiset_ensures;

        }
    }
    merged
}

/// Sorts by halves.
fn merge_sort(entries: Vec<DirEntry>) -> (sorted: Vec<DirEntry>)
    ensures
        sorted_by(views(sorted@), entry_order()),
        views(sorted@).to_multiset() == views(entries@).to_multiset(),
    decreases entries@.len(),
{
    if entries.len() <= 1 {
        return entries;
    }
    let mut left = entries;
    let right = left.split_off(left.len() / 2);
    proof {
        assert(views(entries@) =~= views(left@) + views(right@));
        vstd::seq_lib::lemma_multiset_commutative(views(left@), views(right@));
    }
    let left = merge_sort(left);
    let right = merge_sort(right);
    merge(left, right)
}

/// Puts the entries into the order of the listing.
pub fn sort_entries(entries: Vec<DirEntry>) -> (sorted: Vec<DirEntry>)
    ensures
        views(sorted@) == sorted_entries(views(entries@)),
{
    let sorted = merge_sort(entries);
    proof {
        lemma_sorted_is_listed(views(entries@), views(sorted@));
    }
    sorted
}

} // verus!
