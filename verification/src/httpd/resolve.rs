//! From the path of a request to a path below the web root, and to what is
//! served there.

use crate::errors::Error;
use crate::utils::{join, join_spec, SEPARATOR};
use vstd::prelude::*;
use vstd::slice::{slice_subrange, slice_to_vec};
use vstd::string::StringSliceAdditionalSpecFns;

verus! {

/// The byte `.`, of which the segments `.` and `..` are made.
pub const DOT: u8 = 0x2e;

/// The segments of a request path: what stands before, between and after its
/// separators. Two separators in a row, or one at either end, leave an empty
/// segment.
pub open spec fn segments(req: Seq<u8>) -> Seq<Seq<u8>>
    decreases req.len(),
{
    if req.len() == 0 {
        seq![Seq::empty()]
    } else {
        let before = segments(req.drop_last());
        if req.last() == SEPARATOR {
            before.push(Seq::empty())
        } else {
            before.drop_last().push(before.last().push(req.last()))
        }
    }
}

/// The segment `.`, which names the directory it stands in.
pub open spec fn is_cur_dir(segment: Seq<u8>) -> bool {
    segment =~= seq![DOT]
}

/// The segment `..`, which names the directory above.
pub open spec fn is_parent_dir(segment: Seq<u8>) -> bool {
    segment =~= seq![DOT, DOT]
}

/// Why a segment is refused, if it is.
pub open spec fn refusal(segment: Seq<u8>) -> Option<Error> {
    if is_cur_dir(segment) {
        Some(Error::CurDir)
    } else if is_parent_dir(segment) {
        Some(Error::ParentDir)
    } else {
        None
    }
}

/// The refusal of the first segment that is refused.
pub open spec fn first_refusal(segments: Seq<Seq<u8>>) -> Option<Error>
    decreases segments.len(),
{
    if segments.len() == 0 {
        None
    } else {
        match first_refusal(segments.drop_last()) {
            Some(e) => Some(e),
            None => refusal(segments.last()),
        }
    }
}

/// `base` with each segment that is not empty added in turn as one component.
pub open spec fn push_all(base: Seq<u8>, segments: Seq<Seq<u8>>) -> Seq<u8>
    decreases segments.len(),
{
    if segments.len() == 0 {
        base
    } else {
        let before = push_all(base, segments.drop_last());
        if segments.last().len() == 0 {
            before
        } else {
            join_spec(before, segments.last())
        }
    }
}

/// The path below `base` that a request path names, or why it names none.
///
/// A request path that starts with a separator is refused, and so is one with
/// a segment `.` or `..`; of several faults the leftmost is reported. Every
/// other segment becomes one component of the result, whatever bytes it holds.
pub open spec fn resolve_path_req_spec(base: Seq<u8>, req: Seq<u8>) -> Result<Seq<u8>, Error> {
    if req.len() > 0 && req[0] == SEPARATOR {
        Err(Error::RootDir)
    } else {
        match first_refusal(segments(req)) {
            Some(e) => Err(e),
            None => Ok(push_all(base, segments(req))),
        }
    }
}

/// A request path has at least one segment, and no segment holds a separator.
pub proof fn lemma_segments_hold_no_separator(req: Seq<u8>)
    ensures
        segments(req).len() >= 1,
        forall|i: int, j: int|
            0 <= i < segments(req).len() && 0 <= j < segments(req)[i].len()
                ==> #[trigger] segments(req)[i][j] != SEPARATOR,
    decreases req.len(),
{
    if req.len() > 0 {
        lemma_segments_hold_no_separator(req.drop_last());
    }
}

/// The segments put together again, with one separator between each two.
pub open spec fn joined(segments: Seq<Seq<u8>>) -> Seq<u8>
    decreases segments.len(),
{
    if segments.len() == 0 {
        Seq::empty()
    } else if segments.len() == 1 {
        segments[0]
    } else {
        joined(segments.drop_last()).push(SEPARATOR) + segments.last()
    }
}

/// The segments of a path are its parts between the separators: none holds a
/// separator, and put together again they are the path.
pub proof fn law_segments_are_the_parts(req: Seq<u8>)
    ensures
        joined(segments(req)) == req,
        forall|i: int, j: int|
            0 <= i < segments(req).len() && 0 <= j < segments(req)[i].len()
                ==> #[trigger] segments(req)[i][j] != SEPARATOR,
    decreases req.len(),
{
    lemma_segments_hold_no_separator(req);
    if req.len() == 0 {
        assert(joined(segments(req)) =~= req);
    } else {
        let stem = req.drop_last();
        let before = segments(stem);
        law_segments_are_the_parts(stem);
        lemma_segments_hold_no_separator(stem);
        if req.last() == SEPARATOR {
            assert(before.push(Seq::empty()).drop_last() =~= before);
            assert(joined(segments(req)) =~= stem.push(SEPARATOR));
        } else {
            let grown = before.drop_last().push(before.last().push(req.last()));
            assert(grown.drop_last() =~= before.drop_last());
            if before.len() == 1 {
                assert(joined(grown) =~= stem.push(req.last()));
            } else {
                assert(joined(grown) =~= joined(before).push(req.last()));
            }
        }
        assert(stem.push(req.last()) =~= req);
    }
}

/// Splitting at a separator splits the segments: those of the part before it,
/// then those of the part after it.
pub proof fn lemma_segments_concat(a: Seq<u8>, b: Seq<u8>)
    ensures
        segments(a.push(SEPARATOR) + b) =~= segments(a) + segments(b),
    decreases b.len(),
{
    let whole = a.push(SEPARATOR) + b;
    lemma_segments_hold_no_separator(b);
    if b.len() == 0 {
        assert(whole =~= a.push(SEPARATOR));
        assert(whole.drop_last() =~= a);
    } else {
        lemma_segments_concat(a, b.drop_last());
        lemma_segments_hold_no_separator(b.drop_last());
        assert(whole.drop_last() =~= a.push(SEPARATOR) + b.drop_last());
        assert(whole.last() == b.last());
    }
}

/// Once a segment is refused, the segments after it do not change the verdict.
pub proof fn lemma_first_refusal_stays(head: Seq<Seq<u8>>, tail: Seq<Seq<u8>>)
    requires
        first_refusal(head) is Some,
    ensures
        first_refusal(head + tail) == first_refusal(head),
    decreases tail.len(),
{
    if tail.len() == 0 {
        assert(head + tail =~= head);
    } else {
        lemma_first_refusal_stays(head, tail.drop_last());
        assert((head + tail).drop_last() =~= head + tail.drop_last());
    }
}

/// Adds one segment to `path` as `push_all` does.
fn push_segment(path: &mut Vec<u8>, segment: &[u8])
    requires
        forall|j: int| 0 <= j < segment@.len() ==> segment@[j] != SEPARATOR,
    ensures
        final(path)@ == if segment@.len() == 0 {
            old(path)@
        } else {
            join_spec(old(path)@, segment@)
        },
{
    if segment.len() > 0 {
        let n = path.len();
        if n > 0 && path[n - 1] != SEPARATOR {
            path.push(SEPARATOR);
        }
        path.extend_from_slice(segment);
        assert(path@ =~= join_spec(old(path)@, segment@));
    }
}

/// Why the segment is refused, if it is.
fn check_segment(segment: &[u8]) -> (r: Option<Error>)
    ensures
        r == refusal(segment@),
{
    if segment.len() == 1 && segment[0] == DOT {
        Some(Error::CurDir)
    } else if segment.len() == 2 && segment[0] == DOT && segment[1] == DOT {
        Some(Error::ParentDir)
    } else {
        None
    }
}

/// Turns the path of a request into a path below `base`.
///
/// The request path is not trusted. It is refused if it starts at the root or
/// holds a segment `.` or `..`. Of every other path each segment that is not
/// empty becomes exactly one component below `base`, so that no request
/// reaches a file outside `base`.
pub fn resolve_path_req(base: &str, req: &[u8]) -> (r: Result<Vec<u8>, Error>)
    ensures
        match r {
            Ok(path) => resolve_path_req_spec(base.spec_bytes(), req@) == Ok::<Seq<u8>, Error>(
                path@,
            ),
            Err(e) => resolve_path_req_spec(base.spec_bytes(), req@) == Err::<Seq<u8>, Error>(e),
        },
{
    let n = req.len();
    if n > 0 && req[0] == SEPARATOR {
        return Err(Error::RootDir);
    }
    let mut path = slice_to_vec(base.as_bytes());
    let mut start: usize = 0;
    let mut i: usize = 0;
    proof {
        assert(req@.take(0) =~= Seq::<u8>::empty());
        assert(segments(req@.take(0)).drop_last() =~= Seq::<Seq<u8>>::empty());
        assert(segments(req@.take(0)).last() =~= req@.subrange(0, 0));
    }
    while i < n
        invariant
            n == req@.len(),
            n > 0 ==> req@[0] != SEPARATOR,
            start <= i <= n,
            forall|j: int| start <= j < i ==> req@[j] != SEPARATOR,
            segments(req@.take(i as int)).len() >= 1,
            segments(req@.take(i as int)).last() == req@.subrange(start as int, i as int),
            first_refusal(segments(req@.take(i as int)).drop_last()) is None,
            path@ == push_all(base.spec_bytes(), segments(req@.take(i as int)).drop_last()),
        decreases n - i,
    {
        let ghost before = segments(req@.take(i as int));
        proof {
            lemma_segments_hold_no_separator(req@.take(i as int + 1));
            assert(req@.take(i as int + 1).drop_last() =~= req@.take(i as int));
            assert(req@.take(i as int + 1).last() == req@[i as int]);
        }
        if req[i] == SEPARATOR {
            let segment = slice_subrange(req, start, i);
            proof {
                assert(before =~= before.drop_last().push(segment@));
                assert(segments(req@.take(i as int + 1)).drop_last() =~= before);
            }
            match check_segment(segment) {
                Some(e) => {
                    proof {
                        assert(req@ =~= req@.take(i as int).push(SEPARATOR) + req@.skip(
                            i as int + 1,
                        ));
                        lemma_segments_concat(req@.take(i as int), req@.skip(i as int + 1));
                        lemma_first_refusal_stays(before, segments(req@.skip(i as int + 1)));
                    }
                    return Err(e);
                },
                None => {},
            }
            push_segment(&mut path, segment);
            start = i + 1;
            proof {
                assert(segments(req@.take(i as int + 1)).last() =~= req@.subrange(
                    start as int,
                    i as int + 1,
                ));
            }
        } else {
            proof {
                assert(segments(req@.take(i as int + 1)).drop_last() =~= before.drop_last());
                assert(req@.subrange(start as int, i as int).push(req@[i as int]) =~= req@.subrange(
                    start as int,
                    i as int + 1,
                ));
            }
        }
        i = i + 1;
    }
    let segment = slice_subrange(req, start, n);
    proof {
        assert(req@.take(n as int) =~= req@);
        assert(segments(req@) =~= segments(req@).drop_last().push(segment@));
    }
    match check_segment(segment) {
        Some(e) => {
            return Err(e);
        },
        None => {},
    }
    push_segment(&mut path, segment);
    Ok(path)
}

/// A path without a separator is one segment.
pub proof fn lemma_segments_of_one(name: Seq<u8>)
    requires
        forall|j: int| 0 <= j < name.len() ==> name[j] != SEPARATOR,
    ensures
        segments(name) =~= seq![name],
    decreases name.len(),
{
    if name.len() == 0 {
        assert(name =~= Seq::<u8>::empty());
    } else {
        let stem = name.drop_last();
        lemma_segments_of_one(stem);
        assert(seq![stem].drop_last() =~= Seq::<Seq<u8>>::empty());
        assert(seq![stem].last() == stem);
        assert(stem.push(name.last()) =~= name);
    }
}

/// A refused segment anywhere makes the first refusal an error.
pub proof fn lemma_refused_segment_is_found(segments: Seq<Seq<u8>>, i: int)
    requires
        0 <= i < segments.len(),
        refusal(segments[i]) is Some,
    ensures
        first_refusal(segments) is Some,
    decreases segments.len(),
{
    if i < segments.len() - 1 {
        lemma_refused_segment_is_found(segments.drop_last(), i);
    }
}

/// Where no segment is refused, there is no first refusal.
pub proof fn lemma_no_refusal(segments: Seq<Seq<u8>>)
    requires
        forall|i: int| 0 <= i < segments.len() ==> refusal(#[trigger] segments[i]) is None,
    ensures
        first_refusal(segments) is None,
    decreases segments.len(),
{
    if segments.len() > 0 {
        lemma_no_refusal(segments.drop_last());
    }
}

/// Where there is no first refusal, no segment is refused.
pub proof fn lemma_no_refusal_of_any(segments: Seq<Seq<u8>>)
    requires
        first_refusal(segments) is None,
    ensures
        forall|i: int| 0 <= i < segments.len() ==> refusal(#[trigger] segments[i]) is None,
    decreases segments.len(),
{
    if segments.len() > 0 {
        lemma_no_refusal_of_any(segments.drop_last());
        assert forall|i: int| 0 <= i < segments.len() implies refusal(
            #[trigger] segments[i],
        ) is None by {
            if i < segments.len() - 1 {
                assert(segments.drop_last()[i] == segments[i]);
            }
        }
    }
}

/// A request path that starts at the root, or that holds a segment `.` or
/// `..` anywhere, is refused: it resolves to no path, whatever the web root.
pub proof fn law_unsafe_path_is_refused(base: Seq<u8>, req: Seq<u8>)
    requires
        (req.len() > 0 && req[0] == SEPARATOR) || (exists|i: int|
            0 <= i < segments(req).len() && refusal(#[trigger] segments(req)[i]) is Some),
    ensures
        resolve_path_req_spec(base, req) is Err,
{
    if !(req.len() > 0 && req[0] == SEPARATOR) {
        let i = choose|i: int|
            0 <= i < segments(req).len() && refusal(#[trigger] segments(req)[i]) is Some;
        lemma_refused_segment_is_found(segments(req), i);
    }
}

/// A request path that does not start at the root and whose segments are none
/// of `.` and `..` resolves, and to this path: the web root with each segment
/// added in order as one component.
pub proof fn law_normal_path_resolves(base: Seq<u8>, req: Seq<u8>)
    requires
        req.len() > 0 ==> req[0] != SEPARATOR,
        forall|i: int|
            0 <= i < segments(req).len() ==> refusal(#[trigger] segments(req)[i]) is None,
    ensures
        resolve_path_req_spec(base, req) == Ok::<Seq<u8>, Error>(push_all(base, segments(req))),
{
    lemma_no_refusal(segments(req));
}

/// Empty segments add nothing: separators in a row, and one at the end, count
/// as one.
pub proof fn law_repeated_separators_collapse(base: Seq<u8>, segments: Seq<Seq<u8>>)
    ensures
        push_all(base, segments) == push_all(base, segments.filter(|s: Seq<u8>| s.len() > 0)),
    decreases segments.len(),
{
    let kept = |s: Seq<u8>| s.len() > 0;
    reveal(Seq::filter);
    if segments.len() > 0 {
        law_repeated_separators_collapse(base, segments.drop_last());
        if segments.last().len() > 0 {
            assert(segments.filter(kept).drop_last() =~= segments.drop_last().filter(kept));
        }
    }
}

/// Whether `rest`, written behind `base`, starts a component of its own: it
/// does unless both are there and no separator stands between them.
pub open spec fn starts_component(base: Seq<u8>, rest: Seq<u8>) -> bool {
    base.len() > 0 && rest.len() > 0 ==> base.last() == SEPARATOR || rest[0] == SEPARATOR
}

/// What `push_all` adds to `base` for segments of which none is refused: the
/// result starts with `base`, and what follows starts a component of its own
/// and has no refused segment either.
proof fn lemma_push_all_stays_below(base: Seq<u8>, segs: Seq<Seq<u8>>)
    requires
        forall|i: int, j: int|
            0 <= i < segs.len() && 0 <= j < segs[i].len() ==> #[trigger] segs[i][j] != SEPARATOR,
        forall|i: int| 0 <= i < segs.len() ==> refusal(#[trigger] segs[i]) is None,
    ensures
        base.is_prefix_of(push_all(base, segs)),
        first_refusal(segments(push_all(base, segs).skip(base.len() as int))) is None,
        starts_component(base, push_all(base, segs).skip(base.len() as int)),
    decreases segs.len(),
{
    if segs.len() == 0 {
        assert(base.skip(base.len() as int) =~= Seq::<u8>::empty());
        assert(segments(Seq::<u8>::empty()) =~= seq![Seq::<u8>::empty()]);
        assert(seq![Seq::<u8>::empty()].drop_last() =~= Seq::<Seq<u8>>::empty());
        assert(first_refusal(seq![Seq::<u8>::empty()].drop_last()) is None);
    } else {
        let last = segs.last();
        let before = push_all(base, segs.drop_last());
        lemma_push_all_stays_below(base, segs.drop_last());
        if last.len() > 0 {
            let rest = before.skip(base.len() as int);
            let after = join_spec(before, last);
            assert forall|j: int| 0 <= j < last.len() implies last[j] != SEPARATOR by {
                assert(segs[segs.len() - 1][j] != SEPARATOR);
            }
            lemma_segments_of_one(last);
            assert(refusal(segs[segs.len() - 1]) is None);
            if before.len() > 0 && before.last() != SEPARATOR {
                assert(after.skip(base.len() as int) =~= rest.push(SEPARATOR) + last);
                lemma_segments_concat(rest, last);
                lemma_no_refusal_of_any(segments(rest));
                assert forall|i: int| 0 <= i < (segments(rest) + seq![last]).len() implies refusal(
                    #[trigger] (segments(rest) + seq![last])[i],
                ) is None by {
                    if i < segments(rest).len() {
                        assert(refusal(segments(rest)[i]) is None);
                    }
                }
                lemma_no_refusal(segments(rest) + seq![last]);
            } else if rest.len() == 0 {
                assert(after.skip(base.len() as int) =~= last);
                lemma_no_refusal(seq![last]);
            } else {
                let stem = rest.drop_last();
                assert(rest.last() == before.last());
                assert(rest =~= stem.push(SEPARATOR));
                assert(after.skip(base.len() as int) =~= stem.push(SEPARATOR) + last);
                lemma_segments_concat(stem, last);
                lemma_segments_concat(stem, Seq::<u8>::empty());
                assert(stem.push(SEPARATOR) + Seq::<u8>::empty() =~= rest);
                lemma_no_refusal_of_any(segments(rest));
                assert forall|i: int| 0 <= i < (segments(stem) + seq![last]).len() implies refusal(
                    #[trigger] (segments(stem) + seq![last])[i],
                ) is None by {
                    if i < segments(stem).len() {
                        assert(segments(rest)[i] == segments(stem)[i]);
                        assert(refusal(segments(rest)[i]) is None);
                    }
                }
                lemma_no_refusal(segments(stem) + seq![last]);
            }
        }
    }
}

/// Whether `path` lies below `base`: it starts with `base`, what follows
/// starts a component of its own, and no segment of it is `.` or `..`, which
/// could lead out again.
pub open spec fn is_below(base: Seq<u8>, path: Seq<u8>) -> bool {
    let rest = path.skip(base.len() as int);
    &&& base.is_prefix_of(path)
    &&& starts_component(base, rest)
    &&& first_refusal(segments(rest)) is None
}

/// A resolved path lies below the web root.
pub proof fn law_resolved_path_stays_below_root(base: Seq<u8>, req: Seq<u8>)
    requires
        resolve_path_req_spec(base, req) is Ok,
    ensures
        is_below(base, resolve_path_req_spec(base, req)->Ok_0),
{
    lemma_segments_hold_no_separator(req);
    lemma_no_refusal_of_any(segments(req));
    lemma_push_all_stays_below(base, segments(req));
}

/// What the file system holds at a path, as far as the answer depends on it.
#[derive(Clone, Copy, Debug, PartialEq, Eq, Structural)]
pub enum PathProbe {
    /// Nothing is there.
    Missing,
    /// Something is there that is no directory.
    File,
    /// A directory is there; `index` says whether it holds an `index.html`.
    Directory { index: bool },
}

/// What a request is answered with, once its path is known.
#[derive(Clone, Debug, PartialEq, Eq)]
pub enum ResolvedPath {
    /// The file at this path is served.
    File(Vec<u8>),
    /// The entries of the directory at this path are listed.
    ListDir(Vec<u8>),
    /// Something is there that is not handed out.
    Forbidden,
    /// Nothing is there.
    NotFound,
}

/// A `ResolvedPath` with its paths as sequences of bytes.
pub enum ResolvedPathView {
    File(Seq<u8>),
    ListDir(Seq<u8>),
    Forbidden,
    NotFound,
}

impl View for ResolvedPath {
    type V = ResolvedPathView;

    open spec fn view(&self) -> ResolvedPathView {
        match self {
            ResolvedPath::File(path) => ResolvedPathView::File(path@),
            ResolvedPath::ListDir(path) => ResolvedPathView::ListDir(path@),
            ResolvedPath::Forbidden => ResolvedPathView::Forbidden,
            ResolvedPath::NotFound => ResolvedPathView::NotFound,
        }
    }
}

/// The name of the file that stands for its directory.
pub open spec fn index_file() -> Seq<u8> {
    "index.html".spec_bytes()
}

/// The path at which the index file of the directory `dir` is looked for.
pub fn index_path(dir: &[u8]) -> (path: Vec<u8>)
    ensures
        path@ == join_spec(dir@, index_file()),
{
    join(dir, "index.html".as_bytes())
}

/// What is served at `path`, given what the file system holds there.
pub open spec fn resolve_path_fs_spec(
    path: Seq<u8>,
    probe: PathProbe,
    list_directories: bool,
) -> ResolvedPathView {
    match probe {
        PathProbe::Missing => ResolvedPathView::NotFound,
        PathProbe::File => ResolvedPathView::File(path),
        PathProbe::Directory { index: true } => ResolvedPathView::File(
            join_spec(path, index_file()),
        ),
        PathProbe::Directory { index: false } => if list_directories {
            ResolvedPathView::ListDir(path)
        } else {
            ResolvedPathView::Forbidden
        },
    }
}

/// Decides what is served at `path`. The caller has looked at the file system
/// and says in `probe` what it found there at that moment.
///
/// A directory with an `index.html` is answered with that file, whether or not
/// directories are listed. A directory without one is listed if and only if
/// `list_directories` is set, and is forbidden otherwise.
pub fn resolve_path_fs(path: Vec<u8>, probe: PathProbe, list_directories: bool) -> (r:
    ResolvedPath)
    ensures
        r@ == resolve_path_fs_spec(path@, probe, list_directories),
        probe matches PathProbe::Directory { index: true } ==> r is File,
        probe matches PathProbe::Directory { index: false } ==> (r is ListDir <==> list_directories)
            && (r is Forbidden <==> !list_directories),
{
    match probe {
        PathProbe::Missing => ResolvedPath::NotFound,
        PathProbe::File => ResolvedPath::File(path),
        PathProbe::Directory { index } => {
            if index {
                ResolvedPath::File(index_path(path.as_slice()))
            } else if list_directories {
                ResolvedPath::ListDir(path)
            } else {
                ResolvedPath::Forbidden
            }
        },
    }
}

/// The name of the index file is one segment, and none that is refused.
proof fn lemma_index_file_is_normal()
    ensures
        index_file().len() == 10,
        forall|j: int| 0 <= j < index_file().len() ==> index_file()[j] != SEPARATOR,
        refusal(index_file()) is None,
{
    reveal_strlit("index.html");
    vstd::utf8::is_ascii_chars_encode_utf8("index.html"@);
}

/// Whatever the file system holds, what is served for a resolved path lies
/// below the web root: the path itself, or the `index.html` in it.
pub proof fn law_answer_stays_below_root(
    base: Seq<u8>,
    req: Seq<u8>,
    probe: PathProbe,
    list_directories: bool,
)
    requires
        resolve_path_req_spec(base, req) is Ok,
    ensures
        match resolve_path_fs_spec(
            resolve_path_req_spec(base, req)->Ok_0,
            probe,
            list_directories,
        ) {
            ResolvedPathView::File(path) => is_below(base, path),
            ResolvedPathView::ListDir(path) => is_below(base, path),
            ResolvedPathView::Forbidden => true,
            ResolvedPathView::NotFound => true,
        },
{
    let parts = segments(req);
    lemma_segments_hold_no_separator(req);
    lemma_no_refusal_of_any(parts);
    lemma_push_all_stays_below(base, parts);
    if probe == (PathProbe::Directory { index: true }) {
        lemma_index_file_is_normal();
        let more = parts.push(index_file());
        assert(more.drop_last() =~= parts);
        lemma_push_all_stays_below(base, more);
    }
}

} // verus!
