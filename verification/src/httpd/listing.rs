//! The page that lists a directory.

use crate::errors::Error;
use crate::httpd::escape::{
    encode_attribute, encode_attribute_spec, encode_minimal, encode_minimal_spec,
};
use crate::httpd::order::{sort_entries, sorted_entries, views, DirEntry, DirEntryView};
use crate::utils::{path_to_string, path_to_string_spec};
use vstd::prelude::*;
use vstd::string::StringExecFns;
use vstd::utf8::encode_utf8;

verus! {

/// The column, counted in bytes of the name, at which the sizes stand.
pub const DIR_LIST_PADDING: usize = 50;

/// The number of blanks after a name: what its bytes leave of
/// `DIR_LIST_PADDING`, and none after a longer name.
pub open spec fn padding(name: Seq<char>) -> nat {
    let used = encode_utf8(name).len();
    if used >= DIR_LIST_PADDING {
        0
    } else {
        (DIR_LIST_PADDING - used) as nat
    }
}

/// `n` blanks.
pub open spec fn blanks(n: nat) -> Seq<char> {
    Seq::new(n, |i: int| ' ')
}

/// The digit for a value below ten.
pub open spec fn digit(d: int) -> char {
    (48 + d) as char
}

/// The number in base ten, without leading zeros.
pub open spec fn decimal(n: nat) -> Seq<char>
    decreases n,
{
    if n < 10 {
        seq![digit(n as int)]
    } else {
        decimal(n / 10).push(digit((n % 10) as int))
    }
}

/// The line of one entry: a link to it, blanks up to the column of the sizes,
/// and its size.
pub open spec fn row(entry: DirEntryView) -> Seq<char> {
    "<a href=\""@ + encode_attribute_spec(entry.name) + "\">"@ + encode_attribute_spec(entry.name)
        + "</a>"@ + blanks(padding(entry.name)) + " "@ + decimal(entry.size as nat) + "\n"@
}

/// The lines of the entries, in their order.
pub open spec fn rows(entries: Seq<DirEntryView>) -> Seq<char>
    decreases entries.len(),
{
    if entries.len() == 0 {
        Seq::empty()
    } else {
        rows(entries.drop_last()) + row(entries.last())
    }
}

/// What stands above the lines of the entries: the title, twice, and below the
/// root a link to the directory above.
pub open spec fn page_head(req_path: Seq<char>) -> Seq<char> {
    "<html>\n<head><title>Index of /"@ + encode_minimal_spec(req_path)
        + "</title></head>\n<body>\n<h1>Index of /"@ + encode_minimal_spec(req_path)
        + "</h1><hr><pre>\n"@ + if req_path.len() > 0 {
        "<a href=\"../\">../</a>\n"@
    } else {
        Seq::empty()
    }
}

/// The page that lists `entries` as the directory that `req_path` names.
pub open spec fn list_directory_spec(
    entries: Seq<DirEntryView>,
    req_path: Seq<char>,
) -> Seq<char> {
    page_head(req_path) + rows(sorted_entries(entries)) + "</pre><hr></body>\n</html>\n"@
}

/// The name under which an entry is listed, given the bytes of its name in
/// the directory. A name that is no text has none, and its entry is left out
/// of the listing.
pub fn listed_name(raw: Vec<u8>) -> (name: Option<String>)
    ensures
        match name {
            Some(text) => path_to_string_spec(raw@) == Ok::<Seq<char>, Error>(text@),
            None => path_to_string_spec(raw@) is Err,
        },
{
    match path_to_string(raw) {
        Ok(text) => Some(text),
        Err(_) => None,
    }
}

/// The text of one digit.
fn digit_text(d: u64) -> (text: &'static str)
    requires
        d < 10,
    ensures
        text@ == seq![digit(d as int)],
{
    proof {
        reveal_strlit("0");
        reveal_strlit("1");
        reveal_strlit("2");
        reveal_strlit("3");
        reveal_strlit("4");
        reveal_strlit("5");
        reveal_strlit("6");
        reveal_strlit("7");
        reveal_strlit("8");
        reveal_strlit("9");
    }
    let text = if d == 0 {
        "0"
    } else if d == 1 {
        "1"
    } else if d == 2 {
        "2"
    } else if d == 3 {
        "3"
    } else if d == 4 {
        "4"
    } else if d == 5 {
        "5"
    } else if d == 6 {
        "6"
    } else if d == 7 {
        "7"
    } else if d == 8 {
        "8"
    } else {
        "9"
    };
    assert(text@ =~= seq![digit(d as int)]);
    text
}

/// Adds the number in base ten.
fn push_decimal(out: &mut String, n: u64)
    ensures
        final(out)@ == old(out)@ + decimal(n as nat),
    decreases n,
{
    if n >= 10 {
        push_decimal(out, n / 10);
    }
    out.append(digit_text(n % 10));
    assert(out@ =~= old(out)@ + decimal(n as nat));
}

/// Adds `n` blanks.
fn push_blanks(out: &mut String, n: usize)
    ensures
        final(out)@ == old(out)@ + blanks(n as nat),
{
    let mut i: usize = 0;
    proof {
        reveal_strlit(" ");
        assert(out@ =~= old(out)@ + blanks(0));
    }
    while i < n
        invariant
            i <= n,
            " "@ == seq![' '],
            out@ == old(out)@ + blanks(i as nat),
        decreases n - i,
    {
        out.append(" ");
        i = i + 1;
        assert(out@ =~= old(out)@ + blanks(i as nat));
    }
}

/// Adds the line of one entry.
fn push_row(out: &mut String, entry: &DirEntry)
    ensures
        final(out)@ == old(out)@ + row(entry@),
{
    let used = entry.name.as_str().as_bytes().len();
    let pad = if used >= DIR_LIST_PADDING {
        0
    } else {
        DIR_LIST_PADDING - used
    };
    let name = encode_attribute(entry.name.as_str());
    out.append("<a href=\"");
    out.append(name.as_str());
    out.append("\">");
    out.append(name.as_str());
    out.append("</a>");
    push_blanks(out, pad);
    out.append(" ");
    push_decimal(out, entry.size);
    out.append("\n");
    assert(out@ =~= old(out)@ + row(entry@));
}

/// Writes the page that lists a directory.
///
/// `entries` are the entries that were read from the directory, in any order,
/// each with a name that is text; `req_path` is the path by which the
/// directory was asked for. The page names the directory in its title, links
/// to the directory above unless `req_path` is empty, and then holds one line
/// for each entry, in the order of the names' bytes. Every name is written
/// through `htmlescape`, so that no name can add markup to the page.
pub fn list_directory(entries: Vec<DirEntry>, req_path: &str) -> (page: String)
    ensures
        page@ == list_directory_spec(views(entries@), req_path@),
{
    let title = encode_minimal(req_path);
    let mut page = String::from_str("<html>\n<head><title>Index of /");
    page.append(title.as_str());
    page.append("</title></head>\n<body>\n<h1>Index of /");
    page.append(title.as_str());
    page.append("</h1><hr><pre>\n");
    if !req_path.is_empty() {
        page.append("<a href=\"../\">../</a>\n");
    }
    assert(page@ =~= page_head(req_path@));
    let listing = sort_entries(entries);
    let mut i: usize = 0;
    assert(page@ =~= page_head(req_path@) + rows(views(listing@).take(0)));
    while i < listing.len()
        invariant
            i <= listing@.len(),
            page@ == page_head(req_path@) + rows(views(listing@).take(i as int)),
        decreases listing@.len() - i,
    {
        push_row(&mut page, &listing[i]);
        proof {
            let shown = views(listing@).take(i as int + 1);
            assert(shown.drop_last() =~= views(listing@).take(i as int));
            assert(shown.last() == listing@[i as int]@);
            assert(page@ =~= page_head(req_path@) + rows(shown));
        }
        i = i + 1;
    }
    assert(views(listing@).take(i as int) =~= views(listing@));
    page.append("</pre><hr></body>\n</html>\n");
    page
}

} // verus!
