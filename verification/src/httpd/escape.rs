//! Text made safe for a page: every character that markup gives a meaning is
//! replaced by a character reference.

use vstd::prelude::*;

verus! {

/// The reference that stands for each of the five characters that are always
/// replaced.
pub open spec fn entity(c: char) -> Option<Seq<char>> {
    if c == '"' {
        Some(seq!['&', 'q', 'u', 'o', 't', ';'])
    } else if c == '&' {
        Some(seq!['&', 'a', 'm', 'p', ';'])
    } else if c == '\'' {
        Some(seq!['&', '#', 'x', '2', '7', ';'])
    } else if c == '<' {
        Some(seq!['&', 'l', 't', ';'])
    } else if c == '>' {
        Some(seq!['&', 'g', 't', ';'])
    } else {
        None
    }
}

/// A letter or digit of ASCII.
pub open spec fn is_ascii_alnum(c: char) -> bool {
    ('a' <= c && c <= 'z') || ('A' <= c && c <= 'Z') || ('0' <= c && c <= '9')
}

/// The digit of base 16 for a value below 16, with capital letters.
pub open spec fn hex_digit(d: int) -> char {
    if d < 10 {
        (48 + d) as char
    } else {
        (55 + d) as char
    }
}

/// What stands for one character in text: its entity, or the character.
pub open spec fn encode_minimal_char(c: char) -> Seq<char> {
    match entity(c) {
        Some(e) => e,
        None => seq![c],
    }
}

/// What stands for one character in the value of an attribute: its entity;
/// else, below 256 and unless it is a letter or digit of ASCII, its number in
/// two digits of base 16, as `&#x..;`; else the character.
pub open spec fn encode_attribute_char(c: char) -> Seq<char> {
    match entity(c) {
        Some(e) => e,
        None => {
            let n = c as int;
            if n < 256 && (n > 127 || !is_ascii_alnum(c)) {
                seq!['&', '#', 'x', hex_digit(n / 16), hex_digit(n % 16), ';']
            } else {
                seq![c]
            }
        },
    }
}

/// `text` with each character replaced by what stands for it in text.
pub open spec fn encode_minimal_spec(text: Seq<char>) -> Seq<char>
    decreases text.len(),
{
    if text.len() == 0 {
        Seq::empty()
    } else {
        encode_minimal_spec(text.drop_last()) + encode_minimal_char(text.last())
    }
}

/// `text` with each character replaced by what stands for it in the value of
/// an attribute.
pub open spec fn encode_attribute_spec(text: Seq<char>) -> Seq<char>
    decreases text.len(),
{
    if text.len() == 0 {
        Seq::empty()
    } else {
        encode_attribute_spec(text.drop_last()) + encode_attribute_char(text.last())
    }
}

/// `htmlescape::encode_minimal`: the text with `"`, `&`, `'`, `<` and `>`
/// replaced by `&quot;`, `&amp;`, `&#x27;`, `&lt;` and `&gt;`, and every other
/// character kept.
#[verifier::external_body]
pub(crate) fn encode_minimal(text: &str) -> (encoded: String)
    ensures
        encoded@ == encode_minimal_spec(text@),
{
    htmlescape::encode_minimal(text)
}

/// `htmlescape::encode_attribute`: the text with the five characters of
/// `encode_minimal` replaced as there, every other character below 256 that is
/// no letter or digit of ASCII replaced by `&#x`, its number in two capital
/// digits of base 16 and `;`, and every other character kept.
#[verifier::external_body]
pub(crate) fn encode_attribute(text: &str) -> (encoded: String)
    ensures
        encoded@ == encode_attribute_spec(text@),
{
    htmlescape::encode_attribute(text)
}

/// A character that markup gives a meaning: it opens or closes a tag, opens a
/// reference, or closes the value of an attribute.
pub open spec fn is_markup(c: char) -> bool {
    c == '<' || c == '>' || c == '&' || c == '"' || c == '\''
}

/// A character that may stand inside a character reference.
pub open spec fn is_reference_char(c: char) -> bool {
    is_ascii_alnum(c) || c == '#'
}

/// At `i` a reference of `len` characters stands in `text`: `&`, then letters,
/// digits or `#`, then `;`.
pub open spec fn reference_at(text: Seq<char>, i: int, len: int) -> bool {
    &&& 0 <= i && i + len <= text.len()
    &&& 4 <= len <= 6
    &&& text[i] == '&'
    &&& text[i + len - 1] == ';'
    &&& forall|k: int| i < k < i + len - 1 ==> is_reference_char(#[trigger] text[k])
}

/// No character of `text` acts as markup: `<`, `>` and the two quotes do not
/// occur, and every `&` opens a character reference.
pub open spec fn is_escaped(text: Seq<char>) -> bool {
    forall|i: int|
        0 <= i < text.len() && is_markup(#[trigger] text[i]) ==> exists|len: int|
            reference_at(text, i, len)
}

/// What stands for one character is escaped, and so escaped text stays
/// escaped when it is added.
proof fn lemma_escaped_push(text: Seq<char>, piece: Seq<char>)
    requires
        is_escaped(text),
        (piece.len() == 1 && !is_markup(piece[0])) || reference_at(piece, 0, piece.len() as int),
    ensures
        is_escaped(text + piece),
{
    let whole = text + piece;
    assert forall|i: int| 0 <= i < whole.len() && is_markup(#[trigger] whole[i]) implies exists|
        len: int,
    |
        reference_at(whole, i, len) by {
        if i < text.len() {
            assert(whole[i] == text[i]);
            let len = choose|len: int| reference_at(text, i, len);
            assert(reference_at(whole, i, len)) by {
                assert forall|k: int| i < k < i + len - 1 implies is_reference_char(
                    #[trigger] whole[k],
                ) by {
                    assert(whole[k] == text[k]);
                }
            }
        } else {
            let j = i - text.len();
            assert(whole[i] == piece[j]);
            if piece.len() == 1 && !is_markup(piece[0]) {
            } else {
                assert(j == 0) by {
                    if 0 < j < piece.len() - 1 {
                        assert(is_reference_char(piece[j]));
                    }
                }
                assert(reference_at(whole, i, piece.len() as int)) by {
                    assert forall|k: int| i < k < i + piece.len() - 1 implies is_reference_char(
                        #[trigger] whole[k],
                    ) by {
                        assert(whole[k] == piece[k - text.len()]);
                    }
                }
            }
        }
    }
}

/// What stands for a character in the value of an attribute is either one
/// character that is no markup, or one reference.
proof fn lemma_attribute_char(c: char)
    ensures
        ({
            let piece = encode_attribute_char(c);
            (piece.len() == 1 && !is_markup(piece[0])) || reference_at(
                piece,
                0,
                piece.len() as int,
            )
        }),
{
    let piece = encode_attribute_char(c);
    let n = c as int;
    if entity(c) is None && n < 256 && (n > 127 || !is_ascii_alnum(c)) {
        assert(is_reference_char(hex_digit(n / 16)));
        assert(is_reference_char(hex_digit(n % 16)));
        assert(piece[1] == '#' && piece[2] == 'x');
    }
}

/// What stands for a character in text is either one character that is no
/// markup, or one reference.
proof fn lemma_minimal_char(c: char)
    ensures
        ({
            let piece = encode_minimal_char(c);
            (piece.len() == 1 && !is_markup(piece[0])) || reference_at(
                piece,
                0,
                piece.len() as int,
            )
        }),
{
}

/// Whatever a name holds, what `encode_attribute` makes of it holds no `<`,
/// no `>`, no quote, and no `&` but at the start of a character reference.
pub proof fn law_attribute_text_is_escaped(text: Seq<char>)
    ensures
        is_escaped(encode_attribute_spec(text)),
    decreases text.len(),
{
    if text.len() > 0 {
        law_attribute_text_is_escaped(text.drop_last());
        lemma_attribute_char(text.last());
        lemma_escaped_push(
            encode_attribute_spec(text.drop_last()),
            encode_attribute_char(text.last()),
        );
    }
}

/// Whatever a text holds, what `encode_minimal` makes of it holds no `<`, no
/// `>`, no quote, and no `&` but at the start of a character reference.
pub proof fn law_minimal_text_is_escaped(text: Seq<char>)
    ensures
        is_escaped(encode_minimal_spec(text)),
    decreases text.len(),
{
    if text.len() > 0 {
        law_minimal_text_is_escaped(text.drop_last());
        lemma_minimal_char(text.last());
        lemma_escaped_push(encode_minimal_spec(text.drop_last()), encode_minimal_char(text.last()));
    }
}

} // verus!
