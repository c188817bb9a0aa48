//! Paths as the operating system holds them: bytes, with `/` between the
//! components. Nothing here touches the disk.

use crate::errors::Error;
use vstd::prelude::*;
use vstd::slice::slice_to_vec;
use vstd::utf8::{decode_utf8, encode_utf8, valid_utf8};

verus! {

/// The byte that separates the components of a path.
pub const SEPARATOR: u8 = 0x2f;

/// The mode of a directory that only its owner may enter, read or change.
pub const PRIVATE_DIR_MODE: u32 = 0o700;

/// `base` with `name` added as `std::path::PathBuf::push` adds it where `/` is
/// the only separator: a `name` that starts at the root replaces `base`;
/// otherwise one separator stands between the two unless `base` is empty or
/// ends in one already.
pub open spec fn join_spec(base: Seq<u8>, name: Seq<u8>) -> Seq<u8> {
    if name.len() > 0 && name[0] == SEPARATOR {
        name
    } else if base.len() > 0 && base.last() != SEPARATOR {
        base.push(SEPARATOR) + name
    } else {
        base + name
    }
}

/// The path of `name` seen from `base`.
pub fn join(base: &[u8], name: &[u8]) -> (path: Vec<u8>)
    ensures
        path@ == join_spec(base@, name@),
{
    if name.len() > 0 && name[0] == SEPARATOR {
        return slice_to_vec(name);
    }
    let mut path = slice_to_vec(base);
    if base.len() > 0 && base[base.len() - 1] != SEPARATOR {
        path.push(SEPARATOR);
    }
    path.extend_from_slice(name);
    path
}

/// `String::from_utf8` of std: the text that the bytes encode, where they are
/// valid UTF-8, and nothing where they are not.
#[verifier::external_body]
fn string_from_utf8(bytes: Vec<u8>) -> (text: Option<String>)
    ensures
        text is Some <==> valid_utf8(bytes@),
        text matches Some(s) ==> s@ == decode_utf8(bytes@),
{
    match String::from_utf8(bytes) {
        Ok(s) => Some(s),
        Err(_) => None,
    }
}

/// What `path_to_string` returns for the bytes of a path.
pub open spec fn path_to_string_spec(path: Seq<u8>) -> Result<Seq<char>, Error> {
    if valid_utf8(path) {
        Ok(decode_utf8(path))
    } else {
        Err(Error::InvalidUtf8)
    }
}

/// The path as text. A path that is no valid UTF-8 has none.
pub fn path_to_string(path: Vec<u8>) -> (text: Result<String, Error>)
    ensures
        match text {
            Ok(s) => path_to_string_spec(path@) == Ok::<Seq<char>, Error>(s@),
            Err(e) => path_to_string_spec(path@) == Err::<Seq<char>, Error>(e),
        },
{
    match string_from_utf8(path) {
        Some(s) => Ok(s),
        None => Err(Error::InvalidUtf8),
    }
}

/// The bytes of a text are a path that is text, and that text.
pub proof fn law_text_is_a_path(text: Seq<char>)
    ensures
        path_to_string_spec(encode_utf8(text)) == Ok::<Seq<char>, Error>(text),
{
    vstd::utf8::encode_utf8_valid_utf8(text);
    vstd::utf8::encode_utf8_decode_utf8(text);
}

/// How an attempt to create a directory ended.
#[derive(Clone, Copy, Debug, PartialEq, Eq, Structural)]
pub enum MkdirOutcome {
    /// The directory was created.
    Created,
    /// Something of that name was there already.
    Exists,
    /// The system refused, with this error number.
    Failed(i32),
}

/// What `mkprivdir` makes of each outcome.
pub open spec fn mkprivdir_spec(outcome: MkdirOutcome) -> Result<(), Error> {
    match outcome {
        MkdirOutcome::Created => Ok(()),
        MkdirOutcome::Exists => Ok(()),
        MkdirOutcome::Failed(errno) => Err(Error::DataDir(errno)),
    }
}

/// Judges the creation of the private data directory, which the caller
/// attempts with mode `PRIVATE_DIR_MODE`: a directory that existed before is
/// as good as a new one, every other failure is an error.
pub fn mkprivdir(outcome: MkdirOutcome) -> (r: Result<(), Error>)
    ensures
        r == mkprivdir_spec(outcome),
{
    match outcome {
        MkdirOutcome::Created => Ok(()),
        MkdirOutcome::Exists => Ok(()),
        MkdirOutcome::Failed(errno) => Err(Error::DataDir(errno)),
    }
}

} // verus!
