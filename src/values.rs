use vstd::prelude::*;
use vstd::utf8::{decode_utf8, valid_utf8};

use crate::bytes::{le_value, ByteCursor};
use crate::error::ReadError;

verus! {

/// Relies on `String::from_utf8`: the text that the bytes encode, or an error
/// when they are not valid UTF-8.
#[verifier::external_body]
fn utf8_to_string(b: Vec<u8>) -> (r: Option<String>)
    ensures
        match r {
            Some(t) => valid_utf8(b@) && t@ == decode_utf8(b@),
            None => !valid_utf8(b@),
        },
{
    match String::from_utf8(b) {
        Ok(t) => Some(t),
        Err(_) => None,
    }
}

/// What reading a length-prefixed string at `p` gives: its text and the
/// offset just past it, or why it could not be read. One byte holds the
/// length; that many bytes of UTF-8 follow.
pub open spec fn string_at(s: Seq<u8>, p: int) -> Result<(Seq<char>, int), ReadError> {
    if p + 1 > s.len() {
        Err(ReadError::TruncatedInput)
    } else {
        let end = p + 1 + s[p];
        if end > s.len() {
            Err(ReadError::TruncatedInput)
        } else {
            if valid_utf8(s.subrange(p + 1, end)) {
                Ok((decode_utf8(s.subrange(p + 1, end)), end))
            } else {
                Err(ReadError::InvalidEncoding)
            }
        }
    }
}

/// What reading a `width`-byte little-endian integer at `p` gives: its value
/// and the offset just past it, `InvalidEncoding` for a width over eight bytes
/// (wider than a `u64`), or `TruncatedInput`.
pub open spec fn int_at(s: Seq<u8>, p: int, width: int) -> Result<(nat, int), ReadError> {
    if width > 8 {
        Err(ReadError::InvalidEncoding)
    } else if p + width > s.len() {
        Err(ReadError::TruncatedInput)
    } else {
        Ok((le_value(s.subrange(p, p + width)), p + width))
    }
}

/// Reads a string whose length is given by the byte before it.
pub fn read_string(src: &mut ByteCursor) -> (r: Result<String, ReadError>)
    requires
        old(src).wf(),
    ensures
        final(src).wf(),
        final(src).bytes() == old(src).bytes(),
        match r {
            Ok(t) => string_at(old(src).bytes(), old(src).pos()) == Ok::<(Seq<char>, int), ReadError>(
                (t@, final(src).pos()),
            ),
            Err(e) => string_at(old(src).bytes(), old(src).pos()) == Err::<(Seq<char>, int), ReadError>(e),
        },
{
    let len = src.read_u8()?;
    let buffer = src.read_exact(len as usize)?;
    match utf8_to_string(buffer) {
        Some(t) => Ok(t),
        None => Err(ReadError::InvalidEncoding),
    }
}

/// Reads an unsigned integer stored in `width` little-endian bytes.
pub fn read_int(src: &mut ByteCursor, width: usize) -> (r: Result<u64, ReadError>)
    requires
        old(src).wf(),
    ensures
        final(src).wf(),
        final(src).bytes() == old(src).bytes(),
        match r {
            Ok(x) => int_at(old(src).bytes(), old(src).pos(), width as int) == Ok::<(nat, int), ReadError>(
                (x as nat, final(src).pos()),
            ),
            Err(e) => int_at(old(src).bytes(), old(src).pos(), width as int) == Err::<(nat, int), ReadError>(e),
        },
{
    src.read_uint_le(width)
}

} // verus!
