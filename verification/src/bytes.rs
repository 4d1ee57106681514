//! Byte strings: the first of a byte, and text that ends at a zero.
use crate::text::utf8_text;
use vstd::prelude::*;
use vstd::slice::slice_subrange;
use vstd::utf8::{decode_utf8, valid_utf8};

verus! {

/// Where `byte` first stands in `bytes`; their length where it does not.
pub open spec fn first_of(bytes: Seq<u8>, byte: u8) -> nat
    decreases bytes.len(),
{
    if bytes.len() == 0 || bytes[0] == byte {
        0
    } else {
        1 + first_of(bytes.skip(1), byte)
    }
}

/// What stands before the first zero of `buffer`, if there is one.
pub open spec fn before_zero(buffer: Seq<u8>) -> Option<Seq<u8>> {
    let end = first_of(buffer, 0);
    if end < buffer.len() {
        Some(buffer.take(end as int))
    } else {
        None
    }
}

/// The text before the first zero of `buffer`, if there is a zero and what
/// stands before it is well-formed.
pub open spec fn zero_ended_text(buffer: Seq<u8>) -> Option<Seq<char>> {
    match before_zero(buffer) {
        Some(bytes) => if valid_utf8(bytes) {
            Some(decode_utf8(bytes))
        } else {
            None
        },
        None => None,
    }
}

/// Where `byte` first stands in `bytes`; their length where it does not.
pub fn find_byte(bytes: &[u8], byte: u8) -> (r: usize)
    ensures
        r == first_of(bytes@, byte),
        r <= bytes.len(),
{
    let mut i: usize = 0;
    assert(bytes@.skip(0) =~= bytes@);
    while i < bytes.len() && bytes[i] != byte
        invariant
            i <= bytes.len(),
            i + first_of(bytes@.skip(i as int), byte) == first_of(bytes@, byte),
        decreases bytes.len() - i,
    {
        assert(bytes@.skip(i as int).skip(1) =~= bytes@.skip(i + 1));
        i = i + 1;
    }
    i
}

/// What stands before the first zero of `buffer`, if there is one.
pub fn until_zero(buffer: &[u8]) -> (r: Option<&[u8]>)
    ensures
        match r {
            Some(bytes) => before_zero(buffer@) == Some(bytes@),
            None => before_zero(buffer@) is None,
        },
{
    let end = find_byte(buffer, 0);
    if end < buffer.len() {
        let bytes = slice_subrange(buffer, 0, end);
        assert(bytes@ =~= buffer@.take(end as int));
        Some(bytes)
    } else {
        None
    }
}

/// The text before the first zero of `buffer`, if there is a zero and what
/// stands before it is well-formed.
pub fn text_until_zero(buffer: &[u8]) -> (r: Option<&str>)
    ensures
        match r {
            Some(text) => zero_ended_text(buffer@) == Some(text@),
            None => zero_ended_text(buffer@) is None,
        },
{
    match until_zero(buffer) {
        Some(bytes) => utf8_text(bytes),
        None => None,
    }
}

} // verus!
