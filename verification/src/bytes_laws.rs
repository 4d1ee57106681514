//! What is found in byte strings, said of the bytes.
use crate::bytes::{before_zero, first_of, zero_ended_text};
use crate::bytes::{find_byte, text_until_zero, until_zero};
use vstd::prelude::*;
use vstd::utf8::{decode_utf8, valid_utf8};

verus! {

// ---------------------------------------------------------------------------
// Laws
// ---------------------------------------------------------------------------

/// `buffer` is `bytes`, none of them zero, then a zero, then `rest`.
pub open spec fn ends_at_zero(buffer: Seq<u8>, bytes: Seq<u8>, rest: Seq<u8>) -> bool {
    &&& buffer == bytes + seq![0u8] + rest
    &&& !bytes.contains(0u8)
}

/// `buffer` starts with `text` in UTF-8, and a zero after it.
pub open spec fn starts_with_text(buffer: Seq<u8>, text: Seq<char>) -> bool {
    exists|bytes: Seq<u8>, rest: Seq<u8>| #[trigger]
        ends_at_zero(buffer, bytes, rest) && valid_utf8(bytes) && decode_utf8(bytes) == text
}

/// The first of a byte is one, and none stands before it; where there is none, it
/// is past the end.
pub proof fn first_is_first(bytes: Seq<u8>, byte: u8)
    ensures
        first_of(bytes, byte) <= bytes.len(),
        forall|i: int| 0 <= i < first_of(bytes, byte) ==> #[trigger] bytes[i] != byte,
        first_of(bytes, byte) < bytes.len() ==> bytes[first_of(bytes, byte) as int] == byte,
    decreases bytes.len(),
{
    if bytes.len() > 0 && bytes[0] != byte {
        first_is_first(bytes.skip(1), byte);
        assert forall|i: int| 0 <= i < first_of(bytes, byte) implies #[trigger] bytes[i]
            != byte by {
            if i > 0 {
                assert(bytes.skip(1)[i - 1] == bytes[i]);
            }
        }
    }
}

/// The first of a byte is one, and none stands before it; where there is none, it
/// is past the end.
pub proof fn found_byte_is_the_first(bytes: &[u8], byte: u8, r: usize)
    requires
        call_ensures(find_byte, (bytes, byte), r),
    ensures
        r <= bytes@.len(),
        forall|i: int| 0 <= i < r ==> #[trigger] bytes@[i] != byte,
        r < bytes@.len() ==> bytes@[r as int] == byte,
{
    first_is_first(bytes@, byte);
}

/// What stands before the first zero is found, and where there is a zero
/// something is.
pub proof fn zero_ends_the_bytes(buffer: Seq<u8>, bytes: Seq<u8>)
    ensures
        before_zero(buffer) == Some(bytes) <==> exists|rest: Seq<u8>| #[trigger]
            ends_at_zero(buffer, bytes, rest),
        before_zero(buffer) is None <==> !buffer.contains(0u8),
{
    first_is_first(buffer, 0);
    let end = first_of(buffer, 0) as int;
    if end < buffer.len() {
        let rest = buffer.skip(end + 1);
        assert(buffer =~= buffer.take(end) + seq![0u8] + rest);
        assert(ends_at_zero(buffer, buffer.take(end), rest));
    }
    if exists|rest: Seq<u8>| #[trigger] ends_at_zero(buffer, bytes, rest) {
        let rest = choose|rest: Seq<u8>| #[trigger] ends_at_zero(buffer, bytes, rest);
        let at = bytes.len() as int;
        assert(buffer[at] == 0);
        if end < at {
            assert(buffer[end] == bytes[end]);
            assert(bytes.contains(bytes[end]));
        }
        assert(end == at);
        assert(buffer.take(end) =~= bytes);
    }
}

/// A text before the first zero of a buffer is found, and nothing else.
pub proof fn zero_ends_the_text(buffer: Seq<u8>, text: Seq<char>)
    ensures
        zero_ended_text(buffer) == Some(text) <==> starts_with_text(buffer, text),
{
    if zero_ended_text(buffer) == Some(text) {
        zero_ends_the_bytes(buffer, before_zero(buffer)->0);
    }
    if starts_with_text(buffer, text) {
        let (bytes, rest) = choose|bytes: Seq<u8>, rest: Seq<u8>| #[trigger]
            ends_at_zero(buffer, bytes, rest) && valid_utf8(bytes) && decode_utf8(bytes) == text;
        zero_ends_the_bytes(buffer, bytes);
    }
}

/// What stands before the first zero of a buffer is found, as bytes and, where it
/// is well-formed, as text.
pub proof fn buffer_is_read_up_to_zero(
    buffer: &[u8],
    bytes: Option<&[u8]>,
    text: Option<&str>,
)
    requires
        call_ensures(until_zero, (buffer,), bytes),
        call_ensures(text_until_zero, (buffer,), text),
    ensures
        bytes is None <==> !buffer@.contains(0u8),
        bytes matches Some(b) ==> exists|rest: Seq<u8>| #[trigger]
            ends_at_zero(buffer@, b@, rest),
        text matches Some(t) ==> starts_with_text(buffer@, t@),
        text is None ==> forall|t: Seq<char>| !#[trigger] starts_with_text(buffer@, t),
{
    if let Some(b) = bytes {
        zero_ends_the_bytes(buffer@, b@);
    } else {
        zero_ends_the_bytes(buffer@, Seq::empty());
    }
    if let Some(t) = text {
        zero_ends_the_text(buffer@, t@);
    } else {
        assert forall|t: Seq<char>| !#[trigger] starts_with_text(buffer@, t) by {
            zero_ends_the_text(buffer@, t);
        }
    }
}

} // verus!
