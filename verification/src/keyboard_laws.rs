//! What a key input holds, and what keys are called.
use crate::bytes_laws::{
    ends_at_zero, starts_with_text, zero_ends_the_bytes, zero_ends_the_text,
};
use crate::keyboard::{
    chosen_key_name, get_key_name, key_name_parameter, known_key_name, send_key, KeyInput,
};
use crate::keyboard::key_input;
use crate::text::lossy_text;
use crate::text_laws::{number_is_written_as_usual, writes};
use vstd::prelude::*;

verus! {

// ---------------------------------------------------------------------------
// Laws
// ---------------------------------------------------------------------------

/// Whatever the key, the input that presses it has no flag and the input that
/// releases it has the flag 2; both are of the key that the low sixteen bits of
/// the code name, and hold nothing else.
pub proof fn press_has_no_flag_and_release_has_one(vk_code: i32, press: KeyInput, release: KeyInput)
    requires
        call_ensures(send_key, (vk_code, true), press),
        call_ensures(send_key, (vk_code, false), release),
    ensures
        press.flags == 0,
        release.flags == 2,
        press.vk == vk_code & 0xffff,
        release.vk == vk_code & 0xffff,
        press.scan == 0 && press.time == 0 && press.extra_info == 0,
        release.scan == 0 && release.time == 0 && release.extra_info == 0,
{
    low_bits_name_the_key(vk_code);
}

/// The input for a key, whatever the key: no flag presses, the flag 2 releases.
pub proof fn flag_tells_release_from_press(vk_code: i32, down: bool)
    ensures
        key_input(vk_code, down).flags == 0 <==> down,
        key_input(vk_code, down).flags == 2 <==> !down,
        key_input(vk_code, down).vk == vk_code & 0xffff,
        key_input(vk_code, down).scan == 0,
        key_input(vk_code, down).time == 0,
        key_input(vk_code, down).extra_info == 0,
{
    low_bits_name_the_key(vk_code);
}

proof fn low_bits_name_the_key(vk_code: i32)
    ensures
        vk_code as u16 == vk_code & 0xffff,
{
    assert(vk_code as u16 == vk_code & 0xffff) by (bit_vector);
}

/// Nine codes are those of a modifier key, three of each; no other code is.
pub proof fn modifier_codes_are_listed(vk_code: i32, r: Option<&'static str>)
    requires
        call_ensures(known_key_name, (vk_code,), r),
    ensures
        vk_code == 17 || vk_code == 162 || vk_code == 163 ==> r is Some && r->0@ == "Control"@,
        vk_code == 16 || vk_code == 160 || vk_code == 161 ==> r is Some && r->0@ == "Shift"@,
        vk_code == 18 || vk_code == 164 || vk_code == 165 ==> r is Some && r->0@ == "Alt"@,
        !(16 <= vk_code <= 18 || 160 <= vk_code <= 165) ==> r is None,
{
}

/// A modifier key is called by its own name. Any other is called what was
/// reported, where a name of some length was, and else "Unknown", with its code.
pub proof fn key_is_called_what_was_reported(
    vk_code: i32,
    len: i32,
    reported: Option<String>,
    r: String,
)
    requires
        call_ensures(chosen_key_name, (vk_code, len, reported), r),
    ensures
        vk_code == 17 || vk_code == 162 || vk_code == 163 ==> r@ == "Control"@,
        vk_code == 16 || vk_code == 160 || vk_code == 161 ==> r@ == "Shift"@,
        vk_code == 18 || vk_code == 164 || vk_code == 165 ==> r@ == "Alt"@,
        !(16 <= vk_code <= 18 || 160 <= vk_code <= 165) ==> if len > 0 && reported is Some {
            r@ == reported->0@
        } else {
            exists|code: Seq<char>| #[trigger]
                writes(code, vk_code as int) && r@ == "Unknown ("@ + code + ")"@
        },
{
    number_is_written_as_usual(vk_code as int);
}

/// The name of a key other than a modifier is what stands in the buffer up to the
/// first zero, where a name of some length was reported there.
pub proof fn reported_name_ends_at_zero(vk_code: i32, len: i32, buffer: &[u8], r: String)
    requires
        call_ensures(get_key_name, (vk_code, len, buffer), r),
        !(16 <= vk_code <= 18 || 160 <= vk_code <= 165),
    ensures
        len > 0 ==> forall|name: Seq<char>| #[trigger]
            starts_with_text(buffer@, name) ==> r@ == name,
        len > 0 ==> forall|bytes: Seq<u8>, rest: Seq<u8>| #[trigger]
            ends_at_zero(buffer@, bytes, rest) ==> r@ == lossy_text(bytes),
        len <= 0 || !buffer@.contains(0u8) ==> exists|code: Seq<char>| #[trigger]
            writes(code, vk_code as int) && r@ == "Unknown ("@ + code + ")"@,
{
    number_is_written_as_usual(vk_code as int);
    zero_ends_the_bytes(buffer@, Seq::empty());
    assert forall|name: Seq<char>| len > 0 && #[trigger] starts_with_text(
        buffer@,
        name,
    ) implies r@ == name by {
        zero_ends_the_text(buffer@, name);
    }
    assert forall|bytes: Seq<u8>, rest: Seq<u8>| len > 0 && #[trigger] ends_at_zero(
        buffer@,
        bytes,
        rest,
    ) implies r@ == lossy_text(bytes) by {
        zero_ends_the_bytes(buffer@, bytes);
    }
}

/// The platform is asked for a name by the low sixteen bits of the scan code, and
/// these stand above sixteen zeros.
pub proof fn scan_code_stands_above_zeros(scan_code: u32, r: i32)
    requires
        call_ensures(key_name_parameter, (scan_code,), r),
    ensures
        r as u32 == (scan_code % 0x1_0000) * 0x1_0000,
{
    assert(((scan_code << 16u32) as i32) as u32 == (scan_code % 0x1_0000) * 0x1_0000)
        by (bit_vector);
}

} // verus!
