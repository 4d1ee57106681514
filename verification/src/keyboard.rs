//! Keys: the input that presses or releases one, and the names they go by.
use crate::bytes::before_zero;
use crate::bytes::until_zero;
use crate::text::{integer_text, utf8_text_lossy};
use crate::text::{lossy_text, signed_decimal};
use vstd::prelude::*;
use vstd::string::StringExecFns;
use vstd::utf8::{decode_utf8, valid_utf8};

verus! {

/// The message of a key that goes down.
pub const WM_KEYDOWN: u32 = 0x0100;

/// The message of a key that goes up.
pub const WM_KEYUP: u32 = 0x0101;

/// The message of a key that goes down while Alt is held.
pub const WM_SYSKEYDOWN: u32 = 0x0104;

/// The message of a key that goes up while Alt is held.
pub const WM_SYSKEYUP: u32 = 0x0105;

/// The flag of an input that releases a key.
pub const KEYEVENTF_KEYUP: u32 = 0x0002;

/// A keyboard input to be sent.
#[derive(Clone, Copy, PartialEq, Eq, Structural, Debug)]
pub struct KeyInput {
    pub vk: u16,
    pub scan: u16,
    pub flags: u32,
    pub time: u32,
    pub extra_info: usize,
}

/// The input that presses the key `vk_code`, or releases it. A virtual key has
/// sixteen bits: the low ones of the code.
pub open spec fn key_input(vk_code: i32, down: bool) -> KeyInput {
    KeyInput {
        vk: vk_code as u16,
        scan: 0,
        flags: if down {
            0
        } else {
            KEYEVENTF_KEYUP
        },
        time: 0,
        extra_info: 0,
    }
}

/// The input that presses the key `vk_code`, or releases it.
pub fn send_key(vk_code: i32, down: bool) -> (r: KeyInput)
    ensures
        r == key_input(vk_code, down),
        0 <= vk_code <= 0xffff ==> r.vk == vk_code,
        r.flags == (if down {
            0u32
        } else {
            2u32
        }),
{
    KeyInput {
        vk: #[verifier::truncate] (vk_code as u16),
        scan: 0,
        flags: if down {
            0
        } else {
            KEYEVENTF_KEYUP
        },
        time: 0,
        extra_info: 0,
    }
}

/// A press and a release of one key differ, so neither is sent for the other.
pub proof fn press_and_release_differ(vk_code: i32)
    ensures
        key_input(vk_code, true) != key_input(vk_code, false),
        key_input(vk_code, true).vk == key_input(vk_code, false).vk,
{
}

// ---------------------------------------------------------------------------
// Names
// ---------------------------------------------------------------------------

/// The name of a modifier key, whether left, right or either.
pub open spec fn modifier_name(vk_code: i32) -> Option<Seq<char>> {
    if vk_code == 0x11 || vk_code == 0xa2 || vk_code == 0xa3 {
        Some("Control"@)
    } else if vk_code == 0x10 || vk_code == 0xa0 || vk_code == 0xa1 {
        Some("Shift"@)
    } else if vk_code == 0x12 || vk_code == 0xa4 || vk_code == 0xa5 {
        Some("Alt"@)
    } else {
        None
    }
}

/// What a key without a name is called.
pub open spec fn unknown_name(vk_code: i32) -> Seq<char> {
    "Unknown ("@ + signed_decimal(vk_code as int) + ")"@
}

/// What a key is called where the platform reported a name of length `len`, and
/// `reported` is the text that it left.
pub open spec fn key_name(vk_code: i32, len: i32, reported: Option<Seq<char>>) -> Seq<char> {
    match modifier_name(vk_code) {
        Some(name) => name,
        None => if len > 0 && reported is Some {
            reported->0
        } else {
            unknown_name(vk_code)
        },
    }
}

/// The text before the first zero of `buffer`, ill-formed parts replaced.
pub open spec fn lossy_until_zero(buffer: Seq<u8>) -> Option<Seq<char>> {
    match before_zero(buffer) {
        Some(bytes) => Some(lossy_text(bytes)),
        None => None,
    }
}

/// The name of a modifier key, for which the platform need not be asked.
pub fn known_key_name(vk_code: i32) -> (r: Option<&'static str>)
    ensures
        match r {
            Some(name) => modifier_name(vk_code) == Some(name@),
            None => modifier_name(vk_code) is None,
        },
{
    if vk_code == 0x11 || vk_code == 0xa2 || vk_code == 0xa3 {
        return Some("Control");
    }
    if vk_code == 0x10 || vk_code == 0xa0 || vk_code == 0xa1 {
        return Some("Shift");
    }
    if vk_code == 0x12 || vk_code == 0xa4 || vk_code == 0xa5 {
        return Some("Alt");
    }
    None
}

/// The parameter by which the platform is asked for the name of the key with
/// this scan code: the code, above sixteen bits of zeros.
pub fn key_name_parameter(scan_code: u32) -> (r: i32)
    ensures
        r == (scan_code << 16u32) as i32,
        scan_code <= 0x7fff ==> r == scan_code * 0x1_0000,
{
    let shifted: u32 = scan_code << 16u32;
    proof {
        assert(scan_code <= 0x7fff ==> scan_code << 16u32 == scan_code * 0x1_0000) by (bit_vector);
    }
    #[verifier::truncate] (shifted as i32)
}

/// What a key is called where the platform reported a name of length `len`, and
/// `reported` is the text that it left.
pub fn chosen_key_name(vk_code: i32, len: i32, reported: Option<String>) -> (r: String)
    ensures
        r@ == key_name(
            vk_code,
            len,
            match reported {
                Some(s) => Some(s@),
                None => None,
            },
        ),
{
    if let Some(name) = known_key_name(vk_code) {
        return name.to_owned();
    }
    if len > 0 {
        if let Some(name) = reported {
            return name;
        }
    }
    let mut text: String = "Unknown (".to_owned();
    let code = integer_text(vk_code);
    text.append(code.as_str());
    text.append(")");
    text
}

/// What a key is called where the platform reported a name of length `len` in
/// `buffer`.
pub fn get_key_name(vk_code: i32, len: i32, buffer: &[u8]) -> (r: String)
    ensures
        r@ == key_name(vk_code, len, lossy_until_zero(buffer@)),
        before_zero(buffer@) matches Some(bytes) ==> valid_utf8(bytes) ==> r@ == key_name(
            vk_code,
            len,
            Some(decode_utf8(bytes)),
        ),
{
    let reported = match until_zero(buffer) {
        Some(bytes) => Some(utf8_text_lossy(bytes)),
        None => None,
    };
    chosen_key_name(vk_code, len, reported)
}

} // verus!
