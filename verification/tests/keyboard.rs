use autosprint_mcbe::keyboard::{
    chosen_key_name, get_key_name, key_name_parameter, known_key_name, send_key, KeyInput,
};

#[test]
fn inputs_press_and_release() {
    assert_eq!(
        send_key(17, true),
        KeyInput { vk: 17, scan: 0, flags: 0, time: 0, extra_info: 0 }
    );
    assert_eq!(
        send_key(17, false),
        KeyInput { vk: 17, scan: 0, flags: 2, time: 0, extra_info: 0 }
    );
    assert_ne!(send_key(87, true), send_key(87, false));
}

#[test]
fn key_codes_keep_their_low_bits() {
    assert_eq!(send_key(0xffff, true).vk, 0xffff);
    assert_eq!(send_key(0x1_0041, true).vk, 0x41);
    assert_eq!(send_key(-1, true).vk, 0xffff);
}

#[test]
fn modifiers_have_fixed_names() {
    for code in [0x11, 0xa2, 0xa3] {
        assert_eq!(known_key_name(code), Some("Control"));
        assert_eq!(get_key_name(code, 1, b"X\0"), "Control");
    }
    for code in [0x10, 0xa0, 0xa1] {
        assert_eq!(known_key_name(code), Some("Shift"));
    }
    for code in [0x12, 0xa4, 0xa5] {
        assert_eq!(known_key_name(code), Some("Alt"));
    }
    for code in [0, 0x0f, 0x13, 87, 0x9f, 0xa6, -1] {
        assert_eq!(known_key_name(code), None);
    }
}

#[test]
fn reported_names_are_used() {
    assert_eq!(get_key_name(87, 1, b"W\0\0\0"), "W");
    assert_eq!(get_key_name(32, 5, b"Space\0x"), "Space");
    assert_eq!(get_key_name(222, 2, "\u{e4}\0".as_bytes()), "\u{e4}");
    assert_eq!(get_key_name(87, 1, b"\0"), "");
}

#[test]
fn ill_formed_names_are_mended() {
    assert_eq!(get_key_name(222, 1, b"\xe4\0"), "\u{fffd}");
    assert_eq!(get_key_name(222, 3, b"a\xffb\0"), "a\u{fffd}b");
}

#[test]
fn keys_without_a_name_show_their_code() {
    assert_eq!(get_key_name(87, 0, b"W\0"), "Unknown (87)");
    assert_eq!(get_key_name(87, -1, b"W\0"), "Unknown (87)");
    assert_eq!(get_key_name(255, 1, b"W"), "Unknown (255)");
    assert_eq!(get_key_name(-7, 0, b"\0"), "Unknown (-7)");
}

#[test]
fn name_is_chosen_from_the_report() {
    assert_eq!(chosen_key_name(87, 1, Some("W".to_string())), "W");
    assert_eq!(chosen_key_name(87, 0, Some("W".to_string())), "Unknown (87)");
    assert_eq!(chosen_key_name(87, 1, None), "Unknown (87)");
    assert_eq!(chosen_key_name(0x10, 1, Some("W".to_string())), "Shift");
}

#[test]
fn scan_codes_are_shifted() {
    assert_eq!(key_name_parameter(0), 0);
    assert_eq!(key_name_parameter(0x11), 0x11_0000);
    assert_eq!(key_name_parameter(0x7fff), 0x7fff_0000);
    assert_eq!(key_name_parameter(0x8000), i32::MIN);
    assert_eq!(key_name_parameter(0x1_0001), 0x1_0000);
}
