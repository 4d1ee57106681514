use autosprint_mcbe::options::{
    detected_keys, must_prompt, parse_options, prompt_key, settled_keys, KeyBindings,
};

const FORWARD: &str = "keyboard_type_0_key.forward";
const SPRINT: &str = "keyboard_type_0_key.sprint";

fn keys(text: &str) -> (Option<i32>, Option<i32>) {
    parse_options(text.as_bytes(), true)
}

#[test]
fn both_keys_are_read() {
    let text = format!("gfx_vsync:1\n{FORWARD}:87\nother:2\n{SPRINT}:17\n");
    assert_eq!(keys(&text), (Some(87), Some(17)));
}

#[test]
fn empty_file_sets_nothing() {
    assert_eq!(keys(""), (None, None));
    assert_eq!(keys("\n\n"), (None, None));
}

#[test]
fn carriage_returns_and_spaces_do_not_matter() {
    let text = format!("{FORWARD}: 87 \r\n{SPRINT}:\t16\r\n");
    assert_eq!(keys(&text), (Some(87), Some(16)));
}

#[test]
fn last_line_may_lack_a_line_feed() {
    assert_eq!(keys(&format!("{FORWARD}:65")), (Some(65), None));
    assert_eq!(keys(&format!("{FORWARD}:65\r")), (Some(65), None));
}

#[test]
fn interrupted_reading_drops_the_last_line() {
    let text = format!("{SPRINT}:16\n{FORWARD}:65");
    assert_eq!(parse_options(text.as_bytes(), false), (None, Some(16)));
    assert_eq!(parse_options(text.as_bytes(), true), (Some(65), Some(16)));
    let whole = format!("{SPRINT}:16\n{FORWARD}:65\n");
    assert_eq!(parse_options(whole.as_bytes(), false), (Some(65), Some(16)));
}

#[test]
fn second_field_is_the_value() {
    assert_eq!(keys(&format!("{FORWARD}:65:66\n")), (Some(65), None));
    assert_eq!(keys(&format!("a:67:{FORWARD}\n")), (Some(67), None));
    assert_eq!(keys(&format!("{FORWARD}::66\n")), (None, None));
    assert_eq!(keys(&format!("{FORWARD} 66\n")), (None, None));
}

#[test]
fn name_may_stand_anywhere_in_the_line() {
    assert_eq!(keys(&format!("x{FORWARD}y:65\n")), (Some(65), None));
    assert_eq!(keys("KEYBOARD_TYPE_0_KEY.FORWARD:65\n"), (None, None));
}

#[test]
fn forward_goes_before_sprint() {
    assert_eq!(keys(&format!("{SPRINT}{FORWARD}:65\n")), (Some(65), None));
}

#[test]
fn zero_and_bad_numbers_set_nothing() {
    for value in ["0", "-0", "", "x", "1.5", "2147483648"] {
        assert_eq!(keys(&format!("{FORWARD}:{value}\n{SPRINT}:{value}\n")), (None, None));
    }
    assert_eq!(keys(&format!("{FORWARD}:-5\n")), (Some(-5), None));
}

#[test]
fn later_lines_replace_earlier_ones() {
    assert_eq!(keys(&format!("{FORWARD}:65\n{FORWARD}:66\n")), (Some(66), None));
    assert_eq!(keys(&format!("{FORWARD}:65\n{FORWARD}:0\n")), (Some(65), None));
    assert_eq!(keys(&format!("{SPRINT}:65\n{SPRINT}:66\n{SPRINT}:x\n")), (None, Some(66)));
}

#[test]
fn reading_stops_where_the_text_is_ill_formed() {
    let mut contents = format!("{FORWARD}:65\n").into_bytes();
    contents.extend_from_slice(b"\xff\n");
    contents.extend_from_slice(format!("{SPRINT}:16\n").as_bytes());
    assert_eq!(parse_options(&contents, true), (Some(65), None));
}

#[test]
fn well_formed_text_need_not_be_ascii() {
    let text = format!("name:\u{e9}t\u{e9}\n{FORWARD}:\u{a0}65\u{3000}\n");
    assert_eq!(keys(&text), (Some(65), None));
}

#[test]
fn entered_keys() {
    assert_eq!(prompt_key(Some("65\r\n"), 87), 65);
    assert_eq!(prompt_key(Some("  -3 "), 87), -3);
    assert_eq!(prompt_key(Some("\n"), 87), 87);
    assert_eq!(prompt_key(Some("0\n"), 87), 87);
    assert_eq!(prompt_key(Some("W\n"), 87), 87);
    assert_eq!(prompt_key(None, 17), 17);
    assert_eq!(prompt_key(Some("x"), 0), 0);
}

#[test]
fn defaults_stand_in_for_missing_keys() {
    assert_eq!(detected_keys((None, None)), KeyBindings { forward: 87, sprint: 17 });
    assert_eq!(detected_keys((Some(65), None)), KeyBindings { forward: 65, sprint: 17 });
    assert_eq!(detected_keys((None, Some(16))), KeyBindings { forward: 87, sprint: 16 });
    assert_eq!(detected_keys((Some(65), Some(16))), KeyBindings { forward: 65, sprint: 16 });
}

#[test]
fn user_is_asked_unless_both_keys_are_known() {
    assert!(must_prompt((None, None)));
    assert!(must_prompt((Some(65), None)));
    assert!(must_prompt((None, Some(16))));
    assert!(!must_prompt((Some(65), Some(16))));
}

#[test]
fn settled_keys_hold_no_zero() {
    let zeros = KeyBindings { forward: 0, sprint: 0 };
    assert_eq!(settled_keys(zeros), KeyBindings { forward: 87, sprint: 17 });
    let keys = KeyBindings { forward: 65, sprint: -1 };
    assert_eq!(settled_keys(keys), keys);
}

#[test]
fn keys_of_a_full_file_are_used_as_they_are() {
    let file = keys(&format!("{FORWARD}:65\n{SPRINT}:160\n"));
    assert!(!must_prompt(file));
    assert_eq!(settled_keys(detected_keys(file)), KeyBindings { forward: 65, sprint: 160 });
}
