use autosprint_mcbe::focus::{is_cursor_hidden, should_sprint_now, Probe};

fn buffer(text: &str) -> [u8; 256] {
    let mut b = [0u8; 256];
    b[..text.len()].copy_from_slice(text.as_bytes());
    b
}

/// The answer, and how many questions led to it.
fn probe(window: isize, class: &str, title: &str, cursor: Option<u32>) -> (bool, usize) {
    let mut p = Probe::start();
    let mut asked = 0;
    loop {
        p = match p {
            Probe::ForegroundWindow => Probe::on_window(window),
            Probe::ClassName => Probe::on_class_name(class.len() as i32, &buffer(class)),
            Probe::Title => Probe::on_title(title.len() as i32, &buffer(title)),
            Probe::Cursor => Probe::on_cursor(cursor),
            Probe::Answer(a) => return (a, asked),
        };
        asked += 1;
    }
}

#[test]
fn game_in_front_with_hidden_cursor() {
    for class in ["Bedrock", "ApplicationFrameWindow", "Windows.UI.Core.CoreWindow"] {
        assert_eq!(probe(1, class, "Minecraft", Some(0)), (true, 4));
        assert_eq!(probe(-1, class, "Minecraft", Some(0)), (true, 4));
    }
}

#[test]
fn visible_cursor_or_no_report_means_no() {
    assert_eq!(probe(1, "Bedrock", "Minecraft", Some(1)), (false, 4));
    assert_eq!(probe(1, "Bedrock", "Minecraft", Some(2)), (false, 4));
    assert_eq!(probe(1, "Bedrock", "Minecraft", None), (false, 4));
}

#[test]
fn no_window_needs_no_more_questions() {
    assert_eq!(probe(0, "Bedrock", "Minecraft", Some(0)), (false, 1));
}

#[test]
fn other_classes_need_no_title() {
    for class in ["", "bedrock", "Bedrock2", "Notepad"] {
        assert_eq!(probe(1, class, "Minecraft", Some(0)), (false, 2));
    }
}

#[test]
fn other_titles_need_no_cursor() {
    for title in ["", "minecraft", "Minecraft ", "Minecraft Launcher"] {
        assert_eq!(probe(1, "Bedrock", title, Some(0)), (false, 3));
    }
}

#[test]
fn length_of_zero_means_no() {
    assert_eq!(Probe::on_class_name(0, &buffer("Bedrock")), Probe::Answer(false));
    assert_eq!(Probe::on_title(0, &buffer("Minecraft")), Probe::Answer(false));
}

#[test]
fn buffers_end_at_the_first_zero() {
    assert_eq!(Probe::on_class_name(7, b"Bedrock\0junk\0"), Probe::Title);
    assert_eq!(Probe::on_title(9, b"Minecraft\0\xff"), Probe::Cursor);
    assert_eq!(Probe::on_class_name(7, b"Bedrock"), Probe::Answer(false));
    assert_eq!(Probe::on_title(9, b"Minecraft"), Probe::Answer(false));
    assert_eq!(Probe::on_title(9, b"Minecraft\xff\0"), Probe::Answer(false));
    assert_eq!(Probe::on_class_name(1, b"\xff\0"), Probe::Answer(false));
}

#[test]
fn both_conditions_are_needed() {
    assert!(should_sprint_now(true, true));
    assert!(!should_sprint_now(true, false));
    assert!(!should_sprint_now(false, true));
    assert!(!should_sprint_now(false, false));
}

#[test]
fn cursor_is_hidden_only_without_flags() {
    assert!(is_cursor_hidden(Some(0)));
    assert!(!is_cursor_hidden(Some(1)));
    assert!(!is_cursor_hidden(None));
}
