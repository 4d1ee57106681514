//! By what the game's window and the cursor are told.
use crate::bytes_laws::{starts_with_text, zero_ends_the_text};
use crate::focus::{is_cursor_hidden, should_sprint_now, Probe};
use crate::focus::{probe_answers, probed, Screen};
use vstd::prelude::*;

verus! {

/// The window in front is asked for first. It may be the game's where its class is
/// one of these three, and is the game's where its title is "Minecraft"; each is
/// what was reported up to the first zero, and a length of zero reports nothing.
/// Anything else settles the question: the answer is no.
pub proof fn game_is_told_by_class_and_title(
    window: isize,
    class_len: i32,
    class_name: &[u8],
    title_len: i32,
    title: &[u8],
    start: Probe,
    on_window: Probe,
    on_class: Probe,
    on_title: Probe,
)
    requires
        call_ensures(Probe::start, (), start),
        call_ensures(Probe::on_window, (window,), on_window),
        call_ensures(Probe::on_class_name, (class_len, class_name), on_class),
        call_ensures(Probe::on_title, (title_len, title), on_title),
    ensures
        start == Probe::ForegroundWindow,
        on_window == (if window == 0 {
            Probe::Answer(false)
        } else {
            Probe::ClassName
        }),
        on_class == (if class_len != 0 && (starts_with_text(class_name@, "Bedrock"@)
            || starts_with_text(class_name@, "ApplicationFrameWindow"@) || starts_with_text(
            class_name@,
            "Windows.UI.Core.CoreWindow"@,
        )) {
            Probe::Title
        } else {
            Probe::Answer(false)
        }),
        on_title == (if title_len != 0 && starts_with_text(title@, "Minecraft"@) {
            Probe::Cursor
        } else {
            Probe::Answer(false)
        }),
{
    zero_ends_the_text(class_name@, "Bedrock"@);
    zero_ends_the_text(class_name@, "ApplicationFrameWindow"@);
    zero_ends_the_text(class_name@, "Windows.UI.Core.CoreWindow"@);
    zero_ends_the_text(title@, "Minecraft"@);
}

/// The cursor does not show exactly where its flags were reported and none is
/// set; the sprint key is to be held exactly where the game is in front and the
/// cursor does not show.
pub proof fn hidden_cursor_has_no_flag(
    flags: Option<u32>,
    focused: bool,
    hidden: bool,
    sprint: bool,
    on_cursor: Probe,
)
    requires
        call_ensures(is_cursor_hidden, (flags,), hidden),
        call_ensures(should_sprint_now, (focused, hidden), sprint),
        call_ensures(Probe::on_cursor, (flags,), on_cursor),
    ensures
        hidden <==> flags == Some(0u32),
        sprint ==> focused && flags == Some(0u32),
        focused && flags == Some(0u32) ==> sprint,
        on_cursor == Probe::Answer(flags == Some(0u32)),
{
}

/// The sprint key is to be held exactly where there is a window in front, its
/// class is one of these three, its title is "Minecraft", and the cursor is
/// reported without a flag.
pub proof fn sprint_needs_the_game_and_no_cursor(screen: Screen)
    ensures
        probed(probed(probed(probed(Probe::ForegroundWindow, screen), screen), screen), screen)
            == Probe::Answer(
            screen.window != 0 && screen.class_len != 0 && (starts_with_text(
                screen.class_name,
                "Bedrock"@,
            ) || starts_with_text(screen.class_name, "ApplicationFrameWindow"@)
                || starts_with_text(screen.class_name, "Windows.UI.Core.CoreWindow"@))
                && screen.title_len != 0 && starts_with_text(screen.title, "Minecraft"@)
                && screen.cursor == Some(0u32),
        ),
{
    probe_answers(screen);
    zero_ends_the_text(screen.class_name, "Bedrock"@);
    zero_ends_the_text(screen.class_name, "ApplicationFrameWindow"@);
    zero_ends_the_text(screen.class_name, "Windows.UI.Core.CoreWindow"@);
    zero_ends_the_text(screen.title, "Minecraft"@);
}

} // verus!
