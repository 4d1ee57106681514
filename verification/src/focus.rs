//! Whether the game has the keyboard: its window is in front, and it has hidden
//! the cursor.
//!
//! The question is put to the platform piece by piece, and no further than
//! needed.
use crate::bytes::text_until_zero;
use crate::bytes::zero_ended_text;
use crate::text::same_text;
use vstd::prelude::*;

verus! {

/// What has to be asked next, or the answer.
#[derive(Clone, Copy, PartialEq, Eq, Structural, Debug)]
pub enum Probe {
    /// Which window is in front.
    ForegroundWindow,
    /// The name of that window's class.
    ClassName,
    /// The title of that window.
    Title,
    /// Whether the cursor shows.
    Cursor,
    /// Whether the sprint key is to be held.
    Answer(bool),
}

// ---------------------------------------------------------------------------
// Specifications
// ---------------------------------------------------------------------------

/// `text` names a class of which the game's window may be.
pub open spec fn is_game_class(text: Seq<char>) -> bool {
    ||| text == "Bedrock"@
    ||| text == "ApplicationFrameWindow"@
    ||| text == "Windows.UI.Core.CoreWindow"@
}

/// A class name was reported and may be that of the game's window.
pub open spec fn class_fits(len: i32, buffer: Seq<u8>) -> bool {
    &&& len != 0
    &&& zero_ended_text(buffer) is Some
    &&& is_game_class(zero_ended_text(buffer)->0)
}

/// A title was reported and is the game's.
pub open spec fn title_fits(len: i32, buffer: Seq<u8>) -> bool {
    len != 0 && zero_ended_text(buffer) == Some("Minecraft"@)
}

/// The state of the cursor was reported, and it does not show.
pub open spec fn cursor_hidden(flags: Option<u32>) -> bool {
    flags == Some(0u32)
}

/// What follows once the window in front is known; zero is none.
pub open spec fn after_window(window: isize) -> Probe {
    if window != 0 {
        Probe::ClassName
    } else {
        Probe::Answer(false)
    }
}

/// What follows once the class name has been asked for.
pub open spec fn after_class_name(len: i32, buffer: Seq<u8>) -> Probe {
    if class_fits(len, buffer) {
        Probe::Title
    } else {
        Probe::Answer(false)
    }
}

/// What follows once the title has been asked for.
pub open spec fn after_title(len: i32, buffer: Seq<u8>) -> Probe {
    if title_fits(len, buffer) {
        Probe::Cursor
    } else {
        Probe::Answer(false)
    }
}

// ---------------------------------------------------------------------------
// The steps
// ---------------------------------------------------------------------------

/// Whether the sprint key is to be held now.
pub fn should_sprint_now(minecraft_focused: bool, cursor_hidden: bool) -> (r: bool)
    ensures
        r == (minecraft_focused && cursor_hidden),
{
    minecraft_focused && cursor_hidden
}

/// Whether the cursor does not show, by the flags that the platform reported of
/// it, if it did.
pub fn is_cursor_hidden(flags: Option<u32>) -> (r: bool)
    ensures
        r == cursor_hidden(flags),
{
    match flags {
        Some(f) => f == 0,
        None => false,
    }
}

impl Probe {
    /// The first thing to ask.
    pub fn start() -> (r: Probe)
        ensures
            r == Probe::ForegroundWindow,
    {
        Probe::ForegroundWindow
    }

    /// The window in front is known; zero is none.
    pub fn on_window(window: isize) -> (r: Probe)
        ensures
            r == after_window(window),
    {
        if window == 0 {
            Probe::Answer(false)
        } else {
            Probe::ClassName
        }
    }

    /// The class name has been asked for: its length, and the buffer that it
    /// was written to.
    pub fn on_class_name(len: i32, buffer: &[u8]) -> (r: Probe)
        ensures
            r == after_class_name(len, buffer@),
    {
        if len == 0 {
            return Probe::Answer(false);
        }
        match text_until_zero(buffer) {
            Some(name) => if same_text(name, "Bedrock") || same_text(name, "ApplicationFrameWindow")
                || same_text(name, "Windows.UI.Core.CoreWindow") {
                Probe::Title
            } else {
                Probe::Answer(false)
            },
            None => Probe::Answer(false),
        }
    }

    /// The title has been asked for: its length, and the buffer that it was
    /// written to.
    pub fn on_title(len: i32, buffer: &[u8]) -> (r: Probe)
        ensures
            r == after_title(len, buffer@),
    {
        if len == 0 {
            return Probe::Answer(false);
        }
        match text_until_zero(buffer) {
            Some(title) => if same_text(title, "Minecraft") {
                Probe::Cursor
            } else {
                Probe::Answer(false)
            },
            None => Probe::Answer(false),
        }
    }

    /// The cursor has been asked for: its flags, if they were reported.
    pub fn on_cursor(flags: Option<u32>) -> (r: Probe)
        ensures
            r == Probe::Answer(cursor_hidden(flags)),
    {
        Probe::Answer(should_sprint_now(true, is_cursor_hidden(flags)))
    }
}

// ---------------------------------------------------------------------------
// Laws
// ---------------------------------------------------------------------------

/// What the platform reports when it is asked.
pub struct Screen {
    pub window: isize,
    pub class_len: i32,
    pub class_name: Seq<u8>,
    pub title_len: i32,
    pub title: Seq<u8>,
    pub cursor: Option<u32>,
}

/// The game's window is in front.
pub open spec fn minecraft_focused(screen: Screen) -> bool {
    &&& screen.window != 0
    &&& class_fits(screen.class_len, screen.class_name)
    &&& title_fits(screen.title_len, screen.title)
}

/// What follows `probe` when `screen` is asked.
pub open spec fn probed(probe: Probe, screen: Screen) -> Probe {
    match probe {
        Probe::ForegroundWindow => after_window(screen.window),
        Probe::ClassName => after_class_name(screen.class_len, screen.class_name),
        Probe::Title => after_title(screen.title_len, screen.title),
        Probe::Cursor => Probe::Answer(cursor_hidden(screen.cursor)),
        Probe::Answer(_) => probe,
    }
}

/// Four questions at most lead to the answer: yes exactly where the game's
/// window is in front and the cursor does not show.
pub proof fn probe_answers(screen: Screen)
    ensures
        probed(probed(probed(probed(Probe::ForegroundWindow, screen), screen), screen), screen)
            == Probe::Answer(minecraft_focused(screen) && cursor_hidden(screen.cursor)),
{
}

/// A window that is not the game's is not asked about the cursor: the answer is
/// no, whatever the cursor does.
pub proof fn other_windows_need_no_cursor(screen: Screen)
    requires
        !minecraft_focused(screen),
    ensures
        probed(probed(probed(Probe::ForegroundWindow, screen), screen), screen) == Probe::Answer(
            false,
        ),
{
}

} // verus!
