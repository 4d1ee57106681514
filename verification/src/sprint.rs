//! The state that the keyboard hook and the sprint loop share, and what each of
//! them does with it.
//!
//! Both run side by side. Every function here that takes the shared state is
//! one indivisible step: its caller has the state to itself for that long, and
//! does what the step asks for once it has let go of it.
use crate::keyboard::key_input;
use crate::keyboard::{
    send_key, KeyInput, WM_KEYDOWN, WM_KEYUP, WM_SYSKEYDOWN, WM_SYSKEYUP,
};
use crate::latency::LatencyMode;
use crate::options::{KeyBindings, DEFAULT_FORWARD_KEY, DEFAULT_SPRINT_KEY};
use vstd::prelude::*;

verus! {

/// What the hook and the loop share.
#[derive(Clone, Copy, PartialEq, Eq, Structural, Debug)]
pub struct SprintState {
    /// The key that is watched.
    pub forward_key: i32,
    /// The key that is held.
    pub sprint_key: i32,
    /// The forward key is down.
    pub forward_pressed: bool,
    /// The sprint key was last sent down.
    pub sprint_held: bool,
    /// The latency mode: one for `Ultra`, anything else for `Balanced`.
    pub latency_mode: u8,
}

impl SprintState {
    /// Default keys, nothing pressed, balanced latency.
    pub fn new() -> (r: SprintState)
        ensures
            r == (SprintState {
                forward_key: DEFAULT_FORWARD_KEY,
                sprint_key: DEFAULT_SPRINT_KEY,
                forward_pressed: false,
                sprint_held: false,
                latency_mode: 0,
            }),
            r.mode() == LatencyMode::Balanced,
    {
        SprintState {
            forward_key: DEFAULT_FORWARD_KEY,
            sprint_key: DEFAULT_SPRINT_KEY,
            forward_pressed: false,
            sprint_held: false,
            latency_mode: 0,
        }
    }

    /// The latency mode.
    pub open spec fn mode(self) -> LatencyMode {
        if self.latency_mode == 1 {
            LatencyMode::Ultra
        } else {
            LatencyMode::Balanced
        }
    }

    /// Uses `keys` from now on.
    pub fn set_keys(&mut self, keys: KeyBindings)
        ensures
            *final(self) == (SprintState {
                forward_key: keys.forward,
                sprint_key: keys.sprint,
                ..*old(self)
            }),
    {
        self.forward_key = keys.forward;
        self.sprint_key = keys.sprint;
    }
}

/// The latency mode.
pub fn get_latency_mode(state: &SprintState) -> (r: LatencyMode)
    ensures
        r == state.mode(),
{
    if state.latency_mode == 1 {
        LatencyMode::Ultra
    } else {
        LatencyMode::Balanced
    }
}

/// Uses the latency mode `mode` from now on.
pub fn set_latency_mode(state: &mut SprintState, mode: LatencyMode)
    ensures
        final(state).mode() == mode,
        *final(state) == (SprintState {
            latency_mode: if mode == LatencyMode::Ultra {
                1
            } else {
                0
            },
            ..*old(state)
        }),
{
    let raw: u8 = match mode {
        LatencyMode::Balanced => 0,
        LatencyMode::Ultra => 1,
    };
    state.latency_mode = raw;
}

// ---------------------------------------------------------------------------
// The sprint key
// ---------------------------------------------------------------------------

/// The state once the sprint key is held, or not.
pub open spec fn sprint_updated(state: SprintState, should_sprint: bool) -> SprintState {
    SprintState { sprint_held: should_sprint, ..state }
}

/// The input that makes it so; none where it is so already.
pub open spec fn sprint_input(state: SprintState, should_sprint: bool) -> Option<KeyInput> {
    if state.sprint_held != should_sprint {
        Some(key_input(state.sprint_key, should_sprint))
    } else {
        None
    }
}

/// Sees to it that the sprint key is held, or not. What comes back is to be
/// sent.
pub fn update_sprint_state(state: &mut SprintState, should_sprint: bool) -> (r: Option<KeyInput>)
    ensures
        *final(state) == sprint_updated(*old(state), should_sprint),
        r == sprint_input(*old(state), should_sprint),
{
    if state.sprint_held == should_sprint {
        return None;
    }
    state.sprint_held = should_sprint;
    Some(send_key(state.sprint_key, should_sprint))
}

// ---------------------------------------------------------------------------
// The keyboard hook
// ---------------------------------------------------------------------------

/// What the hook does about a keyboard message before it passes it on.
#[derive(Clone, Copy, PartialEq, Eq, Structural, Debug)]
pub enum HookReply {
    /// Nothing.
    Pass,
    /// The forward key went down: go through the steps from `HookStep::Probe`
    /// to `HookStep::Done`.
    Pressed,
    /// The forward key went up: send the input, if there is one.
    Released(Option<KeyInput>),
}

/// The message is that of a key that goes down.
pub open spec fn is_down_message(msg: u32) -> bool {
    msg == WM_KEYDOWN || msg == WM_SYSKEYDOWN
}

/// The message is that of a key that goes up.
pub open spec fn is_up_message(msg: u32) -> bool {
    msg == WM_KEYUP || msg == WM_SYSKEYUP
}

/// The hook is to look at the message, and it is about the forward key.
pub open spec fn concerns_forward(state: SprintState, n_code: i32, vk_code: u32) -> bool {
    n_code >= 0 && vk_code as i32 == state.forward_key
}

/// The state once the hook has seen the message.
pub open spec fn hooked(state: SprintState, n_code: i32, vk_code: u32, w_param: usize) -> SprintState {
    if !concerns_forward(state, n_code, vk_code) {
        state
    } else if is_down_message(w_param as u32) {
        SprintState { forward_pressed: true, ..state }
    } else if is_up_message(w_param as u32) {
        SprintState { forward_pressed: false, sprint_held: false, ..state }
    } else {
        state
    }
}

/// What the hook does about the message.
pub open spec fn hook_reply(
    state: SprintState,
    n_code: i32,
    vk_code: u32,
    w_param: usize,
) -> HookReply {
    if !concerns_forward(state, n_code, vk_code) {
        HookReply::Pass
    } else if is_down_message(w_param as u32) {
        if state.forward_pressed {
            HookReply::Pass
        } else {
            HookReply::Pressed
        }
    } else if is_up_message(w_param as u32) {
        HookReply::Released(sprint_input(state, false))
    } else {
        HookReply::Pass
    }
}

/// A keyboard message has come: the hook's code, the key, and the message.
pub fn low_level_keyboard_proc(
    state: &mut SprintState,
    n_code: i32,
    vk_code: u32,
    w_param: usize,
) -> (r: HookReply)
    ensures
        *final(state) == hooked(*old(state), n_code, vk_code, w_param),
        r == hook_reply(*old(state), n_code, vk_code, w_param),
        n_code < 0 || vk_code as i32 != old(state).forward_key ==> *final(state) == *old(state)
            && r == HookReply::Pass,
{
    if n_code >= 0 {
        let key: i32 = #[verifier::truncate] (vk_code as i32);
        if key == state.forward_key {
            let msg: u32 = #[verifier::truncate] (w_param as u32);
            if msg == WM_KEYDOWN || msg == WM_SYSKEYDOWN {
                if !state.forward_pressed {
                    state.forward_pressed = true;
                    return HookReply::Pressed;
                }
            } else if msg == WM_KEYUP || msg == WM_SYSKEYUP {
                state.forward_pressed = false;
                return HookReply::Released(update_sprint_state(state, false));
            }
        }
    }
    HookReply::Pass
}

/// What the hook does next about a press of the forward key.
#[derive(Clone, Copy, PartialEq, Eq, Structural, Debug)]
pub enum HookStep {
    /// Probe the window in front.
    Probe,
    /// Update the sprint key by the answer.
    Update(bool),
    /// Signal the loop, if there is a signal.
    Signal,
    /// Nothing more.
    Done,
}

/// The step that follows `step`. Only the probe has an answer, and is not over
/// before it; the loop is signalled whatever the answer was.
pub open spec fn next_hook_step(step: HookStep, answer: Option<bool>) -> HookStep {
    match step {
        HookStep::Probe => match answer {
            Some(should_sprint) => HookStep::Update(should_sprint),
            None => HookStep::Probe,
        },
        HookStep::Update(_) => HookStep::Signal,
        HookStep::Signal => HookStep::Done,
        HookStep::Done => HookStep::Done,
    }
}

/// The step that follows `step`; `answer` is what the probe came to, where `step`
/// is the probe.
pub fn hook_step(step: HookStep, answer: Option<bool>) -> (r: HookStep)
    ensures
        r == next_hook_step(step, answer),
{
    match step {
        HookStep::Probe => match answer {
            Some(should_sprint) => HookStep::Update(should_sprint),
            None => HookStep::Probe,
        },
        HookStep::Update(_) => HookStep::Signal,
        HookStep::Signal => HookStep::Done,
        HookStep::Done => HookStep::Done,
    }
}

// ---------------------------------------------------------------------------
// The sprint loop
// ---------------------------------------------------------------------------

/// A wait between two turns of the loop.
#[derive(Clone, Copy, PartialEq, Eq, Structural, Debug)]
pub enum Pause {
    /// Spin so many times, then yield.
    SpinThenYield(u32),
    /// Yield.
    Yield,
    /// Sleep for so many milliseconds.
    Sleep(u32),
}

/// The wait while a press is fresh.
pub fn tight_wait(spin_iters: u32) -> (r: Pause)
    ensures
        r == Pause::SpinThenYield(spin_iters),
{
    Pause::SpinThenYield(spin_iters)
}

/// The wait later on.
pub open spec fn relaxed_pause(sleep_ms: u32) -> Pause {
    if sleep_ms == 0 {
        Pause::Yield
    } else {
        Pause::Sleep(sleep_ms)
    }
}

/// The wait later on.
pub fn relaxed_wait(sleep_ms: u32) -> (r: Pause)
    ensures
        r == relaxed_pause(sleep_ms),
{
    if sleep_ms == 0 {
        Pause::Yield
    } else {
        Pause::Sleep(sleep_ms)
    }
}

/// How long to sleep after a yield, in milliseconds: not at all where another
/// thread took its turn.
pub fn sleep_after_yield(switched: bool) -> (r: Option<u32>)
    ensures
        r == (if switched {
            None
        } else {
            Some(0u32)
        }),
{
    if switched {
        None
    } else {
        Some(0)
    }
}

/// What the loop does next.
#[derive(Clone, Copy, PartialEq, Eq, Structural, Debug)]
pub enum LoopStep {
    /// Wait for the signal, if there is one to wait for, then note the time.
    AwaitSignal,
    /// See whether the forward key is down.
    CheckForward,
    /// Probe the window in front.
    ProbeWindow,
    /// Update the sprint key.
    UpdateSprint(bool),
    /// See how long ago the signal came.
    ReadClock,
    /// Wait.
    Rest(Pause),
    /// Let go of the sprint key.
    ReleaseSprint,
    /// Take the signal back.
    ResetSignal,
    /// Nothing: the loop has ended.
    Ended,
}

/// What came of it.
#[derive(Clone, Copy, PartialEq, Eq, Structural, Debug)]
pub enum Observation {
    /// It is done.
    Done,
    /// There is no signal to wait for.
    NoSignal,
    /// The forward key is down, or not.
    Forward(bool),
    /// The sprint key is to be held, or not.
    Decision(bool),
    /// So many nanoseconds have gone by since the signal came.
    Elapsed(u128),
}

/// The wait that is due `elapsed` nanoseconds after the signal.
pub open spec fn pause_at(mode: LatencyMode, elapsed: u128) -> Pause {
    if elapsed < mode.burst() * 1_000_000 {
        Pause::SpinThenYield(mode.spins())
    } else {
        relaxed_pause(mode.post_burst_sleep())
    }
}

/// The step that follows `step`. An observation of something else changes
/// nothing.
pub open spec fn next_step(mode: LatencyMode, step: LoopStep, observed: Observation) -> LoopStep {
    match (step, observed) {
        (LoopStep::AwaitSignal, Observation::Done) => LoopStep::CheckForward,
        (LoopStep::AwaitSignal, Observation::NoSignal) => LoopStep::Ended,
        (LoopStep::CheckForward, Observation::Forward(true)) => LoopStep::ProbeWindow,
        (LoopStep::CheckForward, Observation::Forward(false)) => LoopStep::ReleaseSprint,
        (LoopStep::ProbeWindow, Observation::Decision(hold)) => LoopStep::UpdateSprint(hold),
        (LoopStep::UpdateSprint(_), Observation::Done) => LoopStep::ReadClock,
        (LoopStep::ReadClock, Observation::Elapsed(t)) => LoopStep::Rest(pause_at(mode, t)),
        (LoopStep::Rest(_), Observation::Done) => LoopStep::CheckForward,
        (LoopStep::ReleaseSprint, Observation::Done) => LoopStep::ResetSignal,
        (LoopStep::ResetSignal, Observation::Done) => LoopStep::AwaitSignal,
        _ => step,
    }
}

/// The step that follows `step`.
pub fn sprint_loop(mode: LatencyMode, step: LoopStep, observed: Observation) -> (r: LoopStep)
    ensures
        r == next_step(mode, step, observed),
{
    match (step, observed) {
        (LoopStep::AwaitSignal, Observation::Done) => LoopStep::CheckForward,
        (LoopStep::AwaitSignal, Observation::NoSignal) => LoopStep::Ended,
        (LoopStep::CheckForward, Observation::Forward(pressed)) => if pressed {
            LoopStep::ProbeWindow
        } else {
            LoopStep::ReleaseSprint
        },
        (LoopStep::ProbeWindow, Observation::Decision(hold)) => LoopStep::UpdateSprint(hold),
        (LoopStep::UpdateSprint(_), Observation::Done) => LoopStep::ReadClock,
        (LoopStep::ReadClock, Observation::Elapsed(t)) => {
            let burst: u128 = mode.burst_ms() as u128 * 1_000_000;
            if t < burst {
                LoopStep::Rest(tight_wait(mode.spin_iters()))
            } else {
                LoopStep::Rest(relaxed_wait(mode.post_burst_sleep_ms()))
            }
        },
        (LoopStep::Rest(_), Observation::Done) => LoopStep::CheckForward,
        (LoopStep::ReleaseSprint, Observation::Done) => LoopStep::ResetSignal,
        (LoopStep::ResetSignal, Observation::Done) => LoopStep::AwaitSignal,
        _ => step,
    }
}

} // verus!
