//! What holds of the sprint key, however the hook and the loop take turns.
use crate::keyboard::{key_input, KeyInput};
use crate::keyboard_laws::flag_tells_release_from_press;
use crate::latency::LatencyMode;
use crate::options::KeyBindings;
use crate::sprint::{
    concerns_forward, hook_reply, hooked, is_down_message, is_up_message, next_hook_step,
    next_step, pause_at, sprint_input, sprint_updated, HookReply, HookStep, LoopStep, Observation,
    Pause, SprintState,
};
use crate::sprint::{
    get_latency_mode, hook_step, low_level_keyboard_proc, relaxed_wait, set_latency_mode,
    sleep_after_yield, sprint_loop, tight_wait, update_sprint_state,
};
use vstd::prelude::*;

verus! {

// ---------------------------------------------------------------------------
// One call
// ---------------------------------------------------------------------------

/// The hook reacts to the forward key and to no other: a message about a key whose
/// code, as a signed number, is not that of the forward key, and one that the hook
/// is not to look at, is passed and changes nothing. Where it is the forward key,
/// the messages 0x100 and 0x104 press it, 0x101 and 0x105 release it, and others
/// do nothing. A press counts once; a release lets go of the sprint key, by an
/// input that is left to be sent exactly where that key was held.
pub proof fn hook_reacts_to_the_forward_key_only(
    state: &mut SprintState,
    n_code: i32,
    vk_code: u32,
    w_param: usize,
    r: HookReply,
)
    requires
        call_ensures(low_level_keyboard_proc, (state, n_code, vk_code, w_param), r),
    ensures
        n_code < 0 ==> *final(state) == *old(state) && r == HookReply::Pass,
        vk_code as i32 != old(state).forward_key ==> *final(state) == *old(state) && r
            == HookReply::Pass,
        n_code >= 0 && vk_code as i32 == old(state).forward_key ==> {
            let msg = w_param as u32;
            if msg == 0x100 || msg == 0x104 {
                &&& *final(state) == (SprintState { forward_pressed: true, ..*old(state) })
                &&& r == (if old(state).forward_pressed {
                    HookReply::Pass
                } else {
                    HookReply::Pressed
                })
            } else if msg == 0x101 || msg == 0x105 {
                &&& *final(state) == (SprintState {
                    forward_pressed: false,
                    sprint_held: false,
                    ..*old(state)
                })
                &&& r is Released
                &&& r->Released_0 is Some <==> old(state).sprint_held
                &&& r->Released_0 matches Some(input) ==> input.flags == 2 && input.vk == old(
                    state,
                ).sprint_key & 0xffff
            } else {
                *final(state) == *old(state) && r == HookReply::Pass
            }
        },
{
    flag_tells_release_from_press(old(state).sprint_key, false);
}

/// What the hook makes of a message, whatever the state: the state and the reply
/// that follow from the code of the forward key and from the number of the
/// message.
pub proof fn message_matters_for_the_forward_key_only(
    state: SprintState,
    n_code: i32,
    vk_code: u32,
    w_param: usize,
)
    ensures
        ({
            let next = hooked(state, n_code, vk_code, w_param);
            let reply = hook_reply(state, n_code, vk_code, w_param);
            let msg = w_param as u32;
            &&& n_code < 0 || vk_code as i32 != state.forward_key ==> next == state && reply
                == HookReply::Pass
            &&& msg != 0x100 && msg != 0x101 && msg != 0x104 && msg != 0x105 ==> next == state
                && reply == HookReply::Pass
            &&& n_code >= 0 && vk_code as i32 == state.forward_key && (msg == 0x100 || msg
                == 0x104) ==> next == (SprintState { forward_pressed: true, ..state }) && (reply
                == HookReply::Pressed <==> !state.forward_pressed) && (reply == HookReply::Pass
                <==> state.forward_pressed)
            &&& n_code >= 0 && vk_code as i32 == state.forward_key && (msg == 0x101 || msg
                == 0x105) ==> next == (SprintState {
                forward_pressed: false,
                sprint_held: false,
                ..state
            }) && reply is Released && (reply->Released_0 is Some <==> state.sprint_held)
        }),
{
}

/// To update the sprint key makes it held, or not, and changes nothing else. An
/// input is left to be sent exactly where that is a change: it is of the sprint
/// key, and has no flag where it presses and the flag 2 where it releases.
pub proof fn update_sends_on_a_change_only(
    state: &mut SprintState,
    should_sprint: bool,
    r: Option<KeyInput>,
)
    requires
        call_ensures(update_sprint_state, (state, should_sprint), r),
    ensures
        *final(state) == (SprintState { sprint_held: should_sprint, ..*old(state) }),
        r is Some <==> old(state).sprint_held != should_sprint,
        r matches Some(input) ==> {
            &&& input.vk == old(state).sprint_key & 0xffff
            &&& input.flags == (if should_sprint {
                0u32
            } else {
                2u32
            })
            &&& input.scan == 0 && input.time == 0 && input.extra_info == 0
        },
{
    flag_tells_release_from_press(old(state).sprint_key, should_sprint);
}

/// The latency mode is the one that was last set, and to set it changes neither
/// the keys nor what is down.
pub proof fn latency_mode_is_kept(state: &mut SprintState, mode: LatencyMode, r: LatencyMode)
    requires
        call_ensures(set_latency_mode, (state, mode), ()),
        call_ensures(get_latency_mode, (&*final(state),), r),
    ensures
        r == mode,
        final(state).forward_key == old(state).forward_key,
        final(state).sprint_key == old(state).sprint_key,
        final(state).forward_pressed == old(state).forward_pressed,
        final(state).sprint_held == old(state).sprint_held,
{
}

/// The latency mode is `Ultra` exactly where one is stored.
pub proof fn one_stands_for_ultra(state: SprintState, r: LatencyMode)
    requires
        call_ensures(get_latency_mode, (&state,), r),
    ensures
        r == LatencyMode::Ultra <==> state.latency_mode == 1,
{
}

/// At first the keys are 87 and 17, nothing is down, and the mode is balanced; keys
/// that are set are used, and nothing else changes.
pub proof fn state_starts_with_nothing_down(
    first: SprintState,
    state: &mut SprintState,
    keys: KeyBindings,
)
    requires
        call_ensures(SprintState::new, (), first),
        call_ensures(SprintState::set_keys, (state, keys), ()),
    ensures
        first.forward_key == 87 && first.sprint_key == 17,
        !first.forward_pressed && !first.sprint_held && first.latency_mode == 0,
        final(state).forward_key == keys.forward && final(state).sprint_key == keys.sprint,
        final(state).forward_pressed == old(state).forward_pressed,
        final(state).sprint_held == old(state).sprint_held,
        final(state).latency_mode == old(state).latency_mode,
{
}

/// What follows a press is the probe, then an update by its answer, then the
/// signal, whatever the answer was; the probe is not over before its answer.
pub proof fn press_is_followed_up_in_order(step: HookStep, answer: Option<bool>, r: HookStep)
    requires
        call_ensures(hook_step, (step, answer), r),
    ensures
        step == HookStep::Probe ==> r == (if answer is Some {
            HookStep::Update(answer->0)
        } else {
            HookStep::Probe
        }),
        step is Update ==> r == HookStep::Signal,
        step == HookStep::Signal ==> r == HookStep::Done,
        step == HookStep::Done ==> r == HookStep::Done,
{
}

/// `observed` is something that can come of `step`.
pub open spec fn comes_of(step: LoopStep, observed: Observation) -> bool {
    match step {
        LoopStep::AwaitSignal => observed is Done || observed is NoSignal,
        LoopStep::CheckForward => observed is Forward,
        LoopStep::ProbeWindow => observed is Decision,
        LoopStep::ReadClock => observed is Elapsed,
        LoopStep::Ended => false,
        _ => observed is Done,
    }
}

/// The loop waits for the signal and ends where there is none. While the forward
/// key is down it probes the window, updates the sprint key by the answer, looks
/// at the clock and waits; once that key is up it lets go of the sprint key and
/// takes the signal back. What cannot come of a step does not move the loop.
pub proof fn loop_goes_round(mode: LatencyMode, step: LoopStep, observed: Observation, r: LoopStep)
    requires
        call_ensures(sprint_loop, (mode, step, observed), r),
    ensures
        !comes_of(step, observed) ==> r == step,
        comes_of(step, observed) ==> match step {
            LoopStep::AwaitSignal => r == (if observed is NoSignal {
                LoopStep::Ended
            } else {
                LoopStep::CheckForward
            }),
            LoopStep::CheckForward => r == (if observed->Forward_0 {
                LoopStep::ProbeWindow
            } else {
                LoopStep::ReleaseSprint
            }),
            LoopStep::ProbeWindow => r == LoopStep::UpdateSprint(observed->Decision_0),
            LoopStep::UpdateSprint(_) => r == LoopStep::ReadClock,
            LoopStep::ReadClock => r is Rest,
            LoopStep::Rest(_) => r == LoopStep::CheckForward,
            LoopStep::ReleaseSprint => r == LoopStep::ResetSignal,
            LoopStep::ResetSignal => r == LoopStep::AwaitSignal,
            LoopStep::Ended => false,
        },
{
}

/// The wait is tight for 25 milliseconds after the signal in balanced mode, and
/// for 90 in ultra mode: 64 or 256 spins, then a yield. Later, balanced mode
/// sleeps for a millisecond and ultra mode yields.
pub proof fn wait_is_tight_at_first(mode: LatencyMode, elapsed: u128, r: LoopStep)
    requires
        call_ensures(sprint_loop, (mode, LoopStep::ReadClock, Observation::Elapsed(elapsed)), r),
    ensures
        mode == LatencyMode::Balanced ==> r == LoopStep::Rest(
            if elapsed < 25_000_000 {
                Pause::SpinThenYield(64)
            } else {
                Pause::Sleep(1)
            },
        ),
        mode == LatencyMode::Ultra ==> r == LoopStep::Rest(
            if elapsed < 90_000_000 {
                Pause::SpinThenYield(256)
            } else {
                Pause::Yield
            },
        ),
{
}

/// The waits: so many spins, then a yield; a sleep of so many milliseconds, where
/// none at all is a yield; and after a yield no sleep where another thread took
/// its turn, and one of no length where none did.
pub proof fn waits_are_as_asked(
    spins: u32,
    sleep: u32,
    switched: bool,
    tight: Pause,
    relaxed: Pause,
    after: Option<u32>,
)
    requires
        call_ensures(tight_wait, (spins,), tight),
        call_ensures(relaxed_wait, (sleep,), relaxed),
        call_ensures(sleep_after_yield, (switched,), after),
    ensures
        tight == Pause::SpinThenYield(spins),
        sleep > 0 ==> relaxed == Pause::Sleep(sleep),
        sleep == 0 ==> relaxed == Pause::Yield,
        switched ==> after is None,
        !switched ==> after == Some(0u32),
{
}

// ---------------------------------------------------------------------------
// One step
// ---------------------------------------------------------------------------

/// While the forward key is down, the messages that its repetition sends do
/// nothing.
pub proof fn repeated_press_is_passed(
    state: SprintState,
    n_code: i32,
    vk_code: u32,
    w_param: usize,
)
    requires
        state.forward_pressed,
        is_down_message(w_param as u32),
    ensures
        hooked(state, n_code, vk_code, w_param) == state,
        hook_reply(state, n_code, vk_code, w_param) == HookReply::Pass,
{
}

/// Once the forward key has gone up, neither key counts as down, and the input
/// that lets go of the sprint key is sent exactly where that key was held.
pub proof fn release_lets_go(state: SprintState, n_code: i32, vk_code: u32, w_param: usize)
    requires
        concerns_forward(state, n_code, vk_code),
        is_up_message(w_param as u32),
    ensures
        !hooked(state, n_code, vk_code, w_param).forward_pressed,
        !hooked(state, n_code, vk_code, w_param).sprint_held,
        hook_reply(state, n_code, vk_code, w_param) == HookReply::Released(
            if state.sprint_held {
                Some(key_input(state.sprint_key, false))
            } else {
                None
            },
        ),
{
}

/// Other keys, and messages that the hook is not to look at, do nothing.
pub proof fn other_keys_are_passed(state: SprintState, n_code: i32, vk_code: u32, w_param: usize)
    requires
        !concerns_forward(state, n_code, vk_code),
    ensures
        hooked(state, n_code, vk_code, w_param) == state,
        hook_reply(state, n_code, vk_code, w_param) == HookReply::Pass,
{
}

/// To ask twice for the same changes nothing the second time.
pub proof fn update_is_idempotent(state: SprintState, should_sprint: bool)
    ensures
        sprint_updated(sprint_updated(state, should_sprint), should_sprint) == sprint_updated(
            state,
            should_sprint,
        ),
        sprint_input(sprint_updated(state, should_sprint), should_sprint) is None,
{
}

// ---------------------------------------------------------------------------
// All that is to be sent
// ---------------------------------------------------------------------------

/// A step on the shared state, of the hook or of the loop.
pub enum Step {
    /// The hook sees a message.
    Message { n_code: i32, vk_code: u32, w_param: usize },
    /// The hook or the loop updates the sprint key.
    Update { should_sprint: bool },
}

/// The state after `step`.
pub open spec fn taken(state: SprintState, step: Step) -> SprintState {
    match step {
        Step::Message { n_code, vk_code, w_param } => hooked(state, n_code, vk_code, w_param),
        Step::Update { should_sprint } => sprint_updated(state, should_sprint),
    }
}

/// What `step` leaves to be sent.
pub open spec fn sent_by(state: SprintState, step: Step) -> Option<KeyInput> {
    match step {
        Step::Message { n_code, vk_code, w_param } => match hook_reply(
            state,
            n_code,
            vk_code,
            w_param,
        ) {
            HookReply::Released(input) => input,
            _ => None,
        },
        Step::Update { should_sprint } => sprint_input(state, should_sprint),
    }
}

/// The state after all of `steps`.
pub open spec fn all_taken(state: SprintState, steps: Seq<Step>) -> SprintState
    decreases steps.len(),
{
    if steps.len() == 0 {
        state
    } else {
        all_taken(taken(state, steps[0]), steps.skip(1))
    }
}

/// What all of `steps` leave to be sent, in order.
pub open spec fn all_sent(state: SprintState, steps: Seq<Step>) -> Seq<KeyInput>
    decreases steps.len(),
{
    if steps.len() == 0 {
        Seq::empty()
    } else {
        let rest = all_sent(taken(state, steps[0]), steps.skip(1));
        match sent_by(state, steps[0]) {
            Some(input) => seq![input] + rest,
            None => rest,
        }
    }
}

/// However the steps of the hook and of the loop follow each other, the sprint
/// key is to be pressed and released in turn, never twice the same, and it counts
/// as held exactly where the last of it is a press.
pub proof fn presses_and_releases_alternate(state: SprintState, steps: Seq<Step>)
    ensures
        ({
            let sent = all_sent(state, steps);
            let after = all_taken(state, steps);
            &&& after.sprint_key == state.sprint_key
            &&& after.sprint_held == (if sent.len() % 2 == 0 {
                state.sprint_held
            } else {
                !state.sprint_held
            })
            &&& forall|i: int|
                0 <= i < sent.len() ==> #[trigger] sent[i] == key_input(
                    state.sprint_key,
                    if i % 2 == 0 {
                        !state.sprint_held
                    } else {
                        state.sprint_held
                    },
                )
            &&& forall|i: int|
                0 <= i < sent.len() ==> (#[trigger] sent[i]).vk == state.sprint_key & 0xffff
                    && sent[i].flags == (if (i % 2 == 0) == state.sprint_held {
                    2u32
                } else {
                    0u32
                })
        }),
    decreases steps.len(),
{
    flag_tells_release_from_press(state.sprint_key, true);
    flag_tells_release_from_press(state.sprint_key, false);
    if steps.len() > 0 {
        let next = taken(state, steps[0]);
        let rest = all_sent(next, steps.skip(1));
        presses_and_releases_alternate(next, steps.skip(1));
        let sent = all_sent(state, steps);
        match sent_by(state, steps[0]) {
            Some(input) => {
                assert(sent == seq![input] + rest);
                assert forall|i: int| 0 <= i < sent.len() implies #[trigger] sent[i] == key_input(
                    state.sprint_key,
                    if i % 2 == 0 {
                        !state.sprint_held
                    } else {
                        state.sprint_held
                    },
                ) by {
                    if i > 0 {
                        assert(sent[i] == rest[i - 1]);
                    }
                }
            },
            None => {
                assert(next.sprint_held == state.sprint_held);
            },
        }
    }
}

// ---------------------------------------------------------------------------
// The hook and the loop together
// ---------------------------------------------------------------------------

/// The hook and the loop at work.
pub struct System {
    pub state: SprintState,
    /// What the hook does next about the last press it saw.
    pub hook: HookStep,
    /// The loop has been signalled, and has not taken the signal back.
    pub signalled: bool,
    pub step: LoopStep,
}

/// Something that happens to the system.
pub enum Event {
    /// The hook sees a message. It sees none before it is done with the last.
    Message { n_code: i32, vk_code: u32, w_param: usize },
    /// The hook takes its step; the value is what it would learn of the window.
    HookStep { should_sprint: bool },
    /// The loop takes its step; the values are what it would observe of the
    /// signal, of the window and of the clock. To wait may fail, and is then over
    /// before the signal comes.
    LoopStep { has_signal: bool, decision: bool, elapsed: u128 },
}

/// What the loop observes of its step.
pub open spec fn loop_observes(
    system: System,
    has_signal: bool,
    decision: bool,
    elapsed: u128,
) -> Observation {
    match system.step {
        LoopStep::AwaitSignal => if has_signal {
            Observation::Done
        } else {
            Observation::NoSignal
        },
        LoopStep::CheckForward => Observation::Forward(system.state.forward_pressed),
        LoopStep::ProbeWindow => Observation::Decision(decision),
        LoopStep::ReadClock => Observation::Elapsed(elapsed),
        _ => Observation::Done,
    }
}

/// The system once the loop has taken its step.
pub open spec fn loop_taken(
    mode: LatencyMode,
    system: System,
    has_signal: bool,
    decision: bool,
    elapsed: u128,
) -> System {
    System {
        state: match system.step {
            LoopStep::UpdateSprint(hold) => sprint_updated(system.state, hold),
            LoopStep::ReleaseSprint => sprint_updated(system.state, false),
            _ => system.state,
        },
        signalled: system.signalled && system.step != LoopStep::ResetSignal,
        step: next_step(mode, system.step, loop_observes(system, has_signal, decision, elapsed)),
        ..system
    }
}

/// The system once the hook has taken its step.
pub open spec fn hook_taken(system: System, should_sprint: bool) -> System {
    System {
        state: match system.hook {
            HookStep::Update(hold) => sprint_updated(system.state, hold),
            _ => system.state,
        },
        hook: next_hook_step(
            system.hook,
            if system.hook == HookStep::Probe {
                Some(should_sprint)
            } else {
                None
            },
        ),
        signalled: system.signalled || system.hook == HookStep::Signal,
        ..system
    }
}

/// The system after `event`.
pub open spec fn happened(mode: LatencyMode, system: System, event: Event) -> System {
    match event {
        Event::Message { n_code, vk_code, w_param } => if system.hook != HookStep::Done {
            system
        } else {
            System {
                state: hooked(system.state, n_code, vk_code, w_param),
                hook: match hook_reply(system.state, n_code, vk_code, w_param) {
                    HookReply::Pressed => HookStep::Probe,
                    _ => HookStep::Done,
                },
                ..system
            }
        },
        Event::HookStep { should_sprint } => hook_taken(system, should_sprint),
        Event::LoopStep { has_signal, decision, elapsed } => loop_taken(
            mode,
            system,
            has_signal,
            decision,
            elapsed,
        ),
    }
}

/// The system after all of `events`.
pub open spec fn all_happened(mode: LatencyMode, system: System, events: Seq<Event>) -> System
    decreases events.len(),
{
    if events.len() == 0 {
        system
    } else {
        all_happened(mode, happened(mode, system, events[0]), events.skip(1))
    }
}

/// The loop is at rest, about to be, or has ended.
pub open spec fn loop_idles(step: LoopStep) -> bool {
    step == LoopStep::AwaitSignal || step == LoopStep::ResetSignal || step == LoopStep::Ended
}

/// The hook is at work only while the forward key is down; and where that key is
/// up and the loop is at rest, the sprint key is not held.
pub open spec fn nothing_sticks(system: System) -> bool {
    &&& system.hook != HookStep::Done ==> system.state.forward_pressed
    &&& loop_idles(system.step) && !system.state.forward_pressed ==> !system.state.sprint_held
}

/// At the start nothing is held, and the loop waits for a signal that has not
/// been given.
pub open spec fn at_start(system: System) -> bool {
    &&& !system.state.forward_pressed
    &&& !system.state.sprint_held
    &&& system.hook == HookStep::Done
    &&& !system.signalled
    &&& system.step == LoopStep::AwaitSignal
}

proof fn nothing_sticks_is_kept(mode: LatencyMode, system: System, events: Seq<Event>)
    requires
        nothing_sticks(system),
    ensures
        nothing_sticks(all_happened(mode, system, events)),
    decreases events.len(),
{
    if events.len() > 0 {
        nothing_sticks_is_kept(mode, happened(mode, system, events[0]), events.skip(1));
    }
}

/// However the hook and the loop take turns from the start on: where the forward
/// key is up and the loop waits for the signal or has ended, the sprint key is
/// not held.
pub proof fn sprint_key_never_sticks(mode: LatencyMode, system: System, events: Seq<Event>)
    requires
        at_start(system),
    ensures
        ({
            let now = all_happened(mode, system, events);
            loop_idles(now.step) && !now.state.forward_pressed ==> !now.state.sprint_held
        }),
{
    nothing_sticks_is_kept(mode, system, events);
}

/// The step on the shared state that `event` is, if it is one.
pub open spec fn step_of(system: System, event: Event) -> Option<Step> {
    match event {
        Event::Message { n_code, vk_code, w_param } => if system.hook != HookStep::Done {
            None
        } else {
            Some(Step::Message { n_code, vk_code, w_param })
        },
        Event::HookStep { .. } => match system.hook {
            HookStep::Update(should_sprint) => Some(Step::Update { should_sprint }),
            _ => None,
        },
        Event::LoopStep { .. } => match system.step {
            LoopStep::UpdateSprint(should_sprint) => Some(Step::Update { should_sprint }),
            LoopStep::ReleaseSprint => Some(Step::Update { should_sprint: false }),
            _ => None,
        },
    }
}

/// The steps on the shared state that `events` are, in order.
pub open spec fn steps_of(mode: LatencyMode, system: System, events: Seq<Event>) -> Seq<Step>
    decreases events.len(),
{
    if events.len() == 0 {
        Seq::empty()
    } else {
        let rest = steps_of(mode, happened(mode, system, events[0]), events.skip(1));
        match step_of(system, events[0]) {
            Some(step) => seq![step] + rest,
            None => rest,
        }
    }
}

proof fn steps_make_up_the_events(mode: LatencyMode, system: System, events: Seq<Event>)
    ensures
        all_happened(mode, system, events).state == all_taken(
            system.state,
            steps_of(mode, system, events),
        ),
    decreases events.len(),
{
    if events.len() > 0 {
        let next = happened(mode, system, events[0]);
        let rest = steps_of(mode, next, events.skip(1));
        steps_make_up_the_events(mode, next, events.skip(1));
        if let Some(step) = step_of(system, events[0]) {
            assert((seq![step] + rest).skip(1) =~= rest);
        }
    }
}

/// However the hook and the loop take turns from the start on: where the forward
/// key is up and the loop waits for the signal or has ended, every press of the
/// sprint key has been followed by its release.
pub proof fn every_press_is_released(mode: LatencyMode, system: System, events: Seq<Event>)
    requires
        at_start(system),
    ensures
        ({
            let now = all_happened(mode, system, events);
            let sent = all_sent(system.state, steps_of(mode, system, events));
            &&& loop_idles(now.step) && !now.state.forward_pressed ==> sent.len() % 2 == 0
            &&& forall|i: int|
                0 <= i < sent.len() ==> #[trigger] sent[i] == key_input(
                    system.state.sprint_key,
                    i % 2 == 0,
                )
            &&& forall|i: int|
                0 <= i < sent.len() ==> (#[trigger] sent[i]).vk == system.state.sprint_key & 0xffff
                    && sent[i].flags == (if i % 2 == 0 {
                    0u32
                } else {
                    2u32
                })
        }),
{
    sprint_key_never_sticks(mode, system, events);
    steps_make_up_the_events(mode, system, events);
    presses_and_releases_alternate(system.state, steps_of(mode, system, events));
}

/// The loop's next step, where it waits until it is signalled.
pub open spec fn loop_alone(
    mode: LatencyMode,
    system: System,
    decision: bool,
    elapsed: u128,
) -> System {
    if system.step == LoopStep::AwaitSignal && !system.signalled {
        system
    } else {
        loop_taken(mode, system, true, decision, elapsed)
    }
}

/// The loop's next steps, where it waits until it is signalled, and the hook does
/// nothing meanwhile.
pub open spec fn loop_left_alone(
    mode: LatencyMode,
    system: System,
    observed: Seq<(bool, u128)>,
) -> System
    decreases observed.len(),
{
    if observed.len() == 0 {
        system
    } else {
        loop_left_alone(
            mode,
            loop_alone(mode, system, observed[0].0, observed[0].1),
            observed.skip(1),
        )
    }
}

/// How many steps the loop is from rest once the forward key is up.
pub open spec fn steps_to_rest(system: System) -> nat {
    match system.step {
        LoopStep::AwaitSignal => if system.signalled {
            4
        } else {
            0
        },
        LoopStep::Ended => 0,
        LoopStep::ResetSignal => 1,
        LoopStep::ReleaseSprint => 2,
        LoopStep::CheckForward => 3,
        LoopStep::Rest(_) => 4,
        LoopStep::ReadClock => 5,
        LoopStep::UpdateSprint(_) => 6,
        LoopStep::ProbeWindow => 7,
    }
}

/// Once the forward key is up and is left alone, the loop comes to rest within
/// seven steps, whatever it observes of the window and of the clock: it waits for
/// the next signal, and the sprint key is then not held.
pub proof fn loop_comes_to_rest(
    mode: LatencyMode,
    system: System,
    observed: Seq<(bool, u128)>,
)
    requires
        !system.state.forward_pressed,
        nothing_sticks(system),
        observed.len() >= steps_to_rest(system),
    ensures
        loop_left_alone(mode, system, observed).step == (if system.step == LoopStep::Ended {
            LoopStep::Ended
        } else {
            LoopStep::AwaitSignal
        }),
        system.step != LoopStep::Ended ==> !loop_left_alone(mode, system, observed).signalled,
        !loop_left_alone(mode, system, observed).state.sprint_held,
        steps_to_rest(system) <= 7,
    decreases observed.len(),
{
    if observed.len() > 0 {
        loop_comes_to_rest(
            mode,
            loop_alone(mode, system, observed[0].0, observed[0].1),
            observed.skip(1),
        );
    }
}

/// A press does what the probe says: once the hook has probed the window in front
/// and updated the sprint key, that key is held exactly where the answer was yes.
/// The hook has then yet to signal the loop, and does so next.
pub proof fn press_holds_by_the_probe(
    mode: LatencyMode,
    system: System,
    n_code: i32,
    vk_code: u32,
    w_param: usize,
    should_sprint: bool,
)
    requires
        system.hook == HookStep::Done,
        !system.state.forward_pressed,
        concerns_forward(system.state, n_code, vk_code),
        is_down_message(w_param as u32),
    ensures
        ({
            let hook = Event::HookStep { should_sprint };
            let pressed = happened(mode, system, Event::Message { n_code, vk_code, w_param });
            let probed = happened(mode, pressed, hook);
            let updated = happened(mode, probed, hook);
            let signalled = happened(mode, updated, hook);
            &&& pressed.hook == HookStep::Probe
            &&& probed.hook == HookStep::Update(should_sprint)
            &&& updated.state.forward_pressed
            &&& updated.state.sprint_held == should_sprint
            &&& updated.hook == HookStep::Signal
            &&& signalled == (System { hook: HookStep::Done, signalled: true, ..updated })
        }),
{
}

/// While the forward key is down, a turn of the loop does what its probe says:
/// three steps after the loop has come to look at the forward key, the sprint key
/// is held exactly where the answer was yes. Two steps later, with nothing
/// changed, the loop comes to look at the forward key again.
pub proof fn turn_holds_by_the_probe(
    mode: LatencyMode,
    system: System,
    decision: bool,
    elapsed: u128,
)
    requires
        system.step == LoopStep::CheckForward,
        system.state.forward_pressed,
    ensures
        ({
            let turn = Event::LoopStep { has_signal: true, decision, elapsed };
            let checked = happened(mode, system, turn);
            let probed = happened(mode, checked, turn);
            let updated = happened(mode, probed, turn);
            let timed = happened(mode, updated, turn);
            let rested = happened(mode, timed, turn);
            &&& updated.state.forward_pressed
            &&& updated.state.sprint_held == decision
            &&& updated.step == LoopStep::ReadClock
            &&& timed.step == LoopStep::Rest(pause_at(mode, elapsed))
            &&& rested == (System { step: LoopStep::CheckForward, ..updated })
        }),
{
}

/// A press wakes a loop that waits: once the hook is done with the press, the
/// loop waits no longer, and after four of its steps the sprint key is held
/// exactly where the loop's own probe said so.
pub proof fn press_wakes_the_loop(
    mode: LatencyMode,
    system: System,
    n_code: i32,
    vk_code: u32,
    w_param: usize,
    should_sprint: bool,
    decision: bool,
    elapsed: u128,
)
    requires
        system.step == LoopStep::AwaitSignal,
        system.hook == HookStep::Done,
        !system.state.forward_pressed,
        concerns_forward(system.state, n_code, vk_code),
        is_down_message(w_param as u32),
    ensures
        ({
            let hook = Event::HookStep { should_sprint };
            let pressed = happened(mode, system, Event::Message { n_code, vk_code, w_param });
            let signalled = happened(
                mode,
                happened(mode, happened(mode, pressed, hook), hook),
                hook,
            );
            let woken = loop_alone(mode, signalled, decision, elapsed);
            let checked = loop_alone(mode, woken, decision, elapsed);
            let probed = loop_alone(mode, checked, decision, elapsed);
            let updated = loop_alone(mode, probed, decision, elapsed);
            &&& signalled.state.sprint_held == should_sprint
            &&& woken.step == LoopStep::CheckForward
            &&& updated.state.forward_pressed
            &&& updated.state.sprint_held == decision
            &&& updated.step == LoopStep::ReadClock
        }),
{
    press_holds_by_the_probe(mode, system, n_code, vk_code, w_param, should_sprint);
}

/// The loop takes back the signal of a press that it has not looked at: the
/// forward key went down after the loop found it up.
pub open spec fn takes_back_a_press(system: System, event: Event) -> bool {
    &&& event is LoopStep
    &&& system.step == LoopStep::ResetSignal
    &&& system.state.forward_pressed
    &&& system.hook == HookStep::Done
}

/// None of `events` takes back the signal of a press.
pub open spec fn no_press_is_taken_back(
    mode: LatencyMode,
    system: System,
    events: Seq<Event>,
) -> bool
    decreases events.len(),
{
    events.len() > 0 ==> {
        &&& !takes_back_a_press(system, events[0])
        &&& no_press_is_taken_back(mode, happened(mode, system, events[0]), events.skip(1))
    }
}

/// Where the forward key is down and the hook is done with the press, the loop
/// does not wait in vain: it is at work, or signalled, or has ended.
pub open spec fn press_is_noticed(system: System) -> bool {
    system.state.forward_pressed && system.hook == HookStep::Done && system.step
        == LoopStep::AwaitSignal ==> system.signalled
}

proof fn press_stays_noticed(mode: LatencyMode, system: System, events: Seq<Event>)
    requires
        press_is_noticed(system),
        no_press_is_taken_back(mode, system, events),
    ensures
        press_is_noticed(all_happened(mode, system, events)),
    decreases events.len(),
{
    if events.len() > 0 {
        press_stays_noticed(mode, happened(mode, system, events[0]), events.skip(1));
    }
}

/// However the hook and the loop take turns from the start on: while the forward
/// key is down and the hook is done with the press, the loop does not wait
/// without a signal, unless it has taken back the signal of a press that came
/// after it found the key up.
pub proof fn loop_notices_every_press(mode: LatencyMode, system: System, events: Seq<Event>)
    requires
        at_start(system),
        no_press_is_taken_back(mode, system, events),
    ensures
        press_is_noticed(all_happened(mode, system, events)),
{
    press_stays_noticed(mode, system, events);
}

/// Where there is no signal to wait for, the loop ends: nothing is left to be
/// sent, and nothing of the shared state changes.
pub proof fn loop_ends_without_signal(
    mode: LatencyMode,
    system: System,
    decision: bool,
    elapsed: u128,
)
    requires
        system.step == LoopStep::AwaitSignal,
    ensures
        ({
            let event = Event::LoopStep { has_signal: false, decision, elapsed };
            &&& happened(mode, system, event) == (System { step: LoopStep::Ended, ..system })
            &&& step_of(system, event) is None
        }),
{
}

/// A loop that has ended does nothing any more, whatever is observed.
pub proof fn ended_loop_stays_ended(
    mode: LatencyMode,
    system: System,
    observed: Observation,
    has_signal: bool,
    decision: bool,
    elapsed: u128,
)
    requires
        system.step == LoopStep::Ended,
    ensures
        next_step(mode, LoopStep::Ended, observed) == LoopStep::Ended,
        ({
            let event = Event::LoopStep { has_signal, decision, elapsed };
            &&& happened(mode, system, event) == system
            &&& step_of(system, event) is None
        }),
{
}

// ---------------------------------------------------------------------------
// Waiting
// ---------------------------------------------------------------------------

/// Within the burst the loop never sleeps; after it, balanced mode sleeps for a
/// millisecond and ultra mode still does not sleep.
pub proof fn burst_decides_the_wait(mode: LatencyMode, elapsed: u128)
    ensures
        elapsed < mode.burst() * 1_000_000 ==> pause_at(mode, elapsed) == Pause::SpinThenYield(
            mode.spins(),
        ),
        elapsed >= mode.burst() * 1_000_000 ==> pause_at(mode, elapsed) == (match mode {
            LatencyMode::Balanced => Pause::Sleep(1),
            LatencyMode::Ultra => Pause::Yield,
        }),
{
}

} // verus!
