use autosprint_mcbe::keyboard::{send_key, KeyInput};
use autosprint_mcbe::latency::LatencyMode;
use autosprint_mcbe::options::KeyBindings;
use autosprint_mcbe::sprint::{
    get_latency_mode, hook_step, low_level_keyboard_proc, relaxed_wait, set_latency_mode,
    sleep_after_yield, sprint_loop, tight_wait, update_sprint_state, HookReply, HookStep, LoopStep,
    Observation, Pause, SprintState,
};

const DOWN: usize = 0x100;
const UP: usize = 0x101;
const SYS_DOWN: usize = 0x104;
const SYS_UP: usize = 0x105;

#[test]
fn initial_state() {
    let s = SprintState::new();
    assert_eq!(s.forward_key, 87);
    assert_eq!(s.sprint_key, 17);
    assert!(!s.forward_pressed);
    assert!(!s.sprint_held);
    assert_eq!(get_latency_mode(&s), LatencyMode::Balanced);
}

#[test]
fn latency_mode_is_kept() {
    let mut s = SprintState::new();
    for mode in [LatencyMode::Ultra, LatencyMode::Balanced, LatencyMode::Ultra] {
        set_latency_mode(&mut s, mode);
        assert_eq!(get_latency_mode(&s), mode);
    }
    s.latency_mode = 7;
    assert_eq!(get_latency_mode(&s), LatencyMode::Balanced);
}

#[test]
fn keys_are_set() {
    let mut s = SprintState::new();
    s.sprint_held = true;
    s.set_keys(KeyBindings { forward: 65, sprint: 16 });
    assert_eq!((s.forward_key, s.sprint_key, s.sprint_held), (65, 16, true));
}

#[test]
fn sprint_key_is_sent_only_on_change() {
    let mut s = SprintState::new();
    assert_eq!(update_sprint_state(&mut s, false), None);
    assert_eq!(update_sprint_state(&mut s, true), Some(send_key(17, true)));
    assert!(s.sprint_held);
    assert_eq!(update_sprint_state(&mut s, true), None);
    assert_eq!(update_sprint_state(&mut s, false), Some(send_key(17, false)));
    assert!(!s.sprint_held);
}

#[test]
fn first_press_is_handled_and_repeats_are_passed() {
    let mut s = SprintState::new();
    assert_eq!(low_level_keyboard_proc(&mut s, 0, 87, DOWN), HookReply::Pressed);
    assert!(s.forward_pressed);
    let before = s;
    assert_eq!(low_level_keyboard_proc(&mut s, 0, 87, DOWN), HookReply::Pass);
    assert_eq!(low_level_keyboard_proc(&mut s, 0, 87, SYS_DOWN), HookReply::Pass);
    assert_eq!(s, before);
}

#[test]
fn release_releases_the_sprint_key() {
    for up in [UP, SYS_UP] {
        let mut s = SprintState::new();
        assert_eq!(low_level_keyboard_proc(&mut s, 0, 87, SYS_DOWN), HookReply::Pressed);
        update_sprint_state(&mut s, true);
        let reply = low_level_keyboard_proc(&mut s, 0, 87, up);
        assert_eq!(reply, HookReply::Released(Some(send_key(17, false))));
        assert!(!s.forward_pressed && !s.sprint_held);
        assert_eq!(low_level_keyboard_proc(&mut s, 0, 87, up), HookReply::Released(None));
    }
}

#[test]
fn other_messages_are_passed() {
    let mut s = SprintState::new();
    let before = s;
    assert_eq!(low_level_keyboard_proc(&mut s, 0, 88, DOWN), HookReply::Pass);
    assert_eq!(low_level_keyboard_proc(&mut s, -1, 87, DOWN), HookReply::Pass);
    assert_eq!(low_level_keyboard_proc(&mut s, 0, 87, 0x102), HookReply::Pass);
    assert_eq!(low_level_keyboard_proc(&mut s, 0, 87, 0), HookReply::Pass);
    assert_eq!(s, before);
}

#[test]
fn key_codes_are_compared_as_signed_numbers() {
    let mut s = SprintState::new();
    s.set_keys(KeyBindings { forward: -1, sprint: 17 });
    assert_eq!(low_level_keyboard_proc(&mut s, 0, u32::MAX, DOWN), HookReply::Pressed);
}

#[test]
fn press_is_probed_then_updated_then_signalled() {
    for answer in [false, true] {
        let mut step = HookStep::Probe;
        step = hook_step(step, Some(answer));
        assert_eq!(step, HookStep::Update(answer));
        step = hook_step(step, None);
        assert_eq!(step, HookStep::Signal);
        step = hook_step(step, None);
        assert_eq!(step, HookStep::Done);
        step = hook_step(step, None);
        assert_eq!(step, HookStep::Done);
    }
}

#[test]
fn hook_waits_for_the_probe_and_ignores_other_answers() {
    assert_eq!(hook_step(HookStep::Probe, None), HookStep::Probe);
    assert_eq!(hook_step(HookStep::Update(true), Some(false)), HookStep::Signal);
    assert_eq!(hook_step(HookStep::Signal, Some(true)), HookStep::Done);
    assert_eq!(hook_step(HookStep::Done, Some(true)), HookStep::Done);
}

#[test]
fn press_holds_the_sprint_key_by_the_probe() {
    for answer in [false, true] {
        let mut s = SprintState::new();
        let mut sent = Vec::new();
        let mut signals = 0;
        assert_eq!(low_level_keyboard_proc(&mut s, 0, 87, DOWN), HookReply::Pressed);
        let mut step = HookStep::Probe;
        while step != HookStep::Done {
            let learnt = match step {
                HookStep::Probe => Some(answer),
                HookStep::Update(hold) => {
                    assert_eq!(signals, 0);
                    sent.extend(update_sprint_state(&mut s, hold));
                    None
                }
                _ => {
                    signals += 1;
                    None
                }
            };
            step = hook_step(step, learnt);
        }
        assert!(s.forward_pressed);
        assert_eq!(s.sprint_held, answer);
        assert_eq!(signals, 1);
        assert_eq!(sent, if answer { vec![send_key(17, true)] } else { vec![] });
    }
}

#[test]
fn turns_of_the_loop_hold_the_sprint_key_by_the_probe() {
    let m = LatencyMode::Ultra;
    let mut s = SprintState::new();
    s.forward_pressed = true;
    let mut sent = Vec::new();
    let mut step = LoopStep::CheckForward;
    for decision in [true, true, false, true] {
        step = sprint_loop(m, step, Observation::Forward(s.forward_pressed));
        step = sprint_loop(m, step, Observation::Decision(decision));
        assert_eq!(step, LoopStep::UpdateSprint(decision));
        sent.extend(update_sprint_state(&mut s, decision));
        step = sprint_loop(m, step, Observation::Done);
        assert_eq!(step, LoopStep::ReadClock);
        assert_eq!(s.sprint_held, decision);
        step = sprint_loop(m, step, Observation::Elapsed(5));
        step = sprint_loop(m, step, Observation::Done);
        assert_eq!(step, LoopStep::CheckForward);
    }
    assert_eq!(sent, vec![send_key(17, true), send_key(17, false), send_key(17, true)]);
}

#[test]
fn presses_and_releases_take_turns() {
    // A fixed pseudo-random walk over the steps of the hook and of the loop.
    let mut s = SprintState::new();
    let mut sent: Vec<KeyInput> = Vec::new();
    let mut seed: u32 = 1;
    for _ in 0..10_000 {
        seed = seed.wrapping_mul(1_664_525).wrapping_add(1_013_904_223);
        let input = match seed >> 30 {
            0 => {
                let _ = low_level_keyboard_proc(&mut s, 0, 87, DOWN);
                None
            }
            1 => match low_level_keyboard_proc(&mut s, 0, 87, UP) {
                HookReply::Released(input) => input,
                _ => None,
            },
            2 => update_sprint_state(&mut s, true),
            _ => update_sprint_state(&mut s, seed & 0x1_0000 == 0),
        };
        if let Some(key) = input {
            sent.push(key);
        }
    }
    assert!(sent.len() > 1_000);
    for (i, key) in sent.iter().enumerate() {
        assert_eq!(*key, send_key(17, i % 2 == 0));
    }
    assert_eq!(s.sprint_held, sent.len() % 2 == 1);
}

#[test]
fn one_turn_of_the_loop_while_forward_is_down() {
    let m = LatencyMode::Balanced;
    let mut step = LoopStep::AwaitSignal;
    step = sprint_loop(m, step, Observation::Done);
    assert_eq!(step, LoopStep::CheckForward);
    step = sprint_loop(m, step, Observation::Forward(true));
    assert_eq!(step, LoopStep::ProbeWindow);
    step = sprint_loop(m, step, Observation::Decision(true));
    assert_eq!(step, LoopStep::UpdateSprint(true));
    step = sprint_loop(m, step, Observation::Done);
    assert_eq!(step, LoopStep::ReadClock);
    step = sprint_loop(m, step, Observation::Elapsed(0));
    assert_eq!(step, LoopStep::Rest(Pause::SpinThenYield(64)));
    step = sprint_loop(m, step, Observation::Done);
    assert_eq!(step, LoopStep::CheckForward);
}

#[test]
fn loop_releases_before_it_waits() {
    let m = LatencyMode::Ultra;
    let mut step = LoopStep::CheckForward;
    step = sprint_loop(m, step, Observation::Forward(false));
    assert_eq!(step, LoopStep::ReleaseSprint);
    step = sprint_loop(m, step, Observation::Done);
    assert_eq!(step, LoopStep::ResetSignal);
    step = sprint_loop(m, step, Observation::Done);
    assert_eq!(step, LoopStep::AwaitSignal);
}

#[test]
fn burst_ends_at_its_deadline() {
    let rest = |m, t| sprint_loop(m, LoopStep::ReadClock, Observation::Elapsed(t));
    let b = LatencyMode::Balanced;
    assert_eq!(rest(b, 24_999_999), LoopStep::Rest(Pause::SpinThenYield(64)));
    assert_eq!(rest(b, 25_000_000), LoopStep::Rest(Pause::Sleep(1)));
    let u = LatencyMode::Ultra;
    assert_eq!(rest(u, 89_999_999), LoopStep::Rest(Pause::SpinThenYield(256)));
    assert_eq!(rest(u, 90_000_000), LoopStep::Rest(Pause::Yield));
    assert_eq!(rest(u, u128::MAX), LoopStep::Rest(Pause::Yield));
}

#[test]
fn loop_ends_where_there_is_no_signal() {
    for m in [LatencyMode::Balanced, LatencyMode::Ultra] {
        let step = sprint_loop(m, LoopStep::AwaitSignal, Observation::NoSignal);
        assert_eq!(step, LoopStep::Ended);
        for observed in [
            Observation::Done,
            Observation::NoSignal,
            Observation::Forward(true),
            Observation::Decision(true),
            Observation::Elapsed(0),
        ] {
            assert_eq!(sprint_loop(m, step, observed), LoopStep::Ended);
        }
        // Elsewhere the lack of a signal is not asked about.
        assert_eq!(
            sprint_loop(m, LoopStep::CheckForward, Observation::NoSignal),
            LoopStep::CheckForward
        );
    }
}

#[test]
fn stray_observations_change_nothing() {
    let m = LatencyMode::Balanced;
    assert_eq!(
        sprint_loop(m, LoopStep::CheckForward, Observation::Done),
        LoopStep::CheckForward
    );
    assert_eq!(
        sprint_loop(m, LoopStep::AwaitSignal, Observation::Forward(true)),
        LoopStep::AwaitSignal
    );
}

#[test]
fn loop_left_alone_comes_to_rest_with_the_key_up() {
    for start in [
        LoopStep::ProbeWindow,
        LoopStep::UpdateSprint(true),
        LoopStep::ReadClock,
        LoopStep::Rest(Pause::Yield),
        LoopStep::CheckForward,
        LoopStep::ReleaseSprint,
    ] {
        let mut s = SprintState::new();
        s.sprint_held = true;
        let mut step = start;
        let mut steps = 0;
        while step != LoopStep::AwaitSignal {
            let observed = match step {
                LoopStep::CheckForward => Observation::Forward(s.forward_pressed),
                LoopStep::ProbeWindow => Observation::Decision(true),
                LoopStep::ReadClock => Observation::Elapsed(1),
                LoopStep::UpdateSprint(hold) => {
                    update_sprint_state(&mut s, hold);
                    Observation::Done
                }
                LoopStep::ReleaseSprint => {
                    update_sprint_state(&mut s, false);
                    Observation::Done
                }
                _ => Observation::Done,
            };
            step = sprint_loop(LatencyMode::Ultra, step, observed);
            steps += 1;
        }
        assert!(steps <= 7);
        assert!(!s.sprint_held);
    }
}

#[test]
fn sprint_key_does_not_stick() {
    // A fixed pseudo-random interleaving of the hook and the loop.
    let mut s = SprintState::new();
    let mut hook = HookStep::Done;
    let mut signalled = false;
    let mut step = LoopStep::AwaitSignal;
    let mut sent: Vec<KeyInput> = Vec::new();
    let mut at_rest = 0;
    let mut taken_back = false;
    let mut seed: u32 = 7;
    for _ in 0..50_000 {
        seed = seed.wrapping_mul(1_664_525).wrapping_add(1_013_904_223);
        let coin = seed & 0x1_0000 == 0;
        let mut input = None;
        if seed >> 30 == 0 {
            match hook {
                HookStep::Probe => hook = hook_step(hook, Some(coin)),
                HookStep::Update(hold) => {
                    input = update_sprint_state(&mut s, hold);
                    hook = hook_step(hook, None);
                }
                HookStep::Signal => {
                    signalled = true;
                    hook = hook_step(hook, None);
                }
                HookStep::Done => {
                    match low_level_keyboard_proc(&mut s, 0, 87, if coin { DOWN } else { UP }) {
                        HookReply::Pass => {}
                        HookReply::Pressed => hook = HookStep::Probe,
                        HookReply::Released(key) => input = key,
                    }
                }
            }
        } else if step != LoopStep::AwaitSignal || signalled {
            let observed = match step {
                LoopStep::CheckForward => Observation::Forward(s.forward_pressed),
                LoopStep::ProbeWindow => Observation::Decision(coin),
                LoopStep::ReadClock => Observation::Elapsed(seed as u128),
                LoopStep::UpdateSprint(hold) => {
                    input = update_sprint_state(&mut s, hold);
                    Observation::Done
                }
                LoopStep::ReleaseSprint => {
                    input = update_sprint_state(&mut s, false);
                    Observation::Done
                }
                LoopStep::ResetSignal => {
                    taken_back = s.forward_pressed && hook == HookStep::Done;
                    signalled = false;
                    Observation::Done
                }
                _ => Observation::Done,
            };
            step = sprint_loop(LatencyMode::Balanced, step, observed);
        }
        if let Some(key) = input {
            sent.push(key);
        }
        // The loop waits in vain only where it took back the signal of a press.
        if step == LoopStep::AwaitSignal && s.forward_pressed && hook == HookStep::Done {
            assert!(signalled || taken_back);
        }
        if step == LoopStep::AwaitSignal && !s.forward_pressed {
            at_rest += 1;
            assert!(!s.sprint_held);
            assert_eq!(sent.len() % 2, 0);
        }
    }
    assert!(at_rest > 100);
    assert!(sent.len() > 100);
}

#[test]
fn waits() {
    assert_eq!(tight_wait(64), Pause::SpinThenYield(64));
    assert_eq!(relaxed_wait(0), Pause::Yield);
    assert_eq!(relaxed_wait(1), Pause::Sleep(1));
    assert_eq!(sleep_after_yield(true), None);
    assert_eq!(sleep_after_yield(false), Some(0));
}
