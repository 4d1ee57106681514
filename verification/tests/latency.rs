use autosprint_mcbe::latency::LatencyMode;

#[test]
fn modes_are_found_by_name_in_any_case() {
    assert_eq!(LatencyMode::from_str("balanced"), Some(LatencyMode::Balanced));
    assert_eq!(LatencyMode::from_str("ultra"), Some(LatencyMode::Ultra));
    assert_eq!(LatencyMode::from_str("BaLaNcEd"), Some(LatencyMode::Balanced));
    assert_eq!(LatencyMode::from_str("ULTRA"), Some(LatencyMode::Ultra));
}

#[test]
fn other_names_are_no_modes() {
    assert_eq!(LatencyMode::from_str(""), None);
    assert_eq!(LatencyMode::from_str("ultr"), None);
    assert_eq!(LatencyMode::from_str("ultra "), None);
    assert_eq!(LatencyMode::from_str("\u{fc}ltra"), None);
    assert_eq!(LatencyMode::from_str("balan\u{e7}ed"), None);
}

#[test]
fn mode_names_round_trip() {
    for mode in [LatencyMode::Balanced, LatencyMode::Ultra] {
        assert_eq!(LatencyMode::from_str(mode.as_str()), Some(mode));
    }
    assert_eq!(LatencyMode::Balanced.as_str(), "balanced");
    assert_eq!(LatencyMode::Ultra.as_str(), "ultra");
}

#[test]
fn figures_of_the_modes() {
    assert_eq!(LatencyMode::Balanced.burst_ms(), 25);
    assert_eq!(LatencyMode::Balanced.spin_iters(), 64);
    assert_eq!(LatencyMode::Balanced.post_burst_sleep_ms(), 1);
    assert_eq!(LatencyMode::Ultra.burst_ms(), 90);
    assert_eq!(LatencyMode::Ultra.spin_iters(), 256);
    assert_eq!(LatencyMode::Ultra.post_burst_sleep_ms(), 0);
}

#[test]
fn ultra_beats_every_mode() {
    for mode in [LatencyMode::Balanced, LatencyMode::Ultra] {
        assert!(mode.burst_ms() <= LatencyMode::Ultra.burst_ms());
        assert!(mode.spin_iters() <= LatencyMode::Ultra.spin_iters());
        assert!(mode.post_burst_sleep_ms() >= LatencyMode::Ultra.post_burst_sleep_ms());
    }
}
