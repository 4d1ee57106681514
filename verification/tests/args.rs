use autosprint_mcbe::args::{parse_latency_mode_from_args, print_usage};
use autosprint_mcbe::latency::LatencyMode;

fn parse(args: &[&str]) -> (Option<LatencyMode>, Vec<String>) {
    let args: Vec<String> = args.iter().map(|a| a.to_string()).collect();
    let r = parse_latency_mode_from_args(&args);
    (r.mode, r.notices.iter().map(|n| n.text()).collect())
}

const USAGE: &str = "Usage: autosprint-mcbe.exe [--latency balanced|ultra]\n  --latency balanced    Default mode, lower CPU usage\n  --latency ultra       Most aggressive low-latency mode";

#[test]
fn no_arguments_mean_balanced() {
    assert_eq!(parse(&[]), (Some(LatencyMode::Balanced), vec![]));
}

#[test]
fn latency_takes_the_next_argument() {
    assert_eq!(parse(&["--latency", "balanced"]), (Some(LatencyMode::Balanced), vec![]));
    assert_eq!(parse(&["--latency", "ultra"]), (Some(LatencyMode::Ultra), vec![]));
    assert_eq!(parse(&["--latency", "Ultra"]), (Some(LatencyMode::Ultra), vec![]));
}

#[test]
fn latency_takes_what_follows_the_equals_sign() {
    assert_eq!(parse(&["--latency=ultra"]), (Some(LatencyMode::Ultra), vec![]));
    assert_eq!(
        parse(&["--latency=ultra=1"]),
        (None, vec!["Error: invalid --latency value 'ultra=1'. Use balanced or ultra.".to_string()])
    );
    assert_eq!(
        parse(&["--latency="]),
        (None, vec!["Error: invalid --latency value ''. Use balanced or ultra.".to_string()])
    );
}

#[test]
fn both_forms_of_the_option_agree() {
    for name in ["balanced", "ultra", "ULTRA", "fast", "", "--help"] {
        let joined = format!("--latency={name}");
        assert_eq!(parse(&["--latency", name, "x"]), parse(&[joined.as_str(), "x"]));
    }
}

#[test]
fn last_choice_counts() {
    assert_eq!(
        parse(&["--latency", "ultra", "--latency=balanced"]),
        (Some(LatencyMode::Balanced), vec![])
    );
    assert_eq!(
        parse(&["--latency=balanced", "--latency", "ultra"]),
        (Some(LatencyMode::Ultra), vec![])
    );
}

#[test]
fn help_prints_the_usage_and_stops() {
    assert_eq!(parse(&["--help"]), (None, vec![USAGE.to_string()]));
    assert_eq!(parse(&["-h", "--latency", "fast"]), (None, vec![USAGE.to_string()]));
    assert_eq!(print_usage(), USAGE);
    let r = parse_latency_mode_from_args(&["-h".to_string()]);
    assert!(r.notices[0].is_usage());
}

#[test]
fn help_may_be_a_value() {
    assert_eq!(
        parse(&["--latency", "--help"]),
        (None, vec!["Error: invalid --latency value '--help'. Use balanced or ultra.".to_string()])
    );
}

#[test]
fn missing_value_stops() {
    assert_eq!(
        parse(&["--latency"]),
        (None, vec!["Error: missing value for --latency. Use balanced or ultra.".to_string()])
    );
    assert_eq!(
        parse(&["--latency", "ultra", "--latency"]),
        (None, vec!["Error: missing value for --latency. Use balanced or ultra.".to_string()])
    );
}

#[test]
fn unknown_arguments_are_ignored_with_a_warning() {
    assert_eq!(
        parse(&["fast", "--latency", "ultra", "--Help"]),
        (
            Some(LatencyMode::Ultra),
            vec![
                "Warning: unknown argument 'fast' ignored.".to_string(),
                "Warning: unknown argument '--Help' ignored.".to_string(),
            ]
        )
    );
    let r = parse_latency_mode_from_args(&["fast".to_string()]);
    assert!(!r.notices[0].is_usage());
}

#[test]
fn warnings_come_before_the_reason_to_stop() {
    assert_eq!(
        parse(&["a", "b", "--latency=c", "d"]),
        (
            None,
            vec![
                "Warning: unknown argument 'a' ignored.".to_string(),
                "Warning: unknown argument 'b' ignored.".to_string(),
                "Error: invalid --latency value 'c'. Use balanced or ultra.".to_string(),
            ]
        )
    );
}

#[test]
fn decision_needs_no_further_arguments() {
    let wants_more = |args: &[&str]| {
        let args: Vec<String> = args.iter().map(|a| a.to_string()).collect();
        parse_latency_mode_from_args(&args).wants_more()
    };
    assert!(wants_more(&[]));
    assert!(wants_more(&["x"]));
    assert!(wants_more(&["--latency"]));
    assert!(wants_more(&["x", "--latency"]));
    assert!(wants_more(&["--latency", "ultra"]));
    for decided in [&["--help"][..], &["x", "-h"], &["--latency", "fast"], &["--latency=fast"]] {
        assert!(!wants_more(decided));
        let mut longer = decided.to_vec();
        longer.extend(["--latency", "ultra", "y"]);
        assert_eq!(parse(&longer), parse(decided));
    }
}

#[test]
fn warnings_stay() {
    let all = ["a", "b", "--latency", "ultra", "c", "--help", "d"];
    let (_, last) = parse(&all);
    for n in 0..all.len() {
        let args: Vec<String> = all[..n].iter().map(|a| a.to_string()).collect();
        let r = parse_latency_mode_from_args(&args);
        for (i, notice) in r.notices.iter().enumerate() {
            if notice.is_warning() {
                assert_eq!(notice.text(), last[i]);
            }
        }
    }
    assert_eq!(last.len(), 4);
}
