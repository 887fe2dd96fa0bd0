use oww_rust_core::action::{parse_action, parse_i32, Action};
use oww_rust_core::config::{MatchConfig, MatchStageConfig};
use oww_rust_core::matcher::Matcher;
use oww_rust_core::recorder::{utterance_command, Recorder};
use oww_rust_core::Chunk;

fn stage(model: &str, threshold: i64, timeout_ms: u64) -> MatchStageConfig {
    MatchStageConfig {
        model: model.to_string(),
        activation_threshold: Some(threshold),
        timeout_ms: Some(timeout_ms),
    }
}

fn two_stage_rule() -> MatchConfig {
    MatchConfig {
        chain: vec![stage("w", 500_000, 1000), stage("c", 500_000, 500)],
        action: "exit:7".to_string(),
    }
}

fn acts(entries: &[(&str, i64)]) -> Vec<(String, i64)> {
    entries.iter().map(|(n, s)| (n.to_string(), *s)).collect()
}

#[test]
fn chained_rule_fires_within_window() {
    let mut m = Matcher::new();
    m.add_rule("r".to_string(), two_stage_rule());
    // First stage matches: the rule arms, nothing fires yet.
    let out = m.eval(0, &acts(&[("w", 900_000)]));
    assert!(out.is_empty());
    // Second stage matches 200 ms later, inside the window: the action fires.
    let out = m.eval(200, &acts(&[("c", 800_000)]));
    assert_eq!(out.len(), 1);
    assert_eq!(out[0].0, "r");
    assert!(matches!(out[0].1, Action::Exit(7)));
}

#[test]
fn chained_rule_times_out_and_disarms() {
    let mut m = Matcher::new();
    m.add_rule("r".to_string(), two_stage_rule());
    assert!(m.eval(0, &acts(&[("w", 900_000)])).is_empty());
    // 600 ms of silence on the second stage: never fires.
    for t in 1..=6u64 {
        assert!(m.eval(t * 100, &acts(&[("c", 0)])).is_empty());
    }
    // The rule is idle again: a second-stage match alone does nothing.
    assert!(m.eval(700, &acts(&[("c", 900_000)])).is_empty());
    // Arming again still works.
    assert!(m.eval(800, &acts(&[("w", 900_000)])).is_empty());
    let out = m.eval(900, &acts(&[("c", 900_000)]));
    assert_eq!(out.len(), 1);
}

#[test]
fn timeout_is_strict() {
    let mut m = Matcher::new();
    m.add_rule("r".to_string(), two_stage_rule());
    assert!(m.eval(0, &acts(&[("w", 900_000)])).is_empty());
    // Exactly at the window edge the rule is still armed...
    assert!(m.eval(500, &acts(&[("c", 0)])).is_empty());
    let out = m.eval(500, &acts(&[("c", 900_000)]));
    assert_eq!(out.len(), 1, "a match at exactly timeout_ms must still fire");
}

#[test]
fn single_stage_rule_fires_immediately() {
    let mut m = Matcher::new();
    m.add_rule(
        "solo".to_string(),
        MatchConfig { chain: vec![stage("w", 500_000, 1000)], action: "exit:0".to_string() },
    );
    let out = m.eval(0, &acts(&[("w", 500_000)]));
    assert_eq!(out.len(), 1);
    assert!(matches!(out[0].1, Action::Exit(0)));
    // And it is idle again right away.
    let out = m.eval(1, &acts(&[("w", 500_000)]));
    assert_eq!(out.len(), 1);
}

#[test]
fn threshold_is_inclusive_and_first_entry_wins() {
    let mut m = Matcher::new();
    m.add_rule(
        "solo".to_string(),
        MatchConfig { chain: vec![stage("w", 500_000, 1000)], action: "exit:0".to_string() },
    );
    // Below threshold: nothing.
    assert!(m.eval(0, &acts(&[("w", 499_999)])).is_empty());
    // The first entry under the name decides; a later one is ignored.
    assert!(m.eval(1, &acts(&[("w", 100_000), ("w", 900_000)])).is_empty());
}

#[test]
fn stage_defaults_apply() {
    let c = MatchStageConfig { model: "w".to_string(), activation_threshold: None, timeout_ms: None };
    assert_eq!(c.threshold_or_default(), 500_000);
    assert_eq!(c.timeout_or_default(), 3200);
    // A rule built on the defaults matches a score of exactly one half.
    let mut m = Matcher::new();
    m.add_rule(
        "d".to_string(),
        MatchConfig {
            chain: vec![
                MatchStageConfig {
                    model: "w".to_string(),
                    activation_threshold: None,
                    timeout_ms: None,
                },
            ],
            action: "exit:1".to_string(),
        },
    );
    assert_eq!(m.eval(0, &acts(&[("w", 500_000)])).len(), 1);
}

#[test]
fn parse_action_exit_codes() {
    assert!(matches!(parse_action("exit:7"), Action::Exit(7)));
    assert!(matches!(parse_action("exit"), Action::Exit(0)));
    assert!(matches!(parse_action("exit:"), Action::Exit(0)));
    assert!(matches!(parse_action("exit:junk"), Action::Exit(0)));
    assert!(matches!(parse_action("exit:-5"), Action::Exit(-5)));
    assert!(matches!(parse_action("exit:99999999999999999999"), Action::Exit(0)));
    assert!(matches!(parse_action("exit:7:9"), Action::Exit(7)));
}

#[test]
fn parse_action_spawn_and_ignore() {
    match parse_action("exec:run.sh:a:b") {
        Action::Spawn { program, args } => {
            assert_eq!(program, "./run.sh");
            assert_eq!(args, vec!["a".to_string(), "b".to_string()]);
        },
        _ => panic!("expected a spawn action"),
    }
    match parse_action("exec:notify.sh") {
        Action::Spawn { program, args } => {
            assert_eq!(program, "./notify.sh");
            assert!(args.is_empty());
        },
        _ => panic!("expected a spawn action"),
    }
    assert!(matches!(parse_action("exec"), Action::Ignore));
    assert!(matches!(parse_action("beep loudly"), Action::Ignore));
    assert!(matches!(parse_action(""), Action::Ignore));
}

#[test]
fn parse_i32_matches_the_standard_parser() {
    for s in ["123", "-2147483648", "2147483647", "+42", "007", "0", "-0"] {
        assert_eq!(parse_i32(s), s.parse::<i32>().ok(), "on {:?}", s);
    }
    for s in ["", "-", "+", "1a", "a1", "2147483648", "-2147483649", " 1", "1 "] {
        assert_eq!(parse_i32(s), s.parse::<i32>().ok(), "on {:?}", s);
    }
}

#[test]
fn recorder_starts_on_wakeword_and_stops_on_silence() {
    let mut r = Recorder::new(Some("w".to_string()));
    // Not loud enough: the tap is to be drained.
    assert!(r.observe_activations(&acts(&[("w", 600_000)])));
    // Strictly above the trigger: recording starts.
    assert!(!r.observe_activations(&acts(&[("w", 600_001)])));
    // While recording, activations no longer ask for draining.
    assert!(!r.observe_activations(&acts(&[("w", 0)])));
    r.append_chunk(&Chunk::<4>::new(0, vec![1, 2, 3, 4]));
    r.append_chunk(&Chunk::<4>::new(1, vec![5, 6, 7, 8]));
    // Last activity 8 s, now 10 s: not yet silent for more than 2 s.
    assert!(r.check_silence(10, 8).is_none());
    // Last activity 7 s, now 10 s: stop and hand the samples out.
    let samples = r.check_silence(10, 7).expect("recording must stop");
    assert_eq!(samples, vec![1, 2, 3, 4, 5, 6, 7, 8]);
    // Idle again.
    assert!(r.check_silence(20, 0).is_none());
}

#[test]
fn recorder_without_wakeword_never_records() {
    let mut r = Recorder::new(None);
    assert!(!r.observe_activations(&acts(&[("w", 900_000)])));
    assert!(r.check_silence(100, 0).is_none());
}

#[test]
fn utterance_command_inserts_file_name() {
    let cmd = "notify-send 'utterance ready'".to_string();
    let fname = "/tmp/utterance_1.wav".to_string();
    let (program, args) = utterance_command(&cmd, &fname).expect("well-formed command");
    assert_eq!(program, "notify-send");
    assert_eq!(args, vec!["/tmp/utterance_1.wav".to_string(), "utterance ready".to_string()]);
}

#[test]
fn utterance_command_rejects_bad_quoting_and_empty() {
    let fname = "f.wav".to_string();
    assert!(utterance_command(&"prog 'unclosed".to_string(), &fname).is_none());
    assert!(utterance_command(&"".to_string(), &fname).is_none());
}
