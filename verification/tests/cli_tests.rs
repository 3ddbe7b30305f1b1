use lib::cli::{run_cmd, shutdown_signal_name, SignalState, SHUTDOWN_SIGINT, SHUTDOWN_SIGTERM};

#[test]
fn deterministic_replay_requires_replay_input() {
    let err = run_cmd(vec!["--deterministic-replay".to_string()])
        .expect_err("deterministic replay must not run against live tracefs");

    assert!(err.contains("--deterministic-replay requires --replay"));
    assert!(err.contains("live tracefs output is not made deterministic"));
}

#[test]
fn reload_signal_is_observed_once() {
    let mut signals = SignalState::new();
    signals.reset_shutdown_signal_for_run();

    signals.note_reload_signal();

    assert!(signals.observe_reload_signal());
    assert!(!signals.observe_reload_signal());
}

#[test]
fn run_options_are_read_in_any_order() {
    let opts = run_cmd(vec![
        "--queue".to_string(),
        "0".to_string(),
        "--replay".to_string(),
        "trace.txt".to_string(),
        "--deterministic-replay".to_string(),
        "--quiet".to_string(),
    ])
    .unwrap();
    assert_eq!(opts.queue, 1);
    assert_eq!(opts.replay.as_deref(), Some("trace.txt"));
    assert!(opts.quiet);
    assert_eq!(opts.tracefs_root, "/sys/kernel/tracing");
    assert_eq!(opts.listen, "127.0.0.1:9108");
}

#[test]
fn run_options_report_bad_arguments() {
    assert_eq!(
        run_cmd(vec!["--bogus".to_string()]).unwrap_err(),
        "unknown run option '--bogus'"
    );
    assert_eq!(
        run_cmd(vec!["--jsonl".to_string()]).unwrap_err(),
        "--jsonl requires value"
    );
    assert_eq!(
        run_cmd(vec!["--queue".to_string(), "x".to_string()]).unwrap_err(),
        "invalid --queue"
    );
}

#[test]
fn first_shutdown_signal_kind_is_kept() {
    let mut signals = SignalState::new();
    signals.note_shutdown_signal(SHUTDOWN_SIGTERM);
    signals.note_shutdown_signal(SHUTDOWN_SIGINT);
    assert_eq!(signals.shutdown_kind, SHUTDOWN_SIGTERM);
    assert!(signals.shutdown_received);
    assert_eq!(shutdown_signal_name(signals.shutdown_kind), "SIGTERM");
}
