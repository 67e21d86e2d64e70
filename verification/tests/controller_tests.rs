use ralph::controller::InvocationOutcome;
use ralph::controller::IterationInput;
use ralph::controller::LoopConfig;
use ralph::controller::LoopOutcome;
use ralph::controller::RunEnd;
use ralph::controller::StopReason;
use ralph::controller::drive_loop;
use ralph::controller::evaluate_iteration;
use ralph::controller::format_log_record;
use ralph::controller::make_record;
use ralph::controller::runtime_exceeded;
use ralph::controller::stdout_has_token;
use ralph::controller::stop_reason_message;
use ralph::runner::InvocationResult;

fn config(iterations: u32, max_seconds: u64) -> LoopConfig {
    LoopConfig {
        iterations,
        sleep_secs: 0,
        max_seconds,
        stop_token: "__RALPH_DONE__".to_string(),
        log_enabled: true,
    }
}

fn ok_result(stdout: &[u8]) -> InvocationResult {
    InvocationResult { success: true, code: Some(0), stdout: stdout.to_vec(), stderr: Vec::new() }
}

fn completed(elapsed: u64, ts: u64, result: InvocationResult) -> IterationInput {
    IterationInput { elapsed_secs: elapsed, timestamp: ts, outcome: InvocationOutcome::Completed(result) }
}

#[test]
fn runtime_budget_is_checked_only_when_configured() {
    assert!(!runtime_exceeded(&config(3, 0), 10_000));
    assert!(!runtime_exceeded(&config(3, 5), 4));
    assert!(runtime_exceeded(&config(3, 5), 5));
    assert!(runtime_exceeded(&config(3, 5), 10));
}

#[test]
fn stop_token_is_a_pure_substring_test() {
    let cfg = config(3, 0);
    assert!(stdout_has_token(&cfg, &b"noise __RALPH_DONE__ more noise".to_vec()));
    assert!(stdout_has_token(&cfg, &b"__RALPH_DONE__".to_vec()));
    assert!(!stdout_has_token(&cfg, &b"__RALPH_DONE_ incomplete".to_vec()));
    assert!(!stdout_has_token(&cfg, &Vec::new()));
}

#[test]
fn iteration_outcomes_follow_the_priority_order() {
    let cfg = config(3, 0);
    let failed = InvocationResult {
        success: false,
        code: Some(2),
        stdout: b"__RALPH_DONE__".to_vec(),
        stderr: Vec::new(),
    };
    assert!(matches!(evaluate_iteration(&cfg, 1, &failed), LoopOutcome::Fatal(2)));
    let signalled = InvocationResult { success: false, code: None, stdout: Vec::new(), stderr: Vec::new() };
    assert!(matches!(evaluate_iteration(&cfg, 1, &signalled), LoopOutcome::Fatal(1)));
    assert!(matches!(
        evaluate_iteration(&cfg, 1, &ok_result(b"done: __RALPH_DONE__")),
        LoopOutcome::Stop(StopReason::CompletionToken)
    ));
    assert!(matches!(evaluate_iteration(&cfg, 1, &ok_result(b"")), LoopOutcome::Continue));
    assert!(matches!(
        evaluate_iteration(&cfg, 3, &ok_result(b"")),
        LoopOutcome::Stop(StopReason::MaxIterations)
    ));
}

#[test]
fn log_record_serialization_is_exact() {
    let result = InvocationResult {
        success: true,
        code: Some(0),
        stdout: b"out".to_vec(),
        stderr: Vec::new(),
    };
    let record = make_record(2, 1700000000, &result);
    let bytes = format_log_record(&record);
    let expected = format!(
        "[iteration 2] 1700000000\n\n[stdout]\nout\n[exit-code] Some(0)\n\n{}\n",
        "-".repeat(80)
    );
    assert_eq!(bytes, expected.as_bytes());
}

#[test]
fn log_record_includes_stderr_and_signal_exits() {
    let result = InvocationResult {
        success: false,
        code: None,
        stdout: Vec::new(),
        stderr: b"boom".to_vec(),
    };
    let record = make_record(7, 5, &result);
    let bytes = format_log_record(&record);
    let expected = format!(
        "[iteration 7] 5\n\n[stderr]\nboom\n[exit-code] None\n\n{}\n",
        "-".repeat(80)
    );
    assert_eq!(bytes, expected.as_bytes());
}

#[test]
fn stop_messages_match_the_original_wording() {
    assert_eq!(stop_reason_message(&StopReason::MaxRuntime, 300), "reached max runtime (300s)");
    assert_eq!(stop_reason_message(&StopReason::RunnerTimedOut, 0), "runner timed out");
    assert_eq!(stop_reason_message(&StopReason::CompletionToken, 0), "completion token detected");
    assert_eq!(stop_reason_message(&StopReason::MaxIterations, 0), "reached max iterations");
}

#[test]
fn three_clean_iterations_stop_at_max_iterations() {
    let cfg = config(3, 0);
    let inputs = vec![
        completed(0, 11, ok_result(b"one")),
        completed(0, 12, ok_result(b"two")),
        completed(0, 13, ok_result(b"three")),
    ];
    let run = drive_loop(&cfg, &inputs);
    assert!(matches!(run.end, Some(RunEnd::Stopped(StopReason::MaxIterations))));
    assert_eq!(run.records.len(), 3);
    for (k, record) in run.records.iter().enumerate() {
        assert_eq!(record.iteration as usize, k + 1);
    }
    assert_eq!(run.records[0].timestamp, 11);
    assert_eq!(run.records[2].stdout, b"three");
}

#[test]
fn runtime_budget_fires_before_the_next_iteration() {
    let cfg = config(10, 5);
    let inputs = vec![
        completed(0, 1, ok_result(b"slow call")),
        completed(10, 2, ok_result(b"never reached")),
        completed(10, 3, ok_result(b"")),
        completed(10, 4, ok_result(b"")),
        completed(10, 5, ok_result(b"")),
        completed(10, 6, ok_result(b"")),
        completed(10, 7, ok_result(b"")),
        completed(10, 8, ok_result(b"")),
        completed(10, 9, ok_result(b"")),
        completed(10, 10, ok_result(b"")),
    ];
    let run = drive_loop(&cfg, &inputs);
    assert!(matches!(run.end, Some(RunEnd::Stopped(StopReason::MaxRuntime))));
    assert_eq!(run.records.len(), 1);
}

#[test]
fn a_non_zero_exit_on_iteration_two_is_fatal_and_logged() {
    let cfg = config(5, 0);
    let failing = InvocationResult {
        success: false,
        code: Some(2),
        stdout: Vec::new(),
        stderr: b"agent error".to_vec(),
    };
    let inputs = vec![
        completed(0, 1, ok_result(b"fine")),
        completed(0, 2, failing),
        completed(0, 3, ok_result(b"never runs")),
        completed(0, 4, ok_result(b"")),
        completed(0, 5, ok_result(b"")),
    ];
    let run = drive_loop(&cfg, &inputs);
    assert!(matches!(run.end, Some(RunEnd::RunnerFailed(2))));
    assert_eq!(run.records.len(), 2);
    assert_eq!(run.records[0].iteration, 1);
    assert_eq!(run.records[1].iteration, 2);
    assert_eq!(run.records[1].code, Some(2));
}

#[test]
fn the_stop_token_halts_the_loop_on_its_iteration() {
    let cfg = config(5, 0);
    let inputs = vec![
        completed(0, 1, ok_result(b"working")),
        completed(0, 2, ok_result(b"all done __RALPH_DONE__ bye")),
        completed(0, 3, ok_result(b"never runs")),
        completed(0, 4, ok_result(b"")),
        completed(0, 5, ok_result(b"")),
    ];
    let run = drive_loop(&cfg, &inputs);
    assert!(matches!(run.end, Some(RunEnd::Stopped(StopReason::CompletionToken))));
    assert_eq!(run.records.len(), 2);
}

#[test]
fn a_timed_out_invocation_stops_without_a_record() {
    let cfg = config(2, 0);
    let inputs = vec![
        IterationInput { elapsed_secs: 0, timestamp: 1, outcome: InvocationOutcome::TimedOut },
        completed(0, 2, ok_result(b"")),
    ];
    let run = drive_loop(&cfg, &inputs);
    assert!(matches!(run.end, Some(RunEnd::Stopped(StopReason::RunnerTimedOut))));
    assert_eq!(run.records.len(), 0);
}

#[test]
fn a_zero_iteration_budget_runs_nothing() {
    let cfg = config(0, 0);
    let run = drive_loop(&cfg, &Vec::new());
    assert!(run.end.is_none());
    assert_eq!(run.records.len(), 0);
}

#[test]
fn logging_can_be_disabled() {
    let mut cfg = config(2, 0);
    cfg.log_enabled = false;
    let inputs = vec![completed(0, 1, ok_result(b"")), completed(0, 2, ok_result(b""))];
    let run = drive_loop(&cfg, &inputs);
    assert!(matches!(run.end, Some(RunEnd::Stopped(StopReason::MaxIterations))));
    assert_eq!(run.records.len(), 0);
}

#[test]
fn a_failed_invocation_is_distinct_from_a_timeout() {
    let cfg = config(2, 0);
    let inputs = vec![
        IterationInput { elapsed_secs: 0, timestamp: 1, outcome: InvocationOutcome::Failed },
        completed(0, 2, ok_result(b"")),
    ];
    let run = drive_loop(&cfg, &inputs);
    assert!(matches!(run.end, Some(RunEnd::InvocationFailed)));
    assert_eq!(run.records.len(), 0);
}
