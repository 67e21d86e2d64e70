use ralph::invoker::build_codex_invocation;
use ralph::invoker::build_generic_invocation;
use ralph::invoker::build_sdk_invocation;
use ralph::invoker::ensure_runner;
use ralph::invoker::has_arg;
use ralph::invoker::prefer_last_message;
use ralph::runner::RalphError;

#[test]
fn codex_invocation_builds_the_exact_argument_list() {
    let req = build_codex_invocation(
        "PROMPT",
        "gpt-5.2-codex",
        "xhigh",
        &Vec::new(),
        false,
        true,
        false,
        None,
        None,
        true,
        "/tmp/last-message.txt",
        0,
    );
    assert_eq!(req.program, "codex");
    let expected = vec![
        "--model",
        "gpt-5.2-codex",
        "-c",
        "model_reasoning_effort=xhigh",
        "--dangerously-bypass-approvals-and-sandbox",
        "exec",
        "--json",
        "--output-last-message",
        "/tmp/last-message.txt",
        "-",
    ];
    assert_eq!(req.args, expected);
    assert_eq!(req.input.as_deref(), Some("PROMPT"));
    assert!(!req.capture_stdout);
    assert!(req.capture_stderr);
    assert_eq!(req.timeout_secs, 0);
}

#[test]
fn codex_invocation_resume_and_specialization() {
    let req = build_codex_invocation(
        "P",
        "",
        "",
        &vec!["--extra-flag".to_string()],
        true,
        false,
        false,
        Some("sess-1"),
        Some("rust"),
        false,
        "/tmp/out",
        30,
    );
    let expected = vec![
        "-c",
        "specialization=rust",
        "--full-auto",
        "exec",
        "--output-last-message",
        "/tmp/out",
        "resume",
        "sess-1",
        "--extra-flag",
        "-",
    ];
    assert_eq!(req.args, expected);
    assert!(req.capture_stdout);
    assert_eq!(req.timeout_secs, 30);
}

#[test]
fn generic_invocation_passes_the_prompt_as_a_flag_value() {
    let req = build_generic_invocation("agentcli", "m", "-p", "PROMPT", &Vec::new(), 0);
    assert_eq!(req.program, "agentcli");
    assert_eq!(req.args, vec!["--model", "m", "-p", "PROMPT"]);
    assert!(req.input.is_none());
    assert!(req.capture_stdout);
    assert!(req.capture_stderr);

    let extra = vec!["--verbose".to_string()];
    let req2 = build_generic_invocation("agentcli", "", "--prompt", "X", &extra, 7);
    assert_eq!(req2.args, vec!["--verbose", "--prompt", "X"]);
    assert_eq!(req2.timeout_secs, 7);
}

#[test]
fn sdk_invocation_delegates_to_the_runtime() {
    let req = build_sdk_invocation("/tmp/prompt.txt", "m", "high", None, 24, 0);
    assert_eq!(req.program, "uv");
    let expected = vec![
        "run",
        "python",
        "scripts/ralph_agent.py",
        "--prompt-file",
        "/tmp/prompt.txt",
        "--model",
        "m",
        "--max-turns",
        "24",
        "--reasoning-effort",
        "high",
    ];
    assert_eq!(req.args, expected);
    let req2 = build_sdk_invocation("/p", "m", "e", Some("sec"), 3, 9);
    assert_eq!(req2.args[11], "--specialization");
    assert_eq!(req2.args[12], "sec");
    assert_eq!(req2.timeout_secs, 9);
}

#[test]
fn has_arg_is_exact_membership() {
    let args = vec!["--a".to_string(), "--b".to_string()];
    assert!(has_arg(&args, "--a"));
    assert!(!has_arg(&args, "--c"));
    assert!(!has_arg(&Vec::new(), "--a"));
}

#[test]
fn ensure_runner_fails_fast_when_not_found() {
    assert!(ensure_runner("codex", true).is_ok());
    match ensure_runner("codex", false) {
        Err(RalphError::RunnerNotFound(name)) => {
            assert_eq!(name, "codex");
        },
        _ => panic!("expected a runner-not-found error"),
    }
    let err = ensure_runner("codex", false).unwrap_err();
    assert_eq!(err.message(), "Runner not found: codex");
}

#[test]
fn scratch_file_names_carry_prefix_and_timestamp() {
    assert_eq!(
        ralph::invoker::temp_file_name("ralph-prompt", 1700000000123),
        "ralph-prompt-1700000000123.txt"
    );
}

#[test]
fn side_channel_message_wins_over_captured_output_when_not_blank() {
    let captured: Vec<u8> = b"raw events".to_vec();
    assert_eq!(prefer_last_message(captured.clone(), Some("final answer")), b"final answer");
    assert_eq!(prefer_last_message(captured.clone(), Some("  \n")), b"raw events");
    assert_eq!(prefer_last_message(captured, None), b"raw events");
}
