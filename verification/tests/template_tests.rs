use ralph::runner::RalphError;
use ralph::runner::finish_invocation;
use ralph::runner::ExitInfo;
use ralph::template::default_template_content;
use ralph::template::initial_prd_content;
use ralph::template::initial_progress_content;
use ralph::template::materialize_template;
use ralph::template::render_prompt;
use ralph::template::with_extra;

#[test]
fn default_template_carries_all_placeholders() {
    let t = default_template_content();
    assert!(t.starts_with("# [Ralph] {{GOAL}}\n"));
    assert!(t.contains("## Ultimate Goal (North Star)\n{{GOAL}}\n"));
    assert!(t.contains("## Proposed Next Action (Confirm Alignment)\n{{NEXT_ACTION}}\n"));
    assert!(t.contains("{{PRD}}"));
    assert!(t.contains("{{PROGRESS}}"));
    assert!(t.ends_with("4) Start the first actionable task.\n"));
}

#[test]
fn rendering_substitutes_path_references() {
    let rendered = render_prompt(
        "Read {{PRD}} then log to {{PROGRESS}}.",
        "ralph/PRD.md",
        "ralph/progress.txt",
    );
    assert_eq!(rendered, "Read @ralph/PRD.md then log to @ralph/progress.txt.");
}

#[test]
fn materialization_fills_goal_and_next_action() {
    let filled = materialize_template("Ship v1", "Write tests");
    assert!(filled.contains("# [Ralph] Goal: Ship v1\n"));
    assert!(filled.contains("## Ultimate Goal (North Star)\nGoal: Ship v1\n"));
    assert!(filled.contains("## Proposed Next Action (Confirm Alignment)\nWrite tests\n"));
    let unspecified = materialize_template("", "");
    assert!(unspecified.contains("Goal: (unspecified) — infer from repo"));
    assert!(unspecified.contains("Next action: (unspecified)"));
}

#[test]
fn initial_file_contents() {
    assert_eq!(
        initial_prd_content("myrepo", "Ship v1", "Write tests"),
        "# myrepo PRD\n\nGoal: Ship v1\n\nNext action: Write tests\n"
    );
    assert_eq!(
        initial_prd_content("myrepo", "", ""),
        "# myrepo PRD\n\nGoal: (unspecified)\n\nNext action: (unspecified)\n"
    );
    assert_eq!(
        initial_progress_content("myrepo"),
        "Initialized Ralph progress log for myrepo.\n"
    );
}

#[test]
fn extra_instructions_are_prepended_when_not_blank() {
    assert_eq!(with_extra("P".to_string(), Some("extra")), "extra\n\nP");
    assert_eq!(with_extra("P".to_string(), Some("  \n")), "P");
    assert_eq!(with_extra("P".to_string(), None), "P");
}

#[test]
fn fatal_errors_reference_the_exit_code() {
    assert_eq!(RalphError::RunnerFailed(2).message(), "Runner exited with code 2");
    assert_eq!(RalphError::RunnerFailed(-11).message(), "Runner exited with code -11");
    assert_eq!(RalphError::InferenceFailed.message(), "Inference failed");
}

#[test]
fn a_missing_wait_result_is_a_distinct_timeout_error() {
    let timed_out = finish_invocation(None, b"partial".to_vec(), Vec::new());
    assert!(matches!(timed_out, Err(RalphError::TimedOut)));
    assert_eq!(timed_out.unwrap_err().message(), "Runner timed out");
    let done = finish_invocation(
        Some(ExitInfo { success: false, code: Some(3) }),
        b"out".to_vec(),
        b"err".to_vec(),
    )
    .unwrap();
    assert!(!done.success);
    assert_eq!(done.code, Some(3));
    assert_eq!(done.stdout, b"out");
    assert_eq!(done.stderr, b"err");
}
