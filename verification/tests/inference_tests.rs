use ralph::inference::accept_proposal_field;
use ralph::inference::build_inference_prompt;
use ralph::inference::extract_json_block;
use ralph::inference::infer_goal_with_codex;
use ralph::inference::infer_goal_with_sdk;
use ralph::inference::parse_goal_payload;

#[test]
fn fenced_block_is_preferred() {
    let out = "```json\n{\"a\":1}\n```";
    assert_eq!(extract_json_block(out), Some("{\"a\":1}".to_string()));
    let unclosed = "```\nline one\nline two";
    assert_eq!(extract_json_block(unclosed), Some("line one\nline two".to_string()));
}

#[test]
fn brace_span_is_the_fallback() {
    assert_eq!(
        extract_json_block("noise {\"a\": 1} trailing"),
        Some("{\"a\": 1}".to_string())
    );
    assert_eq!(
        extract_json_block("{\"a\":{\"b\":2}} and {\"c\":3}"),
        Some("{\"a\":{\"b\":2}} and {\"c\":3}".to_string())
    );
}

#[test]
fn malformed_output_yields_nothing() {
    assert_eq!(extract_json_block("no braces at all"), None);
    assert_eq!(extract_json_block("} reversed {"), None);
    assert_eq!(extract_json_block(""), None);
    assert_eq!(extract_json_block("```\n\n```"), None);
}

#[test]
fn field_acceptance_trims_and_rejects_blanks() {
    assert_eq!(accept_proposal_field(Some(" v ".to_string())), Some("v".to_string()));
    assert_eq!(accept_proposal_field(Some("  ".to_string())), None);
    assert_eq!(accept_proposal_field(None), None);
}

#[test]
fn fenced_payload_parses_to_the_exact_proposal() {
    let out = "```json\n{\"ultimate_goal\":\"Ship v1\",\"next_action\":\"Write tests\"}\n```";
    let (goal, next) = parse_goal_payload(out).unwrap();
    assert_eq!(goal, "Ship v1");
    assert_eq!(next, "Write tests");
}

#[test]
fn parsing_twice_yields_the_same_proposal() {
    let out = "text {\"ultimate_goal\":\" G \",\"next_action\":\"N\"} tail";
    let first = parse_goal_payload(out);
    let second = parse_goal_payload(out);
    assert_eq!(first, second);
    assert_eq!(first, Some(("G".to_string(), "N".to_string())));
}

#[test]
fn the_short_goal_key_is_accepted() {
    let out = "{\"goal\":\"G\",\"next_action\":\"N\"}";
    assert_eq!(parse_goal_payload(out), Some(("G".to_string(), "N".to_string())));
}

#[test]
fn incomplete_payloads_never_yield_a_partial_proposal() {
    assert_eq!(parse_goal_payload("{\"ultimate_goal\":\"G\"}"), None);
    assert_eq!(parse_goal_payload("{\"next_action\":\"N\"}"), None);
    assert_eq!(parse_goal_payload("{\"ultimate_goal\":\"  \",\"next_action\":\"N\"}"), None);
    assert_eq!(parse_goal_payload("{\"ultimate_goal\":7,\"next_action\":\"N\"}"), None);
    assert_eq!(parse_goal_payload("{\"ultimate_goal\":\"G\",\"next_action\":"), None);
    assert_eq!(parse_goal_payload("not json at all"), None);
}

#[test]
fn inference_prompt_embeds_context_feedback_and_previous() {
    let plain = build_inference_prompt("CTX", None, None);
    assert!(plain.starts_with("You are a repo analyst."));
    assert!(plain.ends_with("Context:\nCTX"));
    let previous = ("old goal".to_string(), "old action".to_string());
    let full = build_inference_prompt("CTX", Some("do better"), Some(&previous));
    assert!(full.contains("\n\nPrevious proposal:\n- ultimate_goal: old goal\n- next_action: old action\n"));
    assert!(full.ends_with("\n\nUser feedback:\ndo better\n"));
}

#[test]
fn codex_inference_invocation_carries_the_prompt() {
    let req = infer_goal_with_codex("CTX", "m", "e", true, None, None, None, 0, true, "/tmp/o");
    assert_eq!(req.program, "codex");
    let prompt = req.input.unwrap();
    assert!(prompt.contains("Context:\nCTX"));
    assert!(req.args.contains(&"--json".to_string()));
    assert!(!req.capture_stdout);
}

#[test]
fn sdk_inference_invocation_reads_the_prompt_from_a_file() {
    let (prompt, req) = infer_goal_with_sdk("CTX", "m", "e", None, None, None, 24, 0, "/tmp/p");
    assert!(prompt.ends_with("Context:\nCTX"));
    assert_eq!(req.program, "uv");
    assert!(req.args.contains(&"--prompt-file".to_string()));
    assert!(req.args.contains(&"/tmp/p".to_string()));
    assert!(req.input.is_none());
}
