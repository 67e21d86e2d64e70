use ralph::context::ContextSources;
use ralph::context::append_context;
use ralph::context::assemble_linear_context;
use ralph::context::clean_command_output;
use ralph::context::clean_snippet;
use ralph::context::collect_repo_context;
use ralph::context::first_snippet;
use ralph::context::join_blocks;
use ralph::context::linear_auth_header;
use ralph::context::manifest_candidates;
use ralph::context::prd_candidates;
use ralph::context::prepare_inference_context;
use ralph::context::progress_candidates;
use ralph::context::readme_candidates;

fn empty_sources() -> ContextSources {
    ContextSources {
        readme: Vec::new(),
        agent_files: Vec::new(),
        prd: Vec::new(),
        progress: Vec::new(),
        manifests: Vec::new(),
        linear: None,
        git_origin: None,
        git_last_commit: None,
        git_recent_commits: None,
        tracked_files: None,
        todo_markers: None,
        git_status: None,
        git_diff_stat: None,
    }
}

#[test]
fn snippet_cleaning_trims_truncates_and_drops_blanks() {
    assert_eq!(clean_snippet("  body \n", 100), Some("body".to_string()));
    assert_eq!(clean_snippet("   \n\t", 100), None);
    assert_eq!(clean_snippet(" abcdef ", 3), Some("abc\n…".to_string()));
}

#[test]
fn command_output_cleaning_drops_blank_output() {
    assert_eq!(clean_command_output(" main \n"), Some("main".to_string()));
    assert_eq!(clean_command_output("  \n"), None);
}

#[test]
fn append_context_labels_and_truncates() {
    let mut lines: Vec<String> = Vec::new();
    append_context(&mut lines, "git origin", Some("url".to_string()), 100);
    append_context(&mut lines, "skipped", None, 100);
    append_context(&mut lines, "cut", Some("abcdef".to_string()), 4);
    assert_eq!(lines, vec!["git origin:\nurl".to_string(), "cut:\nabcd\n…".to_string()]);
}

#[test]
fn first_snippet_takes_the_first_existing_candidate() {
    let cands = vec![
        ("README.md".to_string(), None),
        ("Readme.md".to_string(), Some("  \n".to_string())),
        ("readme.md".to_string(), Some(" content ".to_string())),
    ];
    let hit = first_snippet(&cands, 100).unwrap();
    assert_eq!(hit.0, "readme.md");
    assert_eq!(hit.1, "content");
    assert!(first_snippet(&Vec::new(), 100).is_none());
}

#[test]
fn join_blocks_separates_parts() {
    let parts = vec!["a".to_string(), "b".to_string(), "c".to_string()];
    assert_eq!(join_blocks(&parts, "\n\n"), "a\n\nb\n\nc");
    assert_eq!(join_blocks(&Vec::new(), "\n\n"), "");
}

#[test]
fn collect_context_minimal_sources() {
    let blob = collect_repo_context("myrepo", "/work/myrepo", &empty_sources());
    assert_eq!(blob, "repo: myrepo\n\npath: /work/myrepo\n\nLinear context: unavailable");
}

#[test]
fn collect_context_includes_each_available_source_in_order() {
    let mut s = empty_sources();
    s.readme = vec![
        ("README.md".to_string(), None),
        ("Readme.md".to_string(), Some("Hello readme".to_string())),
    ];
    s.agent_files = vec![("AGENTS.md".to_string(), Some("agent notes".to_string()))];
    s.prd = vec![("ralph/PRD.md".to_string(), Some("the prd".to_string()))];
    s.progress = vec![("progress.txt".to_string(), Some("step one".to_string()))];
    s.manifests = vec![("Cargo.toml".to_string(), Some("[package]".to_string()))];
    s.linear = Some("Linear projects (raw JSON):\n{}".to_string());
    s.git_origin = Some("git@example.com:me/myrepo.git\n".to_string());
    s.git_status = Some(" M src/lib.rs\n".to_string());
    let blob = collect_repo_context("myrepo", "/w", &s);
    let mut expected = String::new();
    expected.push_str("repo: myrepo\n\n");
    expected.push_str("path: /w\n\n");
    expected.push_str("README (Readme.md):\nHello readme\n\n");
    expected.push_str("AGENTS.md:\nagent notes\n\n");
    expected.push_str("PRD (ralph/PRD.md):\nthe prd\n\n");
    expected.push_str("Ralph progress log (progress.txt):\nstep one\n\n");
    expected.push_str("Cargo.toml:\n[package]\n\n");
    expected.push_str(
        "Linear context (use for ultimate goal if relevant):\nLinear projects (raw JSON):\n{}\n\n",
    );
    expected.push_str("git origin:\ngit@example.com:me/myrepo.git\n\n");
    expected.push_str("worktree git status (use for next action):\nM src/lib.rs");
    assert_eq!(blob, expected);
    assert_eq!(prepare_inference_context("myrepo", "/w", &s), blob);
}

#[test]
fn candidate_lists_are_in_priority_order() {
    assert_eq!(readme_candidates(), vec!["README.md", "Readme.md", "readme.md"]);
    assert_eq!(prd_candidates(), vec!["ralph/PRD.md", "PRD.md", "prd.md"]);
    assert_eq!(progress_candidates(), vec!["ralph/progress.txt", "progress.txt"]);
    assert_eq!(
        manifest_candidates(),
        vec!["Cargo.toml", "lakefile.lean", "package.json", "pyproject.toml"]
    );
}

#[test]
fn linear_blob_requires_projects() {
    assert!(assemble_linear_context(None, Some("d".to_string()), None).is_none());
    let projects = "{\"projects\":[]}".to_string();
    let blob = assemble_linear_context(Some(&projects), None, Some("{\"issues\":[]}".to_string()))
        .unwrap();
    assert_eq!(
        blob,
        "Linear projects (raw JSON):\n\n{\"projects\":[]}\n\nLinear issues (raw JSON):\n\n{\"issues\":[]}"
    );
}

#[test]
fn graphql_payload_escapes_the_query() {
    assert_eq!(
        ralph::context::graphql_payload("query { id }", "{\"first\":25}"),
        "{\"query\":\"query { id }\",\"variables\":{\"first\":25}}"
    );
    assert_eq!(
        ralph::context::json_escape("say \"hi\"\\\nnow\tok\u{1f}"),
        "say \\\"hi\\\"\\\\\\nnow\\tok\\u001f"
    );
    assert_eq!(ralph::context::json_escape("plain"), "plain");
}

#[test]
fn auth_header_keeps_personal_keys_bare() {
    assert_eq!(linear_auth_header("lin_api_abc"), "Authorization: lin_api_abc");
    assert_eq!(linear_auth_header("  lin_api_abc \n"), "Authorization: lin_api_abc");
    assert_eq!(linear_auth_header("sometoken"), "Authorization: Bearer sometoken");
    assert_eq!(linear_auth_header("Bearer sometoken"), "Authorization: Bearer sometoken");
    assert_eq!(linear_auth_header("Bearer lin_api_x"), "Authorization: lin_api_x");
}
