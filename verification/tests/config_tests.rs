use ralph::config::ensure_mcp_entry;
use ralph::config::extract_config_token;
use ralph::config::first_nonempty_trimmed;
use ralph::config::parse_mcp_servers;
use ralph::config::split_lines;
use ralph::config::str_le;

#[test]
fn lines_split_like_the_standard_iterator() {
    assert_eq!(split_lines("a\nb\nc"), vec!["a", "b", "c"]);
    assert_eq!(split_lines("a\nb\n"), vec!["a", "b"]);
    assert_eq!(split_lines("a\r\nb"), vec!["a", "b"]);
    assert_eq!(split_lines("\n"), vec![""]);
    assert_eq!(split_lines(""), Vec::<String>::new());
    // a bare trailing carriage return is not a line ending
    assert_eq!(split_lines("a\r"), vec!["a\r"]);
}

#[test]
fn lex_order_on_strings() {
    assert!(str_le("abc", "abd"));
    assert!(str_le("ab", "abc"));
    assert!(!str_le("b", "abc"));
    assert!(str_le("same", "same"));
}

#[test]
fn mcp_servers_are_listed_sorted_without_duplicates() {
    let mut content = String::new();
    content.push_str("[mcp_servers.zeta]\n");
    content.push_str("url = \"x\"\n");
    content.push_str("  [mcp_servers.alpha]  \n");
    content.push_str("[other.section]\n");
    content.push_str("[mcp_servers.zeta]\n");
    content.push_str("[mcp_servers.]\n");
    assert_eq!(parse_mcp_servers(&content), vec!["alpha", "zeta"]);
    assert_eq!(parse_mcp_servers("no servers here"), Vec::<String>::new());
}

#[test]
fn mcp_entry_added_only_when_missing() {
    let configured = "x\n[mcp_servers.openaiDeveloperDocs]\nurl = \"u\"\n";
    assert!(ensure_mcp_entry(configured).is_none());
    let updated = ensure_mcp_entry("key = 1").unwrap();
    assert_eq!(
        updated,
        "key = 1\n\n[mcp_servers.openaiDeveloperDocs]\nurl = \"https://developers.openai.com/mcp\"\n"
    );
    let from_empty = ensure_mcp_entry("").unwrap();
    assert_eq!(
        from_empty,
        "\n\n[mcp_servers.openaiDeveloperDocs]\nurl = \"https://developers.openai.com/mcp\"\n"
    );
}

#[test]
fn token_is_the_marked_run_of_token_characters() {
    assert_eq!(
        extract_config_token("key = \"lin_api_Ab1-2_c\" # end"),
        Some("lin_api_Ab1-2_c".to_string())
    );
    assert_eq!(extract_config_token("nothing here"), None);
    assert_eq!(
        extract_config_token("two lin_api_first and lin_api_second"),
        Some("lin_api_first".to_string())
    );
}

#[test]
fn first_usable_environment_value_wins() {
    let values = vec![None, Some("  \n".to_string()), Some(" tok ".to_string())];
    assert_eq!(first_nonempty_trimmed(&values), Some("tok".to_string()));
    assert_eq!(first_nonempty_trimmed(&vec![None, None]), None);
}
