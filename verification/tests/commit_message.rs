use commit_message::git::{
    branch_from_output, branch_from_output_line, current_branch_command, show_toplevel_command,
};
use commit_message::issue::{find_issue_id, issue_id, issue_id_from_match};
use commit_message::manifest::{commitizen_scopes, package_json_path, JsonValue};
use commit_message::message::{
    branch_subject, commit_message_line, commit_types, compose_commit_message,
    default_commit_type, CommitError,
};
use commit_message::number::{i32_to_decimal, parse_i32};
use commit_message::report::{
    commit_preview, manual_commit_message, message_name, proposed_commit_message,
    session_report, split_lines, team_prefix,
};
use commit_message::text::{is_white_space_char, strip_final_newline, trim_white_space};

#[test]
fn it_works() {
    let (line, found) = compose_commit_message(
        Some(default_commit_type()),
        None,
        "initial_working_version\n",
        None,
        None,
    )
    .unwrap();
    assert!(found);
    assert!(line.contains(""));
    assert_eq!(line, "feat: initial_working_version ");
}

#[test]
fn add_message() {
    let (line, found) = compose_commit_message(
        Some(default_commit_type()),
        None,
        "initial_working_version\n",
        None,
        Some("fix issue with lint error"),
    )
    .unwrap();
    assert!(found);
    assert_eq!(
        format!("{}\n", line),
        "feat: initial_working_version fix issue with lint error\n"
    );
}

#[test]
fn commit_line_with_scope_and_prefix_match() {
    let (line, found) = compose_commit_message(
        Some("fix"),
        Some("web"),
        "feature/INF-123-login\n",
        Some("INF-\\d+"),
        Some("repair login"),
    )
    .unwrap();
    assert!(found);
    assert_eq!(line, "fix(web): INF-123 repair login");
}

#[test]
fn commit_line_prefix_without_match() {
    let (line, found) =
        compose_commit_message(Some("docs"), None, "readme-update\n", Some("INF-\\d+"), None)
            .unwrap();
    assert!(!found);
    assert_eq!(line, "docs: ");
}

#[test]
fn commit_line_invalid_prefix() {
    let res = compose_commit_message(Some("feat"), None, "main\n", Some("(INF"), None);
    assert_eq!(res.err(), Some(CommitError::InvalidPrefixPattern));
    assert_eq!(
        branch_subject("main", Some("[")).err(),
        Some(CommitError::InvalidPrefixPattern)
    );
}

#[test]
fn commit_line_parts() {
    assert_eq!(commit_message_line(None, None, None, None), ": ");
    assert_eq!(
        commit_message_line(Some("ci"), Some("api"), Some("7"), Some("x")),
        "ci(api): 7 x"
    );
    assert_eq!(commit_message_line(None, None, Some("b"), None), ": b ");
}

#[test]
fn branch_subject_variants() {
    assert_eq!(
        branch_subject("my-branch", None).unwrap(),
        Some("my-branch".to_string())
    );
    assert_eq!(
        branch_subject("abc-42-def", Some("\\d+")).unwrap(),
        Some("42".to_string())
    );
    assert_eq!(branch_subject("abc", Some("\\d+")).unwrap(), None);
}

#[test]
fn commit_type_list() {
    assert_eq!(
        commit_types(),
        vec!["feat", "fix", "docs", "refactor", "test", "build", "ci", "revert", "chore"]
    );
    assert_eq!(default_commit_type(), "feat");
}

#[test]
fn issue_id_from_branch() {
    assert_eq!(issue_id("811-add-initial-ui-for-76-inf-services"), "811");
    assert_eq!(issue_id("0042-fix-things"), "42");
    assert_eq!(issue_id("7"), "7");
    assert_eq!(issue_id("feature/INF-123-login"), "123");
    assert_eq!(issue_id("fix-login-v2-page"), "2");
    assert_eq!(issue_id("feature-without-number"), "");
    assert_eq!(issue_id(""), "");
}

#[test]
fn issue_id_not_readable() {
    assert_eq!(find_issue_id("feature-without-number"), Some(String::new()));
    assert_eq!(find_issue_id("99999999999-too-big"), None);
    assert_eq!(find_issue_id("bug-99999999999"), None);
    assert_eq!(find_issue_id("\u{0661}\u{0662}-arabic-digits"), None);
    assert_eq!(find_issue_id("x-\u{ff11}-fullwidth"), None);
    assert_eq!(find_issue_id("2147483647-max"), Some("2147483647".to_string()));
    assert_eq!(find_issue_id("0815-x"), Some("815".to_string()));
    assert_eq!(find_issue_id("a-0815-x-12"), Some("815".to_string()));
    assert_eq!(find_issue_id("+-12"), Some("12".to_string()));
}

#[test]
fn issue_id_from_matched_text() {
    assert_eq!(issue_id_from_match(None), Some(String::new()));
    assert_eq!(issue_id_from_match(Some("007")), Some("7".to_string()));
    assert_eq!(issue_id_from_match(Some("+15")), Some("15".to_string()));
    assert_eq!(issue_id_from_match(Some("-0")), Some("0".to_string()));
    assert_eq!(issue_id_from_match(Some("")), None);
    assert_eq!(issue_id_from_match(Some("12x")), None);
}

#[test]
fn issue_id_is_canonical() {
    let id = issue_id_from_match(Some("000123")).unwrap();
    assert_eq!(id, "123");
    assert_eq!(issue_id_from_match(Some(id.as_str())), Some(id.clone()));
}

#[test]
fn parse_i32_cases() {
    assert_eq!(parse_i32("811"), Some(811));
    assert_eq!(parse_i32("-12"), Some(-12));
    assert_eq!(parse_i32("+5"), Some(5));
    assert_eq!(parse_i32("2147483647"), Some(i32::MAX));
    assert_eq!(parse_i32("-2147483648"), Some(i32::MIN));
    assert_eq!(parse_i32("2147483648"), None);
    assert_eq!(parse_i32("-2147483649"), None);
    assert_eq!(parse_i32("99999999999999999999"), None);
    assert_eq!(parse_i32(""), None);
    assert_eq!(parse_i32("-"), None);
    assert_eq!(parse_i32("+"), None);
    assert_eq!(parse_i32(" 1"), None);
    assert_eq!(parse_i32("1 "), None);
    assert_eq!(parse_i32("1_000"), None);
    for s in ["0", "42", "-7", "+3", "2147483648", "abc", "--1", "0012"] {
        assert_eq!(parse_i32(s), s.parse::<i32>().ok(), "{}", s);
    }
}

#[test]
fn decimal_text_cases() {
    assert_eq!(i32_to_decimal(0), "0");
    assert_eq!(i32_to_decimal(811), "811");
    assert_eq!(i32_to_decimal(-40), "-40");
    assert_eq!(i32_to_decimal(i32::MIN), "-2147483648");
    assert_eq!(i32_to_decimal(i32::MAX), "2147483647");
}

#[test]
fn decimal_round_trip() {
    for v in [0, 1, 9, 10, 99, 100, -1, -10, 123456, i32::MIN, i32::MAX] {
        assert_eq!(parse_i32(i32_to_decimal(v).as_str()), Some(v));
    }
}

fn object(entries: Vec<(&str, JsonValue)>) -> JsonValue {
    JsonValue::Object(
        entries
            .into_iter()
            .map(|(k, v)| (k.to_string(), v))
            .collect(),
    )
}

fn strings(items: &[&str]) -> JsonValue {
    JsonValue::Array(items.iter().map(|s| JsonValue::Str(s.to_string())).collect())
}

#[test]
fn scopes_found() {
    let doc = object(vec![
        ("name", JsonValue::Str("app".to_string())),
        (
            "config",
            object(vec![(
                "commitizen",
                object(vec![
                    ("path", JsonValue::Str("cz".to_string())),
                    ("scopes", strings(&["web", "api", "devops"])),
                ]),
            )]),
        ),
    ]);
    assert_eq!(
        commitizen_scopes(&doc),
        Some(vec!["web".to_string(), "api".to_string(), "devops".to_string()])
    );
}

#[test]
fn scopes_missing_or_malformed() {
    let no_config = object(vec![("name", JsonValue::Str("app".to_string()))]);
    assert_eq!(commitizen_scopes(&no_config), None);
    let not_array = object(vec![(
        "config",
        object(vec![(
            "commitizen",
            object(vec![("scopes", JsonValue::Str("web".to_string()))]),
        )]),
    )]);
    assert_eq!(commitizen_scopes(&not_array), None);
    let number_item = object(vec![(
        "config",
        object(vec![(
            "commitizen",
            object(vec![(
                "scopes",
                JsonValue::Array(vec![
                    JsonValue::Str("web".to_string()),
                    JsonValue::Number("3".to_string()),
                ]),
            )]),
        )]),
    )]);
    assert_eq!(commitizen_scopes(&number_item), None);
    let empty = object(vec![(
        "config",
        object(vec![("commitizen", object(vec![("scopes", strings(&[]))]))]),
    )]);
    assert_eq!(commitizen_scopes(&empty), Some(vec![]));
    assert_eq!(commitizen_scopes(&JsonValue::Null), None);
}

#[test]
fn json_member_access() {
    let doc = object(vec![
        ("a", JsonValue::Bool(true)),
        ("a", JsonValue::Null),
        ("b", JsonValue::Str("x".to_string())),
    ]);
    assert!(matches!(doc.get("a"), Some(JsonValue::Bool(true))));
    assert_eq!(doc.get("b").and_then(|v| v.as_str()), Some("x"));
    assert!(doc.get("c").is_none());
    assert!(JsonValue::Null.get("a").is_none());
    assert!(doc.as_array().is_none());
    assert_eq!(strings(&["q"]).as_array().map(|v| v.len()), Some(1));
}

#[test]
fn package_path() {
    assert_eq!(
        package_json_path("/home/dev/repo\n"),
        "/home/dev/repo/package.json"
    );
}

#[test]
fn git_commands() {
    assert_eq!(show_toplevel_command(None), "git rev-parse --show-toplevel");
    assert_eq!(
        show_toplevel_command(Some("../web")),
        "cd ../web && git rev-parse --show-toplevel"
    );
    assert_eq!(current_branch_command(None), "git rev-parse --abbrev-ref HEAD");
    assert_eq!(
        current_branch_command(Some(".")),
        "cd . && git rev-parse --abbrev-ref HEAD"
    );
}

#[test]
fn branch_from_git_output() {
    assert_eq!(branch_from_output("811-add-ui\n"), "811-add-ui");
    assert_eq!(branch_from_output(" \t main \r\n"), "main");
    assert_eq!(branch_from_output("\u{3000}dev\u{a0}"), "dev");
    assert_eq!(branch_from_output(" \n "), "");
    assert_eq!(branch_from_output_line("main\n"), "main");
    assert_eq!(branch_from_output_line("\n"), "");
}

#[test]
fn trimming_matches_std() {
    for s in ["", " ", "a", " a b ", "\u{2000}x\u{205f}", "\u{85}y\u{200b}", "\n\nz\t"] {
        assert_eq!(trim_white_space(s), s.trim(), "{:?}", s);
        assert_eq!(trim_white_space(trim_white_space(s)), trim_white_space(s));
    }
    for c in ['a', ' ', '\u{b}', '\u{1680}', '\u{200b}', '\u{3000}', '\u{feff}'] {
        assert_eq!(is_white_space_char(c), c.is_whitespace(), "{:?}", c);
    }
    assert_eq!(strip_final_newline("abc\n"), "abc");
}

#[test]
fn proposed_message_format() {
    assert_eq!(team_prefix(), "INF");
    assert_eq!(
        proposed_commit_message("feat", "add login page", team_prefix(), "811"),
        "feat: add login page [INF] #811"
    );
}

#[test]
fn session_report_complete() {
    let (text, ready) = session_report(".", "811-x", "INF", "811", "x");
    assert!(ready);
    assert_eq!(
        text,
        "\n\x1b[1;1mCommit utility\x1b[0m\n- Working in directory \x1b[1;1m.\x1b[0m\n- Git branch is \x1b[1;1m811-x\x1b[0m\n- Team prefix is \x1b[1;1mINF\x1b[0m\n- Issue id is \x1b[1;1m811\x1b[0m\n- Message name is \x1b[1;1mx\x1b[0m\n"
    );
}

#[test]
fn session_report_incomplete() {
    let (text, ready) = session_report("/r", "main", "INF", "", "");
    assert!(!ready);
    assert!(text.ends_with(
        "\x1b[1;31m- No issue id found\x1b[0m\n\x1b[1;31m- No message name found\x1b[0m\n"
    ));
    let (_, ready) = session_report("/r", "main", "INF", "5", "");
    assert!(!ready);
}

#[test]
fn split_lines_like_std() {
    for s in ["", "a", "a\nb", "a\n", "\n\n", "line one\nline two\n\nend"] {
        let expected: Vec<String> = s.split('\n').map(|l| l.to_string()).collect();
        assert_eq!(split_lines(s), expected, "{:?}", s);
    }
}

#[test]
fn preview_with_extra_lines() {
    assert_eq!(commit_preview("feat: x", &vec![]), "feat: x");
    let lines = split_lines("first\nsecond");
    assert_eq!(
        commit_preview("feat: x", &lines),
        "feat: x\x1b[1;32m\n\nfirst\nsecond\x1b[1;0m"
    );
}

#[test]
fn message_name_lowercase_and_cut() {
    assert_eq!(message_name(Some("Fix Login Page"), "ignored"), "fix login page");
    assert_eq!(message_name(None, "Add-UI"), "add-ui");
    let long = "A".repeat(60);
    assert_eq!(message_name(None, &long), "a".repeat(55));
    assert_eq!(message_name(Some(&long), ""), "a".repeat(60));
    assert_eq!(message_name(None, "ÄÖÜ"), "äöü");
}

#[test]
fn manual_message_format() {
    assert_eq!(
        manual_commit_message("fix", "Repair Login", "INF", "811", None, None),
        "fix: repair login [INF] #811"
    );
    assert_eq!(
        manual_commit_message("fix", "X", "INF", "1", Some("web"), Some("extra")),
        "fix: x [INF] #1(web)extra"
    );
}
