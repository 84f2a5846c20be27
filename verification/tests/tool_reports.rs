use luminus::tool_results::{
    cancel_error, check_grep_pattern, file_meta_text, glob_report, grep_report, grep_text, is_binary_ish, listing, parse_u64,
    shell_outcome, shell_timeout_secs, sort_strings, timeout_error, write_report, GLOB_RESULT_CAP,
    glob_step, grep_step, skipped_tree, WalkStep, GREP_MATCH_CAP,
};
use luminus::tools::ToolError;

#[test]
fn listing_is_sorted_by_byte_order() {
    let out = listing(vec!["src".into(), "Cargo.toml".into(), "README.md".into(), "b".into()]);
    assert_eq!(out, "Cargo.toml\nREADME.md\nb\nsrc");
    assert_eq!(listing(Vec::new()), "");
}

#[test]
fn sort_keeps_duplicates_and_orders_prefixes_first() {
    let sorted = sort_strings(vec!["ab".into(), "a".into(), "ab".into(), "é".into(), "z".into()]);
    assert_eq!(sorted, vec!["a", "ab", "ab", "z", "é"]);
}

#[test]
fn file_meta_report_has_every_field_in_order() {
    let out = file_meta_text("/proj/Cargo.toml", 42, true, false, Some(1700000000));
    assert_eq!(
        out,
        "path: /proj/Cargo.toml\nsize: 42\nkind: file\nis_file: true\nis_dir: false\nmodified_unix: 1700000000"
    );
    let dir = file_meta_text("/proj/src", 0, false, true, None);
    assert!(dir.contains("kind: dir"));
    assert!(dir.ends_with("modified_unix: unknown"));
    assert!(file_meta_text("/dev/null", 0, false, false, None).contains("kind: other"));
}

#[test]
fn write_report_names_bytes_and_path() {
    assert_eq!(write_report(11, "notes.txt"), "wrote 11 bytes to notes.txt");
}

#[test]
fn glob_report_sorts_and_caps_results() {
    assert_eq!(glob_report(Vec::new()), "(no matches)");
    assert_eq!(glob_report(vec!["b.rs".into(), "a.rs".into()]), "a.rs\nb.rs");
    let many: Vec<String> = (0..250).map(|i| format!("f{i:03}.rs")).collect();
    let out = glob_report(many);
    let lines: Vec<&str> = out.lines().collect();
    assert_eq!(lines.len(), GLOB_RESULT_CAP + 1);
    assert_eq!(lines[0], "f000.rs");
    assert_eq!(lines[GLOB_RESULT_CAP - 1], "f199.rs");
    assert_eq!(lines[GLOB_RESULT_CAP], "… truncated to 200 results");
}

#[test]
fn grep_text_numbers_lines_from_one() {
    let (found, stopped) = grep_text("src/a.rs", "alpha\nbeta\nalphabet\n", "alpha", 10);
    assert_eq!(found, vec!["src/a.rs:1:alpha", "src/a.rs:3:alphabet"]);
    assert!(!stopped);
}

#[test]
fn grep_text_stops_when_room_runs_out() {
    let (found, stopped) = grep_text("f", "x\nx\nx\n", "x", 2);
    assert_eq!(found, vec!["f:1:x", "f:2:x"]);
    assert!(stopped);
    let (none, stopped_now) = grep_text("f", "x\n", "x", 0);
    assert!(none.is_empty());
    assert!(stopped_now);
}

#[test]
fn grep_report_joins_and_notes_truncation() {
    assert_eq!(grep_report(&Vec::new(), false), "(no matches)");
    let found = vec!["a:1:x".to_string(), "b:2:x".to_string()];
    assert_eq!(grep_report(&found, false), "a:1:x\nb:2:x");
    assert_eq!(grep_report(&found, true), "a:1:x\nb:2:x\n… truncated to 200 matches");
}

#[test]
fn binary_detection_looks_for_nul_and_control_bytes() {
    assert!(is_binary_ish(b"abc\0def"));
    assert!(!is_binary_ish(b""));
    assert!(!is_binary_ish(b"plain text\nwith\ttabs\r\n"));
    assert!(is_binary_ish(&[1u8, 2, 3, b'a', b'b']));
    let mostly_text: Vec<u8> = std::iter::repeat(b'a').take(95).chain([1u8; 5]).collect();
    assert!(!is_binary_ish(&mostly_text));
}

#[test]
fn parse_u64_accepts_plain_decimals_only() {
    assert_eq!(parse_u64("12"), Some(12));
    assert_eq!(parse_u64("+7"), Some(7));
    assert_eq!(parse_u64("0"), Some(0));
    assert_eq!(parse_u64("18446744073709551615"), Some(u64::MAX));
    assert_eq!(parse_u64("18446744073709551616"), None);
    assert_eq!(parse_u64(""), None);
    assert_eq!(parse_u64("+"), None);
    assert_eq!(parse_u64("-1"), None);
    assert_eq!(parse_u64("1 2"), None);
    assert_eq!(parse_u64("nope"), None);
}

#[test]
fn shell_timeout_defaults_and_env_override() {
    assert_eq!(shell_timeout_secs(Some("12")), 12);
    assert_eq!(shell_timeout_secs(Some(" 45 ")), 45);
    assert_eq!(shell_timeout_secs(Some("0")), 30);
    assert_eq!(shell_timeout_secs(Some("nope")), 30);
    assert_eq!(shell_timeout_secs(None), 30);
}

#[test]
fn shell_outcome_prefers_stderr_when_present() {
    assert_eq!(shell_outcome(true, "ok\n".into(), "warn".into()), Ok("ok\n".to_string()));
    assert_eq!(
        shell_outcome(false, "out".into(), "boom".into()),
        Err(ToolError::Process("boom".into()))
    );
    assert_eq!(
        shell_outcome(false, "out".into(), "  \n".into()),
        Err(ToolError::Process("out".into()))
    );
}

#[test]
fn timeout_error_names_the_deadline() {
    assert_eq!(timeout_error(5), ToolError::Timeout("shell command exceeded timeout of 5s".into()));
    assert_eq!(timeout_error(0), ToolError::Timeout("shell command exceeded timeout of 1s".into()));
    assert_eq!(timeout_error(5).to_string(), "timeout: shell command exceeded timeout of 5s");
}

#[test]
fn grep_needs_a_pattern() {
    assert_eq!(check_grep_pattern(""), Err(ToolError::MissingArgument("pattern")));
    assert_eq!(check_grep_pattern("x"), Ok(()));
}

#[test]
fn cancellation_errors_say_when_they_came() {
    assert_eq!(cancel_error(true).to_string(), "cancelled: shell command cancelled before start");
    assert_eq!(cancel_error(false), ToolError::Cancelled("shell command cancelled".into()));
}

#[test]
fn walks_stop_at_the_cap_and_skip_what_they_must() {
    let root = "/proj";
    assert_eq!(glob_step(GLOB_RESULT_CAP, "/proj/a", Some("/proj/a"), root, false, "a"), WalkStep::Stop);
    assert_eq!(glob_step(0, "/proj/.env", Some("/proj/.env"), root, false, ".env"), WalkStep::Skip);
    assert_eq!(glob_step(0, "/proj/link", None, root, false, "link"), WalkStep::Skip);
    assert_eq!(glob_step(0, "/proj/link", Some("/proj2/x"), root, false, "link"), WalkStep::Skip);
    assert_eq!(glob_step(0, "/proj/src", Some("/proj/src"), root, true, "src"), WalkStep::Take { descend: true });
    assert_eq!(glob_step(0, "/proj/target", Some("/proj/target"), root, true, "target"), WalkStep::Take { descend: false });
    assert_eq!(grep_step(0, "/proj/target", Some("/proj/target"), root, true, "target"), WalkStep::Skip);
    assert_eq!(grep_step(0, "/proj/f", None, root, false, "f"), WalkStep::Take { descend: false });
    assert_eq!(grep_step(GREP_MATCH_CAP, "/proj/f", None, root, false, "f"), WalkStep::Stop);
    assert!(skipped_tree("node_modules"));
    assert!(!skipped_tree("src"));
}
