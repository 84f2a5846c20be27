use luminus::diff_history::{path_key_of, same_path, DiffHistory};
use luminus::edit::{content_hash_of, edit_report, plan_edit};
use luminus::tools::ToolError;

#[test]
fn unique_replace_reports_hashes_and_unified_diff() {
    let raw = b"alpha beta gamma\n";
    let plan = plan_edit(raw, "beta", "BETA", None).expect("plan");
    let out = edit_report("unique.txt", "beta", &plan);
    assert!(out.contains("before_hash: dh64:"), "missing before_hash: {out}");
    assert!(out.contains("after_hash: dh64:"), "missing after_hash: {out}");
    assert!(out.contains("--- a/"), "missing --- marker: {out}");
    assert!(out.contains("+++ b/"), "missing +++ marker: {out}");
    assert!(out.contains("@@"), "missing @@ hunk: {out}");
    assert!(out.contains("-beta") && out.contains("+BETA"), "hunk body: {out}");
    assert_eq!(plan.updated, "alpha BETA gamma\n");
}

#[test]
fn non_unique_replace_fails() {
    let err = plan_edit(b"x y x\n", "x", "X", None).unwrap_err();
    assert!(matches!(err, ToolError::EditFailed(ref r) if r.contains("ambiguous")), "got {}", err.to_string());
}

#[test]
fn missing_old_string_fails() {
    let err = plan_edit(b"hello\n", "nope", "x", None).unwrap_err();
    assert!(matches!(err, ToolError::EditFailed(ref r) if r.contains("not found")), "got {}", err.to_string());
}

#[test]
fn stale_hash_is_rejected() {
    let body = b"one two three\n";
    let real = content_hash_of(body);
    let stale = "dh64:0000000000000000";
    assert_ne!(real, stale);
    let err = plan_edit(body, "two", "TWO", Some(stale)).unwrap_err();
    match err {
        ToolError::EditFailed(msg) => {
            assert!(msg.contains("stale content hash"), "expected stale message, got {msg}");
            assert!(msg.contains(stale), "should mention expected: {msg}");
            assert!(msg.contains(&real), "should mention got: {msg}");
        }
        other => panic!("expected EditFailed, got {}", other.to_string()),
    }
}

#[test]
fn matching_hash_applies() {
    let body = b"one two three\n";
    let hash = content_hash_of(body);
    let plan = plan_edit(body, "two", "TWO", Some(&hash)).unwrap();
    let out = edit_report("match.txt", "two", &plan);
    assert!(out.contains(&format!("before_hash: {hash}")));
    assert!(out.contains("after_hash: dh64:"));
    assert!(out.contains("--- a/") && out.contains("+++ b/"));
    assert_eq!(plan.updated, "one TWO three\n");
    let after = content_hash_of(b"one TWO three\n");
    assert!(out.contains(&format!("after_hash: {after}")));
}

#[test]
fn crlf_line_endings_are_preserved() {
    let body = "line1\r\nline TWO here\r\nline3\r\n";
    let hash = content_hash_of(body.as_bytes());
    let plan = plan_edit(body.as_bytes(), "TWO", "2", Some(&hash)).unwrap();
    let out = edit_report("crlf.txt", "TWO", &plan);
    assert!(out.contains("line_endings: CRLF (preserved)"), "expected CRLF note: {out}");
    let written = plan.updated.as_bytes();
    assert!(written.windows(2).any(|w| w == b"\r\n"), "expected CRLF in written bytes");
    assert!(!plan.updated.replace("\r\n", "").contains('\n'), "bare LF leaked: {:?}", plan.updated);
    assert_eq!(written, b"line1\r\nline 2 here\r\nline3\r\n");
}

#[test]
fn crlf_normalized_into_replacement_text() {
    let body = "keep\r\nold block\r\nend\r\n";
    let plan = plan_edit(body.as_bytes(), "old block", "new\nblock", None).unwrap();
    let out = edit_report("crlf-new.txt", "old block", &plan);
    assert!(out.contains("CRLF (preserved)"));
    assert_eq!(plan.updated.as_bytes(), b"keep\r\nnew\r\nblock\r\nend\r\n");
}

#[test]
fn record_and_undo_restores_before() {
    let mut history = DiffHistory::default();
    history.record_edit("undo.txt", "line1\nline2\n", "line1\nMODIFIED\n");
    let record = history.undo().expect("should undo");
    assert_eq!(record.path, "undo.txt");
    assert_eq!(record.before_content, "line1\nline2\n");
    assert_eq!(history.undo_count(), 0);
    assert_eq!(history.redo_count(), 1);
}

#[test]
fn redo_reapplies_after() {
    let mut history = DiffHistory::default();
    history.record_edit("redo.txt", "original\n", "changed\n");
    let undone = history.undo().unwrap();
    assert_eq!(undone.before_content, "original\n");
    let record = history.redo().expect("should redo");
    assert_eq!(record.after_content, "changed\n");
    assert_eq!(history.undo_count(), 1);
    assert_eq!(history.redo_count(), 0);
}

#[test]
fn new_edit_clears_redo() {
    let mut history = DiffHistory::default();
    history.record_edit("clear-redo.txt", "a\n", "b\n");
    history.undo();
    assert_eq!(history.redo_count(), 1);
    history.record_edit("clear-redo.txt", "a\n", "c\n");
    assert_eq!(history.redo_count(), 0);
    assert_eq!(history.undo_count(), 1);
}

#[test]
fn revert_file_restores_initial_state() {
    let mut history = DiffHistory::default();
    history.record_edit("revert.txt", "initial\n", "first_edit\n");
    history.record_edit("revert.txt", "first_edit\n", "second_edit\n");
    let record = history.revert_file("revert.txt").expect("should revert");
    assert_eq!(record.before_content, "initial\n");
    assert_eq!(history.undo_count(), 0);
}

#[test]
fn changes_reports_line_counts() {
    let mut history = DiffHistory::default();
    history.record_edit("changes.txt", "line1\nline2\n", "line1\nREPLACED\n");
    let changes = history.changes();
    assert_eq!(changes.len(), 1);
    assert_eq!(changes[0].0, "changes.txt");
    assert!(changes[0].1 > 0);
    assert!(changes[0].2 > 0);
}

#[test]
fn multiple_files_changes() {
    let mut history = DiffHistory::default();
    history.record_edit("multi-a.txt", "a1\n", "a2\n");
    history.record_edit("multi-b.txt", "b1\n", "b2\n");
    assert_eq!(history.changes().len(), 2);
}

#[test]
fn is_empty_and_counts() {
    let mut history = DiffHistory::default();
    assert!(history.is_empty());
    assert_eq!(history.undo_count(), 0);
    assert_eq!(history.redo_count(), 0);
    history.record_edit("counts.txt", "x\n", "y\n");
    assert!(!history.is_empty());
    assert_eq!(history.undo_count(), 1);
}

#[test]
fn paths_are_compared_by_their_components() {
    use_components();
}

fn use_components() {
    let mut history = DiffHistory::default();
    history.record_edit("a//b.txt", "x\n", "y\n");
    history.record_edit("a/./b.txt", "y\n", "z\n");
    history.record_edit("c.txt", "1\n", "2\n");
    let changes = history.changes();
    assert_eq!(changes.len(), 2);
    assert_eq!(changes[0].0, "a//b.txt");
    let record = history.revert_file("a/b.txt/").expect("same file by components");
    assert_eq!(record.before_content, "x\n");
    assert_eq!(history.undo_count(), 1);
    assert_eq!(same_path("/x/y", "x/y"), false);
    assert_eq!(same_path("./x", "x"), false);
    assert_eq!(path_key_of("a//b/./c/"), "a/b/c");
}
