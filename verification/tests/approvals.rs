use luminus::app::{App, UiMode};
use luminus::command::{parse_command, Command};
use luminus::tool_results::{
    file_meta_text, glob_report, grep_report, grep_text, shell_timeout_secs, DEFAULT_SHELL_TIMEOUT_SECS,
    GREP_MATCH_CAP,
};
use luminus::tools::{Permission, PermissionDecision, RiskLevel, ToolError, ToolRegistry, ToolRequest};

const ROOT: &str = "/proj";

fn resolved(path: &str) -> Option<Result<String, String>> {
    Some(Ok(path.to_owned()))
}

#[test]
fn clear_clears_pending_approval_and_resets_ui_mode() {
    let registry = ToolRegistry;
    let approval = registry
        .prepare(
            ToolRequest { name: "read_file".into(), args: vec!["Cargo.toml".into()] },
            ROOT,
            resolved("/proj/Cargo.toml"),
        )
        .expect("read_file approval should be preparable");

    let mut app = App::default();
    app.show_approval(approval);
    assert_eq!(app.ui_mode(), UiMode::Approval);
    assert!(app.pending_approval.is_some());

    app.clear();

    assert_eq!(
        (app.ui_mode(), app.pending_approval.is_none()),
        (UiMode::Normal, true),
        "clear must leave no approval modal active and must discard stale pending approvals"
    );
}

#[test]
fn approval_metadata_includes_cwd_risk_affected_paths_and_reason() {
    let registry = ToolRegistry;
    let approval = registry
        .prepare(
            ToolRequest { name: "read_file".into(), args: vec!["Cargo.toml".into()] },
            ROOT,
            resolved("/proj/Cargo.toml"),
        )
        .expect("read_file approval should be preparable");

    let metadata = approval.metadata(ROOT, resolved("/proj/Cargo.toml")).expect("metadata should resolve");

    assert_eq!(metadata.decision, PermissionDecision::Ask);
    assert_eq!(metadata.risk, RiskLevel::Low);
    assert_eq!(metadata.cwd, ROOT);
    assert_eq!(metadata.affected_paths.len(), 1);
    assert!(metadata.affected_paths[0].starts_with('/'));
    assert!(metadata.affected_paths[0].starts_with(&metadata.cwd));
    assert!(metadata.affected_paths[0].ends_with("Cargo.toml"));
    assert!(
        metadata.reason.contains("read-only") && metadata.reason.contains("approval"),
        "reason should explain why approval is required; got {:?}",
        metadata.reason
    );
}

#[test]
fn sensitive_path_requests_are_denied_before_approval() {
    let registry = ToolRegistry;

    let result = registry.prepare(
        ToolRequest { name: "read_file".into(), args: vec![".env".into()] },
        ROOT,
        resolved("/proj/.env"),
    );

    assert!(
        matches!(result, Err(ToolError::SecurityDenied(ref reason)) if reason.contains("sensitive")),
        "sensitive credential-like paths must not produce approval prompts: {result:?}"
    );
}

#[test]
fn destructive_shell_requests_are_denied_before_approval() {
    let registry = ToolRegistry;

    let result = registry.prepare(
        ToolRequest { name: "run_shell".into(), args: vec!["git reset --hard HEAD".into()] },
        ROOT,
        None,
    );

    assert!(
        matches!(result, Err(ToolError::SecurityDenied(ref reason)) if reason.contains("destructive")),
        "destructive shell commands must not produce approval prompts: {result:?}"
    );
}

#[test]
fn tool_command_parser_documents_quoted_argument_limitation() {
    assert_eq!(
        parse_command("/tool write_file notes.txt \"hello world\""),
        Ok(Command::Tool(
            "write_file".into(),
            vec!["notes.txt".into(), "\"hello".into(), "world\"".into()]
        ))
    );
}

#[test]
fn destructive_denylist_unchanged_with_cancel_api() {
    let registry = ToolRegistry;
    let result =
        registry.prepare(ToolRequest { name: "run_shell".into(), args: vec!["rm -rf /".into()] }, ROOT, None);
    assert!(
        matches!(result, Err(ToolError::SecurityDenied(ref r)) if r.contains("destructive")),
        "destructive denylist must remain active with cancel API: {result:?}"
    );
}

#[test]
fn registry_run_shell_still_honours_destructive_denylist() {
    let registry = ToolRegistry;
    let result =
        registry.prepare(ToolRequest { name: "run_shell".into(), args: vec!["rm -rf /".into()] }, ROOT, None);
    assert!(
        matches!(result, Err(ToolError::SecurityDenied(ref r)) if r.contains("destructive")),
        "destructive denylist must remain active with timeout foundation: {result:?}"
    );
}

#[test]
fn cancelled_display_prefix() {
    let err = ToolError::Cancelled("shell command cancelled".into());
    assert_eq!(err.to_string(), "cancelled: shell command cancelled");
}

#[test]
fn shell_timeout_default_is_thirty_seconds_without_env() {
    assert_eq!(DEFAULT_SHELL_TIMEOUT_SECS, 30);
    let t = shell_timeout_secs(None);
    assert!(t >= 1, "shell timeout must be at least 1s; got {t:?}");
}

#[test]
fn file_meta_prepare_and_execute() {
    let registry = ToolRegistry;
    let approval = registry
        .prepare(
            ToolRequest { name: "file_meta".into(), args: vec!["Cargo.toml".into()] },
            ROOT,
            resolved("/proj/Cargo.toml"),
        )
        .expect("file_meta should prepare");
    assert_eq!(approval.spec.permission, Permission::ReadOnly);
    let metadata = approval.metadata(ROOT, resolved("/proj/Cargo.toml")).unwrap();
    assert_eq!(metadata.decision, PermissionDecision::Ask);
    assert_eq!(metadata.risk, RiskLevel::Low);
    assert_eq!(metadata.affected_paths.len(), 1);

    let out = file_meta_text(&metadata.affected_paths[0], 512, true, false, Some(1_700_000_000));
    assert!(out.contains("is_file: true"));
    assert!(out.contains("path:"));
}

#[test]
fn glob_is_project_relative_only() {
    let registry = ToolRegistry;
    registry
        .prepare(ToolRequest { name: "glob".into(), args: vec!["src/*.rs".into()] }, ROOT, None)
        .expect("glob should prepare");
    let out = glob_report(vec!["src/tools.rs".into(), "src/app.rs".into(), "src/lib.rs".into()]);
    assert!(out.lines().any(|l| l.contains("tools.rs")), "expected tools.rs in glob results: {out}");

    assert!(matches!(
        registry.prepare(ToolRequest { name: "glob".into(), args: vec!["../../etc/*".into()] }, ROOT, None),
        Err(ToolError::SecurityDenied(_))
    ));
}

#[test]
fn grep_defaults_to_project_root_and_formats_matches() {
    let registry = ToolRegistry;
    let approval = registry
        .prepare(ToolRequest { name: "grep".into(), args: vec!["ToolRegistry".into()] }, ROOT, resolved(ROOT))
        .expect("grep should prepare with default path");
    let metadata = approval.metadata(ROOT, resolved(ROOT)).unwrap();
    assert_eq!(metadata.affected_paths, vec![ROOT.to_string()]);
    let (matches, truncated) =
        grep_text("src/tools.rs", "use x;\npub struct ToolRegistry;\n", "ToolRegistry", GREP_MATCH_CAP);
    let out = grep_report(&matches, truncated);
    assert!(
        out.contains(':') && out.lines().any(|l| l.contains("ToolRegistry")),
        "expected path:line:content style matches; got {out}"
    );
}

#[test]
fn edit_file_requires_three_args_and_denies_sensitive() {
    let registry = ToolRegistry;
    assert!(matches!(
        registry.prepare(
            ToolRequest { name: "edit_file".into(), args: vec!["Cargo.toml".into(), "only-two".into()] },
            ROOT,
            resolved("/proj/Cargo.toml"),
        ),
        Err(ToolError::MissingArgument(_))
    ));
    assert!(matches!(
        registry.prepare(
            ToolRequest { name: "edit_file".into(), args: vec!["secrets.json".into(), "a".into(), "b".into()] },
            ROOT,
            resolved("/proj/secrets.json"),
        ),
        Err(ToolError::SecurityDenied(_))
    ));
}
