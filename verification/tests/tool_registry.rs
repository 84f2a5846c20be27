use luminus::tools::{
    glob_match, segment_match, Permission, PermissionDecision, RiskLevel, ToolError, ToolRegistry,
    ToolRequest,
};

const ROOT: &str = "/proj";

fn resolved(path: &str) -> Option<Result<String, String>> {
    Some(Ok(path.to_owned()))
}

#[test]
fn registry_lists_expected_tools() {
    let names: Vec<_> = ToolRegistry.specs().iter().map(|spec| spec.name).collect();
    assert_eq!(
        names,
        [
            "read_file",
            "write_file",
            "list_dir",
            "file_meta",
            "file_metadata",
            "glob",
            "grep",
            "edit_file",
            "run_shell",
            "http_get"
        ]
    );
}

#[test]
fn prepare_requires_explicit_approval_and_valid_args() {
    let registry = ToolRegistry;
    let request = ToolRequest { name: "read_file".into(), args: vec!["Cargo.toml".into()] };
    assert_eq!(registry.path_to_resolve(&request).unwrap(), Some("Cargo.toml".to_owned()));
    let approval = registry.prepare(request, ROOT, resolved("/proj/Cargo.toml")).unwrap();
    assert_eq!(approval.spec.permission, Permission::ReadOnly);
    let metadata = approval.metadata(ROOT, resolved("/proj/Cargo.toml")).unwrap();
    assert_eq!(metadata.decision, PermissionDecision::Ask);
    assert_eq!(metadata.risk, RiskLevel::Low);
    assert!(!metadata.reason.is_empty());
    assert!(!metadata.affected_paths.is_empty());
    assert!(matches!(
        registry.prepare(ToolRequest { name: "read_file".into(), args: Vec::new() }, ROOT, None),
        Err(ToolError::MissingArgument(_))
    ));
}

#[test]
fn network_tool_is_denied_at_prepare() {
    let registry = ToolRegistry;
    let result = registry.prepare(
        ToolRequest { name: "http_get".into(), args: vec!["https://example.test".into()] },
        ROOT,
        None,
    );
    assert!(matches!(result, Err(ToolError::SecurityDenied(_))));
}

#[test]
fn destructive_shell_is_denied_at_prepare() {
    let registry = ToolRegistry;
    let result = registry.prepare(
        ToolRequest { name: "run_shell".into(), args: vec!["rm -rf /".into()] },
        ROOT,
        None,
    );
    assert!(matches!(result, Err(ToolError::SecurityDenied(ref r)) if r.contains("destructive")));
}

#[test]
fn sensitive_env_path_is_denied() {
    let registry = ToolRegistry;
    let result = registry.prepare(
        ToolRequest { name: "read_file".into(), args: vec![".env".into()] },
        ROOT,
        resolved("/proj/.env"),
    );
    assert!(matches!(result, Err(ToolError::SecurityDenied(ref r)) if r.contains("sensitive")));
}

#[test]
fn traversal_escape_is_denied() {
    let registry = ToolRegistry;
    let result = registry.prepare(
        ToolRequest { name: "read_file".into(), args: vec!["../../../../etc/passwd".into()] },
        ROOT,
        resolved("/etc/passwd"),
    );
    assert!(matches!(result, Err(ToolError::SecurityDenied(_)) | Err(ToolError::Io(_))));
}

#[test]
fn unresolvable_path_reports_the_io_error() {
    let registry = ToolRegistry;
    let result = registry.prepare(
        ToolRequest { name: "read_file".into(), args: vec!["missing/x".into()] },
        ROOT,
        Some(Err("No such file or directory".to_owned())),
    );
    assert!(matches!(result, Err(ToolError::Io(ref m)) if m.contains("No such file")));
}

#[test]
fn glob_escape_and_absolute_patterns_are_denied() {
    let registry = ToolRegistry;
    let escape = registry.prepare(ToolRequest { name: "glob".into(), args: vec!["../**".into()] }, ROOT, None);
    assert!(matches!(escape, Err(ToolError::SecurityDenied(_))));
    let absolute = registry.prepare(ToolRequest { name: "glob".into(), args: vec!["/*".into()] }, ROOT, None);
    assert!(matches!(absolute, Err(ToolError::SecurityDenied(_))));
    assert!(registry.prepare(ToolRequest { name: "glob".into(), args: vec!["Cargo.t*".into()] }, ROOT, None).is_ok());
}

#[test]
fn unknown_tools_are_refused() {
    let registry = ToolRegistry;
    let result = registry.prepare(ToolRequest { name: "teleport".into(), args: vec![] }, ROOT, None);
    assert!(matches!(result, Err(ToolError::UnknownTool(ref n)) if n == "teleport"));
    assert_eq!(ToolError::UnknownTool("teleport".into()).to_string(), "unknown tool: teleport");
}

#[test]
fn glob_match_supports_star_question_and_doublestar() {
    assert!(glob_match("*.rs", "tools.rs"));
    assert!(glob_match("src/*.rs", "src/tools.rs"));
    assert!(glob_match("src/**/*.rs", "src/tui/mod.rs"));
    assert!(glob_match("**/tools.rs", "src/tools.rs"));
    assert!(!glob_match("*.toml", "src/tools.rs"));
    assert!(segment_match("t?ols", "tools"));
    assert!(!segment_match("t?ols", "toools"));
}
