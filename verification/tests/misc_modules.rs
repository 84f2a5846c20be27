use luminus::tui::logo::{title, COMPACT_LOGO, TAGLINE, WIDE_LOGO};
use std::time::Duration;

use luminus::edit::{check_old_string, content_hash_of, plan_edit};
use luminus::event::ProviderEvent;
use luminus::mcp::config::{McpConfig, McpServerConfig};
use luminus::project_context::{instruction_files, ProjectContext};
use luminus::provider::{FakeProvider, ModelInfo, ProviderError};
use luminus::tools::ToolError;

#[test]
fn fake_provider_echoes_the_prompt_word_by_word() {
    let provider = FakeProvider::new(Duration::from_millis(0));
    assert_eq!(provider.model(), ModelInfo::fake());
    let events = provider.answer_events("r1", "hello  there");
    assert_eq!(events.len(), 4);
    assert!(matches!(&events[0], ProviderEvent::Started { .. }));
    assert!(matches!(&events[2], ProviderEvent::Delta { text, .. } if text == "there"));
    assert!(matches!(&events[3], ProviderEvent::Completed { .. }));
    assert_eq!(ProviderError::Message("x".into()).to_string(), "provider error: x");
}

#[test]
fn mcp_servers_are_listed_and_merged() {
    assert!(McpConfig::default().list_servers().starts_with("No MCP servers configured."));
    let server = |c: &str| McpServerConfig { command: c.into(), args: vec!["-y".into(), "pkg".into()], env: vec![] };
    let global = McpConfig { mcp_servers: vec![("fs".into(), server("npx")), ("git".into(), server("uvx"))] };
    let project = McpConfig { mcp_servers: vec![("fs".into(), server("node"))] };
    let merged = McpConfig::merge(global, project);
    assert_eq!(merged.mcp_servers.len(), 2);
    assert_eq!(merged.list_servers(), "MCP Servers:\n  fs -> node -y pkg\n  git -> uvx -y pkg");
}

#[test]
fn project_instructions_are_separated_by_rules() {
    assert_eq!(instruction_files()[0], "LUMINUS.md");
    let mut ctx = ProjectContext::default();
    ctx.add_file("LUMINUS.md", "/p/LUMINUS.md".into(), "Project instruction A");
    ctx.add_file("AGENTS.md", "/p/AGENTS.md".into(), "B");
    assert_eq!(ctx.loaded_paths.len(), 2);
    assert_eq!(ctx.formatted_instructions(), "# LUMINUS.md\nProject instruction A\n\n---\n\n# AGENTS.md\nB");
}

#[test]
fn edits_replace_one_occurrence_and_refuse_ambiguity() {
    let raw = b"alpha beta alpha\n";
    assert!(matches!(plan_edit(raw, "alpha", "ALPHA", None), Err(ToolError::EditFailed(ref r)) if r.contains("ambiguous")));
    assert!(matches!(plan_edit(raw, "gamma", "x", None), Err(ToolError::EditFailed(ref r)) if r.contains("not found")));
    let plan = plan_edit(raw, "beta", "BETA", None).unwrap();
    assert_eq!(plan.updated, "alpha BETA alpha\n");
    assert!(plan.before_hash.starts_with("dh64:"));
    assert_eq!(plan.before_hash, content_hash_of(raw));
    assert_ne!(plan.before_hash, plan.after_hash);
    assert!(matches!(plan_edit(raw, "beta", "x", Some("dh64:0000000000000000")), Err(ToolError::EditFailed(ref r)) if r.contains("stale")));
    assert!(check_old_string("").is_err());
}

#[test]
fn crlf_files_keep_crlf_line_endings() {
    let plan = plan_edit(b"a\r\nb\r\n", "b", "c\nd", None).unwrap();
    assert!(plan.crlf);
    assert_eq!(plan.updated, "a\r\nc\r\nd\r\n");
}

#[test]
fn header_title_is_compact_below_seventy_columns() {
    assert_eq!(title(69), "◆ LUMINUS");
    assert_eq!(title(69), COMPACT_LOGO);
    assert_eq!(title(70), "LUMINUS");
    assert_eq!(title(200), WIDE_LOGO);
    assert_eq!(TAGLINE, "Illuminate the codebase.");
}

#[test]
fn mcp_config_lists_servers_correctly() {
    let mut config = McpConfig::default();
    config.mcp_servers.push((
        "ares-mcp".into(),
        McpServerConfig { command: "node".into(), args: vec!["/path/to/ares/index.js".into()], env: vec![] },
    ));
    // What the project file holds is merged over an empty global file.
    let loaded = McpConfig::merge(McpConfig::default(), config);
    let list_str = loaded.list_servers();
    assert!(list_str.contains("ares-mcp"));
    assert!(list_str.contains("node /path/to/ares/index.js"));
}

#[test]
fn discovers_project_instructions() {
    // The one instruction file found in the project directory.
    let mut ctx = ProjectContext::default();
    ctx.add_file("LUMINUS.md", "/p/LUMINUS.md".into(), "Project instruction A");
    assert_eq!(ctx.loaded_paths.len(), 1);
    assert!(ctx.formatted_instructions().contains("Project instruction A"));
}
