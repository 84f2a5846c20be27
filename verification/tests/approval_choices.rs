use luminus::app::{App, ApprovalChoice, ApprovalGate, SessionToolPolicy, UiMode};
use luminus::permission_policy::{ProjectToolPolicy, ToolPolicy};
use luminus::tools::{ApprovalRequest, ToolRegistry, ToolRequest};

const ROOT: &str = "/proj";

fn prepare_read() -> ApprovalRequest {
    ToolRegistry
        .prepare(
            ToolRequest { name: "read_file".into(), args: vec!["Cargo.toml".into()] },
            ROOT,
            Some(Ok("/proj/Cargo.toml".into())),
        )
        .expect("read_file should prepare")
}

fn prepare_list() -> ApprovalRequest {
    ToolRegistry
        .prepare(ToolRequest { name: "list_dir".into(), args: vec![".".into()] }, ROOT, Some(Ok(ROOT.into())))
        .expect("list_dir should prepare")
}

fn app_with_project_rule(tool: &str, policy: ToolPolicy) -> App {
    let mut app = App::default();
    app.set_project_policy(ProjectToolPolicy::from_entries(ROOT, vec![(tool.to_string(), policy)]));
    app
}

#[test]
fn allow_session_auto_approves_matching_tool_without_overlay() {
    let mut app = App::default();
    let first = prepare_read();
    app.show_approval(first);
    assert_eq!(app.ui_mode(), UiMode::Approval);

    let approved = app
        .resolve_approval(ApprovalChoice::AllowSession)
        .expect("AllowSession should return the pending request");
    assert_eq!(approved.request.name, "read_file");
    assert_eq!(app.ui_mode(), UiMode::Normal);
    assert!(app.pending_approval.is_none());
    assert_eq!(app.session_policy("read_file"), Some(SessionToolPolicy::Allowed));

    let second = prepare_read();
    match app.gate_approval(second.clone()) {
        ApprovalGate::SessionAllowed(req) => {
            assert_eq!(req.request.name, "read_file");
            assert_eq!(app.ui_mode(), UiMode::Normal);
            assert!(app.pending_approval.is_none());
        }
        other => panic!("expected SessionAllowed, got {other:?}"),
    }

    let other = prepare_list();
    match app.gate_approval(other) {
        ApprovalGate::NeedsPrompt => {
            assert_eq!(app.ui_mode(), UiMode::Approval);
            assert!(app.pending_approval.is_some());
        }
        other => panic!("expected NeedsPrompt for unmatched tool, got {other:?}"),
    }
}

#[test]
fn reject_deny_session_auto_denies_matching_tool_without_overlay() {
    let mut app = App::default();
    app.show_approval(prepare_read());

    let rejected = app
        .resolve_approval(ApprovalChoice::RejectDenySession)
        .expect("RejectDenySession should return the pending request");
    assert_eq!(rejected.request.name, "read_file");
    assert_eq!(app.session_policy("read_file"), Some(SessionToolPolicy::Denied));

    let again = prepare_read();
    match app.gate_approval(again) {
        ApprovalGate::SessionDenied { tool } => {
            assert_eq!(tool, "read_file");
            assert_eq!(app.ui_mode(), UiMode::Normal);
            assert!(app.pending_approval.is_none());
        }
        other => panic!("expected SessionDenied, got {other:?}"),
    }
}

#[test]
fn clear_resets_session_allow_and_deny_lists() {
    let mut app = App::default();
    app.show_approval(prepare_read());
    let _ = app.resolve_approval(ApprovalChoice::AllowSession);
    assert_eq!(app.session_policy("read_file"), Some(SessionToolPolicy::Allowed));

    app.show_approval(prepare_list());
    let _ = app.resolve_approval(ApprovalChoice::RejectDenySession);
    assert_eq!(app.session_policy("list_dir"), Some(SessionToolPolicy::Denied));

    app.clear();

    assert_eq!(app.session_policy("read_file"), None);
    assert_eq!(app.session_policy("list_dir"), None);
    assert_eq!(app.ui_mode(), UiMode::Normal);
    assert!(app.pending_approval.is_none());
}

#[test]
fn key_semantics_allow_once_and_reject_once_do_not_persist_session_policy() {
    let mut app = App::default();
    app.show_approval(prepare_read());
    let _ = app.resolve_approval(ApprovalChoice::AllowOnce).expect("AllowOnce");
    assert_eq!(app.session_policy("read_file"), None);

    match app.gate_approval(prepare_read()) {
        ApprovalGate::NeedsPrompt => {}
        other => panic!("AllowOnce must not create session policy: {other:?}"),
    }
    let _ = app.resolve_approval(ApprovalChoice::Reject);
    assert_eq!(app.session_policy("read_file"), None);

    match app.gate_approval(prepare_read()) {
        ApprovalGate::NeedsPrompt => {}
        other => panic!("Reject once must not create session policy: {other:?}"),
    }
}

#[test]
fn denylist_takes_precedence_over_allowlist() {
    let mut app = App::default();
    app.show_approval(prepare_read());
    let _ = app.resolve_approval(ApprovalChoice::AllowSession);
    assert_eq!(app.session_policy("read_file"), Some(SessionToolPolicy::Allowed));

    app.show_approval(prepare_read());
    let _ = app.resolve_approval(ApprovalChoice::RejectDenySession);
    assert_eq!(
        app.session_policy("read_file"),
        Some(SessionToolPolicy::Denied),
        "deny must override a prior session allow for the same tool"
    );

    match app.gate_approval(prepare_read()) {
        ApprovalGate::SessionDenied { tool } => assert_eq!(tool, "read_file"),
        other => panic!("deny must win over allow: {other:?}"),
    }
}

#[test]
fn allow_session_after_deny_re_allows_tool() {
    let mut app = App::default();
    app.show_approval(prepare_read());
    let _ = app.resolve_approval(ApprovalChoice::RejectDenySession);
    assert_eq!(app.session_policy("read_file"), Some(SessionToolPolicy::Denied));

    app.show_approval(prepare_read());
    let _ = app.resolve_approval(ApprovalChoice::AllowSession);
    assert_eq!(app.session_policy("read_file"), Some(SessionToolPolicy::Allowed));

    match app.gate_approval(prepare_read()) {
        ApprovalGate::SessionAllowed(_) => {}
        other => panic!("allow after deny should re-enable: {other:?}"),
    }
}

#[test]
fn approval_choice_variants_are_distinct() {
    assert_ne!(ApprovalChoice::AllowOnce, ApprovalChoice::AllowSession);
    assert_ne!(ApprovalChoice::Reject, ApprovalChoice::RejectDenySession);
    assert_eq!(SessionToolPolicy::Allowed, SessionToolPolicy::Allowed);
    assert_eq!(SessionToolPolicy::Denied, SessionToolPolicy::Denied);
}

#[test]
fn gate_ordering_session_allow_beats_project_none() {
    let mut app = App::default();
    app.show_approval(prepare_read());
    let _ = app.resolve_approval(ApprovalChoice::AllowSession);

    match app.gate_approval(prepare_read()) {
        ApprovalGate::SessionAllowed(_) => {}
        other => panic!("expected SessionAllowed, got {other:?}"),
    }
}

#[test]
fn approval_choice_project_variants_are_distinct() {
    assert_ne!(ApprovalChoice::AllowProject, ApprovalChoice::AllowSession);
    assert_ne!(ApprovalChoice::RejectDenyProject, ApprovalChoice::RejectDenySession);
    assert_ne!(ApprovalChoice::AllowProject, ApprovalChoice::AllowOnce);
    assert_eq!(ToolPolicy::Allowed, ToolPolicy::Allowed);
    assert_eq!(ToolPolicy::Denied, ToolPolicy::Denied);
}

#[test]
fn app_load_project_policy_and_gate_project_allow() {
    let mut app = app_with_project_rule("read_file", ToolPolicy::Allowed);
    assert_eq!(app.project_policy("read_file"), Some(ToolPolicy::Allowed));

    match app.gate_approval(prepare_read()) {
        ApprovalGate::ProjectAllowed(req) => {
            assert_eq!(req.request.name, "read_file");
            assert_eq!(app.ui_mode(), UiMode::Normal);
            assert!(app.pending_approval.is_none());
        }
        other => panic!("expected ProjectAllowed, got {other:?}"),
    }

    match app.gate_approval(prepare_list()) {
        ApprovalGate::NeedsPrompt => assert_eq!(app.ui_mode(), UiMode::Approval),
        other => panic!("expected NeedsPrompt, got {other:?}"),
    }
}

#[test]
fn app_gate_project_deny() {
    let mut app = app_with_project_rule("read_file", ToolPolicy::Denied);
    match app.gate_approval(prepare_read()) {
        ApprovalGate::ProjectDenied { tool } => {
            assert_eq!(tool, "read_file");
            assert_eq!(app.ui_mode(), UiMode::Normal);
        }
        other => panic!("expected ProjectDenied, got {other:?}"),
    }
}

#[test]
fn gate_ordering_session_deny_beats_project_allow() {
    let mut app = app_with_project_rule("read_file", ToolPolicy::Allowed);
    app.show_approval(prepare_read());
    let _ = app.resolve_approval(ApprovalChoice::RejectDenySession);
    assert_eq!(app.session_policy("read_file"), Some(SessionToolPolicy::Denied));
    assert_eq!(app.project_policy("read_file"), Some(ToolPolicy::Allowed));

    match app.gate_approval(prepare_read()) {
        ApprovalGate::SessionDenied { tool } => assert_eq!(tool, "read_file"),
        other => panic!("session deny must beat project allow: {other:?}"),
    }
}

#[test]
fn gate_ordering_project_deny_beats_session_allow() {
    let mut app = app_with_project_rule("read_file", ToolPolicy::Denied);
    app.show_approval(prepare_read());
    let _ = app.resolve_approval(ApprovalChoice::AllowSession);
    assert_eq!(app.session_policy("read_file"), Some(SessionToolPolicy::Allowed));
    assert_eq!(app.project_policy("read_file"), Some(ToolPolicy::Denied));

    match app.gate_approval(prepare_read()) {
        ApprovalGate::ProjectDenied { tool } => assert_eq!(tool, "read_file"),
        other => panic!("project deny must beat session allow: {other:?}"),
    }
}

#[test]
fn allow_project_records_a_project_rule_and_auto_allows() {
    let mut app = App::default();
    app.set_project_policy(ProjectToolPolicy::empty(ROOT));
    app.show_approval(prepare_read());
    let approved = app.resolve_approval(ApprovalChoice::AllowProject).expect("AllowProject returns pending request");
    assert_eq!(approved.request.name, "read_file");
    assert_eq!(app.project_policy("read_file"), Some(ToolPolicy::Allowed));
    assert!(app.last_policy_error.is_none());
    assert_eq!(app.project_policy_store().get("read_file"), Some(ToolPolicy::Allowed));
    assert_eq!(app.project_policy_store().root(), ROOT);

    match app.gate_approval(prepare_read()) {
        ApprovalGate::ProjectAllowed(_) => {}
        other => panic!("expected ProjectAllowed after AllowProject: {other:?}"),
    }
}

#[test]
fn reject_deny_project_records_a_project_rule_and_auto_denies() {
    let mut app = App::default();
    app.show_approval(prepare_read());
    let rejected =
        app.resolve_approval(ApprovalChoice::RejectDenyProject).expect("RejectDenyProject returns pending request");
    assert_eq!(rejected.request.name, "read_file");
    assert_eq!(app.project_policy("read_file"), Some(ToolPolicy::Denied));

    match app.gate_approval(prepare_read()) {
        ApprovalGate::ProjectDenied { tool } => assert_eq!(tool, "read_file"),
        other => panic!("expected ProjectDenied after RejectDenyProject: {other:?}"),
    }
}

#[test]
fn clear_resets_session_policy_only_not_project() {
    let mut app = App::default();
    app.show_approval(prepare_read());
    let _ = app.resolve_approval(ApprovalChoice::AllowSession);
    app.show_approval(prepare_list());
    let _ = app.resolve_approval(ApprovalChoice::AllowProject);

    assert_eq!(app.session_policy("read_file"), Some(SessionToolPolicy::Allowed));
    assert_eq!(app.project_policy("list_dir"), Some(ToolPolicy::Allowed));

    app.clear();

    assert_eq!(app.session_policy("read_file"), None);
    assert_eq!(app.project_policy("list_dir"), Some(ToolPolicy::Allowed));

    match app.gate_approval(prepare_list()) {
        ApprovalGate::ProjectAllowed(_) => {}
        other => panic!("project allow must survive clear: {other:?}"),
    }
}

#[test]
fn resolving_with_nothing_pending_changes_nothing() {
    let mut app = App::default();
    assert!(app.resolve_approval(ApprovalChoice::AllowSession).is_none());
    assert_eq!(app.session_policy("read_file"), None);
    assert!(ApprovalChoice::AllowProject.allows() && ApprovalChoice::AllowProject.persists());
    assert!(!ApprovalChoice::RejectDenySession.allows() && !ApprovalChoice::RejectDenySession.persists());
    assert!(ApprovalChoice::RejectDenyProject.persists());
}

#[test]
fn allow_project_persists_to_disk_and_auto_allows() {
    let mut app = App::default();
    app.set_project_policy(ProjectToolPolicy::empty(ROOT));
    app.show_approval(prepare_read());
    let approved = app
        .resolve_approval(ApprovalChoice::AllowProject)
        .expect("AllowProject returns pending request");
    assert_eq!(approved.request.name, "read_file");
    assert_eq!(app.project_policy("read_file"), Some(ToolPolicy::Allowed));
    assert!(app.last_policy_error.is_none());
    // The rules handed to the policy file hold the entry.
    assert_eq!(app.project_policy_store().get("read_file"), Some(ToolPolicy::Allowed));
    match app.gate_approval(prepare_read()) {
        ApprovalGate::ProjectAllowed(_) => {}
        other => panic!("expected ProjectAllowed after AllowProject: {other:?}"),
    }
}

#[test]
fn reject_deny_project_persists_to_disk_and_auto_denies() {
    let mut app = App::default();
    app.set_project_policy(ProjectToolPolicy::empty(ROOT));
    app.show_approval(prepare_read());
    let rejected = app
        .resolve_approval(ApprovalChoice::RejectDenyProject)
        .expect("RejectDenyProject returns pending request");
    assert_eq!(rejected.request.name, "read_file");
    assert_eq!(app.project_policy("read_file"), Some(ToolPolicy::Denied));
    assert_eq!(app.project_policy_store().get("read_file"), Some(ToolPolicy::Denied));
    match app.gate_approval(prepare_read()) {
        ApprovalGate::ProjectDenied { tool } => assert_eq!(tool, "read_file"),
        other => panic!("expected ProjectDenied after RejectDenyProject: {other:?}"),
    }
}
