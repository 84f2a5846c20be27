use std::time::Duration;

use luminus::app::{App, Role, UiMode};
use luminus::context::ContextBudget;
use luminus::event::ProviderEvent;
use luminus::session::{SavedMessage, Session};
use luminus::tool_activity::ToolActivity;
use luminus::tool_event::{ToolCallId, ToolLifecycleEvent};
use luminus::tool_output::{BoundedOutput, Bounds, TruncationKind};
use luminus::tools::{ApprovalRequest, Permission, ToolError, ToolOutput, ToolRequest, ToolSpec};

fn delta(request_id: &str, text: &str) -> ProviderEvent {
    ProviderEvent::Delta { request_id: request_id.into(), text: text.into() }
}

fn sample_approval(name: &str, permission: Permission) -> ApprovalRequest {
    ApprovalRequest {
        request: ToolRequest { name: name.into(), args: vec!["arg".into()] },
        spec: ToolSpec { name: "read_file", description: "read", permission },
    }
}

#[test]
fn default_app_is_empty() {
    let app = App::default();
    assert!(app.messages.is_empty());
}

#[test]
fn start_request_records_user_prompt() {
    let mut app = App::default();
    app.start_request("r1".into(), "hello".into());
    assert_eq!(app.messages.len(), 1);
    assert_eq!(app.messages[0].role, Role::User);
    assert_eq!(app.messages[0].content, "hello");
}

#[test]
fn deltas_accumulate_into_one_assistant_message() {
    let mut app = App::default();
    app.start_request("r1".into(), "hello".into());
    app.apply_provider_event(ProviderEvent::Started { request_id: "r1".into() });
    app.apply_provider_event(delta("r1", "Hi "));
    app.apply_provider_event(delta("r1", "there"));
    app.apply_provider_event(ProviderEvent::Completed { request_id: "r1".into() });
    assert_eq!(app.messages.len(), 2);
    assert_eq!(app.messages[1].role, Role::Assistant);
    assert_eq!(app.messages[1].content, "Hi there");
}

#[test]
fn late_deltas_after_cancellation_are_dropped() {
    let mut app = App::default();
    app.start_request("r1".into(), "hello".into());
    app.apply_provider_event(ProviderEvent::Cancelled { request_id: "r1".into() });
    app.apply_provider_event(delta("r1", "late"));
    assert!(!app.messages.iter().any(|m| m.content.contains("late")));
    assert!(app.messages.iter().any(|m| m.role == Role::System));
}

#[test]
fn late_deltas_after_completion_are_dropped() {
    let mut app = App::default();
    app.start_request("r1".into(), "hello".into());
    app.apply_provider_event(delta("r1", "done"));
    app.apply_provider_event(ProviderEvent::Completed { request_id: "r1".into() });
    app.apply_provider_event(delta("r1", "late"));
    assert_eq!(app.messages[1].content, "done");
}

#[test]
fn events_for_other_requests_are_ignored() {
    let mut app = App::default();
    app.start_request("r1".into(), "hello".into());
    app.apply_provider_event(delta("r2", "stranger"));
    assert_eq!(app.messages.len(), 1);
}

#[test]
fn failure_records_a_system_message() {
    let mut app = App::default();
    app.start_request("r1".into(), "hello".into());
    app.apply_provider_event(ProviderEvent::Failed { request_id: "r1".into(), error: "boom".into() });
    assert!(app.messages.iter().any(|m| m.role == Role::System && m.content.contains("boom")));
    assert_eq!(app.messages.last().unwrap().content, "Request failed: boom");
}

#[test]
fn approval_can_be_accepted_or_rejected() {
    let approval = sample_approval("read_file", Permission::ReadOnly);
    let mut app = App::default();
    app.show_approval(approval.clone());
    assert_eq!(app.ui_mode(), UiMode::Approval);
    assert_eq!(app.take_approval(), Some(approval));
    assert_eq!(app.ui_mode(), UiMode::Normal);

    app.show_approval(sample_approval("run_shell", Permission::Execute));
    let rejected = app.reject_approval();
    assert!(rejected.is_some());
    assert_eq!(app.ui_mode(), UiMode::Normal);
    assert!(app.pending_approval.is_none());
}

#[test]
fn clear_resets_state() {
    let mut app = App::default();
    app.start_request("r1".into(), "hello".into());
    app.clear();
    assert!(app.messages.is_empty());
    assert!(app.pending_approval.is_none());
}

#[test]
fn append_bounded_tool_output_includes_id_permission_and_preview() {
    let mut app = App::default();
    let id = app.next_tool_call_id();
    let bounded = BoundedOutput::truncate("hello world", Bounds::default());
    app.append_bounded_tool_output(id, "read_file", "read-only", &bounded);
    assert_eq!(app.messages.len(), 1);
    let content = &app.messages[0].content;
    assert!(content.contains(&format!("tool {}", id.to_string())));
    assert!(content.contains("read_file"));
    assert!(content.contains("read-only"));
    assert!(content.contains("hello world"));
    assert!(!content.contains("truncated"));
    assert_eq!(content, "tool tool:1 (read_file, read-only):\nhello world");
}

#[test]
fn append_bounded_tool_output_reports_truncation_metadata() {
    let mut app = App::default();
    let id = app.next_tool_call_id();
    let input = "line1\nline2\nline3\nline4";
    let bounds = Bounds { max_bytes: None, max_lines: Some(2) };
    let bounded = BoundedOutput::truncate(input, bounds);
    assert!(bounded.truncated);
    assert_eq!(bounded.truncation, TruncationKind::Lines);

    app.append_bounded_tool_output(id, "run_shell", "execute", &bounded);
    let content = &app.messages[0].content;
    assert!(content.contains("line1\nline2"));
    assert!(content.contains("truncated"));
    assert!(content.contains("lines"));
    assert!(content.contains(&format!("total_bytes={}", bounded.total_bytes)));
    assert!(content.contains(&format!("total_lines={}", bounded.total_lines)));
    assert!(content.contains(&format!("bytes_omitted={}", bounded.bytes_omitted)));
    assert!(content.contains(&format!("lines_omitted={}", bounded.lines_omitted)));
    assert!(content.contains("full_output available in-memory only"));
    assert!(content.contains("no disk artifact yet"));
    assert!(bounded.full_output.is_some());
}

#[test]
fn begin_and_record_tool_result_emit_started_then_completed() {
    let mut app = App::default();
    let id = app.next_tool_call_id();
    let approval = sample_approval("read_file", Permission::ReadOnly);

    app.begin_tool(id, "read_file");
    assert_eq!(app.tool_activities.len(), 1);
    assert!(matches!(&app.tool_activities[0], ToolActivity::Started { .. }));

    let summary = app.record_tool_result(
        id,
        &approval,
        Ok(ToolOutput { tool: "read_file".into(), output: "file contents".into() }),
        Duration::from_millis(12),
    );

    assert!(summary.contains(&format!("tool {}", id.to_string())));
    assert!(summary.contains("read_file"));
    assert!(summary.contains("read-only"));
    assert!(summary.contains("file contents"));
    assert_eq!(app.tool_activities.len(), 2);
    assert!(matches!(
        &app.tool_activities[1],
        ToolActivity::Completed { meta, output }
            if meta.duration == Some(Duration::from_millis(12)) && output == "file contents"
    ));
    assert!(app.messages.iter().any(|m| m.role == Role::Assistant && m.content.contains("file contents")));
}

#[test]
fn record_tool_result_emits_failed_on_error() {
    let mut app = App::default();
    let id = app.next_tool_call_id();
    let approval = sample_approval("http_get", Permission::Network);
    app.begin_tool(id, "http_get");
    let summary = app.record_tool_result(id, &approval, Err(ToolError::NetworkDisabled), Duration::from_millis(1));
    assert!(summary.contains("error"));
    assert!(summary.contains("network tools are disabled"));
    assert!(matches!(
        app.tool_activities.last(),
        Some(ToolActivity::Failed { error, .. }) if error.contains("network tools are disabled")
    ));
}

#[test]
fn record_tool_rejection_emits_cancelled_activity() {
    let mut app = App::default();
    let summary = app.record_tool_rejection("write_file");
    assert!(summary.contains("rejected"));
    assert!(summary.contains("write_file"));
    assert_eq!(summary, "tool tool:1 (write_file): rejected");
    assert!(matches!(
        app.tool_activities.last(),
        Some(ToolActivity::Failed { error, .. }) if error == "cancelled"
    ));
}

#[test]
fn start_command_preserves_tool_activities() {
    let mut app = App::default();
    let id = app.next_tool_call_id();
    app.begin_tool(id, "list_dir");
    assert_eq!(app.tool_activities.len(), 1);
    app.start_command("command", "tool finished");
    assert_eq!(app.tool_activities.len(), 1);
    assert_eq!(app.messages.last().map(|m| m.content.as_str()), Some("tool finished"));
}

#[test]
fn clear_still_clears_tool_activities() {
    let mut app = App::default();
    let id = app.next_tool_call_id();
    app.begin_tool(id, "list_dir");
    app.apply_tool_lifecycle(
        &ToolLifecycleEvent::Completed { id, tool: "list_dir".into(), output: "ok".into() },
        Some(Duration::from_millis(5)),
    );
    assert!(!app.tool_activities.is_empty());
    app.clear();
    assert!(app.tool_activities.is_empty());
    assert!(app.messages.is_empty());
    assert!(app.pending_approval.is_none());
}

#[test]
fn apply_tool_lifecycle_maps_all_variants() {
    let mut app = App::default();
    let id = ToolCallId::new(9);
    app.apply_tool_lifecycle(&ToolLifecycleEvent::Started { id, tool: "t".into() }, None);
    app.apply_tool_lifecycle(&ToolLifecycleEvent::Progress { id, tool: "t".into(), message: "working".into() }, None);
    app.apply_tool_lifecycle(
        &ToolLifecycleEvent::Completed { id, tool: "t".into(), output: "done".into() },
        Some(Duration::from_millis(3)),
    );
    app.apply_tool_lifecycle(&ToolLifecycleEvent::Failed { id, tool: "t".into(), error: "err".into() }, None);
    app.apply_tool_lifecycle(&ToolLifecycleEvent::Cancelled { id, tool: "t".into() }, None);
    assert_eq!(app.tool_activities.len(), 5);
    assert!(matches!(app.tool_activities[0], ToolActivity::Started { .. }));
    assert!(matches!(app.tool_activities[1], ToolActivity::Progress { .. }));
    assert!(matches!(app.tool_activities[2], ToolActivity::Completed { .. }));
    assert!(matches!(app.tool_activities[3], ToolActivity::Failed { .. }));
    assert!(matches!(&app.tool_activities[4], ToolActivity::Failed { error, .. } if error == "cancelled"));
}

#[test]
fn budget_is_charged_by_words_and_cleared_on_completion() {
    let mut app = App::default();
    app.set_context_budget(ContextBudget::new(100, 10));
    app.start_request("r1".into(), "one two three".into());
    assert_eq!(app.context_budget().unwrap().used_tokens().0, 3);
    app.apply_provider_event(delta("r1", "four five"));
    assert_eq!(app.context_budget().unwrap().used_tokens().0, 5);
    app.apply_provider_event(ProviderEvent::Completed { request_id: "r1".into() });
    assert_eq!(app.context_budget().unwrap().used_tokens().0, 0);
}

#[test]
fn only_one_child_agent_runs_at_a_time() {
    let mut app = App::default();
    assert!(app.start_agent("a1".into(), "req-a".into(), "p".into()));
    assert!(!app.start_agent("a2".into(), "req-b".into(), "q".into()));
    assert_eq!(app.active_agent_request_id(), Some("req-a"));
    assert!(app.apply_agent_event(&ProviderEvent::Completed { request_id: "req-a".into() }));
    assert_eq!(app.active_agent_request_id(), None);
    assert!(!app.apply_agent_event(&ProviderEvent::Completed { request_id: "req-z".into() }));
    assert!(app.start_agent("a2".into(), "req-b".into(), "q".into()));
}

#[test]
fn model_selector_cursor_stays_in_range() {
    let mut app = App::default();
    app.show_model_selector(vec!["a".into(), "b".into()]);
    assert_eq!(app.ui_mode(), UiMode::ModelSelector);
    app.model_selector_prev();
    assert_eq!(app.model_selector_index, 0);
    app.model_selector_next();
    app.model_selector_next();
    assert_eq!(app.model_selector_index, 1);
    app.hide_model_selector();
    assert_eq!(app.ui_mode(), UiMode::Normal);
    assert!(app.model_selector_items.is_empty());
}

#[test]
fn sessions_round_trip_known_roles() {
    let mut app = App::default();
    app.start_request("r1".into(), "hello".into());
    app.apply_provider_event(delta("r1", "hi"));
    let session = app.snapshot_session("demo");
    assert_eq!(session.messages[0].role, "user");
    assert_eq!(session.messages[1].role, "assistant");
    let stored = Session::new(
        "other",
        vec![
            SavedMessage { role: "user".into(), content: "a".into() },
            SavedMessage { role: "robot".into(), content: "b".into() },
            SavedMessage { role: "system".into(), content: "c".into() },
        ],
    );
    app.restore_session(&stored);
    assert_eq!(app.messages.len(), 2);
    assert_eq!(app.messages[1].role, Role::System);
    assert_eq!(app.messages[1].content, "c");
}

#[test]
fn status_bar_shows_mode_size_and_hint() {
    let mut app = App::default();
    let (state, hint) = app.status_texts(false);
    assert_eq!(state, "│ ready │ ctx 0 tok │ safe");
    assert_eq!(hint, "│ Prompt  Enter: send   Ctrl+L: clear   Ctrl+C: quit");
    app.start_request("r".into(), "hello there".into());
    app.apply_provider_event(luminus::event::ProviderEvent::Delta { request_id: "r".into(), text: "hi".into() });
    let (state, hint) = app.status_texts(true);
    assert_eq!(state, "│ chat │ ctx 3 tok │ safe");
    assert_eq!(hint, "│ ready");
    assert_eq!(app.transcript_messages().len(), 2);
    assert_eq!(app.activity_cards().len(), 0);
    assert_eq!(app.agent_run_list().len(), 0);
    assert!(app.pending_call().is_none());
    assert_eq!(app.selector_state().0, 0);
}
