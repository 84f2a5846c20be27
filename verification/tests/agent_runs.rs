use luminus::agent::{short_id, AgentRun, AgentStatus};
use luminus::event::ProviderEvent;

fn delta(request_id: &str, text: &str) -> ProviderEvent {
    ProviderEvent::Delta { request_id: request_id.into(), text: text.into() }
}

#[test]
fn new_agent_is_running_with_empty_output() {
    let run = AgentRun::new("abc12345".into(), "req-1".into(), "review code".into());
    assert_eq!(run.status, AgentStatus::Running);
    assert!(run.output.is_empty());
    assert_eq!(run.prompt, "review code");
}

#[test]
fn deltas_accumulate_into_output() {
    let mut run = AgentRun::new("abc12345".into(), "req-1".into(), "p".into());
    assert!(run.apply_event(&delta("req-1", "Hello ")));
    assert!(run.apply_event(&delta("req-1", "world")));
    assert_eq!(run.output, "Hello world");
    assert_eq!(run.status, AgentStatus::Running);
}

#[test]
fn completed_marks_terminal() {
    let mut run = AgentRun::new("abc12345".into(), "req-1".into(), "p".into());
    run.apply_event(&delta("req-1", "x"));
    run.apply_event(&ProviderEvent::Completed { request_id: "req-1".into() });
    assert_eq!(run.status, AgentStatus::Completed);
    assert!(run.status.is_terminal());
}

#[test]
fn failed_stores_error_message() {
    let mut run = AgentRun::new("abc12345".into(), "req-1".into(), "p".into());
    run.apply_event(&ProviderEvent::Failed { request_id: "req-1".into(), error: "boom".into() });
    assert_eq!(run.status, AgentStatus::Failed("boom".into()));
    assert!(run.status.is_terminal());
}

#[test]
fn cancelled_marks_terminal() {
    let mut run = AgentRun::new("abc12345".into(), "req-1".into(), "p".into());
    run.apply_event(&ProviderEvent::Cancelled { request_id: "req-1".into() });
    assert_eq!(run.status, AgentStatus::Cancelled);
}

#[test]
fn late_deltas_after_completion_are_ignored() {
    let mut run = AgentRun::new("abc12345".into(), "req-1".into(), "p".into());
    run.apply_event(&delta("req-1", "done"));
    run.apply_event(&ProviderEvent::Completed { request_id: "req-1".into() });
    assert!(run.apply_event(&delta("req-1", "late")));
    assert_eq!(run.output, "done");
}

#[test]
fn event_for_other_request_is_ignored() {
    let mut run = AgentRun::new("abc12345".into(), "req-1".into(), "p".into());
    assert!(!run.apply_event(&delta("req-other", "nope")));
    assert!(run.output.is_empty());
    assert_eq!(run.status, AgentStatus::Running);
}

#[test]
fn short_id_trims_long_ids() {
    assert_eq!(short_id("abcdefgh12345678"), "12345678");
    assert_eq!(short_id("short"), "short");
}

#[test]
fn short_id_keeps_multibyte_characters_whole() {
    assert_eq!(short_id("xxéééééééé"), "éééééééé");
}
