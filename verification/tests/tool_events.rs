use luminus::event::ProviderEvent;
use luminus::tool_event::{ToolCallId, ToolCallIds, ToolLifecycleEvent};

#[test]
fn tool_call_ids_are_unique_and_monotonically_deterministic() {
    let mut ids = ToolCallIds::new();
    let first = ids.allocate();
    let second = ids.allocate();
    assert_ne!(first, second);
    assert!(second.as_u64() > first.as_u64());
}

#[test]
fn first_allocated_id_is_one_and_displays_with_prefix() {
    let mut ids = ToolCallIds::default();
    let first = ids.allocate();
    assert_eq!(first.as_u64(), 1);
    assert_eq!(first.to_string(), "tool:1");
    assert_eq!(ToolCallId::new(42).to_string(), "tool:42");
}

#[test]
fn lifecycle_events_preserve_identity_and_payload() {
    let id = ToolCallId::new(7);
    let events = [
        ToolLifecycleEvent::Started { id, tool: "read".into() },
        ToolLifecycleEvent::Progress { id, tool: "read".into(), message: "working".into() },
        ToolLifecycleEvent::Completed { id, tool: "read".into(), output: "done".into() },
        ToolLifecycleEvent::Failed { id, tool: "read".into(), error: "oops".into() },
        ToolLifecycleEvent::Cancelled { id, tool: "read".into() },
    ];
    for event in &events {
        assert_eq!(event.id(), id);
        assert_eq!(event.tool(), "read");
    }
    assert!(matches!(&events[1], ToolLifecycleEvent::Progress { message, .. } if message == "working"));
    assert!(matches!(&events[2], ToolLifecycleEvent::Completed { output, .. } if output == "done"));
    assert!(matches!(&events[3], ToolLifecycleEvent::Failed { error, .. } if error == "oops"));
}

#[test]
fn only_outcome_events_are_terminal() {
    let id = ToolCallId::new(3);
    assert!(!ToolLifecycleEvent::Started { id, tool: "t".into() }.is_terminal());
    assert!(!ToolLifecycleEvent::Progress { id, tool: "t".into(), message: "m".into() }.is_terminal());
    assert!(ToolLifecycleEvent::Completed { id, tool: "t".into(), output: "o".into() }.is_terminal());
    assert!(ToolLifecycleEvent::Failed { id, tool: "t".into(), error: "e".into() }.is_terminal());
    assert!(ToolLifecycleEvent::Cancelled { id, tool: "t".into() }.is_terminal());
}

#[test]
fn only_outcomes_are_terminal() {
    assert!(!ProviderEvent::Started { request_id: "r".into() }.is_terminal());
    assert!(!ProviderEvent::Delta { request_id: "r".into(), text: "chunk".into() }.is_terminal());
    assert!(ProviderEvent::Completed { request_id: "r".into() }.is_terminal());
    assert!(ProviderEvent::Cancelled { request_id: "r".into() }.is_terminal());
    assert!(ProviderEvent::Failed { request_id: "r".into(), error: "nope".into() }.is_terminal());
}

#[test]
fn provider_events_report_their_request() {
    assert_eq!(ProviderEvent::Delta { request_id: "r9".into(), text: "x".into() }.request_id(), "r9");
}
