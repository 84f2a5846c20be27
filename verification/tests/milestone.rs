use std::time::Duration;

use luminus::app::{App, Role};
use luminus::command::{parse_command, Command};
use luminus::diff_history::DiffHistory;
use luminus::edit::content_hash_of;
use luminus::event::ProviderEvent;
use luminus::provider::{FakeProvider, ModelInfo, ProviderCapabilities, ProviderError};
use luminus::skill::{SkillRegistry, SkillSource};

#[test]
fn parses_only_the_supported_slash_commands() {
    assert_eq!(parse_command("/help"), Ok(Command::Help));
    assert_eq!(parse_command("/about"), Ok(Command::About));
    assert_eq!(parse_command("/clear"), Ok(Command::Clear));
    assert_eq!(parse_command("/exit"), Ok(Command::Exit));
    assert!(parse_command("/model").is_err());
}

#[test]
fn reducer_ignores_chunks_after_terminal_event() {
    let mut app = App::default();
    app.start_request("request-3".into(), "hello".into());
    app.apply_provider_event(ProviderEvent::Cancelled { request_id: "request-3".into() });
    app.apply_provider_event(ProviderEvent::Delta { request_id: "request-3".into(), text: "late".into() });

    assert!(!app.messages.iter().any(|message| message.content.contains("late")));
    assert!(app.messages.iter().any(|message| message.role == Role::System));
}

#[test]
fn fake_provider_exposes_deterministic_model_contract() {
    let provider = FakeProvider::new(Duration::ZERO);
    assert_eq!(provider.model(), ModelInfo::fake());
    assert_eq!(provider.capabilities(), ProviderCapabilities::fake());
    assert_eq!(provider.model().id, "fake-model");
}

#[test]
fn model_info_and_capabilities_are_cloneable_and_debuggable() {
    let info = ModelInfo::fake();
    let caps = ProviderCapabilities::fake();
    assert_eq!(info.clone(), info);
    assert_eq!(caps.clone(), caps);
    let _ = format!("{info:?} {caps:?}");
}

#[test]
fn provider_error_is_typed() {
    let error = ProviderError::Cancelled;
    assert_eq!(error.to_string(), "provider request cancelled");
}

#[test]
fn fake_provider_answers_word_by_word() {
    let events = FakeProvider::new(Duration::ZERO).answer_events("r", "one two three");
    let chunks: Vec<&str> = events
        .iter()
        .filter_map(|e| match e {
            ProviderEvent::Delta { text, .. } => Some(text.as_str()),
            _ => None,
        })
        .collect();
    assert_eq!(chunks, vec!["one", "two", "three"]);
    assert!(matches!(events.first(), Some(ProviderEvent::Started { .. })));
    assert!(matches!(events.last(), Some(ProviderEvent::Completed { .. })));
    assert_eq!(events.iter().filter(|event| event.is_terminal()).count(), 1);
}

#[test]
fn content_hash_of_is_stable_and_prefixed() {
    let h1 = content_hash_of(b"hello");
    let h2 = content_hash_of(b"hello");
    let h3 = content_hash_of(b"world");
    assert!(h1.starts_with("dh64:"));
    assert_eq!(h1.len(), "dh64:".len() + 16);
    assert_eq!(h1, h2);
    assert_ne!(h1, h3);
}

#[test]
fn builtin_skills_discovered_and_loaded() {
    let registry = SkillRegistry::new();
    let skills = registry.discover();
    assert!(!skills.is_empty());
    assert!(skills.iter().any(|s| s.name == "fix-tests"));
    assert!(skills.iter().any(|s| s.name == "code-review"));

    let loaded = registry.load_skill("fix-tests", None).unwrap();
    assert_eq!(loaded.metadata.source, SkillSource::BuiltIn);
    assert!(loaded.content.contains("# Fix Tests"));
}

#[test]
fn list_and_inspect_skills() {
    let registry = SkillRegistry::new();
    let list = registry.list_skills();
    assert!(list.contains("fix-tests (built-in)"));
    assert!(list.contains("code-review (built-in)"));

    let inspect = registry.inspect_skill("code-review", None).unwrap();
    assert!(inspect.contains("Skill: code-review"));
    assert!(inspect.contains("--- Skill Content ---"));
}

#[test]
fn undo_on_empty_returns_none() {
    let mut history = DiffHistory::default();
    assert!(history.undo().is_none());
    assert!(history.redo().is_none());
}

#[test]
fn revert_nonexistent_file_returns_none() {
    let mut history = DiffHistory::default();
    assert!(history.revert_file("nonexistent.txt").is_none());
}

#[test]
fn record_and_undo_moves_the_edit_to_redo() {
    let mut history = DiffHistory::default();
    history.record_edit("f.txt", "line1\nline2\n", "line1\nMODIFIED\n");
    let record = history.undo().expect("should undo");
    assert_eq!(record.path, "f.txt");
    assert_eq!(record.before_content, "line1\nline2\n");
    assert_eq!(history.undo_count(), 0);
    assert_eq!(history.redo_count(), 1);
    let again = history.redo().expect("should redo");
    assert_eq!(again.after_content, "line1\nMODIFIED\n");
    assert_eq!(history.undo_count(), 1);
    assert_eq!(history.redo_count(), 0);
}

#[test]
fn new_edit_clears_redo_stack() {
    let mut history = DiffHistory::default();
    history.record_edit("f.txt", "a\n", "b\n");
    history.undo();
    assert_eq!(history.redo_count(), 1);
    history.record_edit("f.txt", "a\n", "c\n");
    assert_eq!(history.redo_count(), 0);
    assert_eq!(history.undo_count(), 1);
    assert!(!history.is_empty());
}
