use luminus::app::{ApprovalChoice, UiMode};
use luminus::command::Command;
use luminus::controller::{
    changes_listing, closes_exchange, context_report, discovered_listing, key_action, mcp_report,
    missions_listing, models_listing, sessions_listing, submission, tools_listing, Key, KeyAction,
    KeyPress, MemoryRequest, Notice, ProviderChoice, Submission, memory_request, provider_choice,
    text_or_notice,
};
use luminus::event::ProviderEvent;
use luminus::provider::FakeProvider;
use luminus::mission::{Mission, MissionStatus};
use luminus::model::{ModelCatalog, ModelRole, ModelSelection};
use luminus::tools::ToolRegistry;

fn press(key: Key) -> KeyPress {
    KeyPress { key, ctrl: false, alt: false }
}

fn ctrl(c: char) -> KeyPress {
    KeyPress { key: Key::Char(c), ctrl: true, alt: false }
}

#[test]
fn approval_keys_allow_or_refuse() {
    let cases = [
        (Key::Char('y'), ApprovalChoice::AllowOnce),
        (Key::Char('Y'), ApprovalChoice::AllowOnce),
        (Key::Enter, ApprovalChoice::AllowOnce),
        (Key::Char('a'), ApprovalChoice::AllowSession),
        (Key::Char('P'), ApprovalChoice::AllowProject),
        (Key::Char('n'), ApprovalChoice::Reject),
        (Key::Esc, ApprovalChoice::Reject),
        (Key::Char('D'), ApprovalChoice::RejectDenySession),
        (Key::Char('x'), ApprovalChoice::RejectDenyProject),
    ];
    for (key, choice) in cases {
        assert_eq!(key_action(UiMode::Approval, press(key), false, false), KeyAction::Resolve(choice));
    }
    assert_eq!(key_action(UiMode::Approval, press(Key::Char('q')), false, false), KeyAction::Nothing);
}

#[test]
fn selector_keys_move_choose_and_close() {
    assert_eq!(key_action(UiMode::ModelSelector, press(Key::Up), false, false), KeyAction::SelectorPrev);
    assert_eq!(key_action(UiMode::ModelSelector, press(Key::Down), false, false), KeyAction::SelectorNext);
    assert_eq!(key_action(UiMode::ModelSelector, press(Key::Enter), false, false), KeyAction::ChooseModel);
    assert_eq!(key_action(UiMode::ModelSelector, press(Key::Esc), false, false), KeyAction::HideSelector);
    assert_eq!(key_action(UiMode::ModelSelector, press(Key::Char('x')), false, false), KeyAction::Nothing);
}

#[test]
fn ctrl_c_cancels_the_agent_first_then_the_request_then_quits() {
    assert_eq!(key_action(UiMode::Normal, ctrl('c'), true, true), KeyAction::CancelAgent);
    assert_eq!(key_action(UiMode::Normal, ctrl('c'), false, true), KeyAction::CancelRequest);
    assert_eq!(key_action(UiMode::Normal, ctrl('c'), false, false), KeyAction::Exit);
    assert_eq!(key_action(UiMode::Normal, press(Key::Esc), false, false), KeyAction::Nothing);
    assert_eq!(key_action(UiMode::Normal, press(Key::Esc), false, true), KeyAction::CancelRequest);
}

#[test]
fn normal_keys_edit_the_composer() {
    assert_eq!(key_action(UiMode::Normal, press(Key::Char('a')), false, false), KeyAction::InsertChar('a'));
    assert_eq!(
        key_action(UiMode::Normal, KeyPress { key: Key::Char('a'), ctrl: false, alt: true }, false, false),
        KeyAction::Nothing
    );
    assert_eq!(key_action(UiMode::Normal, press(Key::Backspace), false, false), KeyAction::DeleteChar);
    assert_eq!(key_action(UiMode::Normal, press(Key::Enter), false, false), KeyAction::Submit);
    assert_eq!(key_action(UiMode::Normal, ctrl('l'), false, false), KeyAction::ClearConversation);
    assert_eq!(key_action(UiMode::Normal, ctrl('m'), false, false), KeyAction::ShowModelSelector);
    assert_eq!(key_action(UiMode::Normal, ctrl('z'), false, false), KeyAction::Nothing);
}

#[test]
fn submitted_lines_are_prompts_commands_or_ignored() {
    assert!(matches!(submission(String::new(), false), Submission::Ignore));
    assert!(matches!(submission("hello".into(), true), Submission::Ignore));
    assert!(matches!(submission("hello".into(), false), Submission::Prompt(p) if p == "hello"));
    assert!(matches!(submission("/help".into(), false), Submission::Command(Ok(Command::Help))));
    assert!(matches!(submission("/nope".into(), false), Submission::Command(Err(_))));
    assert!(closes_exchange("/help", false));
    assert!(!closes_exchange("/clear", false));
    assert!(!closes_exchange("/exit", true));
}

#[test]
fn notices_read_as_the_loop_writes_them() {
    assert_eq!(
        Notice::ModelSelected { provider: "fake".into(), model: "fake-fast".into() }.text(),
        "Model selected: fake / fake-fast"
    );
    assert_eq!(Notice::CurrentProvider { openai: false }.text(), "Current provider: fake\nAvailable: fake, openai (via env)");
    assert_eq!(Notice::ToolError { error: "unknown tool: x".into() }.text(), "tool error: unknown tool: x");
    assert_eq!(
        Notice::EnvSet { key: "A".into(), value: "1".into() }.text(),
        "Set A=1 (saved to .env and active in memory)"
    );
    assert_eq!(Notice::NoEditsFor { path: "a.txt".into() }.text(), "No recorded edits for a.txt.");
    assert_eq!(
        Notice::RestoreFailed { path: "a".into(), error: "denied".into() }.text(),
        "Could not restore a: denied"
    );
}

#[test]
fn session_and_model_listings() {
    assert_eq!(sessions_listing(&[]), "No saved sessions.");
    assert_eq!(sessions_listing(&["a".into(), "b".into()]), "Saved sessions:\n  - a\n  - b");
    assert_eq!(discovered_listing(&[]), "No models discovered.");
    assert_eq!(discovered_listing(&["m1".into()]), "Discovered models:\n  - m1");
}

#[test]
fn tools_listing_names_permissions() {
    let text = tools_listing(&ToolRegistry.specs());
    assert!(text.starts_with("Available tools:\nread_file [read-only] - read a UTF-8 text file\n"));
    assert!(text.ends_with("http_get [network] - fetch a URL (disabled by default)"));
    assert_eq!(text.lines().count(), 11);
}

#[test]
fn models_listing_marks_the_active_role() {
    let mut catalog = ModelCatalog::new();
    catalog.add(ModelSelection::new("fake", "fake-model", ModelRole::Default)).unwrap();
    catalog.add(ModelSelection::new("fake", "fake-fast", ModelRole::Fast)).unwrap();
    catalog.select_role(ModelRole::Fast).unwrap();
    let lines = catalog.lines();
    assert_eq!(lines, vec!["default -> fake / fake-model", "fast -> fake / fake-fast (active)"]);
    assert_eq!(
        models_listing(&lines, "HELP"),
        "Configured models:\n  default -> fake / fake-model\n  fast -> fake / fake-fast (active)\n\nHELP"
    );
}

#[test]
fn mcp_report_lists_servers_then_tools() {
    let results = vec![("a".to_string(), Ok(())), ("b".to_string(), Err("Connection failed: boom".to_string()))];
    assert_eq!(
        mcp_report(&results, &[]),
        "Connecting to MCP Servers...\n  a -> connected ok\n  b -> error: Connection failed: boom"
    );
    let tools = vec![("mcp:a:echo".to_string(), "echoes".to_string())];
    assert_eq!(
        mcp_report(&results[..1], &tools),
        "Connecting to MCP Servers...\n  a -> connected ok\n\nDiscovered 1 MCP tools:\n  mcp:a:echo (echoes)"
    );
}

#[test]
fn context_and_mission_and_change_listings() {
    assert!(context_report(&[], "").starts_with("No project context files found"));
    assert_eq!(
        context_report(&["/p/AGENTS.md".into()], "# AGENTS.md\nhi"),
        "Loaded project context files:\n  /p/AGENTS.md\n\n# AGENTS.md\nhi"
    );
    assert_eq!(missions_listing(&[]), "No missions found.");
    let m = Mission {
        id: "m-1".into(),
        title: "Build".into(),
        goal: "Build".into(),
        status: MissionStatus::WaitingForApproval,
        created_at: 0,
    };
    assert_eq!(missions_listing(&[m]), "Missions:\n  m-1 | Build | WaitingForApproval");
    assert_eq!(changes_listing(&[]), "No changes recorded.");
    assert_eq!(changes_listing(&[("a.txt".into(), 2, 1)]), "Changes:\n  a.txt +2 -1");
}

#[test]
fn policy_notices_name_the_tool() {
    assert_eq!(Notice::DeniedForSession { tool: "read_file".into() }.text(), "tool read_file: denied for this session");
    assert_eq!(Notice::DeniedByProject { tool: "run_shell".into() }.text(), "tool run_shell: denied by project policy");
    assert_eq!(Notice::PolicyError { error: "disk full".into() }.text(), "policy: disk full");
}

#[test]
fn provider_names_pick_a_provider() {
    assert_eq!(provider_choice(Some("openai")), ProviderChoice::OpenAi);
    assert_eq!(provider_choice(Some("openai-compatible")), ProviderChoice::OpenAi);
    assert_eq!(provider_choice(Some("fake")), ProviderChoice::Fake);
    assert_eq!(provider_choice(Some("other")), ProviderChoice::Unknown("other".into()));
    assert_eq!(provider_choice(None), ProviderChoice::Current);
}

#[test]
fn memory_argument_inspects_or_writes() {
    assert_eq!(memory_request(None), MemoryRequest::Inspect);
    assert_eq!(memory_request(Some("inspect")), MemoryRequest::Inspect);
    assert_eq!(memory_request(Some("remember this")), MemoryRequest::Write("remember this".into()));
}

#[test]
fn empty_texts_show_their_notice() {
    assert_eq!(text_or_notice(String::new(), Notice::NoChanges), "No changes recorded.");
    assert_eq!(text_or_notice("diff".into(), Notice::NoChanges), "diff");
    assert_eq!(text_or_notice(String::new(), Notice::MemoryEmpty), "Memory is empty.");
}

#[test]
fn a_cancelled_fake_answer_keeps_what_was_delivered() {
    let provider = FakeProvider::new(std::time::Duration::from_millis(0));
    let none = provider.cancelled_answer("r", "a b", 0);
    assert_eq!(
        none,
        vec![ProviderEvent::Started { request_id: "r".into() }, ProviderEvent::Cancelled { request_id: "r".into() }]
    );
    let one = provider.cancelled_answer("r", "a b", 1);
    assert_eq!(one.len(), 3);
    assert!(matches!(&one[1], ProviderEvent::Delta { text, .. } if text == "a"));
    assert!(matches!(&one[2], ProviderEvent::Cancelled { .. }));
}
