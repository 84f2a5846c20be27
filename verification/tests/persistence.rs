use luminus::artifact_store::{sanitize_id, ArtifactStore};
use luminus::config::{parse_env_file, AppConfig, ProviderConfig};
use luminus::diff_history::{unified_diff_for, DiffHistory};
use luminus::mission::{Mission, MissionStatus, MissionStore};
use luminus::paths::{join, project_config_path, project_mcp_config_path, project_skills_dir};
use luminus::permission_policy::{ProjectToolPolicy, ToolPolicy};
use luminus::self_improve::{LearnedSkillDraft, SelfImproveStore};
use luminus::session::{safe_name, session_file_name, SavedMessage, Session, SessionEvent};
use luminus::setup::SetupWizard;
use luminus::tool_output::ArtifactId;

#[test]
fn sanitize_id_strips_path_separators() {
    assert_eq!(sanitize_id("../evil"), "___evil");
    assert_eq!(sanitize_id(""), "artifact");
}

#[test]
fn artifact_paths_live_under_the_artifacts_directory() {
    let mut store = ArtifactStore::new("/data");
    assert_eq!(store.artifacts_dir(), "/data/artifacts");
    assert_eq!(store.path_for(&ArtifactId::new("a/b")), "/data/artifacts/a_b.txt");
    let id = store.next_artifact_id();
    assert!(id.as_str().starts_with("a1-"));
    assert_eq!(id.as_str().len(), 3 + 36);
    assert!(store.next_artifact_id().as_str().starts_with("a2-"));
}

#[test]
fn default_provider_is_local_custom() {
    let cfg = ProviderConfig::default();
    assert_eq!(cfg.base_url, "http://localhost:20128/v1");
    assert_eq!(cfg.model, "BomWaktu");
}

#[test]
fn redacted_hides_api_key() {
    let cfg = AppConfig {
        provider: ProviderConfig {
            base_url: "http://test".into(),
            api_key: Some("secret-key".into()),
            model: "test-model".into(),
        },
        ..Default::default()
    };
    let red = cfg.redacted();
    assert_eq!(red.provider.api_key, Some("[REDACTED]".into()));
}

#[test]
fn project_config_overrides_global_and_environment_wins() {
    let global = AppConfig {
        provider: ProviderConfig { base_url: "http://global".into(), api_key: Some("g".into()), model: "gm".into() },
        models: vec![("fast".into(), "g-fast".into()), ("deep".into(), "g-deep".into())],
        auto_improve: false,
    };
    let project = AppConfig {
        provider: ProviderConfig::default(),
        models: vec![("fast".into(), "p-fast".into())],
        auto_improve: true,
    };
    let unset = AppConfig::merge_optional(global.clone(), None);
    assert_eq!(unset, global);
    let merged = AppConfig::merge(global, project);
    assert_eq!(merged.provider.base_url, "http://global");
    assert_eq!(merged.provider.model, "gm");
    assert_eq!(merged.models, vec![("fast".to_owned(), "p-fast".to_owned()), ("deep".to_owned(), "g-deep".to_owned())]);
    assert!(merged.auto_improve);
    let env = merged.with_env_overrides(Some("  ".into()), Some("http://env".into()), None);
    assert_eq!(env.provider.api_key, Some("g".into()));
    assert_eq!(env.provider.base_url, "http://env");
}

#[test]
fn project_learning_switch_overrides_global() {
    let global = AppConfig { auto_improve: true, ..Default::default() };
    let project = AppConfig { auto_improve: false, ..Default::default() };
    assert!(!AppConfig::merge(global.clone(), project.clone()).auto_improve);
    assert!(!AppConfig::merge_optional(global.clone(), Some(project)).auto_improve);
    assert!(AppConfig::merge_optional(global, None).auto_improve);
}

#[test]
fn dotenv_lines_are_parsed_and_unquoted() {
    let pairs = parse_env_file("# comment\nOPENAI_API_KEY = \"abc\"\nEMPTY=\n\nX=y=z\n");
    assert_eq!(pairs, vec![("OPENAI_API_KEY".to_owned(), "abc".to_owned()), ("X".to_owned(), "y=z".to_owned())]);
}

#[test]
fn unified_diff_contains_markers() {
    let diff = unified_diff_for("test.txt", "hello\nworld\n", "hello\nWORLD\n");
    assert!(diff.contains("--- a/"));
    assert!(diff.contains("+++ b/"));
    assert!(diff.contains("@@"));
    assert!(diff.contains("-world"));
    assert!(diff.contains("+WORLD"));
    assert_eq!(diff, "--- a/test.txt\n+++ b/test.txt\n@@ -2,1 +2,1 @@\n-world\n+WORLD\n");
    assert_eq!(unified_diff_for("same", "a\n", "a\n"), "--- a/same\n+++ b/same\n");
}

#[test]
fn undo_redo_and_revert_move_records_between_stacks() {
    let mut history = DiffHistory::default();
    assert!(history.is_empty());
    history.record_edit("f.txt", "initial\n", "first_edit\n");
    history.record_edit("f.txt", "first_edit\n", "second_edit\n");
    history.record_edit("g.txt", "a\n", "b\n");
    let undone = history.undo().unwrap();
    assert_eq!(undone.path, "g.txt");
    assert_eq!(history.redo_count(), 1);
    let redone = history.redo().unwrap();
    assert_eq!(redone.after_content, "b\n");
    assert_eq!(history.undo_count(), 3);
    let changes = history.changes();
    assert_eq!(changes.len(), 2);
    assert_eq!(changes[0], ("f.txt".to_owned(), 2, 2));
    let reverted = history.revert_file("f.txt").unwrap();
    assert_eq!(reverted.before_content, "initial\n");
    assert_eq!(history.undo_count(), 1);
    assert!(history.revert_file("nonexistent.txt").is_none());
    history.undo();
    history.record_edit("g.txt", "a\n", "c\n");
    assert_eq!(history.redo_count(), 0);
}

#[test]
fn safe_name_normalizes_unfriendly_characters() {
    assert_eq!(safe_name("hello world"), "hello_world");
    assert_eq!(safe_name("../../etc"), "______etc");
    assert_eq!(safe_name("  "), "default");
    let long = "a".repeat(120);
    assert_eq!(safe_name(&long).len(), 80);
    assert_eq!(session_file_name("demo session"), "demo_session.json");
}

#[test]
fn messages_only_sessions_gain_message_events_once() {
    let mut session = Session::from_messages(
        "legacy",
        vec![
            SavedMessage { role: "user".into(), content: "hi".into() },
            SavedMessage { role: "assistant".into(), content: "hello".into() },
        ],
    );
    assert!(session.events().is_empty());
    session.ensure_events_from_messages();
    assert_eq!(session.events().len(), 2);
    assert!(matches!(&session.events()[1], SessionEvent::Message { role, content } if role == "assistant" && content == "hello"));
    session.push_event(SessionEvent::ToolStarted { id: "tool:1".into(), tool: "shell".into() });
    session.ensure_events_from_messages();
    assert_eq!(session.events().len(), 3);
}

#[test]
fn project_paths_are_under_dot_luminus() {
    let root = "/tmp/myproject";
    let dot = join(root, ".luminus");
    assert!(project_skills_dir(root).starts_with(&dot));
    assert!(project_config_path(root).starts_with(&dot));
    assert!(project_mcp_config_path(root).starts_with(&dot));
    assert_eq!(project_config_path(root), "/tmp/myproject/.luminus/config.json");
}

#[test]
fn tool_policies_are_set_read_and_cleared() {
    let mut policy = ProjectToolPolicy::empty("/proj");
    assert!(policy.is_empty());
    policy.set("read_file", ToolPolicy::Allowed);
    policy.set("run_shell", ToolPolicy::Denied);
    policy.set("read_file", ToolPolicy::Denied);
    assert_eq!(policy.len(), 2);
    assert_eq!(policy.get("read_file"), Some(ToolPolicy::Denied));
    assert_eq!(policy.get("missing"), None);
    assert_eq!(policy.iter().len(), 2);
    assert_eq!(ProjectToolPolicy::policy_path("/proj"), "/proj/.luminus/tool_policy.json");
    policy.clear();
    assert!(policy.is_empty());
    assert_eq!(policy.root(), "/proj");
}

#[test]
fn mission_titles_are_shortened() {
    let m = Mission::new("m-1", "Build the database schema");
    assert_eq!(m.title, "Build the database schema");
    assert_eq!(m.status, MissionStatus::Queued);
    let long = Mission::new("m-2", "Refactor the whole parser module and its tests");
    assert_eq!(long.title, "Refactor the whole parser m...");
    let store = MissionStore::new("/p");
    assert_eq!(store.mission_path("m-1"), "/p/.luminus/missions/m-1.json");
}

#[test]
fn learned_skill_drafts_number_their_steps() {
    let draft = SelfImproveStore::draft_from_summary("repeat-task", "repeat task", &["Do A".into(), " Verify B ".into()]);
    assert_eq!(draft.body, "# repeat-task\n\n## When to use\nrepeat task\n\n## Steps\n1. Do A\n2. Verify B\n");
    let md = draft.to_skill_md();
    assert!(md.contains("name: repeat-task"));
    assert!(md.contains("Verify B"));
    let store = SelfImproveStore::new("/p");
    assert_eq!(store.skill_path(&draft), "/p/.luminus/skills/repeat-task/SKILL.md");
    let plain = LearnedSkillDraft::new("n", "d", "b");
    assert_eq!(plain.name, "n");
}

#[test]
fn env_file_updates_replace_or_append() {
    assert_eq!(SetupWizard::updated_env("A=1\nB=2\n", "B", "3"), "A=1\nB=3\n");
    assert_eq!(SetupWizard::updated_env("A=1", "C", "x"), "A=1\nC=x\n");
    assert_eq!(SetupWizard::updated_env("", "C", "x"), "C=x\n");
}

#[test]
fn draft_writes_skill_md() {
    let store = SelfImproveStore::new("/tmp/luminus-self-improve");
    let draft = SelfImproveStore::draft_from_summary("repeat-task", "repeat task", &["Do A".into(), "Verify B".into()]);
    // What the store writes to its skill path.
    let path = store.skill_path(&draft);
    assert!(path.ends_with("repeat-task/SKILL.md"));
    let text = draft.to_skill_md();
    assert!(text.contains("name: repeat-task"));
    assert!(text.contains("Verify B"));
}

#[test]
fn clear_empties_memory_only_until_save() {
    let mut policy = ProjectToolPolicy::empty("/proj");
    policy.set("read_file", ToolPolicy::Allowed);
    // What a save writes.
    let saved = policy.iter();
    policy.clear();
    assert!(policy.is_empty());
    // The saved rules keep the old content until the next save.
    let loaded = ProjectToolPolicy::from_entries("/proj", saved);
    assert_eq!(loaded.get("read_file"), Some(ToolPolicy::Allowed));
}
