use luminus::skill::{
    extract_field, extract_list_field, parse_metadata_from_raw, split_frontmatter, SkillError,
    SkillMetadata, SkillRegistry, SkillSource,
};

const SAMPLE_SKILL: &str = "---\nname: fix-tests\ndescription: Diagnose and fix failing tests\nversion: 1.0.0\nauthor: luminus\ntags:\n  - testing\n  - debugging\n---\n\n# Fix Tests\n\n1. Identify the smallest reproducible failing test.\n2. Apply the smallest safe fix.\n";

#[test]
fn split_frontmatter_extracts_body() {
    let (fm, body) = split_frontmatter(SAMPLE_SKILL);
    assert!(fm.contains("name: fix-tests"));
    assert!(fm.contains("description:"));
    assert!(body.starts_with("# Fix Tests"));
    assert!(!body.contains("---"));
}

#[test]
fn split_frontmatter_no_frontmatter_returns_raw() {
    let raw = "Just some markdown.\nNo frontmatter here.";
    let (fm, body) = split_frontmatter(raw);
    assert!(fm.is_empty());
    assert_eq!(body, raw);
}

#[test]
fn split_frontmatter_keeps_multibyte_lines() {
    let (fm, body) = split_frontmatter("---\nname: é\n---\nbody é\n");
    assert_eq!(fm, "name: é");
    assert_eq!(body, "body é\n");
}

#[test]
fn split_frontmatter_skips_a_crlf_closing_line() {
    let (fm, body) = split_frontmatter("---\r\na: 1\r\nb: 2\r\n---\r\nBody");
    assert_eq!(fm, "a: 1\nb: 2");
    assert_eq!(body, "Body");
    let (fm, body) = split_frontmatter("---\na: 1\n");
    assert_eq!(fm, "a: 1");
    assert_eq!(body, "");
}

#[test]
fn extract_field_finds_value() {
    let fm = "name: test-skill\ndescription: A test\n";
    assert_eq!(extract_field(fm, "name"), Some("test-skill".into()));
    assert_eq!(extract_field(fm, "description"), Some("A test".into()));
    assert_eq!(extract_field(fm, "missing"), None);
    assert_eq!(extract_field("name: \"quoted\"", "name"), Some("quoted".into()));
}

#[test]
fn extract_list_field_finds_items() {
    let fm = "tags:\n  - alpha\n  - beta\nversion: 1.0\n";
    let tags = extract_list_field(fm, "tags");
    assert_eq!(tags, vec!["alpha", "beta"]);
}

#[test]
fn parse_metadata_from_raw_works() {
    let meta = parse_metadata_from_raw(SAMPLE_SKILL, SkillSource::BuiltIn, "/tmp/test".into()).unwrap();
    assert_eq!(meta.name, "fix-tests");
    assert_eq!(meta.description, "Diagnose and fix failing tests");
    assert_eq!(meta.version, "1.0.0");
    assert_eq!(meta.author, "luminus");
    assert_eq!(meta.tags, vec!["testing", "debugging"]);
}

#[test]
fn parse_metadata_missing_name_fails() {
    let raw = "---\ndescription: no name\n---\n\nbody\n";
    let result = parse_metadata_from_raw(raw, SkillSource::BuiltIn, ".".into());
    assert_eq!(result.unwrap_err(), SkillError::MissingName);
}

#[test]
fn parse_metadata_no_frontmatter_fails() {
    let raw = "Just body, no frontmatter.";
    let result = parse_metadata_from_raw(raw, SkillSource::BuiltIn, ".".into());
    assert_eq!(result.unwrap_err(), SkillError::MissingName);
}

#[test]
fn builtin_skills_are_discovered() {
    let registry = SkillRegistry::new();
    let metas = registry.discover();
    let names: Vec<&str> = metas.iter().map(|m| m.name.as_str()).collect();
    assert!(names.contains(&"fix-tests"), "fix-tests should be discovered: {names:?}");
    assert!(names.contains(&"code-review"), "code-review should be discovered: {names:?}");
}

#[test]
fn find_is_case_insensitive() {
    let registry = SkillRegistry::new();
    assert!(registry.find("Fix-Tests").is_some());
    assert!(registry.find("FIX-TESTS").is_some());
    assert!(registry.find("nonexistent").is_none());
}

#[test]
fn load_skill_returns_full_content() {
    let registry = SkillRegistry::new();
    let skill = registry.load_skill("fix-tests", None).unwrap();
    assert_eq!(skill.metadata.name, "fix-tests");
    assert!(skill.content.contains("# Fix Tests"));
    assert!(skill.raw.contains("name: fix-tests"));
    assert!(!skill.content.contains("---"));
}

#[test]
fn load_skill_not_found_returns_error() {
    let registry = SkillRegistry::new();
    assert_eq!(registry.load_skill("nonexistent", None).unwrap_err(), SkillError::NotFound("nonexistent".into()));
}

#[test]
fn list_skills_includes_builtin_skills() {
    let registry = SkillRegistry::new();
    let text = registry.list_skills();
    assert!(text.contains("fix-tests"));
    assert!(text.contains("code-review"));
    assert!(text.contains("built-in"));
}

#[test]
fn inspect_skill_returns_details() {
    let registry = SkillRegistry::new();
    let text = registry.inspect_skill("fix-tests", None).unwrap();
    assert!(text.contains("Skill: fix-tests"));
    assert!(text.contains("Version: 1.0.0"));
    assert!(text.contains("Source: built-in"));
    assert!(text.contains("# Fix Tests"));
}

#[test]
fn use_skill_returns_activation_text() {
    let registry = SkillRegistry::new();
    let text = registry.use_skill("fix-tests", None).unwrap();
    assert!(text.contains("[Skill activated: fix-tests"));
    assert!(text.contains("# Fix Tests"));
}

#[test]
fn skill_project_skill_overrides_builtin() {
    let project = vec![(
        ".luminus/skills/fix-tests/SKILL.md".to_owned(),
        "---\nname: fix-tests\ndescription: Project override\nversion: 2.0.0\nauthor: project\ntags:\n  - custom\n---\n\n# Project Fix Tests\n\nOverride content.\n".to_owned(),
    )];
    let registry = SkillRegistry::discover_from(&[], &project);
    let meta = registry.find("fix-tests").unwrap();
    assert_eq!(meta.source, SkillSource::Project);
    assert_eq!(meta.version, "2.0.0");
    assert_eq!(meta.author, "project");
    let path = registry.path_to_read("fix-tests").unwrap();
    let skill = registry.load_skill("fix-tests", Some(Ok(project[0].1.clone()))).unwrap();
    assert_eq!(path, project[0].0);
    assert!(skill.content.contains("Project Fix Tests"));
    assert_eq!(registry.discover().len(), 2);
    assert_eq!(registry.discover()[0].name, "code-review");
}

#[test]
fn from_metadata_creates_custom_registry() {
    let custom = SkillMetadata {
        name: "custom".into(),
        description: "Custom skill".into(),
        version: "0.1.0".into(),
        author: "test".into(),
        tags: vec!["custom".into()],
        source: SkillSource::Project,
        path: "/custom".into(),
    };
    let registry = SkillRegistry::from_metadata(vec![custom]);
    assert_eq!(registry.discover().len(), 1);
    assert!(registry.find("custom").is_some());
}

#[test]
fn empty_registry_lists_nothing() {
    let registry = SkillRegistry::from_metadata(vec![]);
    assert_eq!(registry.list_skills(), "No skills available.");
}

#[test]
fn skill_source_display() {
    assert_eq!(SkillSource::BuiltIn.to_string(), "built-in");
    assert_eq!(SkillSource::Global.to_string(), "global");
    assert_eq!(SkillSource::Project.to_string(), "project");
}

#[test]
fn skill_metadata_label() {
    let meta = SkillMetadata {
        name: "test".into(),
        description: String::new(),
        version: String::new(),
        author: String::new(),
        tags: vec![],
        source: SkillSource::BuiltIn,
        path: ".".into(),
    };
    assert_eq!(meta.label(), "test (built-in)");
}

#[test]
fn skill_errors_describe_themselves() {
    assert_eq!(SkillError::NotFound("x".into()).to_string(), "skill not found: x");
    assert_eq!(SkillError::MissingName.to_string(), "skill frontmatter is missing required `name` field");
}

#[test]
fn skills_phase13_project_skill_overrides_builtin() {
    let custom_skill = "---\nname: fix-tests\ndescription: Custom project fix-tests\nversion: 2.0.0\n---\n\n# Custom Fix Tests\n";
    let project = vec![(".luminus/skills/fix-tests/SKILL.md".to_owned(), custom_skill.to_owned())];
    let registry = SkillRegistry::discover_from(&[], &project);
    let meta = registry.find("fix-tests").unwrap();
    assert_eq!(meta.source, SkillSource::Project);
    let loaded = registry.load_skill("fix-tests", Some(Ok(custom_skill.to_owned()))).unwrap();
    assert!(loaded.content.contains("# Custom Fix Tests"));
}
