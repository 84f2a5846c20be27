use luminus::command::{help_text, parse_command, Command};


#[test]
fn parses_supported_commands() {
    assert_eq!(parse_command("/help"), Ok(Command::Help));
    assert_eq!(parse_command("/about"), Ok(Command::About));
    assert_eq!(parse_command("/clear"), Ok(Command::Clear));
    assert_eq!(parse_command("/exit"), Ok(Command::Exit));
}

#[test]
fn rejects_everything_else() {
    assert!(parse_command("/model").is_err());
    assert!(parse_command("/spawn").is_err());
    assert!(parse_command("/spawn   ").is_err());
    assert!(parse_command("help").is_err());
    assert!(parse_command("/HELP").is_err());
    assert!(parse_command("/help now").is_err());
}

#[test]
fn parses_spawn_prompt_and_help_mentions_it() {
    assert_eq!(
        parse_command("/spawn  inspect the architecture  "),
        Ok(Command::Spawn("inspect the architecture".into()))
    );
    assert!(help_text().contains("/spawn"));
}

#[test]
fn parses_session_commands_and_rejects_path_traversal() {
    assert_eq!(
        parse_command("/save morning"),
        Ok(Command::Save("morning".into()))
    );
    assert_eq!(
        parse_command("/load morning"),
        Ok(Command::Load("morning".into()))
    );
    assert_eq!(parse_command("/sessions"), Ok(Command::Sessions));
    assert!(parse_command("/save ../secret").is_err());
    assert!(parse_command("/load ").is_err());
}

#[test]
fn parses_tool_commands_and_supports_zero_args() {
    assert_eq!(parse_command("/tools"), Ok(Command::Tools));
    assert_eq!(
        parse_command("/tool read_file README.md"),
        Ok(Command::Tool("read_file".into(), vec!["README.md".into()]))
    );
    assert_eq!(
        parse_command("/tool list_dir ."),
        Ok(Command::Tool("list_dir".into(), vec![".".into()]))
    );
    assert_eq!(
        parse_command("/tool write_file a.txt hello"),
        Ok(Command::Tool(
            "write_file".into(),
            vec!["a.txt".into(), "hello".into()]
        ))
    );
    assert!(parse_command("/tool ").is_err());
    assert!(parse_command("/tool").is_err());
}

#[test]
fn help_text_mentions_every_command() {
    let text = help_text();
    for command in [
        "/help",
        "/about",
        "/clear",
        "/exit",
        "/model",
        "/models",
        "/discover",
        "/save",
        "/sessions",
        "/load",
        "/tools",
        "/tool",
        "/provider",
        "/spawn",
        "/diff",
        "/changes",
        "/undo",
        "/redo",
        "/revert-file",
        "/skills",
        "/skill",
    ] {
        assert!(text.contains(command), "help text missing {command}");
    }
}

#[test]
fn parses_skills_commands() {
    assert_eq!(parse_command("/skills"), Ok(Command::Skills));
    assert_eq!(parse_command("/skills list"), Ok(Command::Skills));
    assert_eq!(
        parse_command("/skills inspect fix-tests"),
        Ok(Command::SkillInspect("fix-tests".into()))
    );
    assert_eq!(
        parse_command("/skill code-review"),
        Ok(Command::SkillUse("code-review".into()))
    );
    // Empty names rejected
    assert!(parse_command("/skills inspect ").is_err());
    assert!(parse_command("/skill ").is_err());
    // Path traversal rejected
    assert!(parse_command("/skills inspect ../secret").is_err());
    assert!(parse_command("/skill /etc/passwd").is_err());
}
