//! Slash-command parsing.

use vstd::prelude::*;

use crate::model::{role_of, ModelRole};
use crate::text::{
    chars_of, contains_char, contains_ws, eq_str, from_chars, is_ws, slice_range, split_ws,
    starts_with, strip_prefix_str, strs_view, to_lower, to_lower_chars, trim, trim_chars, words,
};

verus! {

/// A parsed slash command.
#[derive(Debug, Clone, PartialEq, Eq)]
pub enum Command {
    Help,
    About,
    Clear,
    Exit,
    Model(ModelRole),
    /// `/provider` shows providers (`None`); `/provider <name>` switches.
    Provider(Option<String>),
    /// `/models` lists the configured roles and their models.
    Models,
    /// `/discover` asks the active provider for its model ids.
    Discover,
    /// Save the current conversation under a name.
    Save(String),
    /// List saved conversations.
    Sessions,
    /// Load a saved conversation by name.
    Load(String),
    /// `/tools` lists the available tools.
    Tools,
    /// `/tool <name> <args...>` runs an approved coding tool.
    Tool(String, Vec<String>),
    /// Spawn one independent child-agent request.
    Spawn(String),
    /// `/diff` opens the diff viewer.
    Diff,
    /// `/changes` lists modified paths with added/removed line counts.
    Changes,
    /// `/undo` reverts the most recent file edit.
    Undo,
    /// `/redo` reapplies the most recently undone file edit.
    Redo,
    /// `/revert-file <path>` reverts a file to its initial state.
    RevertFile(String),
    /// `/skills`, `/skills list`: list available skills.
    Skills,
    /// `/skills inspect <name>`: detailed skill info.
    SkillInspect(String),
    /// `/skill <name>`: activate and inject a skill.
    SkillUse(String),
    /// `/env <key> <val>`: write an environment variable to `.env`.
    Env(String, String),
    /// `/mcp`: list MCP server status.
    McpList,
    /// `/mcp connect`: connect to all configured MCP servers.
    McpConnect,
    /// `/context`: inspect loaded project instructions.
    Context,
    /// `/memory`: inspect or manage memory.
    Memory(Option<String>),
    /// `/missions`: list long-running tasks.
    Missions,
    /// `/init`: initialize the project instructions file.
    Init,
}

/// A command with its text arguments taken by their characters.
pub enum CommandSpec {
    Help,
    About,
    Clear,
    Exit,
    Model(ModelRole),
    Provider(Option<Seq<char>>),
    Models,
    Discover,
    Save(Seq<char>),
    Sessions,
    Load(Seq<char>),
    Tools,
    Tool(Seq<char>, Seq<Seq<char>>),
    Spawn(Seq<char>),
    Diff,
    Changes,
    Undo,
    Redo,
    RevertFile(Seq<char>),
    Skills,
    SkillInspect(Seq<char>),
    SkillUse(Seq<char>),
    Env(Seq<char>, Seq<char>),
    McpList,
    McpConnect,
    Context,
    Memory(Option<Seq<char>>),
    Missions,
    Init,
}

impl Command {
    /// The command with its text arguments taken by their characters.
    pub open spec fn spec_view(&self) -> CommandSpec {
        match self {
            Command::Help => CommandSpec::Help,
            Command::About => CommandSpec::About,
            Command::Clear => CommandSpec::Clear,
            Command::Exit => CommandSpec::Exit,
            Command::Model(r) => CommandSpec::Model(*r),
            Command::Provider(p) => CommandSpec::Provider(
                match p {
                    Some(n) => Some(n@),
                    None => None,
                },
            ),
            Command::Models => CommandSpec::Models,
            Command::Discover => CommandSpec::Discover,
            Command::Save(n) => CommandSpec::Save(n@),
            Command::Sessions => CommandSpec::Sessions,
            Command::Load(n) => CommandSpec::Load(n@),
            Command::Tools => CommandSpec::Tools,
            Command::Tool(n, a) => CommandSpec::Tool(n@, strs_view(a@)),
            Command::Spawn(p) => CommandSpec::Spawn(p@),
            Command::Diff => CommandSpec::Diff,
            Command::Changes => CommandSpec::Changes,
            Command::Undo => CommandSpec::Undo,
            Command::Redo => CommandSpec::Redo,
            Command::RevertFile(p) => CommandSpec::RevertFile(p@),
            Command::Skills => CommandSpec::Skills,
            Command::SkillInspect(n) => CommandSpec::SkillInspect(n@),
            Command::SkillUse(n) => CommandSpec::SkillUse(n@),
            Command::Env(k, v) => CommandSpec::Env(k@, v@),
            Command::McpList => CommandSpec::McpList,
            Command::McpConnect => CommandSpec::McpConnect,
            Command::Context => CommandSpec::Context,
            Command::Memory(m) => CommandSpec::Memory(
                match m {
                    Some(a) => Some(a@),
                    None => None,
                },
            ),
            Command::Missions => CommandSpec::Missions,
            Command::Init => CommandSpec::Init,
        }
    }
}

/// The rejected command text.
#[derive(Debug, Clone, PartialEq, Eq)]
pub struct ParseCommandError {
    command: String,
}

impl ParseCommandError {
    /// The rejected command text.
    pub closed spec fn spec_command(&self) -> Seq<char> {
        self.command@
    }

    /// `unsupported command: <text>`.
    pub fn to_string(&self) -> (r: String)
        ensures
            r@ == "unsupported command: "@ + self.spec_command(),
    {
        let mut s = "unsupported command: ".to_owned();
        crate::text::push_str(&mut s, self.command.as_str());
        s
    }

    fn of(command: &[char]) -> (e: Self)
        ensures
            e.spec_command() == command@,
    {
        ParseCommandError { command: from_chars(command) }
    }
}

/// The help text: one line per supported slash command.
pub open spec fn spec_help_text() -> Seq<char> {
    "Commands:\n  /help              show this help\n  /about             about LUMINUS\n  /clear             clear the conversation\n  /exit              quit\n  /model <role>      switch the active model role\n  /models            list configured roles and their models\n  /discover          discover models from the active provider\n  /save <name>       save the current conversation\n  /sessions          list saved conversations\n  /load <name>       restore a saved conversation\n  /tools             list available coding tools\n  /tool <name> <args...> prepare a tool for approval\n  /provider          list/show providers\n  /provider <name>   switch to the named provider\n  /spawn <prompt>    run a child agent on the active provider\n  /diff              open the diff viewer overlay\n  /changes           list modified files with +lines / -lines\n  /undo              undo the most recent file edit\n  /redo              redo the most recently undone file edit\n  /revert-file <path> revert a file to its initial state\n  /skills            list available skills\n  /skills inspect <name> show detailed skill info\n  /skill <name>      activate and inject a skill\n  /env <key> <val>   write environment variable to .env\n  /mcp               list MCP server status\n  /context           inspect project context files\n  /memory [args]     manage soul memory\n  /missions          list long-running tasks\n  /init              initialize project instructions"@
}

/// Rich help text listing every supported slash command.
pub fn help_text() -> (s: String)
    ensures
        s@ == spec_help_text(),
{
    "Commands:\n  /help              show this help\n  /about             about LUMINUS\n  /clear             clear the conversation\n  /exit              quit\n  /model <role>      switch the active model role\n  /models            list configured roles and their models\n  /discover          discover models from the active provider\n  /save <name>       save the current conversation\n  /sessions          list saved conversations\n  /load <name>       restore a saved conversation\n  /tools             list available coding tools\n  /tool <name> <args...> prepare a tool for approval\n  /provider          list/show providers\n  /provider <name>   switch to the named provider\n  /spawn <prompt>    run a child agent on the active provider\n  /diff              open the diff viewer overlay\n  /changes           list modified files with +lines / -lines\n  /undo              undo the most recent file edit\n  /redo              redo the most recently undone file edit\n  /revert-file <path> revert a file to its initial state\n  /skills            list available skills\n  /skills inspect <name> show detailed skill info\n  /skill <name>      activate and inject a skill\n  /env <key> <val>   write environment variable to .env\n  /mcp               list MCP server status\n  /context           inspect project context files\n  /memory [args]     manage soul memory\n  /missions          list long-running tasks\n  /init              initialize project instructions".to_owned()
}

/// Some character is whitespace.
pub open spec fn has_ws(s: Seq<char>) -> bool {
    exists|i: int| 0 <= i < s.len() && is_ws(#[trigger] s[i])
}

/// A name that is empty or holds a path separator is refused.
pub open spec fn bad_name(s: Seq<char>) -> bool {
    s.len() == 0 || s.contains('/') || s.contains('\\')
}

/// `/save` and `/load` names: the trimmed rest, refused when it could name a path.
pub open spec fn spec_named(s: Seq<char>, prefix: Seq<char>) -> Option<Seq<char>> {
    let value = trim(s.skip(prefix.len() as int));
    if bad_name(value) {
        None
    } else {
        Some(value)
    }
}

/// `/tool <name> <args...>`: the first word names the tool, the rest are its arguments.
pub open spec fn spec_tool_command(s: Seq<char>) -> Option<CommandSpec> {
    let ws = words(trim(s.skip("/tool "@.len() as int)));
    if ws.len() == 0 || ws[0].contains('/') || ws[0].contains('\\') {
        None
    } else {
        Some(CommandSpec::Tool(ws[0], ws.skip(1)))
    }
}

/// `/env <key> <value>`: the trimmed rest split at its first space.
pub open spec fn spec_env_command(s: Seq<char>) -> Option<CommandSpec> {
    let t = trim(s.skip("/env "@.len() as int));
    let k = crate::text::index_of(t, ' ');
    if k >= t.len() {
        None
    } else {
        Some(CommandSpec::Env(t.take(k), t.skip(k + 1)))
    }
}

/// The command a line of input denotes, or `None` when it is refused. Exact
/// commands are tried before prefixed ones, in the order listed here.
pub open spec fn spec_parse_command(s: Seq<char>) -> Option<CommandSpec> {
    if s == "/help"@ {
        Some(CommandSpec::Help)
    } else if s == "/about"@ {
        Some(CommandSpec::About)
    } else if s == "/clear"@ {
        Some(CommandSpec::Clear)
    } else if s == "/exit"@ {
        Some(CommandSpec::Exit)
    } else if s == "/provider"@ {
        Some(CommandSpec::Provider(None))
    } else if s == "/models"@ {
        Some(CommandSpec::Models)
    } else if s == "/discover"@ {
        Some(CommandSpec::Discover)
    } else if s == "/sessions"@ {
        Some(CommandSpec::Sessions)
    } else if s == "/tools"@ {
        Some(CommandSpec::Tools)
    } else if s == "/diff"@ {
        Some(CommandSpec::Diff)
    } else if s == "/changes"@ {
        Some(CommandSpec::Changes)
    } else if s == "/undo"@ {
        Some(CommandSpec::Undo)
    } else if s == "/redo"@ {
        Some(CommandSpec::Redo)
    } else if starts_with(s, "/save "@) {
        match spec_named(s, "/save "@) {
            Some(n) => Some(CommandSpec::Save(n)),
            None => None,
        }
    } else if starts_with(s, "/load "@) {
        match spec_named(s, "/load "@) {
            Some(n) => Some(CommandSpec::Load(n)),
            None => None,
        }
    } else if starts_with(s, "/tool "@) {
        spec_tool_command(s)
    } else if starts_with(s, "/spawn "@) {
        let p = trim(s.skip("/spawn "@.len() as int));
        if p.len() == 0 {
            None
        } else {
            Some(CommandSpec::Spawn(p))
        }
    } else if starts_with(s, "/revert-file "@) {
        let p = trim(s.skip("/revert-file "@.len() as int));
        if p.len() == 0 {
            None
        } else {
            Some(CommandSpec::RevertFile(p))
        }
    } else if starts_with(s, "/provider "@) {
        let n = s.skip("/provider "@.len() as int);
        if n.len() == 0 || has_ws(n) {
            None
        } else {
            Some(CommandSpec::Provider(Some(to_lower(n))))
        }
    } else if starts_with(s, "/model "@) {
        let n = s.skip("/model "@.len() as int);
        if n.len() == 0 || has_ws(n) {
            None
        } else {
            match role_of(n) {
                Some(r) => Some(CommandSpec::Model(r)),
                None => None,
            }
        }
    } else if s == "/skills"@ || s == "/skills list"@ {
        Some(CommandSpec::Skills)
    } else if starts_with(s, "/skills inspect "@) {
        let n = trim(s.skip("/skills inspect "@.len() as int));
        if bad_name(n) {
            None
        } else {
            Some(CommandSpec::SkillInspect(n))
        }
    } else if starts_with(s, "/skill "@) {
        let n = trim(s.skip("/skill "@.len() as int));
        if bad_name(n) {
            None
        } else {
            Some(CommandSpec::SkillUse(n))
        }
    } else if starts_with(s, "/env "@) {
        spec_env_command(s)
    } else if s == "/mcp"@ {
        Some(CommandSpec::McpList)
    } else if s == "/mcp connect"@ {
        Some(CommandSpec::McpConnect)
    } else if s == "/context"@ {
        Some(CommandSpec::Context)
    } else if s == "/memory"@ {
        Some(CommandSpec::Memory(None))
    } else if starts_with(s, "/memory "@) {
        Some(CommandSpec::Memory(Some(trim(s.skip("/memory "@.len() as int)))))
    } else if s == "/missions"@ {
        Some(CommandSpec::Missions)
    } else if s == "/init"@ {
        Some(CommandSpec::Init)
    } else {
        None
    }
}

/// Whether trimmed characters are an acceptable skill or session name.
fn name_ok(v: &[char]) -> (r: bool)
    ensures
        r == !bad_name(v@),
{
    !(v.len() == 0 || contains_char(v, '/') || contains_char(v, '\\'))
}

fn parse_named(input: &[char], rest: &[char], prefix: &str) -> (r: Result<String, ParseCommandError>)
    requires
        starts_with(input@, prefix@),
        rest@ == input@.skip(prefix@.len() as int),
    ensures
        match r {
            Ok(n) => spec_named(input@, prefix@) == Some(n@),
            Err(e) => spec_named(input@, prefix@) is None && e.spec_command() == input@,
        },
{
    let value = trim_chars(rest);
    if !name_ok(&value) {
        Err(ParseCommandError::of(input))
    } else {
        Ok(from_chars(&value))
    }
}

fn parse_tool_command(input: &[char], rest: &[char]) -> (r: Result<Command, ParseCommandError>)
    requires
        rest@ == input@.skip("/tool "@.len() as int),
    ensures
        match r {
            Ok(c) => spec_tool_command(input@) == Some(c.spec_view()),
            Err(e) => spec_tool_command(input@) is None && e.spec_command() == input@,
        },
{
    let t = trim_chars(rest);
    let mut parts = split_ws(&t);
    if parts.len() == 0 {
        return Err(ParseCommandError::of(input));
    }
    let first = chars_of(parts[0].as_str());
    if contains_char(&first, '/') || contains_char(&first, '\\') {
        return Err(ParseCommandError::of(input));
    }
    let ghost all = parts@;
    let name = parts.remove(0);
    proof {
        assert(strs_view(parts@) =~= strs_view(all).skip(1));
    }
    Ok(Command::Tool(name, parts))
}

fn parse_env(input: &[char], rest: &[char]) -> (r: Result<Command, ParseCommandError>)
    requires
        rest@ == input@.skip("/env "@.len() as int),
    ensures
        match r {
            Ok(c) => spec_env_command(input@) == Some(c.spec_view()),
            Err(e) => spec_env_command(input@) is None && e.spec_command() == input@,
        },
{
    let t = trim_chars(rest);
    let mut k: usize = 0;
    while k < t.len() && t[k] != ' '
        invariant
            k <= t.len(),
            forall|j: int| 0 <= j < k ==> t@[j] != ' ',
        decreases t.len() - k,
    {
        k = k + 1;
    }
    proof {
        crate::text::lemma_index_of_from_is(t@, ' ', 0, k as int);
    }
    if k == t.len() {
        return Err(ParseCommandError::of(input));
    }
    let key = slice_range(&t, 0, k);
    let value = slice_range(&t, k + 1, t.len());
    assert(key@ =~= t@.take(k as int));
    assert(value@ =~= t@.skip(k + 1));
    Ok(Command::Env(from_chars(&key), from_chars(&value)))
}

/// Parses one of the supported slash commands.
pub fn parse_command(input: &str) -> (r: Result<Command, ParseCommandError>)
    ensures
        match r {
            Ok(c) => spec_parse_command(input@) == Some(c.spec_view()),
            Err(e) => spec_parse_command(input@) is None && e.spec_command() == input@,
        },
{
    let v = chars_of(input);
    if eq_str(&v, "/help") {
        return Ok(Command::Help);
    }
    if eq_str(&v, "/about") {
        return Ok(Command::About);
    }
    if eq_str(&v, "/clear") {
        return Ok(Command::Clear);
    }
    if eq_str(&v, "/exit") {
        return Ok(Command::Exit);
    }
    if eq_str(&v, "/provider") {
        return Ok(Command::Provider(None));
    }
    if eq_str(&v, "/models") {
        return Ok(Command::Models);
    }
    if eq_str(&v, "/discover") {
        return Ok(Command::Discover);
    }
    if eq_str(&v, "/sessions") {
        return Ok(Command::Sessions);
    }
    if eq_str(&v, "/tools") {
        return Ok(Command::Tools);
    }
    if eq_str(&v, "/diff") {
        return Ok(Command::Diff);
    }
    if eq_str(&v, "/changes") {
        return Ok(Command::Changes);
    }
    if eq_str(&v, "/undo") {
        return Ok(Command::Undo);
    }
    if eq_str(&v, "/redo") {
        return Ok(Command::Redo);
    }
    if let Some(rest) = strip_prefix_str(&v, "/save ") {
        return match parse_named(&v, &rest, "/save ") {
            Ok(n) => Ok(Command::Save(n)),
            Err(e) => Err(e),
        };
    }
    if let Some(rest) = strip_prefix_str(&v, "/load ") {
        return match parse_named(&v, &rest, "/load ") {
            Ok(n) => Ok(Command::Load(n)),
            Err(e) => Err(e),
        };
    }
    if let Some(rest) = strip_prefix_str(&v, "/tool ") {
        return parse_tool_command(&v, &rest);
    }
    if let Some(rest) = strip_prefix_str(&v, "/spawn ") {
        let p = trim_chars(&rest);
        if p.len() == 0 {
            return Err(ParseCommandError::of(&v));
        }
        return Ok(Command::Spawn(from_chars(&p)));
    }
    if let Some(rest) = strip_prefix_str(&v, "/revert-file ") {
        let p = trim_chars(&rest);
        if p.len() == 0 {
            return Err(ParseCommandError::of(&v));
        }
        return Ok(Command::RevertFile(from_chars(&p)));
    }
    if let Some(rest) = strip_prefix_str(&v, "/provider ") {
        if rest.len() == 0 || contains_ws(&rest) {
            return Err(ParseCommandError::of(&v));
        }
        let lower = to_lower_chars(&rest);
        return Ok(Command::Provider(Some(from_chars(&lower))));
    }
    if let Some(rest) = strip_prefix_str(&v, "/model ") {
        if rest.len() == 0 || contains_ws(&rest) {
            return Err(ParseCommandError::of(&v));
        }
        let role_text = from_chars(&rest);
        return match ModelRole::parse(role_text.as_str()) {
            Ok(role) => Ok(Command::Model(role)),
            Err(_) => Err(ParseCommandError::of(&v)),
        };
    }
    if eq_str(&v, "/skills") || eq_str(&v, "/skills list") {
        return Ok(Command::Skills);
    }
    if let Some(rest) = strip_prefix_str(&v, "/skills inspect ") {
        let n = trim_chars(&rest);
        if !name_ok(&n) {
            return Err(ParseCommandError::of(&v));
        }
        return Ok(Command::SkillInspect(from_chars(&n)));
    }
    if let Some(rest) = strip_prefix_str(&v, "/skill ") {
        let n = trim_chars(&rest);
        if !name_ok(&n) {
            return Err(ParseCommandError::of(&v));
        }
        return Ok(Command::SkillUse(from_chars(&n)));
    }
    if let Some(rest) = strip_prefix_str(&v, "/env ") {
        return parse_env(&v, &rest);
    }
    if eq_str(&v, "/mcp") {
        return Ok(Command::McpList);
    }
    if eq_str(&v, "/mcp connect") {
        return Ok(Command::McpConnect);
    }
    if eq_str(&v, "/context") {
        return Ok(Command::Context);
    }
    if eq_str(&v, "/memory") {
        return Ok(Command::Memory(None));
    }
    if let Some(rest) = strip_prefix_str(&v, "/memory ") {
        let a = trim_chars(&rest);
        return Ok(Command::Memory(Some(from_chars(&a))));
    }
    if eq_str(&v, "/missions") {
        return Ok(Command::Missions);
    }
    if eq_str(&v, "/init") {
        return Ok(Command::Init);
    }
    Err(ParseCommandError::of(&v))
}

/// The exact word of a command that takes no argument.
pub open spec fn command_word(c: CommandSpec) -> Option<Seq<char>> {
    match c {
        CommandSpec::Help => Some("/help"@),
        CommandSpec::About => Some("/about"@),
        CommandSpec::Clear => Some("/clear"@),
        CommandSpec::Exit => Some("/exit"@),
        CommandSpec::Provider(None) => Some("/provider"@),
        CommandSpec::Models => Some("/models"@),
        CommandSpec::Discover => Some("/discover"@),
        CommandSpec::Sessions => Some("/sessions"@),
        CommandSpec::Tools => Some("/tools"@),
        CommandSpec::Diff => Some("/diff"@),
        CommandSpec::Changes => Some("/changes"@),
        CommandSpec::Undo => Some("/undo"@),
        CommandSpec::Redo => Some("/redo"@),
        CommandSpec::Skills => Some("/skills"@),
        CommandSpec::McpList => Some("/mcp"@),
        CommandSpec::McpConnect => Some("/mcp connect"@),
        CommandSpec::Context => Some("/context"@),
        CommandSpec::Memory(None) => Some("/memory"@),
        CommandSpec::Missions => Some("/missions"@),
        CommandSpec::Init => Some("/init"@),
        _ => None,
    }
}

/// Each command without arguments is what its own word parses to: `/undo`
/// gives `Undo`, `/redo` gives `Redo`, and so on; so two different such
/// commands never share a word.
pub proof fn law_command_words_parse_to_their_commands(c: CommandSpec)
    ensures
        command_word(c) matches Some(w) ==> spec_parse_command(w) == Some(c),
{
    reveal_strlit("/about");
    reveal_strlit("/changes");
    reveal_strlit("/clear");
    reveal_strlit("/context");
    reveal_strlit("/diff");
    reveal_strlit("/discover");
    reveal_strlit("/env ");
    reveal_strlit("/exit");
    reveal_strlit("/help");
    reveal_strlit("/init");
    reveal_strlit("/load ");
    reveal_strlit("/mcp connect");
    reveal_strlit("/mcp");
    reveal_strlit("/memory ");
    reveal_strlit("/memory");
    reveal_strlit("/missions");
    reveal_strlit("/model ");
    reveal_strlit("/models");
    reveal_strlit("/provider ");
    reveal_strlit("/provider");
    reveal_strlit("/redo");
    reveal_strlit("/revert-file ");
    reveal_strlit("/save ");
    reveal_strlit("/sessions");
    reveal_strlit("/skill ");
    reveal_strlit("/skills inspect ");
    reveal_strlit("/skills list");
    reveal_strlit("/skills");
    reveal_strlit("/spawn ");
    reveal_strlit("/tool ");
    reveal_strlit("/tools");
    reveal_strlit("/undo");
    match c {
        CommandSpec::Help => {
            assert(spec_parse_command("/help"@) == Some(c));
        },
        CommandSpec::About => {
            assert(spec_parse_command("/about"@) == Some(c));
        },
        CommandSpec::Clear => {
            assert("/clear"@[1] != "/about"@[1]);
            assert(spec_parse_command("/clear"@) == Some(c));
        },
        CommandSpec::Exit => {
            assert("/exit"@[1] != "/help"@[1]);
            assert(spec_parse_command("/exit"@) == Some(c));
        },
        CommandSpec::Provider(None) => {
            assert(spec_parse_command("/provider"@) == Some(c));
        },
        CommandSpec::Models => {
            assert(spec_parse_command("/models"@) == Some(c));
        },
        CommandSpec::Discover => {
            assert("/discover"@[1] != "/provider"@[1]);
            assert(spec_parse_command("/discover"@) == Some(c));
        },
        CommandSpec::Sessions => {
            assert("/sessions"@[1] != "/provider"@[1]);
            assert("/sessions"@[1] != "/discover"@[1]);
            assert(spec_parse_command("/sessions"@) == Some(c));
        },
        CommandSpec::Tools => {
            assert("/tools"@[1] != "/about"@[1]);
            assert("/tools"@[1] != "/clear"@[1]);
            assert(spec_parse_command("/tools"@) == Some(c));
        },
        CommandSpec::Diff => {
            assert("/diff"@[1] != "/help"@[1]);
            assert("/diff"@[1] != "/exit"@[1]);
            assert(spec_parse_command("/diff"@) == Some(c));
        },
        CommandSpec::Changes => {
            assert(spec_parse_command("/changes"@) == Some(c));
        },
        CommandSpec::Undo => {
            assert("/undo"@[1] != "/help"@[1]);
            assert("/undo"@[1] != "/exit"@[1]);
            assert("/undo"@[1] != "/diff"@[1]);
            assert(spec_parse_command("/undo"@) == Some(c));
        },
        CommandSpec::Redo => {
            assert("/redo"@[1] != "/help"@[1]);
            assert("/redo"@[1] != "/exit"@[1]);
            assert("/redo"@[1] != "/diff"@[1]);
            assert("/redo"@[1] != "/undo"@[1]);
            assert(spec_parse_command("/redo"@) == Some(c));
        },
        CommandSpec::Skills => {
            assert("/skills"@[1] != "/models"@[1]);
            assert("/skills"@[2] != "/save "@[2]);
            assert("/skills"@.take(6)[2] == "/skills"@[2]);
            assert("/skills"@[1] != "/load "@[1]);
            assert("/skills"@.take(6)[1] == "/skills"@[1]);
            assert("/skills"@[1] != "/tool "@[1]);
            assert("/skills"@.take(6)[1] == "/skills"@[1]);
            assert("/skills"@[2] != "/spawn "@[2]);
            assert("/skills"@.take(7)[2] == "/skills"@[2]);
            assert("/skills"@[1] != "/model "@[1]);
            assert("/skills"@.take(7)[1] == "/skills"@[1]);
            assert(spec_parse_command("/skills"@) == Some(c));
        },
        CommandSpec::McpList => {
            assert(spec_parse_command("/mcp"@) == Some(c));
        },
        CommandSpec::McpConnect => {
            assert("/mcp connect"@[1] != "/save "@[1]);
            assert("/mcp connect"@.take(6)[1] == "/mcp connect"@[1]);
            assert("/mcp connect"@[1] != "/load "@[1]);
            assert("/mcp connect"@.take(6)[1] == "/mcp connect"@[1]);
            assert("/mcp connect"@[1] != "/tool "@[1]);
            assert("/mcp connect"@.take(6)[1] == "/mcp connect"@[1]);
            assert("/mcp connect"@[1] != "/spawn "@[1]);
            assert("/mcp connect"@.take(7)[1] == "/mcp connect"@[1]);
            assert("/mcp connect"@[1] != "/provider "@[1]);
            assert("/mcp connect"@.take(10)[1] == "/mcp connect"@[1]);
            assert("/mcp connect"@[2] != "/model "@[2]);
            assert("/mcp connect"@.take(7)[2] == "/mcp connect"@[2]);
            assert("/mcp connect"@[1] != "/skills list"@[1]);
            assert("/mcp connect"@[1] != "/skill "@[1]);
            assert("/mcp connect"@.take(7)[1] == "/mcp connect"@[1]);
            assert("/mcp connect"@[1] != "/env "@[1]);
            assert("/mcp connect"@.take(5)[1] == "/mcp connect"@[1]);
            assert(spec_parse_command("/mcp connect"@) == Some(c));
        },
        CommandSpec::Context => {
            assert("/context"@[2] != "/changes"@[2]);
            assert("/context"@[1] != "/save "@[1]);
            assert("/context"@.take(6)[1] == "/context"@[1]);
            assert("/context"@[1] != "/load "@[1]);
            assert("/context"@.take(6)[1] == "/context"@[1]);
            assert("/context"@[1] != "/tool "@[1]);
            assert("/context"@.take(6)[1] == "/context"@[1]);
            assert("/context"@[1] != "/spawn "@[1]);
            assert("/context"@.take(7)[1] == "/context"@[1]);
            assert("/context"@[1] != "/model "@[1]);
            assert("/context"@.take(7)[1] == "/context"@[1]);
            assert("/context"@[1] != "/skill "@[1]);
            assert("/context"@.take(7)[1] == "/context"@[1]);
            assert("/context"@[1] != "/env "@[1]);
            assert("/context"@.take(5)[1] == "/context"@[1]);
            assert(spec_parse_command("/context"@) == Some(c));
        },
        CommandSpec::Memory(None) => {
            assert("/memory"@[2] != "/models"@[2]);
            assert("/memory"@[1] != "/save "@[1]);
            assert("/memory"@.take(6)[1] == "/memory"@[1]);
            assert("/memory"@[1] != "/load "@[1]);
            assert("/memory"@.take(6)[1] == "/memory"@[1]);
            assert("/memory"@[1] != "/tool "@[1]);
            assert("/memory"@.take(6)[1] == "/memory"@[1]);
            assert("/memory"@[1] != "/spawn "@[1]);
            assert("/memory"@.take(7)[1] == "/memory"@[1]);
            assert("/memory"@[2] != "/model "@[2]);
            assert("/memory"@.take(7)[2] == "/memory"@[2]);
            assert("/memory"@[1] != "/skills"@[1]);
            assert("/memory"@[1] != "/skill "@[1]);
            assert("/memory"@.take(7)[1] == "/memory"@[1]);
            assert("/memory"@[1] != "/env "@[1]);
            assert("/memory"@.take(5)[1] == "/memory"@[1]);
            assert(spec_parse_command("/memory"@) == Some(c));
        },
        CommandSpec::Missions => {
            assert("/missions"@[1] != "/provider"@[1]);
            assert("/missions"@[1] != "/discover"@[1]);
            assert("/missions"@[1] != "/sessions"@[1]);
            assert("/missions"@[1] != "/save "@[1]);
            assert("/missions"@.take(6)[1] == "/missions"@[1]);
            assert("/missions"@[1] != "/load "@[1]);
            assert("/missions"@.take(6)[1] == "/missions"@[1]);
            assert("/missions"@[1] != "/tool "@[1]);
            assert("/missions"@.take(6)[1] == "/missions"@[1]);
            assert("/missions"@[1] != "/spawn "@[1]);
            assert("/missions"@.take(7)[1] == "/missions"@[1]);
            assert("/missions"@[2] != "/model "@[2]);
            assert("/missions"@.take(7)[2] == "/missions"@[2]);
            assert("/missions"@[1] != "/skill "@[1]);
            assert("/missions"@.take(7)[1] == "/missions"@[1]);
            assert("/missions"@[1] != "/env "@[1]);
            assert("/missions"@.take(5)[1] == "/missions"@[1]);
            assert("/missions"@[2] != "/memory "@[2]);
            assert("/missions"@.take(8)[2] == "/missions"@[2]);
            assert(spec_parse_command("/missions"@) == Some(c));
        },
        CommandSpec::Init => {
            assert("/init"@[1] != "/help"@[1]);
            assert("/init"@[1] != "/exit"@[1]);
            assert("/init"@[1] != "/diff"@[1]);
            assert("/init"@[1] != "/undo"@[1]);
            assert("/init"@[1] != "/redo"@[1]);
            assert("/init"@[1] != "/env "@[1]);
            assert("/init"@.take(5)[1] == "/init"@[1]);
            assert(spec_parse_command("/init"@) == Some(c));
        },
        _ => {},
    }
}

/// Different command words parse to different commands.
pub proof fn law_command_words_are_distinct(c: CommandSpec, d: CommandSpec)
    requires
        command_word(c) is Some,
        command_word(d) is Some,
        c != d,
    ensures
        spec_parse_command(command_word(c)->0) != spec_parse_command(command_word(d)->0),
{
    law_command_words_parse_to_their_commands(c);
    law_command_words_parse_to_their_commands(d);
}

} // verus!
