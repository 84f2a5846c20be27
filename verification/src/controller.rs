//! The decisions of the interactive loop: what a key press does in each
//! mode, what an entered line is, and the texts the loop answers with. The
//! terminal reads keys, runs the chosen action and shows the texts.

use vstd::prelude::*;

use crate::app::{ApprovalChoice, UiMode};
use crate::command::{parse_command, spec_parse_command, Command, ParseCommandError};
use crate::mission::{Mission, MissionStatus};
use crate::text::{dec, join, join_strs, push_dec, push_str, strs_view};
use crate::tools::ToolSpec;

verus! {

/// A key as the terminal reports it.
#[derive(Debug, Clone, Copy, PartialEq, Eq, Structural)]
pub enum Key {
    Char(char),
    Enter,
    Esc,
    Backspace,
    Up,
    Down,
    Other,
}

/// A key press with its modifiers.
#[derive(Debug, Clone, Copy, PartialEq, Eq, Structural)]
pub struct KeyPress {
    pub key: Key,
    pub ctrl: bool,
    pub alt: bool,
}

/// What the loop does for a key press.
#[derive(Debug, Clone, Copy, PartialEq, Eq, Structural)]
pub enum KeyAction {
    Nothing,
    /// Answer the approval overlay.
    Resolve(ApprovalChoice),
    HideSelector,
    SelectorPrev,
    SelectorNext,
    /// Make the model under the selector's cursor active.
    ChooseModel,
    CancelAgent,
    CancelRequest,
    Exit,
    ShowModelSelector,
    ClearConversation,
    DeleteChar,
    InsertChar(char),
    /// Take the composer's line.
    Submit,
}

/// Cancels the child agent when one runs, else the main request when one
/// runs; `otherwise` when neither does.
pub open spec fn cancel_or(agent_running: bool, request_running: bool, otherwise: KeyAction) -> KeyAction {
    if agent_running {
        KeyAction::CancelAgent
    } else if request_running {
        KeyAction::CancelRequest
    } else {
        otherwise
    }
}

/// The approval overlay's keys: `y` or Enter allows once, `a` for the
/// session, `p` for the project; `n` or Esc refuses once, `d` for the
/// session, `x` for the project; letters in either case.
pub open spec fn approval_key(key: Key) -> KeyAction {
    match key {
        Key::Char(c) => if c == 'y' || c == 'Y' {
            KeyAction::Resolve(ApprovalChoice::AllowOnce)
        } else if c == 'a' || c == 'A' {
            KeyAction::Resolve(ApprovalChoice::AllowSession)
        } else if c == 'p' || c == 'P' {
            KeyAction::Resolve(ApprovalChoice::AllowProject)
        } else if c == 'n' || c == 'N' {
            KeyAction::Resolve(ApprovalChoice::Reject)
        } else if c == 'd' || c == 'D' {
            KeyAction::Resolve(ApprovalChoice::RejectDenySession)
        } else if c == 'x' || c == 'X' {
            KeyAction::Resolve(ApprovalChoice::RejectDenyProject)
        } else {
            KeyAction::Nothing
        },
        Key::Enter => KeyAction::Resolve(ApprovalChoice::AllowOnce),
        Key::Esc => KeyAction::Resolve(ApprovalChoice::Reject),
        _ => KeyAction::Nothing,
    }
}

fn approval_key_action(key: Key) -> (a: KeyAction)
    ensures
        a == approval_key(key),
{
    match key {
        Key::Char(c) => if c == 'y' || c == 'Y' {
            KeyAction::Resolve(ApprovalChoice::AllowOnce)
        } else if c == 'a' || c == 'A' {
            KeyAction::Resolve(ApprovalChoice::AllowSession)
        } else if c == 'p' || c == 'P' {
            KeyAction::Resolve(ApprovalChoice::AllowProject)
        } else if c == 'n' || c == 'N' {
            KeyAction::Resolve(ApprovalChoice::Reject)
        } else if c == 'd' || c == 'D' {
            KeyAction::Resolve(ApprovalChoice::RejectDenySession)
        } else if c == 'x' || c == 'X' {
            KeyAction::Resolve(ApprovalChoice::RejectDenyProject)
        } else {
            KeyAction::Nothing
        },
        Key::Enter => KeyAction::Resolve(ApprovalChoice::AllowOnce),
        Key::Esc => KeyAction::Resolve(ApprovalChoice::Reject),
        _ => KeyAction::Nothing,
    }
}

/// The key bindings. In the approval overlay see [`approval_key`]; in the
/// model selector Esc closes, the arrows
/// move and Enter chooses; otherwise Ctrl+C cancels or quits, Ctrl+L
/// clears, Ctrl+M opens the selector, Esc cancels, Backspace deletes,
/// Enter submits and plain characters are typed.
pub open spec fn spec_key_action(
    mode: UiMode,
    press: KeyPress,
    agent_running: bool,
    request_running: bool,
) -> KeyAction {
    match mode {
        UiMode::Approval => approval_key(press.key),
        UiMode::ModelSelector => match press.key {
            Key::Esc => KeyAction::HideSelector,
            Key::Up => KeyAction::SelectorPrev,
            Key::Down => KeyAction::SelectorNext,
            Key::Enter => KeyAction::ChooseModel,
            _ => KeyAction::Nothing,
        },
        UiMode::Normal => match press.key {
            Key::Char(c) => if press.ctrl {
                if c == 'c' {
                    cancel_or(agent_running, request_running, KeyAction::Exit)
                } else if c == 'l' {
                    KeyAction::ClearConversation
                } else if c == 'm' {
                    KeyAction::ShowModelSelector
                } else {
                    KeyAction::Nothing
                }
            } else if press.alt {
                KeyAction::Nothing
            } else {
                KeyAction::InsertChar(c)
            },
            Key::Esc => cancel_or(agent_running, request_running, KeyAction::Nothing),
            Key::Backspace => KeyAction::DeleteChar,
            Key::Enter => KeyAction::Submit,
            _ => KeyAction::Nothing,
        },
    }
}

fn cancel_action(agent_running: bool, request_running: bool, otherwise: KeyAction) -> (a: KeyAction)
    ensures
        a == cancel_or(agent_running, request_running, otherwise),
{
    if agent_running {
        KeyAction::CancelAgent
    } else if request_running {
        KeyAction::CancelRequest
    } else {
        otherwise
    }
}

/// What a key press does in the current mode, given whether a child agent
/// and a main request are running.
pub fn key_action(mode: UiMode, press: KeyPress, agent_running: bool, request_running: bool) -> (a:
    KeyAction)
    ensures
        a == spec_key_action(mode, press, agent_running, request_running),
{
    match mode {
        UiMode::Approval => approval_key_action(press.key),
        UiMode::ModelSelector => match press.key {
            Key::Esc => KeyAction::HideSelector,
            Key::Up => KeyAction::SelectorPrev,
            Key::Down => KeyAction::SelectorNext,
            Key::Enter => KeyAction::ChooseModel,
            _ => KeyAction::Nothing,
        },
        UiMode::Normal => match press.key {
            Key::Char(c) => if press.ctrl {
                if c == 'c' {
                    cancel_action(agent_running, request_running, KeyAction::Exit)
                } else if c == 'l' {
                    KeyAction::ClearConversation
                } else if c == 'm' {
                    KeyAction::ShowModelSelector
                } else {
                    KeyAction::Nothing
                }
            } else if press.alt {
                KeyAction::Nothing
            } else {
                KeyAction::InsertChar(c)
            },
            Key::Esc => cancel_action(agent_running, request_running, KeyAction::Nothing),
            Key::Backspace => KeyAction::DeleteChar,
            Key::Enter => KeyAction::Submit,
            _ => KeyAction::Nothing,
        },
    }
}

/// What an entered line is.
#[derive(Debug)]
pub enum Submission {
    /// An empty line, or one entered while a request runs.
    Ignore,
    /// A line starting with `/`, parsed.
    Command(Result<Command, ParseCommandError>),
    /// Anything else goes to the provider.
    Prompt(String),
}

/// Reads an entered line: ignored when empty or while a request runs, a
/// command when it starts with `/`, else a prompt.
pub fn submission(line: String, busy: bool) -> (r: Submission)
    ensures
        line@.len() == 0 || busy ==> r is Ignore,
        line@.len() > 0 && !busy && line@[0] == '/' ==> (r matches Submission::Command(c) && match c {
            Ok(cmd) => spec_parse_command(line@) == Some(cmd.spec_view()),
            Err(e) => spec_parse_command(line@) is None && e.spec_command() == line@,
        }),
        line@.len() > 0 && !busy && line@[0] != '/' ==> r == Submission::Prompt(line),
{
    let v = crate::text::chars_of(line.as_str());
    if v.len() == 0 || busy {
        Submission::Ignore
    } else if v[0] == '/' {
        Submission::Command(parse_command(line.as_str()))
    } else {
        Submission::Prompt(line)
    }
}

/// Whether the loop closes the command's exchange after answering it: not
/// after `/exit`, and not after `/clear`, which leaves nothing to close.
pub fn closes_exchange(line: &str, exiting: bool) -> (r: bool)
    ensures
        r == (!exiting && line@ != "/clear"@),
{
    !exiting && !crate::text::str_eq(line, "/clear")
}

/// The project instructions file written by `/init`.
pub const INSTRUCTIONS_TEMPLATE: &'static str = "# Luminus Project Instructions\n\nDescribe your project conventions, coding standards, and constraints here.\n";

/// A one-line answer of the loop.
#[derive(Debug, Clone, PartialEq, Eq)]
pub enum Notice {
    About,
    ModelSelected { provider: String, model: String },
    SwitchedToOpenAi { model: String },
    OpenAiConfigError { error: String },
    OpenAiNotConfigured,
    SwitchedToFake,
    UnknownProvider { name: String },
    CurrentProvider { openai: bool },
    ToolError { error: String },
    ToolBusy,
    SessionSaved { path: String },
    SessionSaveFailed { error: String },
    SessionListFailed { error: String },
    SessionLoaded { name: String },
    SessionLoadFailed { error: String },
    AgentBusy,
    EnvSet { key: String, value: String },
    EnvFailed { error: String },
    NoContext,
    MemoryEmpty,
    MemoryWritten { path: String },
    MemoryFailed { error: String },
    NoMissions,
    InstructionsCreated { path: String },
    InstructionsFailed { error: String },
    DiscoveryFailed { error: String },
    NoChanges,
    NothingToUndo,
    NothingToRedo,
    NoEditsFor { path: String },
    Undone { path: String },
    Redone { path: String },
    Reverted { path: String },
    RestoreFailed { path: String, error: String },
    /// A tool refused by this session's rules.
    DeniedForSession { tool: String },
    /// A tool refused by the project's rules.
    DeniedByProject { tool: String },
    /// The project's rules could not be saved or read.
    PolicyError { error: String },
}

/// The text of a notice.
pub open spec fn notice_text(n: Notice) -> Seq<char> {
    match n {
        Notice::About => "LUMINUS — Illuminate the codebase. Offline fake provider."@,
        Notice::ModelSelected { provider, model } => "Model selected: "@ + provider@ + " / "@
            + model@,
        Notice::SwitchedToOpenAi { model } => "Switched to provider: openai ("@ + model@ + ")"@,
        Notice::OpenAiConfigError { error } => "OpenAI config error: "@ + error@
            + " (check .luminus/config.json or env)"@,
        Notice::OpenAiNotConfigured =>
            "OpenAI not configured: set api_key in .luminus/config.json or OPENAI_API_KEY"@,
        Notice::SwitchedToFake => "Switched to provider: fake"@,
        Notice::UnknownProvider { name } => "Unknown provider: "@ + name@,
        Notice::CurrentProvider { openai } => "Current provider: "@ + (if openai {
            "openai"@
        } else {
            "fake"@
        }) + "\nAvailable: fake, openai (via env)"@,
        Notice::ToolError { error } => "tool error: "@ + error@,
        Notice::ToolBusy => "tool error: another tool is already running (Esc/Ctrl+C to cancel)"@,
        Notice::SessionSaved { path } => "Session saved: "@ + path@,
        Notice::SessionSaveFailed { error } => "Session save failed: "@ + error@,
        Notice::SessionListFailed { error } => "Session listing failed: "@ + error@,
        Notice::SessionLoaded { name } => "Session loaded: "@ + name@,
        Notice::SessionLoadFailed { error } => "Session load failed: "@ + error@,
        Notice::AgentBusy => "An agent is already running. Press Esc to cancel it first."@,
        Notice::EnvSet { key, value } => "Set "@ + key@ + "="@ + value@
            + " (saved to .env and active in memory)"@,
        Notice::EnvFailed { error } => "Failed to write .env: "@ + error@,
        Notice::NoContext =>
            "No project context files found (LUMINUS.md, AGENTS.md, .luminus/instructions.md)."@,
        Notice::MemoryEmpty => "Memory is empty."@,
        Notice::MemoryWritten { path } => "Memory written to "@ + path@,
        Notice::MemoryFailed { error } => "Error writing memory: "@ + error@,
        Notice::NoMissions => "No missions found."@,
        Notice::InstructionsCreated { path } => "Created "@ + path@,
        Notice::InstructionsFailed { error } => "Error creating instructions: "@ + error@,
        Notice::DiscoveryFailed { error } => "Model discovery failed: "@ + error@,
        Notice::NoChanges => "No changes recorded."@,
        Notice::NothingToUndo => "Nothing to undo."@,
        Notice::NothingToRedo => "Nothing to redo."@,
        Notice::NoEditsFor { path } => "No recorded edits for "@ + path@ + "."@,
        Notice::Undone { path } => "Undid edit to "@ + path@,
        Notice::Redone { path } => "Redid edit to "@ + path@,
        Notice::Reverted { path } => "Reverted "@ + path@,
        Notice::RestoreFailed { path, error } => "Could not restore "@ + path@ + ": "@ + error@,
        Notice::DeniedForSession { tool } => "tool "@ + tool@ + ": denied for this session"@,
        Notice::DeniedByProject { tool } => "tool "@ + tool@ + ": denied by project policy"@,
        Notice::PolicyError { error } => "policy: "@ + error@,
    }
}

fn text2(a: &str, b: &str) -> (s: String)
    ensures
        s@ == a@ + b@,
{
    let mut s = a.to_owned();
    push_str(&mut s, b);
    s
}

fn text3(a: &str, b: &str, c: &str) -> (s: String)
    ensures
        s@ == a@ + b@ + c@,
{
    let mut s = text2(a, b);
    push_str(&mut s, c);
    s
}

fn text4(a: &str, b: &str, c: &str, d: &str) -> (s: String)
    ensures
        s@ == a@ + b@ + c@ + d@,
{
    let mut s = text3(a, b, c);
    push_str(&mut s, d);
    s
}

impl Notice {
    /// The text of the notice.
    pub fn text(&self) -> (s: String)
        ensures
            s@ == notice_text(*self),
    {
        match self {
            Notice::About => "LUMINUS — Illuminate the codebase. Offline fake provider.".to_owned(),
            Notice::ModelSelected { provider, model } => text4(
                "Model selected: ",
                provider.as_str(),
                " / ",
                model.as_str(),
            ),
            Notice::SwitchedToOpenAi { model } => text3(
                "Switched to provider: openai (",
                model.as_str(),
                ")",
            ),
            Notice::OpenAiConfigError { error } => text3(
                "OpenAI config error: ",
                error.as_str(),
                " (check .luminus/config.json or env)",
            ),
            Notice::OpenAiNotConfigured =>
                "OpenAI not configured: set api_key in .luminus/config.json or OPENAI_API_KEY".to_owned(),
            Notice::SwitchedToFake => "Switched to provider: fake".to_owned(),
            Notice::UnknownProvider { name } => text2("Unknown provider: ", name.as_str()),
            Notice::CurrentProvider { openai } => text3(
                "Current provider: ",
                if *openai {
                    "openai"
                } else {
                    "fake"
                },
                "\nAvailable: fake, openai (via env)",
            ),
            Notice::ToolError { error } => text2("tool error: ", error.as_str()),
            Notice::ToolBusy =>
                "tool error: another tool is already running (Esc/Ctrl+C to cancel)".to_owned(),
            Notice::SessionSaved { path } => text2("Session saved: ", path.as_str()),
            Notice::SessionSaveFailed { error } => text2("Session save failed: ", error.as_str()),
            Notice::SessionListFailed { error } => text2("Session listing failed: ", error.as_str()),
            Notice::SessionLoaded { name } => text2("Session loaded: ", name.as_str()),
            Notice::SessionLoadFailed { error } => text2("Session load failed: ", error.as_str()),
            Notice::AgentBusy => "An agent is already running. Press Esc to cancel it first.".to_owned(),
            Notice::EnvSet { key, value } => {
                let mut s = text4("Set ", key.as_str(), "=", value.as_str());
                push_str(&mut s, " (saved to .env and active in memory)");
                s
            },
            Notice::EnvFailed { error } => text2("Failed to write .env: ", error.as_str()),
            Notice::NoContext =>
                "No project context files found (LUMINUS.md, AGENTS.md, .luminus/instructions.md).".to_owned(),
            Notice::MemoryEmpty => "Memory is empty.".to_owned(),
            Notice::MemoryWritten { path } => text2("Memory written to ", path.as_str()),
            Notice::MemoryFailed { error } => text2("Error writing memory: ", error.as_str()),
            Notice::NoMissions => "No missions found.".to_owned(),
            Notice::InstructionsCreated { path } => text2("Created ", path.as_str()),
            Notice::InstructionsFailed { error } => text2(
                "Error creating instructions: ",
                error.as_str(),
            ),
            Notice::DiscoveryFailed { error } => text2("Model discovery failed: ", error.as_str()),
            Notice::NoChanges => "No changes recorded.".to_owned(),
            Notice::NothingToUndo => "Nothing to undo.".to_owned(),
            Notice::NothingToRedo => "Nothing to redo.".to_owned(),
            Notice::NoEditsFor { path } => text3("No recorded edits for ", path.as_str(), "."),
            Notice::Undone { path } => text2("Undid edit to ", path.as_str()),
            Notice::Redone { path } => text2("Redid edit to ", path.as_str()),
            Notice::Reverted { path } => text2("Reverted ", path.as_str()),
            Notice::RestoreFailed { path, error } => text4(
                "Could not restore ",
                path.as_str(),
                ": ",
                error.as_str(),
            ),
            Notice::DeniedForSession { tool } => text3(
                "tool ",
                tool.as_str(),
                ": denied for this session",
            ),
            Notice::DeniedByProject { tool } => text3("tool ", tool.as_str(), ": denied by project policy"),
            Notice::PolicyError { error } => text2("policy: ", error.as_str()),
        }
    }
}

/// A heading over lines, one per line.
pub open spec fn headed(head: Seq<char>, items: Seq<Seq<char>>) -> Seq<char> {
    join(seq![head] + items, "\n"@)
}

/// Each item after a prefix.
pub open spec fn prefix_all(prefix: Seq<char>, items: Seq<Seq<char>>) -> Seq<Seq<char>> {
    items.map_values(|t: Seq<char>| prefix + t)
}

proof fn lemma_push_line(
    before: Seq<String>,
    after: Seq<String>,
    line: Seq<char>,
    expect: Seq<Seq<char>>,
    next: Seq<Seq<char>>,
)
    requires
        after.len() == before.len() + 1,
        forall|k: int| 0 <= k < before.len() ==> after[k] == before[k],
        after[before.len() as int]@ == line,
        strs_view(before) == expect,
        next == expect.push(line),
    ensures
        strs_view(after) == next,
{
    assert(strs_view(after) =~= next) by {
        assert forall|k: int| 0 <= k < before.len() implies strs_view(after)[k] == next[k] by {
            assert(after[k] == before[k]);
            assert(strs_view(before)[k] == expect[k]);
        }
    }
}

fn headed_text(head: &str, items: Vec<String>) -> (r: String)
    ensures
        r@ == headed(head@, strs_view(items@)),
{
    let mut all: Vec<String> = Vec::new();
    all.push(head.to_owned());
    let mut i: usize = 0;
    while i < items.len()
        invariant
            i <= items@.len(),
            strs_view(all@) == seq![head@] + strs_view(items@).take(i as int),
        decreases items@.len() - i,
    {
        let ghost before = all@;
        let item = crate::agent::copy_string(&items[i]);
        let ghost lv = item@;
        all.push(item);
        proof {
            let t = strs_view(items@);
            assert(t[i as int] == lv);
            assert(seq![head@] + t.take(i + 1) =~= (seq![head@] + t.take(i as int)).push(lv));
            lemma_push_line(before, all@, lv, seq![head@] + t.take(i as int), seq![head@] + t.take(i + 1));
        }
        i = i + 1;
    }
    assert(strs_view(items@).take(items@.len() as int) =~= strs_view(items@));
    join_strs(&all, "\n")
}

fn prefixed(prefix: &str, items: &[String]) -> (r: Vec<String>)
    ensures
        strs_view(r@) == prefix_all(prefix@, strs_view(items@)),
{
    let mut r: Vec<String> = Vec::new();
    let mut i: usize = 0;
    while i < items.len()
        invariant
            i <= items@.len(),
            strs_view(r@) == prefix_all(prefix@, strs_view(items@).take(i as int)),
        decreases items@.len() - i,
    {
        let line = text2(prefix, items[i].as_str());
        let ghost before = r@;
        let ghost lv = line@;
        r.push(line);
        proof {
            let t = strs_view(items@);
            assert(t.take(i + 1) =~= t.take(i as int).push(t[i as int]));
            assert(prefix_all(prefix@, t.take(i + 1)) =~= prefix_all(prefix@, t.take(i as int)).push(
                lv,
            ));
            lemma_push_line(
                before,
                r@,
                lv,
                prefix_all(prefix@, t.take(i as int)),
                prefix_all(prefix@, t.take(i + 1)),
            );
        }
        i = i + 1;
    }
    assert(strs_view(items@).take(items@.len() as int) =~= strs_view(items@));
    r
}

/// The `/sessions` answer.
pub open spec fn sessions_text(names: Seq<Seq<char>>) -> Seq<char> {
    if names.len() == 0 {
        "No saved sessions."@
    } else {
        headed("Saved sessions:"@, prefix_all("  - "@, names))
    }
}

/// Lists the saved sessions.
pub fn sessions_listing(names: &[String]) -> (r: String)
    ensures
        r@ == sessions_text(strs_view(names@)),
{
    if names.len() == 0 {
        "No saved sessions.".to_owned()
    } else {
        headed_text("Saved sessions:", prefixed("  - ", names))
    }
}

/// The `/discover` answer.
pub open spec fn discovered_text(models: Seq<Seq<char>>) -> Seq<char> {
    if models.len() == 0 {
        "No models discovered."@
    } else {
        headed("Discovered models:"@, prefix_all("  - "@, models))
    }
}

/// Lists the model ids a provider reported.
pub fn discovered_listing(models: &[String]) -> (r: String)
    ensures
        r@ == discovered_text(strs_view(models@)),
{
    if models.len() == 0 {
        "No models discovered.".to_owned()
    } else {
        headed_text("Discovered models:", prefixed("  - ", models))
    }
}

/// How a tool is listed: `name [permission] - description`.
pub open spec fn tool_line(spec: ToolSpec) -> Seq<char> {
    spec.name@ + " ["@ + spec.permission.spec_label() + "] - "@ + spec.description@
}

/// The `/tools` answer.
pub open spec fn tools_text(specs: Seq<ToolSpec>) -> Seq<char> {
    "Available tools:\n"@ + join(specs.map_values(|t: ToolSpec| tool_line(t)), "\n"@)
}

/// Lists the tools with their permissions.
pub fn tools_listing(specs: &[ToolSpec]) -> (r: String)
    ensures
        r@ == tools_text(specs@),
{
    let mut lines: Vec<String> = Vec::new();
    let mut i: usize = 0;
    while i < specs.len()
        invariant
            i <= specs@.len(),
            strs_view(lines@) == specs@.take(i as int).map_values(|t: ToolSpec| tool_line(t)),
        decreases specs@.len() - i,
    {
        let t = &specs[i];
        let mut line = text3(t.name, " [", t.permission.label());
        push_str(&mut line, "] - ");
        push_str(&mut line, t.description);
        let ghost before = lines@;
        let ghost lv = line@;
        lines.push(line);
        proof {
            assert(specs@.take(i + 1).map_values(|t: ToolSpec| tool_line(t)) =~= specs@.take(
                i as int,
            ).map_values(|t: ToolSpec| tool_line(t)).push(lv));
            lemma_push_line(
                before,
                lines@,
                lv,
                specs@.take(i as int).map_values(|t: ToolSpec| tool_line(t)),
                specs@.take(i + 1).map_values(|t: ToolSpec| tool_line(t)),
            );
        }
        i = i + 1;
    }
    assert(specs@.take(specs@.len() as int) =~= specs@);
    let body = join_strs(&lines, "\n");
    text2("Available tools:\n", body.as_str())
}

/// The `/models` answer: the configured roles, a blank line, the help.
pub open spec fn models_text(lines: Seq<Seq<char>>, help: Seq<char>) -> Seq<char> {
    join(seq!["Configured models:"@] + prefix_all("  "@, lines) + seq![Seq::<char>::empty(), help], "\n"@)
}

/// Lists the configured models above the help text.
pub fn models_listing(lines: &[String], help: &str) -> (r: String)
    ensures
        r@ == models_text(strs_view(lines@), help@),
{
    let mut items = prefixed("  ", lines);
    let ghost first = strs_view(items@);
    items.push(String::new());
    items.push(help.to_owned());
    proof {
        reveal_strlit("");
    }
    assert(strs_view(items@) =~= first + seq![Seq::<char>::empty(), help@]);
    assert(seq!["Configured models:"@] + strs_view(items@) =~= seq!["Configured models:"@]
        + prefix_all("  "@, strs_view(lines@)) + seq![Seq::<char>::empty(), help@]);
    headed_text("Configured models:", items)
}

/// How a connection attempt is reported.
pub open spec fn connect_line(server: Seq<char>, result: Result<(), Seq<char>>) -> Seq<char> {
    match result {
        Ok(()) => "  "@ + server + " -> connected ok"@,
        Err(e) => "  "@ + server + " -> error: "@ + e,
    }
}

/// How a discovered MCP tool is listed: `name (description)`.
pub open spec fn found_line(t: (Seq<char>, Seq<char>)) -> Seq<char> {
    "  "@ + t.0 + " ("@ + t.1 + ")"@
}

/// One line per connection attempt.
pub open spec fn connect_lines(results: Seq<(Seq<char>, Result<(), Seq<char>>)>) -> Seq<Seq<char>> {
    results.map_values(|r: (Seq<char>, Result<(), Seq<char>>)| connect_line(r.0, r.1))
}

/// The tools found, under a count, or nothing when none were.
pub open spec fn found_lines(tools: Seq<(Seq<char>, Seq<char>)>) -> Seq<Seq<char>> {
    if tools.len() == 0 {
        Seq::<Seq<char>>::empty()
    } else {
        seq!["\nDiscovered "@ + dec(tools.len()) + " MCP tools:"@] + tools.map_values(
            |t: (Seq<char>, Seq<char>)| found_line(t),
        )
    }
}

/// The `/mcp connect` answer: one line per server, then the tools found.
pub open spec fn mcp_text(
    results: Seq<(Seq<char>, Result<(), Seq<char>>)>,
    tools: Seq<(Seq<char>, Seq<char>)>,
) -> Seq<char> {
    headed("Connecting to MCP Servers..."@, connect_lines(results) + found_lines(tools))
}

/// The connection results by their texts.
pub open spec fn results_view(results: Seq<(String, Result<(), String>)>) -> Seq<
    (Seq<char>, Result<(), Seq<char>>),
> {
    results.map_values(
        |r: (String, Result<(), String>)|
            (
                r.0@,
                match r.1 {
                    Ok(()) => Ok(()),
                    Err(e) => Err(e@),
                },
            ),
    )
}

/// Pairs of texts by their characters.
pub open spec fn pairs_view(pairs: Seq<(String, String)>) -> Seq<(Seq<char>, Seq<char>)> {
    pairs.map_values(|p: (String, String)| (p.0@, p.1@))
}

/// Reports the MCP connection attempts and the tools they offered.
pub fn mcp_report(results: &[(String, Result<(), String>)], tools: &[(String, String)]) -> (r: String)
    ensures
        r@ == mcp_text(results_view(results@), pairs_view(tools@)),
{
    let ghost rv = results_view(results@);
    let ghost tv = pairs_view(tools@);
    let mut lines: Vec<String> = Vec::new();
    let mut i: usize = 0;
    while i < results.len()
        invariant
            i <= results@.len(),
            rv == results_view(results@),
            strs_view(lines@) == connect_lines(rv.take(i as int)),
        decreases results@.len() - i,
    {
        let (server, result) = &results[i];
        let line = match result {
            Ok(()) => text3("  ", server.as_str(), " -> connected ok"),
            Err(e) => text4("  ", server.as_str(), " -> error: ", e.as_str()),
        };
        let ghost before = lines@;
        let ghost lv = line@;
        lines.push(line);
        proof {
            assert(rv[i as int].0 == server@);
            assert(connect_lines(rv.take(i + 1)) =~= connect_lines(rv.take(i as int)).push(lv));
            lemma_push_line(before, lines@, lv, connect_lines(rv.take(i as int)), connect_lines(rv.take(i + 1)));
        }
        i = i + 1;
    }
    assert(rv.take(results@.len() as int) =~= rv);
    let ghost connected = strs_view(lines@);
    if tools.len() > 0 {
        let mut head = "\nDiscovered ".to_owned();
        push_dec(&mut head, tools.len() as u128);
        push_str(&mut head, " MCP tools:");
        lines.push(head);
        let mut k: usize = 0;
        while k < tools.len()
            invariant
                k <= tools@.len(),
                tv == pairs_view(tools@),
                tools@.len() > 0,
                strs_view(lines@) == connected + seq!["\nDiscovered "@ + dec(tools@.len()) + " MCP tools:"@]
                    + tv.take(k as int).map_values(|t: (Seq<char>, Seq<char>)| found_line(t)),
            decreases tools@.len() - k,
        {
            let (name, description) = &tools[k];
            let mut line = text3("  ", name.as_str(), " (");
            push_str(&mut line, description.as_str());
            push_str(&mut line, ")");
            let ghost before = lines@;
            let ghost lv = line@;
            lines.push(line);
            proof {
                let hd = seq!["\nDiscovered "@ + dec(tools@.len()) + " MCP tools:"@];
                let f = |t: (Seq<char>, Seq<char>)| found_line(t);
                assert(tv[k as int] == (name@, description@));
                assert(connected + hd + tv.take(k + 1).map_values(f) =~= (connected + hd + tv.take(
                    k as int,
                ).map_values(f)).push(lv));
                lemma_push_line(
                    before,
                    lines@,
                    lv,
                    connected + hd + tv.take(k as int).map_values(f),
                    connected + hd + tv.take(k + 1).map_values(f),
                );
            }
            k = k + 1;
        }
        assert(tv.take(tools@.len() as int) =~= tv);
        assert(strs_view(lines@) =~= connect_lines(rv) + found_lines(tv));
    } else {
        assert(strs_view(lines@) =~= connect_lines(rv) + found_lines(tv));
    }
    headed_text("Connecting to MCP Servers...", lines)
}

/// The `/context` answer: the files read and their instructions.
pub open spec fn context_text(paths: Seq<Seq<char>>, instructions: Seq<char>) -> Seq<char> {
    if paths.len() == 0 {
        notice_text(Notice::NoContext)
    } else {
        join(
            seq!["Loaded project context files:"@] + prefix_all("  "@, paths) + seq![
                Seq::<char>::empty(),
                instructions,
            ],
            "\n"@,
        )
    }
}

/// Reports the project context files and their instructions.
pub fn context_report(paths: &[String], instructions: &str) -> (r: String)
    ensures
        r@ == context_text(strs_view(paths@), instructions@),
{
    if paths.len() == 0 {
        return Notice::NoContext.text();
    }
    let mut items = prefixed("  ", paths);
    let ghost first = strs_view(items@);
    items.push(String::new());
    items.push(instructions.to_owned());
    proof {
        reveal_strlit("");
    }
    assert(strs_view(items@) =~= first + seq![Seq::<char>::empty(), instructions@]);
    assert(seq!["Loaded project context files:"@] + strs_view(items@) =~= seq![
        "Loaded project context files:"@,
    ] + prefix_all("  "@, strs_view(paths@)) + seq![Seq::<char>::empty(), instructions@]);
    headed_text("Loaded project context files:", items)
}

/// How a mission status is written.
pub open spec fn status_name(s: MissionStatus) -> Seq<char> {
    match s {
        MissionStatus::Queued => "Queued"@,
        MissionStatus::Planning => "Planning"@,
        MissionStatus::Running => "Running"@,
        MissionStatus::WaitingForApproval => "WaitingForApproval"@,
        MissionStatus::Paused => "Paused"@,
        MissionStatus::Verifying => "Verifying"@,
        MissionStatus::Completed => "Completed"@,
        MissionStatus::Failed => "Failed"@,
        MissionStatus::Cancelled => "Cancelled"@,
    }
}

fn status_text(s: &MissionStatus) -> (r: &'static str)
    ensures
        r@ == status_name(*s),
{
    match s {
        MissionStatus::Queued => "Queued",
        MissionStatus::Planning => "Planning",
        MissionStatus::Running => "Running",
        MissionStatus::WaitingForApproval => "WaitingForApproval",
        MissionStatus::Paused => "Paused",
        MissionStatus::Verifying => "Verifying",
        MissionStatus::Completed => "Completed",
        MissionStatus::Failed => "Failed",
        MissionStatus::Cancelled => "Cancelled",
    }
}

/// How a mission is listed: `id | title | status`.
pub open spec fn mission_line(m: Mission) -> Seq<char> {
    "  "@ + m.id@ + " | "@ + m.title@ + " | "@ + status_name(m.status)
}

/// The `/missions` answer.
pub open spec fn missions_text(missions: Seq<Mission>) -> Seq<char> {
    if missions.len() == 0 {
        notice_text(Notice::NoMissions)
    } else {
        headed("Missions:"@, missions.map_values(|m: Mission| mission_line(m)))
    }
}

/// Lists the missions.
pub fn missions_listing(missions: &[Mission]) -> (r: String)
    ensures
        r@ == missions_text(missions@),
{
    if missions.len() == 0 {
        return Notice::NoMissions.text();
    }
    let mut lines: Vec<String> = Vec::new();
    let mut i: usize = 0;
    while i < missions.len()
        invariant
            i <= missions@.len(),
            strs_view(lines@) == missions@.take(i as int).map_values(|m: Mission| mission_line(m)),
        decreases missions@.len() - i,
    {
        let m = &missions[i];
        let mut line = text4("  ", m.id.as_str(), " | ", m.title.as_str());
        push_str(&mut line, " | ");
        push_str(&mut line, status_text(&m.status));
        let ghost before = lines@;
        let ghost lv = line@;
        lines.push(line);
        proof {
            assert(missions@.take(i + 1).map_values(|m: Mission| mission_line(m)) =~= missions@.take(
                i as int,
            ).map_values(|m: Mission| mission_line(m)).push(lv));
            lemma_push_line(
                before,
                lines@,
                lv,
                missions@.take(i as int).map_values(|m: Mission| mission_line(m)),
                missions@.take(i + 1).map_values(|m: Mission| mission_line(m)),
            );
        }
        i = i + 1;
    }
    assert(missions@.take(missions@.len() as int) =~= missions@);
    headed_text("Missions:", lines)
}

/// How a changed file is listed: `path +added -removed`.
pub open spec fn change_line(c: (Seq<char>, nat, nat)) -> Seq<char> {
    "  "@ + c.0 + " +"@ + dec(c.1) + " -"@ + dec(c.2)
}

/// The changes by their texts and counts.
pub open spec fn changes_view(cs: Seq<(String, usize, usize)>) -> Seq<(Seq<char>, nat, nat)> {
    cs.map_values(|c: (String, usize, usize)| (c.0@, c.1 as nat, c.2 as nat))
}

/// The `/changes` answer.
pub open spec fn changes_text(changes: Seq<(Seq<char>, nat, nat)>) -> Seq<char> {
    if changes.len() == 0 {
        notice_text(Notice::NoChanges)
    } else {
        headed("Changes:"@, changes.map_values(|c: (Seq<char>, nat, nat)| change_line(c)))
    }
}

/// Lists the changed files with their added and removed line counts.
pub fn changes_listing(changes: &[(String, usize, usize)]) -> (r: String)
    ensures
        r@ == changes_text(changes_view(changes@)),
{
    let ghost cv = changes_view(changes@);
    if changes.len() == 0 {
        return Notice::NoChanges.text();
    }
    let mut lines: Vec<String> = Vec::new();
    let mut i: usize = 0;
    while i < changes.len()
        invariant
            i <= changes@.len(),
            cv == changes_view(changes@),
            strs_view(lines@) == cv.take(i as int).map_values(
                |c: (Seq<char>, nat, nat)| change_line(c),
            ),
        decreases changes@.len() - i,
    {
        let (path, added, removed) = &changes[i];
        let mut line = text3("  ", path.as_str(), " +");
        push_dec(&mut line, *added as u128);
        push_str(&mut line, " -");
        push_dec(&mut line, *removed as u128);
        let ghost before = lines@;
        let ghost lv = line@;
        lines.push(line);
        proof {
            assert(cv[i as int] == (path@, *added as nat, *removed as nat));
            assert(cv.take(i + 1).map_values(|c: (Seq<char>, nat, nat)| change_line(c)) =~= cv.take(
                i as int,
            ).map_values(|c: (Seq<char>, nat, nat)| change_line(c)).push(lv));
            lemma_push_line(
                before,
                lines@,
                lv,
                cv.take(i as int).map_values(|c: (Seq<char>, nat, nat)| change_line(c)),
                cv.take(i + 1).map_values(|c: (Seq<char>, nat, nat)| change_line(c)),
            );
        }
        i = i + 1;
    }
    assert(cv.take(changes@.len() as int) =~= cv);
    headed_text("Changes:", lines)
}

/// Which provider `/provider` asks for.
#[derive(Debug, Clone, PartialEq, Eq)]
pub enum ProviderChoice {
    /// The OpenAI-compatible provider (`openai` or `openai-compatible`).
    OpenAi,
    /// The offline provider (`fake`).
    Fake,
    /// A name that is no provider.
    Unknown(String),
    /// No name: show the current provider.
    Current,
}

/// The provider that `/provider <name>` names.
pub fn provider_choice(name: Option<&str>) -> (r: ProviderChoice)
    ensures
        match name {
            None => r is Current,
            Some(n) => if n@ == "openai"@ || n@ == "openai-compatible"@ {
                r is OpenAi
            } else if n@ == "fake"@ {
                r is Fake
            } else {
                r matches ProviderChoice::Unknown(u) && u@ == n@
            },
        },
{
    match name {
        None => ProviderChoice::Current,
        Some(n) => {
            if crate::text::str_eq(n, "openai") || crate::text::str_eq(n, "openai-compatible") {
                ProviderChoice::OpenAi
            } else if crate::text::str_eq(n, "fake") {
                ProviderChoice::Fake
            } else {
                ProviderChoice::Unknown(n.to_owned())
            }
        },
    }
}

/// What `/memory` asks for.
#[derive(Debug, Clone, PartialEq, Eq)]
pub enum MemoryRequest {
    /// Show the memory (no argument, or `inspect`).
    Inspect,
    /// Replace the memory with this text.
    Write(String),
}

/// The request that `/memory [text]` makes.
pub fn memory_request(arg: Option<&str>) -> (r: MemoryRequest)
    ensures
        match arg {
            None => r is Inspect,
            Some(t) => if t@ == "inspect"@ {
                r is Inspect
            } else {
                r matches MemoryRequest::Write(w) && w@ == t@
            },
        },
{
    match arg {
        None => MemoryRequest::Inspect,
        Some(t) => if crate::text::str_eq(t, "inspect") {
            MemoryRequest::Inspect
        } else {
            MemoryRequest::Write(t.to_owned())
        },
    }
}

/// A text to show, or the notice for its absence when it is empty (no
/// recorded diff, an empty memory).
pub fn text_or_notice(text: String, empty: Notice) -> (r: String)
    ensures
        r@ == if text@.len() == 0 {
            notice_text(empty)
        } else {
            text@
        },
{
    if text.as_str().is_empty() {
        empty.text()
    } else {
        text
    }
}

} // verus!
