//! Pure application state: a reducer over user input and provider events.

use std::time::Duration;

use vstd::prelude::*;

use crate::agent::{copy_string, AgentRun, AgentStatus};
use crate::context::{charged, cleared, ContextBudget};
use crate::event::ProviderEvent;
use crate::session::{SavedMessage, Session};
use crate::text::{
    chars_of, dec, from_chars, push_dec, push_str, replace_char, replace_char_chars, str_eq, words,
    IntoText,
};
use crate::tool_activity::{ToolActivity, ToolStatus};
use crate::tool_event::{after, ToolCallId, ToolCallIds, ToolLifecycleEvent};
use crate::tool_output::{bounded_summary, default_bounds, BoundedOutput, BoundedSummary, Bounds, TruncationKind};
use crate::permission_policy::{ProjectToolPolicy, ToolPolicy};
use crate::tools::{ApprovalRequest, ToolError, ToolOutput};

verus! {

/// Who wrote a transcript message.
#[derive(Debug, Clone, Copy, PartialEq, Eq, Structural)]
pub enum Role {
    User,
    Assistant,
    System,
}

impl Role {
    /// The stored name of the role.
    pub open spec fn spec_name(self) -> Seq<char> {
        match self {
            Role::User => "user"@,
            Role::Assistant => "assistant"@,
            Role::System => "system"@,
        }
    }

    /// The role a stored name denotes, if any.
    pub open spec fn spec_from_saved(value: Seq<char>) -> Option<Role> {
        if value == "user"@ {
            Some(Role::User)
        } else if value == "assistant"@ {
            Some(Role::Assistant)
        } else if value == "system"@ {
            Some(Role::System)
        } else {
            None
        }
    }

    /// The role a stored name denotes, if any.
    pub fn from_saved(value: &str) -> (r: Option<Self>)
        ensures
            r == Self::spec_from_saved(value@),
    {
        if str_eq(value, "user") {
            Some(Role::User)
        } else if str_eq(value, "assistant") {
            Some(Role::Assistant)
        } else if str_eq(value, "system") {
            Some(Role::System)
        } else {
            None
        }
    }

    /// The stored name of the role.
    pub fn name(&self) -> (r: &'static str)
        ensures
            r@ == self.spec_name(),
    {
        match self {
            Role::User => "user",
            Role::Assistant => "assistant",
            Role::System => "system",
        }
    }

    /// The stored name of the role, owned.
    pub fn to_string(&self) -> (r: String)
        ensures
            r@ == self.spec_name(),
    {
        self.name().to_owned()
    }
}

/// A transcript message.
#[derive(Debug, Clone, PartialEq, Eq)]
pub struct Message {
    pub role: Role,
    pub content: String,
}

impl SavedMessage {
    /// The stored form of a transcript message.
    pub fn from_message(message: &Message) -> (s: SavedMessage)
        ensures
            s.role@ == message.role.spec_name(),
            s.content == message.content,
    {
        SavedMessage { role: message.role.to_string(), content: copy_string(&message.content) }
    }
}

/// Whether a request stream is still live.
#[derive(Debug, Clone, Copy, PartialEq, Eq, Structural)]
enum RequestPhase {
    Streaming,
    Terminated,
}

/// The request whose events the app currently follows.
#[derive(Debug, Clone, PartialEq, Eq)]
struct ActiveRequest {
    request_id: String,
    phase: RequestPhase,
    message_index: Option<usize>,
}

/// The followed request: its id, whether it has ended, and the transcript
/// index of the assistant message its deltas go to.
pub struct RequestState {
    pub request_id: Seq<char>,
    pub terminated: bool,
    pub message_index: Option<nat>,
}

/// Application UI mode: normal chat or a modal overlay.
#[derive(Debug, Clone, Copy, PartialEq, Eq, Structural)]
pub enum UiMode {
    Normal,
    ModelSelector,
    Approval,
}

impl Default for UiMode {
    fn default() -> (m: Self)
        ensures
            m == UiMode::Normal,
    {
        UiMode::Normal
    }
}

/// An operator's answer to an approval prompt: allow once, for the
/// session or for the project; refuse once, for the session or for the
/// project.
#[derive(Debug, Clone, Copy, PartialEq, Eq, Structural)]
pub enum ApprovalChoice {
    AllowOnce,
    AllowSession,
    AllowProject,
    Reject,
    RejectDenySession,
    RejectDenyProject,
}

impl ApprovalChoice {
    /// The choices that let the tool run.
    pub open spec fn spec_allows(self) -> bool {
        self is AllowOnce || self is AllowSession || self is AllowProject
    }

    /// The choices that change the project's rules.
    pub open spec fn spec_persists(self) -> bool {
        self is AllowProject || self is RejectDenyProject
    }

    /// Whether the choice lets the tool run.
    pub fn allows(self) -> (r: bool)
        ensures
            r == self.spec_allows(),
    {
        match self {
            ApprovalChoice::AllowOnce | ApprovalChoice::AllowSession | ApprovalChoice::AllowProject => true,
            _ => false,
        }
    }

    /// Whether the choice changes the project's rules, which the caller then
    /// saves.
    pub fn persists(self) -> (r: bool)
        ensures
            r == self.spec_persists(),
    {
        match self {
            ApprovalChoice::AllowProject | ApprovalChoice::RejectDenyProject => true,
            _ => false,
        }
    }
}

/// A rule for a tool for the rest of the session.
#[derive(Debug, Clone, Copy, PartialEq, Eq, Structural)]
pub enum SessionToolPolicy {
    Allowed,
    Denied,
}

/// What the rules decide for a prepared tool call before anyone is asked.
#[derive(Debug, Clone, PartialEq, Eq)]
pub enum ApprovalGate {
    SessionAllowed(ApprovalRequest),
    ProjectAllowed(ApprovalRequest),
    SessionDenied { tool: String },
    ProjectDenied { tool: String },
    /// No rule applies; the approval overlay is shown.
    NeedsPrompt,
}

/// The decisions taken on a prepared tool call before anyone is asked.
pub enum GateKind {
    SessionAllowed,
    ProjectAllowed,
    SessionDenied,
    ProjectDenied,
    NeedsPrompt,
}

/// The rule of a tool, if any.
pub open spec fn rule_of(rules: Map<Seq<char>, ToolPolicy>, tool: Seq<char>) -> Option<ToolPolicy> {
    if rules.dom().contains(tool) {
        Some(rules[tool])
    } else {
        None
    }
}

/// Session deny, then project deny, then session allow, then project
/// allow; without a rule the operator is asked.
pub open spec fn spec_gate(
    session: Map<Seq<char>, ToolPolicy>,
    project: Map<Seq<char>, ToolPolicy>,
    tool: Seq<char>,
) -> GateKind {
    if rule_of(session, tool) == Some(ToolPolicy::Denied) {
        GateKind::SessionDenied
    } else if rule_of(project, tool) == Some(ToolPolicy::Denied) {
        GateKind::ProjectDenied
    } else if rule_of(session, tool) == Some(ToolPolicy::Allowed) {
        GateKind::SessionAllowed
    } else if rule_of(project, tool) == Some(ToolPolicy::Allowed) {
        GateKind::ProjectAllowed
    } else {
        GateKind::NeedsPrompt
    }
}

/// The session rules after a choice about `tool`.
pub open spec fn session_after(
    rules: Map<Seq<char>, ToolPolicy>,
    tool: Seq<char>,
    choice: ApprovalChoice,
) -> Map<Seq<char>, ToolPolicy> {
    match choice {
        ApprovalChoice::AllowSession => rules.insert(tool, ToolPolicy::Allowed),
        ApprovalChoice::RejectDenySession => rules.insert(tool, ToolPolicy::Denied),
        _ => rules,
    }
}

/// The project rules after a choice about `tool`.
pub open spec fn project_after(
    rules: Map<Seq<char>, ToolPolicy>,
    tool: Seq<char>,
    choice: ApprovalChoice,
) -> Map<Seq<char>, ToolPolicy> {
    match choice {
        ApprovalChoice::AllowProject => rules.insert(tool, ToolPolicy::Allowed),
        ApprovalChoice::RejectDenyProject => rules.insert(tool, ToolPolicy::Denied),
        _ => rules,
    }
}

/// Pure application state: a reducer over user input and provider events.
#[derive(Debug)]
pub struct App {
    pub messages: Vec<Message>,
    pub tool_activities: Vec<ToolActivity>,
    request: Option<ActiveRequest>,
    context_budget: Option<ContextBudget>,
    ui_mode: UiMode,
    pub model_selector_index: usize,
    pub model_selector_items: Vec<String>,
    /// Tracked spawned agents, newest last.
    pub agent_runs: Vec<AgentRun>,
    /// Pending coding tool that requires operator approval.
    pub pending_approval: Option<ApprovalRequest>,
    tool_call_ids: ToolCallIds,
    /// Tool rules chosen for this session.
    session_policies: ProjectToolPolicy,
    /// Tool rules of the project, kept on disk by the caller.
    project_policies: ProjectToolPolicy,
    /// The last failure to save the project rules, for the caller to show.
    pub last_policy_error: Option<String>,
}

/// The label of a truncation kind in transcripts.
pub open spec fn spec_kind_label(kind: TruncationKind) -> Seq<char> {
    match kind {
        TruncationKind::Untruncated => "none"@,
        TruncationKind::Bytes => "bytes"@,
        TruncationKind::Lines => "lines"@,
        TruncationKind::Both => "bytes+lines"@,
    }
}

/// The label of a truncation kind in transcripts.
pub fn truncation_kind_label(kind: TruncationKind) -> (r: &'static str)
    ensures
        r@ == spec_kind_label(kind),
{
    match kind {
        TruncationKind::Untruncated => "none",
        TruncationKind::Bytes => "bytes",
        TruncationKind::Lines => "lines",
        TruncationKind::Both => "bytes+lines",
    }
}

/// `tool <id> (<tool>, <permission>)`, the head of tool transcript lines.
pub open spec fn tool_head(id: ToolCallId, tool: Seq<char>, permission: Seq<char>) -> Seq<char> {
    "tool "@ + id.display() + " ("@ + tool + ", "@ + permission + ")"@
}

/// The transcript message for a bounded tool result: head, preview, and when
/// the output was cut, a note with the sizes and what was omitted.
pub open spec fn spec_bounded_message(
    id: ToolCallId,
    tool: Seq<char>,
    permission: Seq<char>,
    b: BoundedSummary,
) -> Seq<char> {
    let base = tool_head(id, tool, permission) + ":\n"@ + b.preview;
    if b.truncated {
        base + "\n\n[truncated: "@ + spec_kind_label(b.truncation) + " | total_bytes="@ + dec(
            b.total_bytes,
        ) + " total_lines="@ + dec(b.total_lines) + " bytes_omitted="@ + dec(b.bytes_omitted)
            + " lines_omitted="@ + dec(b.lines_omitted)
            + " | full_output available in-memory only (no disk artifact yet)]"@
    } else {
        base
    }
}

/// The one-line command-log summary of a bounded tool result: head, preview
/// with newlines turned into spaces, and a short note when it was cut.
pub open spec fn spec_summary_ok(
    id: ToolCallId,
    tool: Seq<char>,
    permission: Seq<char>,
    b: BoundedSummary,
) -> Seq<char> {
    let base = tool_head(id, tool, permission) + ": "@ + replace_char(b.preview, '\n', ' ');
    if b.truncated {
        base + " [truncated: "@ + spec_kind_label(b.truncation) + " | "@ + dec(b.total_bytes)
            + "B/"@ + dec(b.total_lines) + "L omitted "@ + dec(b.bytes_omitted) + "B/"@ + dec(
            b.lines_omitted,
        ) + "L; full_output in-memory only]"@
    } else {
        base
    }
}

fn push_tool_head(s: &mut String, id: ToolCallId, tool: &str, permission: &str)
    ensures
        final(s)@ == old(s)@ + tool_head(id, tool@, permission@),
{
    push_str(s, "tool ");
    let ids = id.to_string();
    push_str(s, ids.as_str());
    push_str(s, " (");
    push_str(s, tool);
    push_str(s, ", ");
    push_str(s, permission);
    push_str(s, ")");
}

/// Formats the transcript message for a bounded tool result.
pub fn format_bounded_tool_message(
    id: ToolCallId,
    tool: &str,
    permission: &str,
    bounded: &BoundedOutput,
) -> (r: String)
    ensures
        r@ == spec_bounded_message(id, tool@, permission@, bounded.summary()),
{
    let mut m = String::new();
    push_tool_head(&mut m, id, tool, permission);
    push_str(&mut m, ":\n");
    push_str(&mut m, bounded.preview.as_str());
    if bounded.truncated {
        push_str(&mut m, "\n\n[truncated: ");
        push_str(&mut m, truncation_kind_label(bounded.truncation));
        push_str(&mut m, " | total_bytes=");
        push_dec(&mut m, bounded.total_bytes as u128);
        push_str(&mut m, " total_lines=");
        push_dec(&mut m, bounded.total_lines as u128);
        push_str(&mut m, " bytes_omitted=");
        push_dec(&mut m, bounded.bytes_omitted as u128);
        push_str(&mut m, " lines_omitted=");
        push_dec(&mut m, bounded.lines_omitted as u128);
        push_str(&mut m, " | full_output available in-memory only (no disk artifact yet)]");
    }
    m
}

/// Formats the one-line command-log summary of a bounded tool result.
pub fn format_tool_summary_ok(
    id: ToolCallId,
    tool: &str,
    permission: &str,
    bounded: &BoundedOutput,
) -> (r: String)
    ensures
        r@ == spec_summary_ok(id, tool@, permission@, bounded.summary()),
{
    let mut m = String::new();
    push_tool_head(&mut m, id, tool, permission);
    push_str(&mut m, ": ");
    let pv = chars_of(bounded.preview.as_str());
    let one_line = replace_char_chars(&pv, '\n', ' ');
    let one = from_chars(&one_line);
    push_str(&mut m, one.as_str());
    if bounded.truncated {
        push_str(&mut m, " [truncated: ");
        push_str(&mut m, truncation_kind_label(bounded.truncation));
        push_str(&mut m, " | ");
        push_dec(&mut m, bounded.total_bytes as u128);
        push_str(&mut m, "B/");
        push_dec(&mut m, bounded.total_lines as u128);
        push_str(&mut m, "L omitted ");
        push_dec(&mut m, bounded.bytes_omitted as u128);
        push_str(&mut m, "B/");
        push_dec(&mut m, bounded.lines_omitted as u128);
        push_str(&mut m, "L; full_output in-memory only]");
    }
    m
}

/// `after` is `before` with one more message of the given role and content.
pub open spec fn pushed_message(
    before: Seq<Message>,
    after: Seq<Message>,
    role: Role,
    content: Seq<char>,
) -> bool {
    &&& after.len() == before.len() + 1
    &&& after.drop_last() == before
    &&& after.last().role == role
    &&& after.last().content@ == content
}

/// An activity card with the given status, tool, detail text and duration.
pub open spec fn activity_is(
    a: ToolActivity,
    status: ToolStatus,
    tool: Seq<char>,
    detail: Option<Seq<char>>,
    duration: Option<Duration>,
) -> bool {
    &&& a.spec_meta().status == status
    &&& a.spec_meta().tool@ == tool
    &&& a.spec_meta().duration == duration
    &&& a.spec_detail() == detail
    &&& match status {
        ToolStatus::Started => a is Started,
        ToolStatus::InProgress => a is Progress,
        ToolStatus::Completed => a is Completed,
        ToolStatus::Failed => a is Failed,
    }
}

/// The card a lifecycle event becomes: cancellation shows as a failure with
/// the detail `cancelled`.
pub open spec fn lifecycle_activity(
    a: ToolActivity,
    event: ToolLifecycleEvent,
    duration: Option<Duration>,
) -> bool {
    match event {
        ToolLifecycleEvent::Started { tool, .. } => activity_is(
            a,
            ToolStatus::Started,
            tool@,
            None,
            duration,
        ),
        ToolLifecycleEvent::Progress { tool, message, .. } => activity_is(
            a,
            ToolStatus::InProgress,
            tool@,
            Some(message@),
            duration,
        ),
        ToolLifecycleEvent::Completed { tool, output, .. } => activity_is(
            a,
            ToolStatus::Completed,
            tool@,
            Some(output@),
            duration,
        ),
        ToolLifecycleEvent::Failed { tool, error, .. } => activity_is(
            a,
            ToolStatus::Failed,
            tool@,
            Some(error@),
            duration,
        ),
        ToolLifecycleEvent::Cancelled { tool, .. } => activity_is(
            a,
            ToolStatus::Failed,
            tool@,
            Some("cancelled"@),
            duration,
        ),
    }
}

/// `after` is `before` with one more card at the end, satisfying `card`.
pub open spec fn pushed_activity(
    before: Seq<ToolActivity>,
    after: Seq<ToolActivity>,
    card: spec_fn(ToolActivity) -> bool,
) -> bool {
    &&& after.len() == before.len() + 1
    &&& after.drop_last() == before
    &&& card(after.last())
}

/// The transcript a stored session restores: messages with a known role, in
/// order; the others are skipped.
pub open spec fn restored(saved: Seq<SavedMessage>) -> Seq<Message>
    decreases saved.len(),
{
    if saved.len() == 0 {
        seq![]
    } else {
        let rest = restored(saved.drop_last());
        match Role::spec_from_saved(saved.last().role@) {
            Some(role) => rest.push(Message { role, content: saved.last().content }),
            None => rest,
        }
    }
}

/// Whether a run is still streaming.
pub open spec fn is_running(run: AgentRun) -> bool {
    run.status is Running
}

/// No run is still streaming.
pub open spec fn none_running(runs: Seq<AgentRun>) -> bool {
    forall|j: int| 0 <= j < runs.len() ==> !is_running(#[trigger] runs[j])
}

/// `i` is the first run that is still running.
pub open spec fn is_first_running(runs: Seq<AgentRun>, i: int) -> bool {
    &&& 0 <= i < runs.len()
    &&& is_running(runs[i])
    &&& forall|j: int| 0 <= j < i ==> !is_running(#[trigger] runs[j])
}

/// `i` is the first run following the given request.
pub open spec fn is_first_for(runs: Seq<AgentRun>, request_id: Seq<char>, i: int) -> bool {
    &&& 0 <= i < runs.len()
    &&& runs[i].request_id@ == request_id
    &&& forall|j: int| 0 <= j < i ==> (#[trigger] runs[j].request_id@) != request_id
}

/// A budget charged, when there is one.
pub open spec fn opt_charged(b: Option<(nat, nat, nat)>, tokens: nat) -> Option<(nat, nat, nat)> {
    match b {
        Some(v) => Some(charged(v, tokens)),
        None => None,
    }
}

/// A budget cleared, when there is one.
pub open spec fn opt_cleared(b: Option<(nat, nat, nat)>) -> Option<(nat, nat, nat)> {
    match b {
        Some(v) => Some(cleared(v)),
        None => None,
    }
}


/// What a followed, live request's event does to the app: tool cards are
/// appended; deltas are charged to the budget and grow the request's
/// assistant message (started by the first delta); outcomes end the request
/// and clear the budget's usage, cancellation and failure leaving a system
/// note. Nothing else changes.
pub open spec fn provider_step(o: App, f: App, event: ProviderEvent) -> bool {
    match o.request_state() {
        None => false,
        Some(r) => {
            let ended = Some(
                RequestState {
                    request_id: r.request_id,
                    terminated: true,
                    message_index: r.message_index,
                },
            );
            &&& f.spec_ui_mode() == o.spec_ui_mode()
            &&& f.pending() == o.pending()
            &&& f.runs() == o.runs()
            &&& f.selector_index() == o.selector_index()
            &&& f.selector_items() == o.selector_items()
            &&& f.upcoming_tool_call() == o.upcoming_tool_call()
            &&& match event {
                ProviderEvent::Started { .. } => {
                    &&& f.transcript() == o.transcript()
                    &&& f.activities() == o.activities()
                    &&& f.request_state() == o.request_state()
                    &&& f.budget() == o.budget()
                },
                ProviderEvent::ToolStarted { activity, .. } => {
                    &&& f.activities() == o.activities().push(activity)
                    &&& f.transcript() == o.transcript()
                    &&& f.request_state() == o.request_state()
                    &&& f.budget() == o.budget()
                },
                ProviderEvent::ToolProgress { activity, .. } => {
                    &&& f.activities() == o.activities().push(activity)
                    &&& f.transcript() == o.transcript()
                    &&& f.request_state() == o.request_state()
                    &&& f.budget() == o.budget()
                },
                ProviderEvent::ToolCompleted { activity, .. } => {
                    &&& f.activities() == o.activities().push(activity)
                    &&& f.transcript() == o.transcript()
                    &&& f.request_state() == o.request_state()
                    &&& f.budget() == o.budget()
                },
                ProviderEvent::ToolFailed { activity, .. } => {
                    &&& f.activities() == o.activities().push(activity)
                    &&& f.transcript() == o.transcript()
                    &&& f.request_state() == o.request_state()
                    &&& f.budget() == o.budget()
                },
                ProviderEvent::Delta { text, .. } => {
                    &&& f.activities() == o.activities()
                    &&& f.budget() == opt_charged(o.budget(), words(text@).len())
                    &&& match r.message_index {
                        Some(i) => {
                            &&& f.request_state() == o.request_state()
                            &&& f.transcript().len() == o.transcript().len()
                            &&& forall|j: int|
                                0 <= j < o.transcript().len() && j != i ==> #[trigger] f.transcript()[j]
                                    == o.transcript()[j]
                            &&& f.transcript()[i as int].role == o.transcript()[i as int].role
                            &&& f.transcript()[i as int].content@ == o.transcript()[i as int].content@
                                + text@
                        },
                        None => {
                            &&& f.transcript() == o.transcript().push(
                                Message { role: Role::Assistant, content: text },
                            )
                            &&& f.request_state() == Some(
                                RequestState {
                                    request_id: r.request_id,
                                    terminated: r.terminated,
                                    message_index: Some(o.transcript().len()),
                                },
                            )
                        },
                    }
                },
                ProviderEvent::Completed { .. } => {
                    &&& f.transcript() == o.transcript()
                    &&& f.activities() == o.activities()
                    &&& f.request_state() == ended
                    &&& f.budget() == opt_cleared(o.budget())
                },
                ProviderEvent::Cancelled { .. } => {
                    &&& pushed_message(
                        o.transcript(),
                        f.transcript(),
                        Role::System,
                        "Request cancelled."@,
                    )
                    &&& f.activities() == o.activities()
                    &&& f.request_state() == ended
                    &&& f.budget() == opt_cleared(o.budget())
                },
                ProviderEvent::Failed { error, .. } => {
                    &&& pushed_message(
                        o.transcript(),
                        f.transcript(),
                        Role::System,
                        "Request failed: "@ + error@,
                    )
                    &&& f.activities() == o.activities()
                    &&& f.request_state() == ended
                    &&& f.budget() == opt_cleared(o.budget())
                },
            }
        },
    }
}

impl App {
    /// The request whose events the app follows.
    pub closed spec fn request_state(&self) -> Option<RequestState> {
        match self.request {
            Some(r) => Some(
                RequestState {
                    request_id: r.request_id@,
                    terminated: r.phase == RequestPhase::Terminated,
                    message_index: match r.message_index {
                        Some(i) => Some(i as nat),
                        None => None,
                    },
                },
            ),
            None => None,
        }
    }

    /// The context budget (window, reservation, usage), when configured.
    pub closed spec fn budget(&self) -> Option<(nat, nat, nat)> {
        match self.context_budget {
            Some(b) => Some(b@),
            None => None,
        }
    }

    /// The transcript: the public `messages`.
    pub closed spec fn transcript(&self) -> Seq<Message> {
        self.messages@
    }

    /// The tool activity cards, oldest first.
    pub closed spec fn activities(&self) -> Seq<ToolActivity> {
        self.tool_activities@
    }

    /// The spawned agent runs, oldest first.
    pub closed spec fn runs(&self) -> Seq<AgentRun> {
        self.agent_runs@
    }

    /// The tool call awaiting approval.
    pub closed spec fn pending(&self) -> Option<ApprovalRequest> {
        self.pending_approval
    }

    /// The model selector's cursor.
    pub closed spec fn selector_index(&self) -> usize {
        self.model_selector_index
    }

    /// The model selector's entries.
    pub closed spec fn selector_items(&self) -> Seq<String> {
        self.model_selector_items@
    }

    /// The current UI mode.
    pub closed spec fn spec_ui_mode(&self) -> UiMode {
        self.ui_mode
    }

    /// The number the next tool-call identifier handed out will carry.
    pub closed spec fn upcoming_tool_call(&self) -> u64 {
        self.tool_call_ids.upcoming()
    }

    /// The tool rules chosen for this session.
    pub closed spec fn session_rules(&self) -> Map<Seq<char>, ToolPolicy> {
        self.session_policies.rules()
    }

    /// The project's tool rules.
    pub closed spec fn project_rules(&self) -> Map<Seq<char>, ToolPolicy> {
        self.project_policies.rules()
    }

    /// The followed request's assistant message, when it has one, is in the
    /// transcript.
    pub closed spec fn wf(&self) -> bool {
        self.request_state() matches Some(r) ==> (r.message_index matches Some(i) ==> i
            < self.transcript().len())
    }

    /// The transcript, `messages`, as the contracts speak of it.
    pub fn transcript_messages(&self) -> (r: &Vec<Message>)
        ensures
            r@ == self.transcript(),
    {
        &self.messages
    }

    /// The tool cards, `tool_activities`, as the contracts speak of them.
    pub fn activity_cards(&self) -> (r: &Vec<ToolActivity>)
        ensures
            r@ == self.activities(),
    {
        &self.tool_activities
    }

    /// The agent runs, `agent_runs`, as the contracts speak of them.
    pub fn agent_run_list(&self) -> (r: &Vec<AgentRun>)
        ensures
            r@ == self.runs(),
    {
        &self.agent_runs
    }

    /// The call awaiting approval, `pending_approval`, as the contracts speak
    /// of it.
    pub fn pending_call(&self) -> (r: &Option<ApprovalRequest>)
        ensures
            *r == self.pending(),
    {
        &self.pending_approval
    }

    /// The model selector's cursor and entries, `model_selector_index` and
    /// `model_selector_items`, as the contracts speak of them.
    pub fn selector_state(&self) -> (r: (usize, &Vec<String>))
        ensures
            r.0 == self.selector_index(),
            r.1@ == self.selector_items(),
    {
        (self.model_selector_index, &self.model_selector_items)
    }

    /// Events of other requests, of an ended request, or with no request
    /// followed leave the app as it is.
    pub open spec fn ignores(&self, event: ProviderEvent) -> bool {
        match self.request_state() {
            None => true,
            Some(r) => r.request_id != event.spec_request_id() || r.terminated,
        }
    }
}

impl Default for App {
    fn default() -> (a: Self)
        ensures
            a.transcript().len() == 0,
            a.activities().len() == 0,
            a.request_state() is None,
            a.budget() is None,
            a.spec_ui_mode() == UiMode::Normal,
            a.selector_index() == 0,
            a.selector_items().len() == 0,
            a.runs().len() == 0,
            a.pending() is None,
            a.upcoming_tool_call() == 1,
            a.session_rules() == Map::<Seq<char>, ToolPolicy>::empty(),
            a.project_rules() == Map::<Seq<char>, ToolPolicy>::empty(),
            a.wf(),
    {
        App {
            messages: Vec::new(),
            tool_activities: Vec::new(),
            request: None,
            context_budget: None,
            ui_mode: UiMode::Normal,
            model_selector_index: 0,
            model_selector_items: Vec::new(),
            agent_runs: Vec::new(),
            pending_approval: None,
            tool_call_ids: ToolCallIds::new(),
            session_policies: ProjectToolPolicy::empty(""),
            project_policies: ProjectToolPolicy::empty("."),
            last_policy_error: None,
        }
    }
}

impl App {
    /// Shows the approval overlay for a tool invocation.
    pub fn show_approval(&mut self, request: ApprovalRequest)
        ensures
            final(self).pending() == Some(request),
            final(self).spec_ui_mode() == UiMode::Approval,
            final(self).transcript() == old(self).transcript(),
            final(self).activities() == old(self).activities(),
            final(self).request_state() == old(self).request_state(),
            final(self).budget() == old(self).budget(),
            final(self).selector_index() == old(self).selector_index(),
            final(self).selector_items() == old(self).selector_items(),
            final(self).runs() == old(self).runs(),
            final(self).upcoming_tool_call() == old(self).upcoming_tool_call(),
            final(self).session_rules() == old(self).session_rules(),
            final(self).project_rules() == old(self).project_rules(),
    {
        self.pending_approval = Some(request);
        self.ui_mode = UiMode::Approval;
    }

    /// Accepts the pending tool approval, if any, and closes the overlay.
    pub fn take_approval(&mut self) -> (r: Option<ApprovalRequest>)
        ensures
            r == old(self).pending(),
            final(self).pending() is None,
            final(self).spec_ui_mode() == UiMode::Normal,
            final(self).transcript() == old(self).transcript(),
            final(self).activities() == old(self).activities(),
            final(self).request_state() == old(self).request_state(),
            final(self).budget() == old(self).budget(),
            final(self).selector_index() == old(self).selector_index(),
            final(self).selector_items() == old(self).selector_items(),
            final(self).runs() == old(self).runs(),
            final(self).upcoming_tool_call() == old(self).upcoming_tool_call(),
            final(self).session_rules() == old(self).session_rules(),
            final(self).project_rules() == old(self).project_rules(),
    {
        self.ui_mode = UiMode::Normal;
        self.pending_approval.take()
    }

    /// Rejects the pending tool approval, if any, and closes the overlay; the
    /// rejected request is handed back so the caller can report it.
    pub fn reject_approval(&mut self) -> (r: Option<ApprovalRequest>)
        ensures
            r == old(self).pending(),
            final(self).pending() is None,
            final(self).spec_ui_mode() == UiMode::Normal,
            final(self).transcript() == old(self).transcript(),
            final(self).activities() == old(self).activities(),
            final(self).request_state() == old(self).request_state(),
            final(self).budget() == old(self).budget(),
            final(self).selector_index() == old(self).selector_index(),
            final(self).selector_items() == old(self).selector_items(),
            final(self).runs() == old(self).runs(),
            final(self).upcoming_tool_call() == old(self).upcoming_tool_call(),
            final(self).session_rules() == old(self).session_rules(),
            final(self).project_rules() == old(self).project_rules(),
    {
        self.ui_mode = UiMode::Normal;
        self.pending_approval.take()
    }

    /// Appends a raw tool output message to the transcript (unbounded).
    pub fn append_tool_output(&mut self, output: &ToolOutput)
        ensures
            pushed_message(
                old(self).transcript(),
                final(self).transcript(),
                Role::Assistant,
                "tool "@ + output.tool@ + ":\n"@ + output.output@,
            ),
            final(self).activities() == old(self).activities(),
            final(self).request_state() == old(self).request_state(),
            final(self).budget() == old(self).budget(),
            final(self).spec_ui_mode() == old(self).spec_ui_mode(),
            final(self).pending() == old(self).pending(),
            final(self).runs() == old(self).runs(),
            final(self).upcoming_tool_call() == old(self).upcoming_tool_call(),
            old(self).wf() ==> final(self).wf(),
    {
        let mut content = "tool ".to_owned();
        push_str(&mut content, output.tool.as_str());
        push_str(&mut content, ":\n");
        push_str(&mut content, output.output.as_str());
        self.messages.push(Message { role: Role::Assistant, content });
        assert(self.messages@.drop_last() =~= old(self).messages@);
    }

    /// Appends a bounded tool-output transcript message with call id and
    /// permission; a cut output carries a note with its sizes.
    pub fn append_bounded_tool_output(
        &mut self,
        id: ToolCallId,
        tool: &str,
        permission: &str,
        bounded: &BoundedOutput,
    )
        ensures
            pushed_message(
                old(self).transcript(),
                final(self).transcript(),
                Role::Assistant,
                spec_bounded_message(id, tool@, permission@, bounded.summary()),
            ),
            final(self).activities() == old(self).activities(),
            final(self).request_state() == old(self).request_state(),
            final(self).budget() == old(self).budget(),
            final(self).spec_ui_mode() == old(self).spec_ui_mode(),
            final(self).pending() == old(self).pending(),
            final(self).runs() == old(self).runs(),
            final(self).upcoming_tool_call() == old(self).upcoming_tool_call(),
            old(self).wf() ==> final(self).wf(),
    {
        let content = format_bounded_tool_message(id, tool, permission, bounded);
        self.messages.push(Message { role: Role::Assistant, content });
        assert(self.messages@.drop_last() =~= old(self).messages@);
    }

    /// Pushes the activity card of a lifecycle event, with the duration when
    /// one is given.
    pub fn apply_tool_lifecycle(&mut self, event: &ToolLifecycleEvent, duration: Option<Duration>)
        ensures
            pushed_activity(
                old(self).activities(),
                final(self).activities(),
                |a: ToolActivity| lifecycle_activity(a, *event, duration),
            ),
            final(self).transcript() == old(self).transcript(),
            final(self).request_state() == old(self).request_state(),
            final(self).budget() == old(self).budget(),
            final(self).spec_ui_mode() == old(self).spec_ui_mode(),
            final(self).pending() == old(self).pending(),
            final(self).runs() == old(self).runs(),
            final(self).upcoming_tool_call() == old(self).upcoming_tool_call(),
            old(self).wf() ==> final(self).wf(),
    {
        let activity = match event {
            ToolLifecycleEvent::Started { tool, .. } => ToolActivity::started(copy_string(tool)),
            ToolLifecycleEvent::Progress { tool, message, .. } => ToolActivity::progress(
                copy_string(tool),
                copy_string(message),
            ),
            ToolLifecycleEvent::Completed { tool, output, .. } => ToolActivity::completed(
                copy_string(tool),
                copy_string(output),
            ),
            ToolLifecycleEvent::Failed { tool, error, .. } => ToolActivity::failed(
                copy_string(tool),
                copy_string(error),
            ),
            ToolLifecycleEvent::Cancelled { tool, .. } => ToolActivity::failed(
                copy_string(tool),
                "cancelled",
            ),
        };
        let activity = match duration {
            Some(d) => activity.with_duration(d),
            None => activity,
        };
        self.tool_activities.push(activity);
        assert(self.tool_activities@.drop_last() =~= old(self).tool_activities@);
    }

    /// Emits the `Started` event of a tool call and pushes its card; called
    /// before the tool runs.
    pub fn begin_tool(&mut self, id: ToolCallId, tool: impl IntoText) -> (e: ToolLifecycleEvent)
        ensures
            e matches ToolLifecycleEvent::Started { id: i, tool: t } && i == id && t@
                == tool.text_view(),
            pushed_activity(
                old(self).activities(),
                final(self).activities(),
                |a: ToolActivity| activity_is(a, ToolStatus::Started, tool.text_view(), None, None),
            ),
            final(self).transcript() == old(self).transcript(),
            final(self).request_state() == old(self).request_state(),
            final(self).budget() == old(self).budget(),
            final(self).spec_ui_mode() == old(self).spec_ui_mode(),
            final(self).pending() == old(self).pending(),
            final(self).runs() == old(self).runs(),
            final(self).upcoming_tool_call() == old(self).upcoming_tool_call(),
            old(self).wf() ==> final(self).wf(),
    {
        let event = ToolLifecycleEvent::Started { id, tool: tool.into_text() };
        self.apply_tool_lifecycle(&event, None);
        event
    }

    /// Records the outcome of an approved tool call. Success bounds the output
    /// with the default caps, appends it to the transcript and pushes a
    /// completed card; an error pushes a failed card. Returns the one-line
    /// command-log summary.
    pub fn record_tool_result(
        &mut self,
        id: ToolCallId,
        approval: &ApprovalRequest,
        result: Result<ToolOutput, ToolError>,
        duration: Duration,
    ) -> (r: String)
        ensures
            ({
                let tool = approval.request.name@;
                let permission = approval.spec.permission.spec_label();
                match result {
                    Ok(output) => {
                        let b = bounded_summary(output.output@, default_bounds());
                        &&& pushed_message(
                            old(self).transcript(),
                            final(self).transcript(),
                            Role::Assistant,
                            spec_bounded_message(id, tool, permission, b),
                        )
                        &&& pushed_activity(
                            old(self).activities(),
                            final(self).activities(),
                            |a: ToolActivity|
                                activity_is(
                                    a,
                                    ToolStatus::Completed,
                                    tool,
                                    Some(b.preview),
                                    Some(duration),
                                ),
                        )
                        &&& r@ == spec_summary_ok(id, tool, permission, b)
                    },
                    Err(error) => {
                        &&& final(self).transcript() == old(self).transcript()
                        &&& pushed_activity(
                            old(self).activities(),
                            final(self).activities(),
                            |a: ToolActivity|
                                activity_is(
                                    a,
                                    ToolStatus::Failed,
                                    tool,
                                    Some(error.spec_message()),
                                    Some(duration),
                                ),
                        )
                        &&& r@ == "tool "@ + id.display() + " ("@ + tool + "): error: "@
                            + error.spec_message()
                    },
                }
            }),
            final(self).request_state() == old(self).request_state(),
            final(self).budget() == old(self).budget(),
            final(self).spec_ui_mode() == old(self).spec_ui_mode(),
            final(self).pending() == old(self).pending(),
            final(self).runs() == old(self).runs(),
            final(self).upcoming_tool_call() == old(self).upcoming_tool_call(),
            old(self).wf() ==> final(self).wf(),
    {
        let tool = approval.request.name.as_str();
        let permission = approval.spec.permission.label();
        match result {
            Ok(output) => {
                let bounded = BoundedOutput::truncate(output.output.as_str(), Bounds::default());
                self.append_bounded_tool_output(id, tool, permission, &bounded);
                let event = ToolLifecycleEvent::Completed {
                    id,
                    tool: tool.to_owned(),
                    output: copy_string(&bounded.preview),
                };
                self.apply_tool_lifecycle(&event, Some(duration));
                format_tool_summary_ok(id, tool, permission, &bounded)
            },
            Err(error) => {
                let error_text = error.to_string();
                let event = ToolLifecycleEvent::Failed {
                    id,
                    tool: tool.to_owned(),
                    error: copy_string(&error_text),
                };
                self.apply_tool_lifecycle(&event, Some(duration));
                let mut s = "tool ".to_owned();
                let ids = id.to_string();
                push_str(&mut s, ids.as_str());
                push_str(&mut s, " (");
                push_str(&mut s, tool);
                push_str(&mut s, "): error: ");
                push_str(&mut s, error_text.as_str());
                s
            },
        }
    }

    /// Hands out a fresh tool-call identifier.
    pub fn next_tool_call_id(&mut self) -> (id: ToolCallId)
        ensures
            id.value() == old(self).upcoming_tool_call(),
            final(self).upcoming_tool_call() == after(old(self).upcoming_tool_call()),
            final(self).transcript() == old(self).transcript(),
            final(self).activities() == old(self).activities(),
            final(self).request_state() == old(self).request_state(),
            final(self).budget() == old(self).budget(),
            final(self).spec_ui_mode() == old(self).spec_ui_mode(),
            final(self).pending() == old(self).pending(),
            final(self).runs() == old(self).runs(),
            old(self).wf() ==> final(self).wf(),
    {
        self.tool_call_ids.allocate()
    }

    /// Records a rejected tool approval under a fresh identifier: pushes a
    /// cancelled card and returns the command-log line.
    pub fn record_tool_rejection(&mut self, tool: impl IntoText) -> (r: String)
        ensures
            r@ == "tool tool:"@ + dec(old(self).upcoming_tool_call() as nat) + " ("@
                + tool.text_view() + "): rejected"@,
            pushed_activity(
                old(self).activities(),
                final(self).activities(),
                |a: ToolActivity|
                    activity_is(
                        a,
                        ToolStatus::Failed,
                        tool.text_view(),
                        Some("cancelled"@),
                        None,
                    ),
            ),
            final(self).upcoming_tool_call() == after(old(self).upcoming_tool_call()),
            final(self).transcript() == old(self).transcript(),
            final(self).request_state() == old(self).request_state(),
            final(self).budget() == old(self).budget(),
            final(self).spec_ui_mode() == old(self).spec_ui_mode(),
            final(self).pending() == old(self).pending(),
            final(self).runs() == old(self).runs(),
            old(self).wf() ==> final(self).wf(),
    {
        let tool = tool.into_text();
        let id = self.next_tool_call_id();
        let event = ToolLifecycleEvent::Cancelled { id, tool: copy_string(&tool) };
        self.apply_tool_lifecycle(&event, None);
        let mut s = "tool ".to_owned();
        let ids = id.to_string();
        push_str(&mut s, ids.as_str());
        push_str(&mut s, " (");
        push_str(&mut s, tool.as_str());
        push_str(&mut s, "): rejected");
        proof {
            reveal_strlit("tool ");
            reveal_strlit("tool:");
            reveal_strlit("tool tool:");
            assert("tool "@ + "tool:"@ =~= "tool tool:"@);
        }
        s
    }
}

impl App {
    /// Logs a local command: the message goes to the transcript and the
    /// command becomes the followed request; tool cards stay.
    pub fn start_command(&mut self, request_id: impl IntoText, message: impl IntoText)
        ensures
            pushed_message(
                old(self).transcript(),
                final(self).transcript(),
                Role::User,
                message.text_view(),
            ),
            final(self).request_state() == Some(
                RequestState {
                    request_id: request_id.text_view(),
                    terminated: false,
                    message_index: None,
                },
            ),
            final(self).activities() == old(self).activities(),
            final(self).budget() == old(self).budget(),
            final(self).spec_ui_mode() == old(self).spec_ui_mode(),
            final(self).pending() == old(self).pending(),
            final(self).runs() == old(self).runs(),
            final(self).upcoming_tool_call() == old(self).upcoming_tool_call(),
            final(self).session_rules() == old(self).session_rules(),
            final(self).project_rules() == old(self).project_rules(),
            final(self).wf(),
    {
        self.messages.push(Message { role: Role::User, content: message.into_text() });
        self.request = Some(
            ActiveRequest {
                request_id: request_id.into_text(),
                phase: RequestPhase::Streaming,
                message_index: None,
            },
        );
        assert(self.messages@.drop_last() =~= old(self).messages@);
    }

    /// The transcript as a session with the given name.
    pub fn snapshot_session(&self, name: impl IntoText) -> (s: Session)
        ensures
            s.name@ == name.text_view(),
            s.messages@.len() == self.transcript().len(),
            forall|i: int|
                0 <= i < s.messages@.len() ==> (#[trigger] s.messages@[i]).role@
                    == self.transcript()[i].role.spec_name() && s.messages@[i].content
                    == self.transcript()[i].content,
            s.events@.len() == 0,
    {
        let mut saved: Vec<SavedMessage> = Vec::new();
        let mut i: usize = 0;
        while i < self.messages.len()
            invariant
                i <= self.messages@.len(),
                saved@.len() == i,
                forall|j: int|
                    0 <= j < i ==> (#[trigger] saved@[j]).role@ == self.messages@[j].role.spec_name()
                        && saved@[j].content == self.messages@[j].content,
            decreases self.messages@.len() - i,
        {
            saved.push(SavedMessage::from_message(&self.messages[i]));
            i = i + 1;
        }
        Session::new(name, saved)
    }

    /// Replaces the state with a stored session: everything is cleared and
    /// the transcript becomes the session's messages whose role is known.
    pub fn restore_session(&mut self, session: &Session)
        ensures
            final(self).transcript() == restored(session.messages@),
            final(self).activities().len() == 0,
            final(self).runs().len() == 0,
            final(self).request_state() is None,
            final(self).pending() is None,
            final(self).spec_ui_mode() == UiMode::Normal,
            final(self).budget() == old(self).budget(),
            final(self).selector_index() == old(self).selector_index(),
            final(self).selector_items() == old(self).selector_items(),
            final(self).upcoming_tool_call() == old(self).upcoming_tool_call(),
            final(self).wf(),
    {
        self.clear();
        let mut messages: Vec<Message> = Vec::new();
        let mut i: usize = 0;
        while i < session.messages.len()
            invariant
                i <= session.messages@.len(),
                messages@ == restored(session.messages@.take(i as int)),
            decreases session.messages@.len() - i,
        {
            let m = &session.messages[i];
            proof {
                assert(session.messages@.take(i + 1).drop_last() =~= session.messages@.take(
                    i as int,
                ));
            }
            match Role::from_saved(m.role.as_str()) {
                Some(role) => messages.push(Message { role, content: copy_string(&m.content) }),
                None => {},
            }
            i = i + 1;
        }
        assert(session.messages@.take(session.messages@.len() as int) =~= session.messages@);
        self.messages = messages;
    }

    /// The current UI mode.
    pub fn ui_mode(&self) -> (m: UiMode)
        ensures
            m == self.spec_ui_mode(),
    {
        self.ui_mode
    }

    /// Shows the model selector with the given entries, cursor on the first.
    pub fn show_model_selector(&mut self, items: Vec<String>)
        ensures
            final(self).spec_ui_mode() == UiMode::ModelSelector,
            final(self).selector_index() == 0,
            final(self).selector_items() == items@,
            final(self).transcript() == old(self).transcript(),
            final(self).activities() == old(self).activities(),
            final(self).request_state() == old(self).request_state(),
            final(self).budget() == old(self).budget(),
            final(self).pending() == old(self).pending(),
            final(self).runs() == old(self).runs(),
            final(self).upcoming_tool_call() == old(self).upcoming_tool_call(),
            old(self).wf() ==> final(self).wf(),
    {
        self.ui_mode = UiMode::ModelSelector;
        self.model_selector_index = 0;
        self.model_selector_items = items;
    }

    /// Hides the model selector and drops its entries.
    pub fn hide_model_selector(&mut self)
        ensures
            final(self).spec_ui_mode() == UiMode::Normal,
            final(self).selector_items().len() == 0,
            final(self).selector_index() == old(self).selector_index(),
            final(self).transcript() == old(self).transcript(),
            final(self).activities() == old(self).activities(),
            final(self).request_state() == old(self).request_state(),
            final(self).budget() == old(self).budget(),
            final(self).pending() == old(self).pending(),
            final(self).runs() == old(self).runs(),
            final(self).upcoming_tool_call() == old(self).upcoming_tool_call(),
            old(self).wf() ==> final(self).wf(),
    {
        self.ui_mode = UiMode::Normal;
        self.model_selector_items.clear();
    }

    /// Moves the selector cursor up, stopping at the first entry.
    pub fn model_selector_prev(&mut self)
        ensures
            final(self).selector_index() == crate::context::sat_sub(
                old(self).selector_index() as int,
                1,
            ),
            final(self).selector_items() == old(self).selector_items(),
            final(self).spec_ui_mode() == old(self).spec_ui_mode(),
            final(self).transcript() == old(self).transcript(),
            final(self).activities() == old(self).activities(),
            final(self).request_state() == old(self).request_state(),
            final(self).budget() == old(self).budget(),
            final(self).pending() == old(self).pending(),
            final(self).runs() == old(self).runs(),
            final(self).upcoming_tool_call() == old(self).upcoming_tool_call(),
            old(self).wf() ==> final(self).wf(),
    {
        self.model_selector_index = self.model_selector_index.saturating_sub(1);
    }

    /// Moves the selector cursor down, stopping at the last entry.
    pub fn model_selector_next(&mut self)
        ensures
            final(self).selector_index() == if old(self).selector_index() + 1
                < old(self).selector_items().len() {
                old(self).selector_index() + 1
            } else {
                old(self).selector_index() as int
            },
            final(self).selector_items() == old(self).selector_items(),
            final(self).spec_ui_mode() == old(self).spec_ui_mode(),
            final(self).transcript() == old(self).transcript(),
            final(self).activities() == old(self).activities(),
            final(self).request_state() == old(self).request_state(),
            final(self).budget() == old(self).budget(),
            final(self).pending() == old(self).pending(),
            final(self).runs() == old(self).runs(),
            final(self).upcoming_tool_call() == old(self).upcoming_tool_call(),
            old(self).wf() ==> final(self).wf(),
    {
        let max = self.model_selector_items.len().saturating_sub(1);
        if self.model_selector_index < max {
            self.model_selector_index = self.model_selector_index + 1;
        }
    }

    /// Starts a child-agent run unless one is still running; only one child
    /// may run at a time, so while any run is running the call is refused and
    /// changes nothing.
    pub fn start_agent(&mut self, agent_id: String, request_id: String, prompt: String) -> (r: bool)
        ensures
            r == none_running(old(self).runs()),
            none_running(old(self).runs()) ==> final(self).runs().len() == old(self).runs().len()
                + 1,
            none_running(old(self).runs()) ==> final(self).runs().drop_last() == old(self).runs(),
            none_running(old(self).runs()) ==> final(self).runs().last().agent_id == agent_id,
            none_running(old(self).runs()) ==> final(self).runs().last().request_id == request_id,
            none_running(old(self).runs()) ==> final(self).runs().last().prompt == prompt,
            none_running(old(self).runs()) ==> final(self).runs().last().status
                == AgentStatus::Running,
            none_running(old(self).runs()) ==> final(self).runs().last().output@.len() == 0,
            !none_running(old(self).runs()) ==> final(self).runs() == old(self).runs(),
            final(self).transcript() == old(self).transcript(),
            final(self).activities() == old(self).activities(),
            final(self).request_state() == old(self).request_state(),
            final(self).budget() == old(self).budget(),
            final(self).spec_ui_mode() == old(self).spec_ui_mode(),
            final(self).pending() == old(self).pending(),
            final(self).upcoming_tool_call() == old(self).upcoming_tool_call(),
            old(self).wf() ==> final(self).wf(),
    {
        let mut i: usize = 0;
        while i < self.agent_runs.len()
            invariant
                i <= self.agent_runs@.len(),
                forall|j: int| 0 <= j < i ==> !is_running(#[trigger] self.agent_runs@[j]),
            decreases self.agent_runs@.len() - i,
        {
            if !self.agent_runs[i].status.is_terminal() {
                assert(!none_running(self.agent_runs@));
                return false;
            }
            i = i + 1;
        }
        self.agent_runs.push(AgentRun::new(agent_id, request_id, prompt));
        assert(self.agent_runs@.drop_last() =~= old(self).agent_runs@);
        true
    }

    /// Routes an event to the first child agent following its request; returns
    /// whether one did.
    pub fn apply_agent_event(&mut self, event: &ProviderEvent) -> (r: bool)
        ensures
            r == exists|i: int| is_first_for(old(self).runs(), event.spec_request_id(), i),
            final(self).runs().len() == old(self).runs().len(),
            forall|i: int|
                #![trigger final(self).runs()[i]]
                is_first_for(old(self).runs(), event.spec_request_id(), i) ==> {
                    let before = old(self).runs()[i];
                    let now = final(self).runs()[i];
                    &&& now.agent_id == before.agent_id
                    &&& now.request_id == before.request_id
                    &&& now.prompt == before.prompt
                    &&& now.status == crate::agent::status_after(before.status, *event)
                    &&& now.output@ == crate::agent::output_after(
                        before.status,
                        before.output@,
                        *event,
                    )
                    &&& forall|j: int|
                        0 <= j < final(self).runs().len() && j != i ==> final(self).runs()[j]
                            == old(self).runs()[j]
                },
            !r ==> final(self).runs() == old(self).runs(),
            final(self).transcript() == old(self).transcript(),
            final(self).activities() == old(self).activities(),
            final(self).request_state() == old(self).request_state(),
            final(self).budget() == old(self).budget(),
            final(self).spec_ui_mode() == old(self).spec_ui_mode(),
            final(self).pending() == old(self).pending(),
            final(self).upcoming_tool_call() == old(self).upcoming_tool_call(),
            old(self).wf() ==> final(self).wf(),
    {
        let mut i: usize = 0;
        while i < self.agent_runs.len()
            invariant
                *self == *old(self),
                i <= self.agent_runs@.len(),
                forall|j: int|
                    0 <= j < i ==> (#[trigger] self.agent_runs@[j].request_id@)
                        != event.spec_request_id(),
            decreases self.agent_runs@.len() - i,
        {
            if str_eq(self.agent_runs[i].request_id.as_str(), event.request_id()) {
                assert(is_first_for(self.agent_runs@, event.spec_request_id(), i as int));
                let consumed = self.agent_runs[i].apply_event(event);
                assert forall|k: int| is_first_for(old(self).agent_runs@, event.spec_request_id(), k) implies k == i by {
                    if k < i {
                        assert(old(self).agent_runs@[k].request_id@ != event.spec_request_id());
                    }
                    if k > i {
                        assert(old(self).agent_runs@[i as int].request_id@ != event.spec_request_id());
                    }
                }
                return consumed;
            }
            i = i + 1;
        }
        false
    }

    /// The request of the first child agent still running, if any.
    pub fn active_agent_request_id(&self) -> (r: Option<&str>)
        ensures
            r is None <==> none_running(self.runs()),
            r matches Some(id) ==> exists|i: int|
                is_first_running(self.runs(), i) && id@ == self.runs()[i].request_id@,
    {
        let mut i: usize = 0;
        while i < self.agent_runs.len()
            invariant
                i <= self.agent_runs@.len(),
                forall|j: int| 0 <= j < i ==> !is_running(#[trigger] self.agent_runs@[j]),
            decreases self.agent_runs@.len() - i,
        {
            if !self.agent_runs[i].status.is_terminal() {
                assert(is_first_running(self.agent_runs@, i as int));
                return Some(self.agent_runs[i].request_id.as_str());
            }
            i = i + 1;
        }
        None
    }

    /// Sets the context budget used for token accounting.
    pub fn set_context_budget(&mut self, budget: ContextBudget)
        ensures
            final(self).budget() == Some(budget@),
            final(self).transcript() == old(self).transcript(),
            final(self).activities() == old(self).activities(),
            final(self).request_state() == old(self).request_state(),
            final(self).spec_ui_mode() == old(self).spec_ui_mode(),
            final(self).pending() == old(self).pending(),
            final(self).runs() == old(self).runs(),
            final(self).upcoming_tool_call() == old(self).upcoming_tool_call(),
            old(self).wf() ==> final(self).wf(),
    {
        self.context_budget = Some(budget);
    }

    /// The context budget, when configured.
    pub fn context_budget(&self) -> (r: Option<&ContextBudget>)
        ensures
            r matches Some(b) ==> self.budget() == Some(b@),
            r is None <==> self.budget() is None,
    {
        match &self.context_budget {
            Some(b) => Some(b),
            None => None,
        }
    }

    /// Records the user's prompt, charges it to the budget, follows the new
    /// request and clears the tool cards of the previous one.
    pub fn start_request(&mut self, request_id: String, prompt: String)
        ensures
            final(self).transcript() == old(self).transcript().push(
                Message { role: Role::User, content: prompt },
            ),
            final(self).budget() == opt_charged(old(self).budget(), words(prompt@).len()),
            final(self).request_state() == Some(
                RequestState { request_id: request_id@, terminated: false, message_index: None },
            ),
            final(self).activities().len() == 0,
            final(self).spec_ui_mode() == old(self).spec_ui_mode(),
            final(self).pending() == old(self).pending(),
            final(self).runs() == old(self).runs(),
            final(self).upcoming_tool_call() == old(self).upcoming_tool_call(),
            final(self).session_rules() == old(self).session_rules(),
            final(self).project_rules() == old(self).project_rules(),
            final(self).wf(),
    {
        match &mut self.context_budget {
            Some(budget) => {
                let _ = budget.account_user_prompt(prompt.as_str());
            },
            None => {},
        }
        self.messages.push(Message { role: Role::User, content: prompt });
        self.request = Some(
            ActiveRequest { request_id, phase: RequestPhase::Streaming, message_index: None },
        );
        self.tool_activities.clear();
    }

    /// Removes the transcript, tool cards, agent runs, the followed request
    /// and any pending approval, and returns to the normal view.
    pub fn clear(&mut self)
        ensures
            final(self).transcript().len() == 0,
            final(self).activities().len() == 0,
            final(self).runs().len() == 0,
            final(self).request_state() is None,
            final(self).pending() is None,
            final(self).spec_ui_mode() == UiMode::Normal,
            final(self).budget() == old(self).budget(),
            final(self).selector_index() == old(self).selector_index(),
            final(self).selector_items() == old(self).selector_items(),
            final(self).upcoming_tool_call() == old(self).upcoming_tool_call(),
            final(self).session_rules() == Map::<Seq<char>, ToolPolicy>::empty(),
            final(self).project_rules() == old(self).project_rules(),
            final(self).wf(),
    {
        self.messages.clear();
        self.tool_activities.clear();
        self.agent_runs.clear();
        self.request = None;
        self.pending_approval = None;
        self.ui_mode = UiMode::Normal;
        self.session_policies.clear();
    }
}

impl App {
    /// Applies a provider event; events of other requests, of an ended
    /// request, or with no request followed are ignored.
    pub fn apply_provider_event(&mut self, event: ProviderEvent)
        requires
            old(self).wf(),
        ensures
            final(self).wf(),
            old(self).ignores(event) ==> *final(self) == *old(self),
            !old(self).ignores(event) ==> provider_step(*old(self), *final(self), event),
    {
        let index = match &self.request {
            None => {
                return ;
            },
            Some(r) => {
                if !str_eq(r.request_id.as_str(), event.request_id()) || r.phase
                    == RequestPhase::Terminated {
                    return ;
                }
                r.message_index
            },
        };
        match event {
            ProviderEvent::Started { .. } => {},
            ProviderEvent::ToolStarted { activity, .. } => {
                self.tool_activities.push(activity);
            },
            ProviderEvent::ToolProgress { activity, .. } => {
                self.tool_activities.push(activity);
            },
            ProviderEvent::ToolCompleted { activity, .. } => {
                self.tool_activities.push(activity);
            },
            ProviderEvent::ToolFailed { activity, .. } => {
                self.tool_activities.push(activity);
            },
            ProviderEvent::Delta { text, .. } => {
                match &mut self.context_budget {
                    Some(budget) => {
                        let _ = budget.account_assistant_delta(text.as_str());
                    },
                    None => {},
                }
                match index {
                    Some(i) => {
                        push_str(&mut self.messages[i].content, text.as_str());
                    },
                    None => {
                        let n = self.messages.len();
                        self.messages.push(Message { role: Role::Assistant, content: text });
                        match &mut self.request {
                            Some(r) => {
                                r.message_index = Some(n);
                            },
                            None => {},
                        }
                    },
                }
            },
            ProviderEvent::Completed { .. } => {
                self.end_request(false);
            },
            ProviderEvent::Cancelled { .. } => {
                self.end_request(true);
                self.messages.push(
                    Message { role: Role::System, content: "Request cancelled.".to_owned() },
                );
                assert(self.messages@.drop_last() =~= old(self).messages@);
            },
            ProviderEvent::Failed { error, .. } => {
                self.end_request(true);
                let mut content = "Request failed: ".to_owned();
                push_str(&mut content, error.as_str());
                self.messages.push(Message { role: Role::System, content });
                assert(self.messages@.drop_last() =~= old(self).messages@);
            },
        }
    }

    /// Marks the followed request ended and clears the budget's usage, as a
    /// completion or as a cancellation.
    fn end_request(&mut self, cancelled: bool)
        ensures
            final(self).request == match old(self).request {
                Some(r) => Some(
                    ActiveRequest {
                        request_id: r.request_id,
                        phase: RequestPhase::Terminated,
                        message_index: r.message_index,
                    },
                ),
                None => None,
            },
            final(self).budget() == opt_cleared(old(self).budget()),
            final(self).messages == old(self).messages,
            final(self).tool_activities == old(self).tool_activities,
            final(self).ui_mode == old(self).ui_mode,
            final(self).pending_approval == old(self).pending_approval,
            final(self).agent_runs == old(self).agent_runs,
            final(self).model_selector_index == old(self).model_selector_index,
            final(self).model_selector_items == old(self).model_selector_items,
            final(self).tool_call_ids == old(self).tool_call_ids,
    {
        match &mut self.request {
            Some(r) => {
                r.phase = RequestPhase::Terminated;
            },
            None => {},
        }
        match &mut self.context_budget {
            Some(budget) => {
                if cancelled {
                    budget.cancel_request();
                } else {
                    budget.complete_request();
                }
            },
            None => {},
        }
    }
}

/// Once an event ends the followed request, every later event is ignored:
/// late deltas after completion, cancellation or failure never reach the
/// transcript.
pub proof fn law_ended_request_ignores_later_events(
    a: App,
    b: App,
    end: ProviderEvent,
    later: ProviderEvent,
)
    requires
        !a.ignores(end),
        end.spec_is_terminal(),
        provider_step(a, b, end),
    ensures
        b.ignores(later),
{
}

/// Two deltas of the followed request, before it has an assistant message,
/// end up as one assistant message holding both texts in order.
pub proof fn law_deltas_accumulate_into_one_message(
    a: App,
    b: App,
    c: App,
    first: ProviderEvent,
    second: ProviderEvent,
)
    requires
        !a.ignores(first),
        a.request_state() matches Some(r) && r.message_index is None,
        first is Delta,
        second is Delta,
        second.spec_request_id() == first.spec_request_id(),
        provider_step(a, b, first),
        provider_step(b, c, second),
    ensures
        !b.ignores(second),
        c.transcript().len() == a.transcript().len() + 1,
        c.transcript().take(a.transcript().len() as int) == a.transcript(),
        c.transcript().last().role == Role::Assistant,
        c.transcript().last().content@ == first->Delta_text@ + second->Delta_text@,
{
    let n = a.transcript().len();
    assert(b.transcript() == a.transcript().push(
        Message { role: Role::Assistant, content: first->Delta_text },
    ));
    assert(b.request_state()->0.message_index == Some(n));
    assert(c.transcript().take(n as int) =~= a.transcript());
}

impl App {
    /// The session rule of a tool, if any.
    pub fn session_policy(&self, tool: &str) -> (r: Option<SessionToolPolicy>)
        ensures
            r == match rule_of(self.session_rules(), tool@) {
                Some(ToolPolicy::Allowed) => Some(SessionToolPolicy::Allowed),
                Some(ToolPolicy::Denied) => Some(SessionToolPolicy::Denied),
                None => None::<SessionToolPolicy>,
            },
    {
        match self.session_policies.get(tool) {
            Some(ToolPolicy::Allowed) => Some(SessionToolPolicy::Allowed),
            Some(ToolPolicy::Denied) => Some(SessionToolPolicy::Denied),
            None => None,
        }
    }

    /// The project rule of a tool, if any.
    pub fn project_policy(&self, tool: &str) -> (r: Option<ToolPolicy>)
        ensures
            r == rule_of(self.project_rules(), tool@),
    {
        self.project_policies.get(tool)
    }

    /// The project's rules, for saving.
    pub fn project_policy_store(&self) -> (r: &ProjectToolPolicy)
        ensures
            r.rules() == self.project_rules(),
    {
        &self.project_policies
    }

    /// Takes the project's rules as read from its policy file.
    pub fn set_project_policy(&mut self, policy: ProjectToolPolicy)
        ensures
            final(self).project_rules() == policy.rules(),
            final(self).session_rules() == old(self).session_rules(),
            final(self).transcript() == old(self).transcript(),
            final(self).activities() == old(self).activities(),
            final(self).request_state() == old(self).request_state(),
            final(self).budget() == old(self).budget(),
            final(self).spec_ui_mode() == old(self).spec_ui_mode(),
            final(self).pending() == old(self).pending(),
            final(self).runs() == old(self).runs(),
            final(self).upcoming_tool_call() == old(self).upcoming_tool_call(),
            old(self).wf() ==> final(self).wf(),
    {
        self.project_policies = policy;
    }

    /// Answers the approval overlay: the pending request is handed back and
    /// the overlay closes; a session or project choice also records a rule
    /// for the tool. With nothing pending nothing changes.
    pub fn resolve_approval(&mut self, choice: ApprovalChoice) -> (r: Option<ApprovalRequest>)
        ensures
            r == old(self).pending(),
            final(self).pending() is None,
            old(self).pending() is Some ==> final(self).spec_ui_mode() == UiMode::Normal,
            old(self).pending() is None ==> final(self).spec_ui_mode() == old(self).spec_ui_mode(),
            final(self).session_rules() == match old(self).pending() {
                Some(a) => session_after(old(self).session_rules(), a.request.name@, choice),
                None => old(self).session_rules(),
            },
            final(self).project_rules() == match old(self).pending() {
                Some(a) => project_after(old(self).project_rules(), a.request.name@, choice),
                None => old(self).project_rules(),
            },
            final(self).transcript() == old(self).transcript(),
            final(self).activities() == old(self).activities(),
            final(self).request_state() == old(self).request_state(),
            final(self).budget() == old(self).budget(),
            final(self).selector_index() == old(self).selector_index(),
            final(self).selector_items() == old(self).selector_items(),
            final(self).runs() == old(self).runs(),
            final(self).upcoming_tool_call() == old(self).upcoming_tool_call(),
            old(self).wf() ==> final(self).wf(),
    {
        let pending = self.pending_approval.take();
        match pending {
            Some(approval) => {
                self.ui_mode = UiMode::Normal;
                let tool = approval.request.name.as_str();
                match choice {
                    ApprovalChoice::AllowSession => self.session_policies.set(tool, ToolPolicy::Allowed),
                    ApprovalChoice::RejectDenySession => self.session_policies.set(tool, ToolPolicy::Denied),
                    ApprovalChoice::AllowProject => self.project_policies.set(tool, ToolPolicy::Allowed),
                    ApprovalChoice::RejectDenyProject => self.project_policies.set(tool, ToolPolicy::Denied),
                    _ => {},
                }
                Some(approval)
            },
            None => None,
        }
    }

    /// Applies the rules to a prepared tool call: a session deny, then a
    /// project deny, refuses it; then a session allow, then a project allow,
    /// lets it run; otherwise the approval overlay is shown for it.
    pub fn gate_approval(&mut self, approval: ApprovalRequest) -> (r: ApprovalGate)
        ensures
            match spec_gate(old(self).session_rules(), old(self).project_rules(), approval.request.name@) {
                GateKind::SessionDenied => (r matches ApprovalGate::SessionDenied { tool } && tool
                    == approval.request.name) && *final(self) == *old(self),
                GateKind::ProjectDenied => (r matches ApprovalGate::ProjectDenied { tool } && tool
                    == approval.request.name) && *final(self) == *old(self),
                GateKind::SessionAllowed => r == ApprovalGate::SessionAllowed(approval) && *final(self)
                    == *old(self),
                GateKind::ProjectAllowed => r == ApprovalGate::ProjectAllowed(approval) && *final(self)
                    == *old(self),
                GateKind::NeedsPrompt => {
                    &&& r is NeedsPrompt
                    &&& final(self).pending() == Some(approval)
                    &&& final(self).spec_ui_mode() == UiMode::Approval
                    &&& final(self).session_rules() == old(self).session_rules()
                    &&& final(self).project_rules() == old(self).project_rules()
                    &&& final(self).transcript() == old(self).transcript()
                    &&& final(self).activities() == old(self).activities()
                    &&& final(self).request_state() == old(self).request_state()
                    &&& final(self).budget() == old(self).budget()
                    &&& final(self).runs() == old(self).runs()
                    &&& final(self).upcoming_tool_call() == old(self).upcoming_tool_call()
                    &&& (old(self).wf() ==> final(self).wf())
                },
            },
    {
        let session = self.session_policies.get(approval.request.name.as_str());
        let project = self.project_policies.get(approval.request.name.as_str());
        if session == Some(ToolPolicy::Denied) {
            ApprovalGate::SessionDenied { tool: approval.request.name }
        } else if project == Some(ToolPolicy::Denied) {
            ApprovalGate::ProjectDenied { tool: approval.request.name }
        } else if session == Some(ToolPolicy::Allowed) {
            ApprovalGate::SessionAllowed(approval)
        } else if project == Some(ToolPolicy::Allowed) {
            ApprovalGate::ProjectAllowed(approval)
        } else {
            self.pending_approval = Some(approval);
            self.ui_mode = UiMode::Approval;
            ApprovalGate::NeedsPrompt
        }
    }
}

/// The decision on a tool's next call right after an approval choice about
/// it: a session deny always refuses; a session allow runs unless the
/// project denies; a project deny refuses unless the session decides; a
/// project allow runs unless the session decides; a one-off choice leaves
/// the decision as it was.
pub open spec fn gate_after_choice(
    session: Map<Seq<char>, ToolPolicy>,
    project: Map<Seq<char>, ToolPolicy>,
    tool: Seq<char>,
    choice: ApprovalChoice,
) -> GateKind {
    match choice {
        ApprovalChoice::AllowSession => if rule_of(project, tool) == Some(ToolPolicy::Denied) {
            GateKind::ProjectDenied
        } else {
            GateKind::SessionAllowed
        },
        ApprovalChoice::RejectDenySession => GateKind::SessionDenied,
        ApprovalChoice::AllowProject => if rule_of(session, tool) == Some(ToolPolicy::Denied) {
            GateKind::SessionDenied
        } else if rule_of(session, tool) == Some(ToolPolicy::Allowed) {
            GateKind::SessionAllowed
        } else {
            GateKind::ProjectAllowed
        },
        ApprovalChoice::RejectDenyProject => if rule_of(session, tool) == Some(ToolPolicy::Denied) {
            GateKind::SessionDenied
        } else {
            GateKind::ProjectDenied
        },
        _ => spec_gate(session, project, tool),
    }
}

/// A session or project choice about a tool decides how the tool's next
/// call is treated, with a session deny first, then a project deny,
/// then a session allow, then a project allow; a one-off choice changes
/// nothing.
pub proof fn law_choice_decides_next_gate(
    session: Map<Seq<char>, ToolPolicy>,
    project: Map<Seq<char>, ToolPolicy>,
    tool: Seq<char>,
    choice: ApprovalChoice,
)
    ensures
        spec_gate(
            session_after(session, tool, choice),
            project_after(project, tool, choice),
            tool,
        ) == gate_after_choice(session, project, tool, choice),
{
    assert(rule_of(session.insert(tool, ToolPolicy::Allowed), tool) == Some(ToolPolicy::Allowed));
    assert(rule_of(session.insert(tool, ToolPolicy::Denied), tool) == Some(ToolPolicy::Denied));
    assert(rule_of(project.insert(tool, ToolPolicy::Allowed), tool) == Some(ToolPolicy::Allowed));
    assert(rule_of(project.insert(tool, ToolPolicy::Denied), tool) == Some(ToolPolicy::Denied));
}

/// Clearing the conversation forgets the session's rules and keeps the
/// project's: afterwards a tool's call is decided by the project rules alone.
pub proof fn law_clear_keeps_only_project_rules(project: Map<Seq<char>, ToolPolicy>, tool: Seq<char>)
    ensures
        spec_gate(Map::empty(), project, tool) == (if rule_of(project, tool) == Some(ToolPolicy::Denied) {
            GateKind::ProjectDenied
        } else if rule_of(project, tool) == Some(ToolPolicy::Allowed) {
            GateKind::ProjectAllowed
        } else {
            GateKind::NeedsPrompt
        }),
{
}

proof fn lemma_role_name_reads_back(role: Role)
    ensures
        Role::spec_from_saved(role.spec_name()) == Some(role),
{
    reveal_strlit("user");
    reveal_strlit("assistant");
    reveal_strlit("system");
    assert("user"@.len() == 4);
    assert("assistant"@.len() == 9);
    assert("system"@.len() == 6);
}

/// A transcript saved as a session and restored comes back as it was:
/// each role is stored under a name that reads back as that role.
pub proof fn law_saved_transcript_restores(transcript: Seq<Message>, saved: Seq<SavedMessage>)
    requires
        saved.len() == transcript.len(),
        forall|i: int|
            0 <= i < saved.len() ==> (#[trigger] saved[i]).role@ == transcript[i].role.spec_name()
                && saved[i].content == transcript[i].content,
    ensures
        restored(saved) == transcript,
    decreases saved.len(),
{
    if saved.len() > 0 {
        let n = saved.len() - 1;
        assert forall|i: int| 0 <= i < saved.drop_last().len() implies (#[trigger] saved.drop_last()[i]).role@
            == transcript.drop_last()[i].role.spec_name() && saved.drop_last()[i].content
            == transcript.drop_last()[i].content by {
            assert(saved.drop_last()[i] == saved[i]);
        }
        law_saved_transcript_restores(transcript.drop_last(), saved.drop_last());
        assert(saved[n].role@ == transcript[n].role.spec_name());
        lemma_role_name_reads_back(transcript[n].role);
        assert(transcript.drop_last().push(transcript[n]) =~= transcript);
    }
}

/// The words of a transcript counted as tokens, the sum capped at
/// `usize::MAX`.
pub open spec fn transcript_words(ms: Seq<Message>) -> nat
    decreases ms.len(),
{
    if ms.len() == 0 {
        0
    } else {
        let t = transcript_words(ms.drop_last()) + words(ms.last().content@).len();
        if t > usize::MAX {
            usize::MAX as nat
        } else {
            t
        }
    }
}

/// The status bar's mode: `chat` once the assistant has answered, else
/// `ready`.
pub open spec fn status_mode(ms: Seq<Message>) -> Seq<char> {
    if exists|i: int| 0 <= i < ms.len() && (#[trigger] ms[i]).role == Role::Assistant {
        "chat"@
    } else {
        "ready"@
    }
}

/// The status bar's hint: short on a compact screen.
pub open spec fn status_hint(compact: bool) -> Seq<char> {
    if compact {
        "ready"@
    } else {
        "Prompt  Enter: send   Ctrl+L: clear   Ctrl+C: quit"@
    }
}

impl App {
    /// The status bar's texts after the model name: the mode, the
    /// transcript's size in tokens and the safety label; then the hint.
    pub fn status_texts(&self, compact: bool) -> (r: (String, String))
        ensures
            r.0@ == "│ "@ + status_mode(self.transcript()) + " │ ctx "@ + dec(
                transcript_words(self.transcript()),
            ) + " tok │ safe"@,
            r.1@ == "│ "@ + status_hint(compact),
    {
        let mut total: usize = 0;
        let mut chat = false;
        let mut i: usize = 0;
        while i < self.messages.len()
            invariant
                i <= self.messages@.len(),
                total == transcript_words(self.messages@.take(i as int)),
                chat == exists|j: int| 0 <= j < i && (#[trigger] self.messages@[j]).role
                    == Role::Assistant,
            decreases self.messages@.len() - i,
        {
            proof {
                assert(self.messages@.take(i + 1).drop_last() =~= self.messages@.take(i as int));
            }
            let n = ContextBudget::estimate_tokens(self.messages[i].content.as_str()).0;
            total = total.saturating_add(n);
            if self.messages[i].role == Role::Assistant {
                chat = true;
            }
            i = i + 1;
        }
        assert(self.messages@.take(self.messages@.len() as int) =~= self.messages@);
        let mut line = "│ ".to_owned();
        push_str(&mut line, if chat {
            "chat"
        } else {
            "ready"
        });
        push_str(&mut line, " │ ctx ");
        push_dec(&mut line, total as u128);
        push_str(&mut line, " tok │ safe");
        let mut hint = "│ ".to_owned();
        push_str(&mut hint, if compact {
            "ready"
        } else {
            "Prompt  Enter: send   Ctrl+L: clear   Ctrl+C: quit"
        });
        (line, hint)
    }
}

} // verus!
