//! Spawn-agent domain types: one independent provider request tracked
//! separately from the main conversation.

use vstd::prelude::*;

use crate::event::ProviderEvent;
use crate::text::{chars_of, from_range, push_str, str_eq};

verus! {

/// Lifecycle state of a spawned agent.
#[derive(Debug, Clone, PartialEq, Eq)]
pub enum AgentStatus {
    /// The agent request has been started and is still streaming.
    Running,
    /// The provider emitted `Completed`.
    Completed,
    /// The agent was cancelled before finishing.
    Cancelled,
    /// The provider emitted `Failed` with the given error message.
    Failed(String),
}

impl AgentStatus {
    /// Every status but `Running` ends the run.
    pub open spec fn spec_is_terminal(&self) -> bool {
        !(self is Running)
    }

    /// Whether this status permanently ends the agent run.
    pub fn is_terminal(&self) -> (r: bool)
        ensures
            r == self.spec_is_terminal(),
    {
        match self {
            AgentStatus::Running => false,
            _ => true,
        }
    }
}

/// One spawned agent run.
#[derive(Debug, Clone, PartialEq, Eq)]
pub struct AgentRun {
    /// Short identifier shown to the user.
    pub agent_id: String,
    /// Unique provider request id backing this agent.
    pub request_id: String,
    /// The prompt that launched the agent.
    pub prompt: String,
    /// Current lifecycle status.
    pub status: AgentStatus,
    /// Accumulated assistant text.
    pub output: String,
}

/// The status an event moves a running agent to.
pub open spec fn status_after(status: AgentStatus, event: ProviderEvent) -> AgentStatus {
    if status.spec_is_terminal() {
        status
    } else {
        match event {
            ProviderEvent::Completed { .. } => AgentStatus::Completed,
            ProviderEvent::Cancelled { .. } => AgentStatus::Cancelled,
            ProviderEvent::Failed { error, .. } => AgentStatus::Failed(error),
            _ => status,
        }
    }
}

/// The output an event produces for an agent in a given status.
pub open spec fn output_after(status: AgentStatus, output: Seq<char>, event: ProviderEvent) -> Seq<
    char,
> {
    if status.spec_is_terminal() {
        output
    } else {
        match event {
            ProviderEvent::Delta { text, .. } => output + text@,
            _ => output,
        }
    }
}

impl AgentRun {
    /// A freshly started running agent.
    pub fn new(agent_id: String, request_id: String, prompt: String) -> (r: Self)
        ensures
            r.agent_id == agent_id,
            r.request_id == request_id,
            r.prompt == prompt,
            r.status == AgentStatus::Running,
            r.output@ == Seq::<char>::empty(),
    {
        AgentRun { agent_id, request_id, prompt, status: AgentStatus::Running, output: String::new() }
    }

    /// Apply a provider event targeted at this agent's request.
    ///
    /// Returns whether the event belongs to this agent. Events after a
    /// terminal status are consumed and change nothing.
    pub fn apply_event(&mut self, event: &ProviderEvent) -> (consumed: bool)
        ensures
            consumed == (event.spec_request_id() == old(self).request_id@),
            final(self).agent_id == old(self).agent_id,
            final(self).request_id == old(self).request_id,
            final(self).prompt == old(self).prompt,
            consumed ==> final(self).status == status_after(old(self).status, *event),
            consumed ==> final(self).output@ == output_after(
                old(self).status,
                old(self).output@,
                *event,
            ),
            !consumed ==> final(self).status == old(self).status && final(self).output
                == old(self).output,
    {
        if !str_eq(event.request_id(), self.request_id.as_str()) {
            return false;
        }
        if self.status.is_terminal() {
            return true;
        }
        match event {
            ProviderEvent::Delta { text, .. } => push_str(&mut self.output, text.as_str()),
            ProviderEvent::Completed { .. } => self.status = AgentStatus::Completed,
            ProviderEvent::Cancelled { .. } => self.status = AgentStatus::Cancelled,
            ProviderEvent::Failed { error, .. } => {
                self.status = AgentStatus::Failed(copy_string(error));
            },
            _ => {},
        }
        true
    }
}

/// A copy of a string with the same content.
pub fn copy_string(s: &String) -> (r: String)
    ensures
        r == *s,
{
    s.clone()
}

/// The last eight characters of an id, or the whole id when it is shorter.
pub open spec fn spec_short_id(request_id: Seq<char>) -> Seq<char> {
    if request_id.len() <= 8 {
        request_id
    } else {
        request_id.skip(request_id.len() - 8)
    }
}

/// A short human-readable id: the last eight characters of a request id.
/// Counting characters, never bytes, keeps every character whole.
pub fn short_id(request_id: &str) -> (r: String)
    ensures
        r@ == spec_short_id(request_id@),
{
    let v = chars_of(request_id);
    let n = v.len();
    if n <= 8 {
        request_id.to_owned()
    } else {
        let r = from_range(&v, n - 8, n);
        assert(v@.subrange(n - 8, n as int) =~= v@.skip(n - 8));
        r
    }
}

} // verus!
