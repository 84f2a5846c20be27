//! Stable identity and lifecycle events for tool execution.

use vstd::prelude::*;

use crate::text::{dec, push_dec, push_str};

verus! {

/// Identifier of a single tool invocation.
#[derive(Debug, Clone, Copy, PartialEq, Eq, Structural, Hash, PartialOrd, Ord)]
pub struct ToolCallId {
    value: u64,
}

impl ToolCallId {
    /// The identifier with the given number. Callers allocate numbers
    /// monotonically (see `App::next_tool_call_id`).
    pub fn new(value: u64) -> (id: Self)
        ensures
            id.value() == value,
    {
        ToolCallId { value }
    }

    /// The number behind the identifier.
    pub closed spec fn value(&self) -> u64 {
        self.value
    }

    /// Numeric representation of the identifier.
    pub fn as_u64(&self) -> (r: u64)
        ensures
            r == self.value(),
    {
        self.value
    }

    /// The display form `tool:<n>`.
    pub open spec fn display(&self) -> Seq<char> {
        "tool:"@ + dec(self.value() as nat)
    }

    /// The display form `tool:<n>`.
    pub fn to_string(&self) -> (s: String)
        ensures
            s@ == self.display(),
    {
        let mut s = String::new();
        push_str(&mut s, "tool:");
        push_dec(&mut s, self.value as u128);
        s
    }
}

/// Hands out tool-call identifiers in increasing order, starting at 1 so that
/// zero never names a call.
#[derive(Debug, Clone, Copy, PartialEq, Eq, Structural)]
pub struct ToolCallIds {
    next: u64,
}

/// The counter value after `n`: one more, wrapping to zero past `u64::MAX`.
pub open spec fn after(n: u64) -> u64 {
    if n < u64::MAX {
        (n + 1) as u64
    } else {
        0
    }
}

impl ToolCallIds {
    /// The number the next allocated identifier will carry.
    pub closed spec fn upcoming(&self) -> u64 {
        self.next
    }

    /// A fresh allocator whose first identifier is `tool:1`.
    pub fn new() -> (g: Self)
        ensures
            g.upcoming() == 1,
    {
        ToolCallIds { next: 1 }
    }

    /// Allocates the next identifier.
    pub fn allocate(&mut self) -> (id: ToolCallId)
        ensures
            id.value() == old(self).upcoming(),
            final(self).upcoming() == after(old(self).upcoming()),
    {
        let id = ToolCallId::new(self.next);
        self.next = self.next.wrapping_add(1);
        id
    }
}

impl Default for ToolCallIds {
    fn default() -> (g: Self)
        ensures
            g.upcoming() == 1,
    {
        ToolCallIds::new()
    }
}

/// Two identifiers allocated one after the other by the same allocator are
/// distinct and increasing, unless the counter wrapped in between.
pub proof fn law_allocated_ids_increase(before: ToolCallIds, first: ToolCallId, second: ToolCallId)
    requires
        first.value() == before.upcoming(),
        second.value() == after(before.upcoming()),
        before.upcoming() < u64::MAX,
    ensures
        first != second,
        second.value() > first.value(),
{
}

/// The counter after `k` allocations starting from `n`.
pub open spec fn after_times(n: u64, k: nat) -> u64
    decreases k,
{
    if k == 0 {
        n
    } else {
        after(after_times(n, (k - 1) as nat))
    }
}

/// An identifier allocated `k` allocations after one numbered `n`, by the
/// same allocator, is numbered `n + k` unless the counter wrapped in
/// between; so every later identifier is larger, and none repeats.
pub proof fn law_later_ids_are_larger(n: u64, k: nat)
    requires
        n + k <= u64::MAX,
    ensures
        after_times(n, k) == n + k,
        k > 0 ==> after_times(n, k) > n,
    decreases k,
{
    if k > 0 {
        law_later_ids_are_larger(n, (k - 1) as nat);
    }
}

/// Structured lifecycle event for a single tool invocation.
#[derive(Debug, Clone, PartialEq, Eq)]
pub enum ToolLifecycleEvent {
    /// The tool has been dispatched and is running.
    Started { id: ToolCallId, tool: String },
    /// The tool emitted an intermediate progress update.
    Progress { id: ToolCallId, tool: String, message: String },
    /// The tool finished successfully.
    Completed { id: ToolCallId, tool: String, output: String },
    /// The tool failed with an error.
    Failed { id: ToolCallId, tool: String, error: String },
    /// The tool was cancelled before completion.
    Cancelled { id: ToolCallId, tool: String },
}

impl ToolLifecycleEvent {
    /// The identifier carried by every variant.
    pub open spec fn spec_id(&self) -> ToolCallId {
        match self {
            ToolLifecycleEvent::Started { id, .. } => *id,
            ToolLifecycleEvent::Progress { id, .. } => *id,
            ToolLifecycleEvent::Completed { id, .. } => *id,
            ToolLifecycleEvent::Failed { id, .. } => *id,
            ToolLifecycleEvent::Cancelled { id, .. } => *id,
        }
    }

    /// The tool name carried by every variant.
    pub open spec fn spec_tool(&self) -> Seq<char> {
        match self {
            ToolLifecycleEvent::Started { tool, .. } => tool@,
            ToolLifecycleEvent::Progress { tool, .. } => tool@,
            ToolLifecycleEvent::Completed { tool, .. } => tool@,
            ToolLifecycleEvent::Failed { tool, .. } => tool@,
            ToolLifecycleEvent::Cancelled { tool, .. } => tool@,
        }
    }

    /// Outcome variants end a lifecycle stream.
    pub open spec fn spec_is_terminal(&self) -> bool {
        self is Completed || self is Failed || self is Cancelled
    }

    /// The stable identifier of the tool invocation this event belongs to.
    pub fn id(&self) -> (r: ToolCallId)
        ensures
            r == self.spec_id(),
    {
        match self {
            ToolLifecycleEvent::Started { id, .. } => *id,
            ToolLifecycleEvent::Progress { id, .. } => *id,
            ToolLifecycleEvent::Completed { id, .. } => *id,
            ToolLifecycleEvent::Failed { id, .. } => *id,
            ToolLifecycleEvent::Cancelled { id, .. } => *id,
        }
    }

    /// The name of the tool this event belongs to.
    pub fn tool(&self) -> (r: &str)
        ensures
            r@ == self.spec_tool(),
    {
        match self {
            ToolLifecycleEvent::Started { tool, .. } => tool.as_str(),
            ToolLifecycleEvent::Progress { tool, .. } => tool.as_str(),
            ToolLifecycleEvent::Completed { tool, .. } => tool.as_str(),
            ToolLifecycleEvent::Failed { tool, .. } => tool.as_str(),
            ToolLifecycleEvent::Cancelled { tool, .. } => tool.as_str(),
        }
    }

    /// Whether this event permanently ends the tool's lifecycle stream.
    pub fn is_terminal(&self) -> (r: bool)
        ensures
            r == self.spec_is_terminal(),
    {
        match self {
            ToolLifecycleEvent::Completed { .. } => true,
            ToolLifecycleEvent::Failed { .. } => true,
            ToolLifecycleEvent::Cancelled { .. } => true,
            _ => false,
        }
    }
}

} // verus!
