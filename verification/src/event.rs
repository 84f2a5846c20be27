//! Events emitted while a provider is processing a request.

use vstd::prelude::*;

use crate::tool_activity::ToolActivity;

verus! {

/// Events emitted while a provider is processing a request.
#[derive(Debug, Clone, PartialEq, Eq)]
pub enum ProviderEvent {
    Started { request_id: String },
    Delta { request_id: String, text: String },
    ToolStarted { request_id: String, activity: ToolActivity },
    ToolProgress { request_id: String, activity: ToolActivity },
    ToolCompleted { request_id: String, activity: ToolActivity },
    ToolFailed { request_id: String, activity: ToolActivity },
    Completed { request_id: String },
    Cancelled { request_id: String },
    Failed { request_id: String, error: String },
}

/// An event with its text taken by characters.
pub enum ProviderEventView {
    Started { request_id: Seq<char> },
    Delta { request_id: Seq<char>, text: Seq<char> },
    ToolStarted { request_id: Seq<char>, activity: ToolActivity },
    ToolProgress { request_id: Seq<char>, activity: ToolActivity },
    ToolCompleted { request_id: Seq<char>, activity: ToolActivity },
    ToolFailed { request_id: Seq<char>, activity: ToolActivity },
    Completed { request_id: Seq<char> },
    Cancelled { request_id: Seq<char> },
    Failed { request_id: Seq<char>, error: Seq<char> },
}

impl View for ProviderEvent {
    type V = ProviderEventView;

    open spec fn view(&self) -> ProviderEventView {
        match self {
            ProviderEvent::Started { request_id } => ProviderEventView::Started {
                request_id: request_id@,
            },
            ProviderEvent::Delta { request_id, text } => ProviderEventView::Delta {
                request_id: request_id@,
                text: text@,
            },
            ProviderEvent::ToolStarted { request_id, activity } => ProviderEventView::ToolStarted {
                request_id: request_id@,
                activity: *activity,
            },
            ProviderEvent::ToolProgress { request_id, activity } => ProviderEventView::ToolProgress {
                request_id: request_id@,
                activity: *activity,
            },
            ProviderEvent::ToolCompleted { request_id, activity } => ProviderEventView::ToolCompleted {
                request_id: request_id@,
                activity: *activity,
            },
            ProviderEvent::ToolFailed { request_id, activity } => ProviderEventView::ToolFailed {
                request_id: request_id@,
                activity: *activity,
            },
            ProviderEvent::Completed { request_id } => ProviderEventView::Completed {
                request_id: request_id@,
            },
            ProviderEvent::Cancelled { request_id } => ProviderEventView::Cancelled {
                request_id: request_id@,
            },
            ProviderEvent::Failed { request_id, error } => ProviderEventView::Failed {
                request_id: request_id@,
                error: error@,
            },
        }
    }
}

/// The views of a list of events.
pub open spec fn events_view(es: Seq<ProviderEvent>) -> Seq<ProviderEventView> {
    es.map_values(|e: ProviderEvent| e@)
}

impl ProviderEvent {
    /// The request id carried by every variant.
    pub open spec fn spec_request_id(&self) -> Seq<char> {
        match self {
            ProviderEvent::Started { request_id } => request_id@,
            ProviderEvent::Delta { request_id, .. } => request_id@,
            ProviderEvent::ToolStarted { request_id, .. } => request_id@,
            ProviderEvent::ToolProgress { request_id, .. } => request_id@,
            ProviderEvent::ToolCompleted { request_id, .. } => request_id@,
            ProviderEvent::ToolFailed { request_id, .. } => request_id@,
            ProviderEvent::Completed { request_id } => request_id@,
            ProviderEvent::Cancelled { request_id } => request_id@,
            ProviderEvent::Failed { request_id, .. } => request_id@,
        }
    }

    /// Outcome variants end a request stream.
    pub open spec fn spec_is_terminal(&self) -> bool {
        self is Completed || self is Cancelled || self is Failed
    }

    /// Whether this event permanently ends its request stream.
    pub fn is_terminal(&self) -> (r: bool)
        ensures
            r == self.spec_is_terminal(),
    {
        match self {
            ProviderEvent::Completed { .. } => true,
            ProviderEvent::Cancelled { .. } => true,
            ProviderEvent::Failed { .. } => true,
            _ => false,
        }
    }

    /// The request this event belongs to.
    pub fn request_id(&self) -> (r: &str)
        ensures
            r@ == self.spec_request_id(),
    {
        match self {
            ProviderEvent::Started { request_id } => request_id.as_str(),
            ProviderEvent::Delta { request_id, .. } => request_id.as_str(),
            ProviderEvent::ToolStarted { request_id, .. } => request_id.as_str(),
            ProviderEvent::ToolProgress { request_id, .. } => request_id.as_str(),
            ProviderEvent::ToolCompleted { request_id, .. } => request_id.as_str(),
            ProviderEvent::ToolFailed { request_id, .. } => request_id.as_str(),
            ProviderEvent::Completed { request_id } => request_id.as_str(),
            ProviderEvent::Cancelled { request_id } => request_id.as_str(),
            ProviderEvent::Failed { request_id, .. } => request_id.as_str(),
        }
    }
}

} // verus!
