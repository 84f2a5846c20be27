//! Structured tool activity events and deterministic card formatting.

use std::time::Duration;

use vstd::prelude::*;

use crate::text::{chars_of, dec, push_char, push_chars, push_dec, push_str, IntoText};

verus! {

/// What `Duration::as_millis` returns for a duration.
pub uninterp spec fn duration_millis(d: Duration) -> u128;

/// `Duration::as_millis`: the whole number of milliseconds in the duration.
#[verifier::external_body]
fn millis_of(d: &Duration) -> (m: u128)
    ensures
        m == duration_millis(*d),
{
    d.as_millis()
}

/// The lifecycle state represented by an activity event.
#[derive(Debug, Clone, Copy, PartialEq, Eq, Structural)]
pub enum ToolStatus {
    Started,
    InProgress,
    Completed,
    Failed,
}

impl ToolStatus {
    /// The lower-case label shown on cards.
    pub open spec fn spec_label(&self) -> Seq<char> {
        match self {
            ToolStatus::Started => "started"@,
            ToolStatus::InProgress => "progress"@,
            ToolStatus::Completed => "completed"@,
            ToolStatus::Failed => "failed"@,
        }
    }

    /// The lower-case label shown on cards.
    pub fn label(&self) -> (r: &'static str)
        ensures
            r@ == self.spec_label(),
    {
        match self {
            ToolStatus::Started => "started",
            ToolStatus::InProgress => "progress",
            ToolStatus::Completed => "completed",
            ToolStatus::Failed => "failed",
        }
    }

    /// The label as an owned string.
    pub fn to_string(&self) -> (r: String)
        ensures
            r@ == self.spec_label(),
    {
        self.label().to_owned()
    }
}

/// Common metadata shared by all tool activity events.
#[derive(Debug, Clone, PartialEq, Eq)]
pub struct ToolActivityMeta {
    pub tool: String,
    pub status: ToolStatus,
    pub duration: Option<Duration>,
}

impl ToolActivityMeta {
    /// Metadata with no duration.
    pub fn new(tool: impl IntoText, status: ToolStatus) -> (m: Self)
        ensures
            m.tool@ == tool.text_view(),
            m.status == status,
            m.duration is None,
    {
        ToolActivityMeta { tool: tool.into_text(), status, duration: None }
    }

    /// The same metadata with a duration attached.
    pub fn with_duration(self, duration: Duration) -> (m: Self)
        ensures
            m.tool == self.tool,
            m.status == self.status,
            m.duration == Some(duration),
    {
        let mut m = self;
        m.duration = Some(duration);
        m
    }
}

/// Maximum number of characters of detail text shown on a card.
pub const CARD_DETAIL_LIMIT: usize = 500;

/// A typed lifecycle event emitted by a tool.
#[derive(Debug, Clone, PartialEq, Eq)]
pub enum ToolActivity {
    Started { meta: ToolActivityMeta },
    Progress { meta: ToolActivityMeta, message: String },
    Completed { meta: ToolActivityMeta, output: String },
    Failed { meta: ToolActivityMeta, error: String },
}

/// Truncation by characters: at most `max` characters, the last one an
/// ellipsis when text was cut.
pub open spec fn truncated(text: Seq<char>, max: nat) -> Seq<char> {
    if text.len() <= max {
        text
    } else if max == 0 {
        seq![]
    } else {
        text.take(max - 1).push('…')
    }
}

impl ToolActivity {
    /// The metadata of any variant.
    pub open spec fn spec_meta(&self) -> ToolActivityMeta {
        match self {
            ToolActivity::Started { meta } => *meta,
            ToolActivity::Progress { meta, .. } => *meta,
            ToolActivity::Completed { meta, .. } => *meta,
            ToolActivity::Failed { meta, .. } => *meta,
        }
    }

    /// The detail text of the variants that carry one.
    pub open spec fn spec_detail(&self) -> Option<Seq<char>> {
        match self {
            ToolActivity::Started { .. } => None,
            ToolActivity::Progress { message, .. } => Some(message@),
            ToolActivity::Completed { output, .. } => Some(output@),
            ToolActivity::Failed { error, .. } => Some(error@),
        }
    }

    /// The card text: `[status] tool`, then ` (<ms>ms)` when a duration is
    /// set, then a newline and the detail truncated to the card limit.
    pub open spec fn spec_card(&self) -> Seq<char> {
        let meta = self.spec_meta();
        let head = "["@ + meta.status.spec_label() + "] "@ + meta.tool@;
        let with_duration = match meta.duration {
            Some(d) => head + " ("@ + dec(duration_millis(d) as nat) + "ms)"@,
            None => head,
        };
        match self.spec_detail() {
            Some(detail) => with_duration.push('\n') + truncated(detail, CARD_DETAIL_LIMIT as nat),
            None => with_duration,
        }
    }

    pub fn started(tool: impl IntoText) -> (a: Self)
        ensures
            a matches ToolActivity::Started { meta } && meta.tool@ == tool.text_view()
                && meta.status == ToolStatus::Started && meta.duration is None,
    {
        ToolActivity::Started { meta: ToolActivityMeta::new(tool, ToolStatus::Started) }
    }

    pub fn progress(tool: impl IntoText, message: impl IntoText) -> (a: Self)
        ensures
            a matches ToolActivity::Progress { meta, message: m } && meta.tool@ == tool.text_view()
                && meta.status == ToolStatus::InProgress && meta.duration is None && m@
                == message.text_view(),
    {
        ToolActivity::Progress {
            meta: ToolActivityMeta::new(tool, ToolStatus::InProgress),
            message: message.into_text(),
        }
    }

    pub fn completed(tool: impl IntoText, output: impl IntoText) -> (a: Self)
        ensures
            a matches ToolActivity::Completed { meta, output: o } && meta.tool@ == tool.text_view()
                && meta.status == ToolStatus::Completed && meta.duration is None && o@
                == output.text_view(),
    {
        ToolActivity::Completed {
            meta: ToolActivityMeta::new(tool, ToolStatus::Completed),
            output: output.into_text(),
        }
    }

    pub fn failed(tool: impl IntoText, error: impl IntoText) -> (a: Self)
        ensures
            a matches ToolActivity::Failed { meta, error: e } && meta.tool@ == tool.text_view()
                && meta.status == ToolStatus::Failed && meta.duration is None && e@
                == error.text_view(),
    {
        ToolActivity::Failed {
            meta: ToolActivityMeta::new(tool, ToolStatus::Failed),
            error: error.into_text(),
        }
    }

    pub fn meta(&self) -> (m: &ToolActivityMeta)
        ensures
            *m == self.spec_meta(),
    {
        match self {
            ToolActivity::Started { meta } => meta,
            ToolActivity::Progress { meta, .. } => meta,
            ToolActivity::Completed { meta, .. } => meta,
            ToolActivity::Failed { meta, .. } => meta,
        }
    }

    /// The same event with a duration attached to its metadata.
    pub fn with_duration(self, duration: Duration) -> (a: Self)
        ensures
            a.spec_meta().tool == self.spec_meta().tool,
            a.spec_meta().status == self.spec_meta().status,
            a.spec_meta().duration == Some(duration),
            a.spec_detail() == self.spec_detail(),
            (a is Started) == (self is Started),
            (a is Progress) == (self is Progress),
            (a is Completed) == (self is Completed),
            (a is Failed) == (self is Failed),
    {
        match self {
            ToolActivity::Started { meta } => ToolActivity::Started {
                meta: meta.with_duration(duration),
            },
            ToolActivity::Progress { meta, message } => ToolActivity::Progress {
                meta: meta.with_duration(duration),
                message,
            },
            ToolActivity::Completed { meta, output } => ToolActivity::Completed {
                meta: meta.with_duration(duration),
                output,
            },
            ToolActivity::Failed { meta, error } => ToolActivity::Failed {
                meta: meta.with_duration(duration),
                error,
            },
        }
    }

    /// Stable, line-oriented representation suitable for a card or snapshot test.
    pub fn card(&self) -> (s: String)
        ensures
            s@ == self.spec_card(),
    {
        let meta = self.meta();
        let mut s = String::new();
        push_str(&mut s, "[");
        push_str(&mut s, meta.status.label());
        push_str(&mut s, "] ");
        push_str(&mut s, meta.tool.as_str());
        match &meta.duration {
            Some(d) => {
                push_str(&mut s, " (");
                push_dec(&mut s, millis_of(d));
                push_str(&mut s, "ms)");
            },
            None => {},
        }
        let detail: Option<&String> = match self {
            ToolActivity::Started { .. } => None,
            ToolActivity::Progress { message, .. } => Some(message),
            ToolActivity::Completed { output, .. } => Some(output),
            ToolActivity::Failed { error, .. } => Some(error),
        };
        match detail {
            Some(text) => {
                push_char(&mut s, '\n');
                let t = truncate(text.as_str(), CARD_DETAIL_LIMIT);
                push_str(&mut s, t.as_str());
            },
            None => {},
        }
        s
    }
}

/// Truncate by Unicode scalar values, appending an ellipsis when needed.
pub fn truncate(text: &str, max_chars: usize) -> (s: String)
    ensures
        s@ == truncated(text@, max_chars as nat),
{
    let v = chars_of(text);
    if v.len() <= max_chars {
        return text.to_owned();
    }
    if max_chars == 0 {
        return String::new();
    }
    let mut s = String::new();
    let prefix = crate::text::slice_range(&v, 0, max_chars - 1);
    push_chars(&mut s, &prefix);
    push_char(&mut s, '…');
    assert(v@.subrange(0, max_chars - 1) =~= v@.take(max_chars - 1));
    s
}

} // verus!
