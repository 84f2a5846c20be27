//! Small, human-readable conversation sessions.
//!
//! The `messages` field is the transcript; an optional `events` log records
//! message and tool/approval lifecycle for richer restores. Reading and
//! writing the files is done by the caller; this module owns their content
//! and file names.

use vstd::prelude::*;

use crate::text::{chars_of, from_chars, trim, trim_chars};

verus! {

/// One transcript line as stored on disk.
#[derive(Debug, Clone, PartialEq, Eq)]
pub struct SavedMessage {
    pub role: String,
    pub content: String,
}

/// Event-oriented session log entry (messages, tool lifecycle, approvals).
#[derive(Debug, Clone, PartialEq, Eq)]
pub enum SessionEvent {
    Message { role: String, content: String },
    ToolStarted { id: String, tool: String },
    ToolCompleted { id: String, tool: String, ok: bool, summary: String },
    ToolFailed { id: String, tool: String, error: String },
    ToolCancelled { id: String, tool: String, reason: String },
    /// `choice` is a free-form string (e.g. `"allow"`, `"allow_session"`).
    ApprovalResolved { tool: String, choice: String },
}

/// A named transcript with its creation time (seconds since the Unix epoch)
/// and its event log.
#[derive(Debug, Clone, PartialEq, Eq)]
pub struct Session {
    pub name: String,
    pub created_at: u64,
    pub messages: Vec<SavedMessage>,
    pub events: Vec<SessionEvent>,
}

/// The message events that mirror a transcript, one per message, in order.
pub open spec fn message_events(messages: Seq<SavedMessage>) -> Seq<SessionEvent> {
    Seq::new(
        messages.len(),
        |i: int| SessionEvent::Message { role: messages[i].role, content: messages[i].content },
    )
}

impl Session {
    /// A session created now, with the given transcript and an empty event log.
    /// The creation time is whatever the system clock reads (zero before the
    /// epoch).
    pub fn new(name: impl crate::text::IntoText, messages: Vec<SavedMessage>) -> (s: Self)
        ensures
            s.name@ == name.text_view(),
            s.messages == messages,
            s.events@.len() == 0,
    {
        let created_at = crate::clock::unix_seconds_now();
        Session { name: name.into_text(), created_at, messages, events: Vec::new() }
    }

    /// A session from a messages-only transcript (no events).
    pub fn from_messages(name: impl crate::text::IntoText, messages: Vec<SavedMessage>) -> (s: Self)
        ensures
            s.name@ == name.text_view(),
            s.messages == messages,
            s.events@.len() == 0,
    {
        Self::new(name, messages)
    }

    /// Appends an event to the log.
    pub fn append_event(&mut self, event: SessionEvent)
        ensures
            final(self).events@ == old(self).events@.push(event),
            final(self).name == old(self).name,
            final(self).created_at == old(self).created_at,
            final(self).messages == old(self).messages,
    {
        self.events.push(event);
    }

    /// Appends an event to the log (same as `append_event`).
    pub fn push_event(&mut self, event: SessionEvent)
        ensures
            final(self).events@ == old(self).events@.push(event),
            final(self).name == old(self).name,
            final(self).created_at == old(self).created_at,
            final(self).messages == old(self).messages,
    {
        self.append_event(event);
    }

    /// The event log.
    pub fn events(&self) -> (r: &[SessionEvent])
        ensures
            r@ == self.events@,
    {
        self.events.as_slice()
    }

    /// When the log is empty, fills it with one message event per transcript
    /// message; a non-empty log is left as it is.
    pub fn ensure_events_from_messages(&mut self)
        ensures
            old(self).events@.len() == 0 ==> final(self).events@ == message_events(
                old(self).messages@,
            ),
            old(self).events@.len() != 0 ==> final(self).events@ == old(self).events@,
            final(self).name == old(self).name,
            final(self).created_at == old(self).created_at,
            final(self).messages == old(self).messages,
    {
        if self.events.len() != 0 {
            return;
        }
        let mut events: Vec<SessionEvent> = Vec::new();
        let n = self.messages.len();
        let mut i: usize = 0;
        while i < n
            invariant
                n == self.messages@.len(),
                i <= n,
                events@ =~= message_events(self.messages@).take(i as int),
            decreases n - i,
        {
            let m = &self.messages[i];
            events.push(
                SessionEvent::Message {
                    role: crate::agent::copy_string(&m.role),
                    content: crate::agent::copy_string(&m.content),
                },
            );
            i = i + 1;
        }
        self.events = events;
    }
}

/// Characters kept in session file names: ASCII letters, digits, `-`, `_`.
pub open spec fn is_name_char(c: char) -> bool {
    ('a' <= c <= 'z') || ('A' <= c <= 'Z') || ('0' <= c <= '9') || c == '-' || c == '_'
}

/// A character as it appears in a file name: itself when kept, else `_`.
pub open spec fn name_char(c: char) -> char {
    if is_name_char(c) {
        c
    } else {
        '_'
    }
}

/// Maximum number of characters of a session file name.
pub const MAX_NAME_CHARS: usize = 80;

/// The file-name form of a session name: trimmed, every other character
/// replaced by `_`, `default` when nothing is left, cut to 80 characters.
pub open spec fn spec_safe_name(name: Seq<char>) -> Seq<char> {
    let normalized = trim(name).map_values(|c: char| name_char(c));
    if normalized.len() == 0 {
        "default"@
    } else if normalized.len() <= MAX_NAME_CHARS {
        normalized
    } else {
        normalized.take(MAX_NAME_CHARS as int)
    }
}

/// The file-name form of a session name.
pub fn safe_name(name: &str) -> (r: String)
    ensures
        r@ == spec_safe_name(name@),
{
    let v = chars_of(name);
    let t = trim_chars(&v);
    let n = t.len();
    let limit: usize = if n <= MAX_NAME_CHARS {
        n
    } else {
        MAX_NAME_CHARS
    };
    let mut out: Vec<char> = Vec::new();
    let mut i: usize = 0;
    while i < limit
        invariant
            limit <= n,
            n == t@.len(),
            i <= limit,
            out@ =~= t@.map_values(|c: char| name_char(c)).take(i as int),
        decreases limit - i,
    {
        let c = t[i];
        let kept = ('a' <= c && c <= 'z') || ('A' <= c && c <= 'Z') || ('0' <= c && c <= '9') || c
            == '-' || c == '_';
        if kept {
            out.push(c);
        } else {
            out.push('_');
        }
        i = i + 1;
    }
    if n == 0 {
        return "default".to_owned();
    }
    proof {
        let normalized = trim(name@).map_values(|c: char| name_char(c));
        if n <= MAX_NAME_CHARS {
            assert(out@ =~= normalized);
        }
    }
    from_chars(&out)
}

/// The file name under which a session is stored: its safe name plus `.json`.
pub fn session_file_name(name: &str) -> (r: String)
    ensures
        r@ == spec_safe_name(name@) + ".json"@,
{
    let mut r = safe_name(name);
    crate::text::push_str(&mut r, ".json");
    r
}

} // verus!
