//! OpenAI-compatible chat API: endpoint handling, request bodies and the
//! parsing of replies. Sending requests is left to a transport owned by the
//! caller.

use vstd::prelude::*;

use crate::text::{
    chars_of, contains_seq, contains_str, find, find_chars, index_of, index_of_from, join,
    join_strs, lines, lines_of, push_char, push_str, skip_ws, slice_range, starts_with,
    starts_with_str, str_eq, strs_view, trim, trim_bounds, trim_start, IntoText,
};

verus! {

/// Why talking to an OpenAI-compatible endpoint failed.
#[derive(Debug, Clone, PartialEq, Eq)]
pub enum OpenAiError {
    InvalidEndpoint,
    InvalidJson,
    Transport(String),
    Api { message: String, error_type: Option<String>, code: Option<String> },
}

/// An error with its text taken by characters.
pub enum OpenAiErrorView {
    InvalidEndpoint,
    InvalidJson,
    Transport(Seq<char>),
    Api { message: Seq<char>, error_type: Option<Seq<char>>, code: Option<Seq<char>> },
}

/// The characters of an optional string.
pub open spec fn opt_view(o: Option<String>) -> Option<Seq<char>> {
    match o {
        Some(s) => Some(s@),
        None => None,
    }
}

impl View for OpenAiError {
    type V = OpenAiErrorView;

    open spec fn view(&self) -> OpenAiErrorView {
        match self {
            OpenAiError::InvalidEndpoint => OpenAiErrorView::InvalidEndpoint,
            OpenAiError::InvalidJson => OpenAiErrorView::InvalidJson,
            OpenAiError::Transport(m) => OpenAiErrorView::Transport(m@),
            OpenAiError::Api { message, error_type, code } => OpenAiErrorView::Api {
                message: message@,
                error_type: opt_view(*error_type),
                code: opt_view(*code),
            },
        }
    }
}

impl OpenAiErrorView {
    /// The one-line description of the error.
    pub open spec fn message(self) -> Seq<char> {
        match self {
            OpenAiErrorView::InvalidEndpoint => "endpoint must be http(s)"@,
            OpenAiErrorView::InvalidJson => "invalid JSON"@,
            OpenAiErrorView::Transport(m) => "HTTP transport error: "@ + m,
            OpenAiErrorView::Api { message, .. } => "OpenAI API error: "@ + message,
        }
    }
}

impl OpenAiError {
    /// The one-line description of the error.
    pub fn to_string(&self) -> (s: String)
        ensures
            s@ == self@.message(),
    {
        match self {
            OpenAiError::InvalidEndpoint => "endpoint must be http(s)".to_owned(),
            OpenAiError::InvalidJson => "invalid JSON".to_owned(),
            OpenAiError::Transport(m) => {
                let mut s = "HTTP transport error: ".to_owned();
                push_str(&mut s, m.as_str());
                s
            },
            OpenAiError::Api { message, .. } => {
                let mut s = "OpenAI API error: ".to_owned();
                push_str(&mut s, message.as_str());
                s
            },
        }
    }
}

/// `s` with every trailing `/` removed.
pub open spec fn trim_end_slashes(s: Seq<char>) -> Seq<char>
    decreases s.len(),
{
    if s.len() > 0 && s.last() == '/' {
        trim_end_slashes(s.drop_last())
    } else {
        s
    }
}

/// A base URL of an OpenAI-compatible API, with no trailing `/`.
#[derive(Debug, Clone, PartialEq, Eq)]
pub struct OpenAiCompatibleEndpoint(String);

impl OpenAiCompatibleEndpoint {
    /// The base URL.
    pub closed spec fn url(&self) -> Seq<char> {
        self.0@
    }

    /// An endpoint from an `http://` or `https://` URL, trailing slashes removed.
    pub fn new(value: impl IntoText) -> (r: Result<Self, OpenAiError>)
        ensures
            (starts_with(value.text_view(), "http://"@) || starts_with(
                value.text_view(),
                "https://"@,
            )) ==> (r matches Ok(e) && e.url() == trim_end_slashes(value.text_view())),
            !(starts_with(value.text_view(), "http://"@) || starts_with(
                value.text_view(),
                "https://"@,
            )) ==> r == Err::<Self, OpenAiError>(OpenAiError::InvalidEndpoint),
    {
        let s = value.into_text();
        let v = chars_of(s.as_str());
        if starts_with_str(&v, "http://") || starts_with_str(&v, "https://") {
            let mut k = v.len();
            assert(v@.take(v@.len() as int) =~= v@);
            while k > 0 && v[k - 1] == '/'
                invariant
                    k <= v@.len(),
                    trim_end_slashes(v@) == trim_end_slashes(v@.take(k as int)),
                decreases k,
            {
                assert(v@.take(k as int).drop_last() =~= v@.take(k - 1));
                k = k - 1;
            }
            assert(v@.take(v@.len() as int) =~= v@);
            let t = crate::text::from_range(&v, 0, k);
            assert(v@.subrange(0, k as int) =~= v@.take(k as int));
            Ok(OpenAiCompatibleEndpoint(t))
        } else {
            Err(OpenAiError::InvalidEndpoint)
        }
    }

    /// The base URL.
    pub fn as_str(&self) -> (r: &str)
        ensures
            r@ == self.url(),
    {
        self.0.as_str()
    }

    /// `<base>/chat/completions`.
    pub fn chat_completions_url(&self) -> (r: String)
        ensures
            r@ == self.url() + "/chat/completions"@,
    {
        let mut r = crate::agent::copy_string(&self.0);
        push_str(&mut r, "/chat/completions");
        r
    }

    /// `<base>/models`.
    pub fn models_url(&self) -> (r: String)
        ensures
            r@ == self.url() + "/models"@,
    {
        let mut r = crate::agent::copy_string(&self.0);
        push_str(&mut r, "/models");
        r
    }
}

impl std::str::FromStr for OpenAiCompatibleEndpoint {
    type Err = OpenAiError;

    fn from_str(s: &str) -> (r: Result<Self, Self::Err>)
        ensures
            (starts_with(s@, "http://"@) || starts_with(s@, "https://"@)) ==> (r matches Ok(e)
                && e.url() == trim_end_slashes(s@)),
            !(starts_with(s@, "http://"@) || starts_with(s@, "https://"@)) ==> r == Err::<
                Self,
                OpenAiError,
            >(OpenAiError::InvalidEndpoint),
    {
        Self::new(s)
    }
}

/// Connection settings: endpoint, key and default model.
#[derive(Clone, PartialEq, Eq)]
pub struct OpenAiCompatibleConfig {
    pub endpoint: OpenAiCompatibleEndpoint,
    pub api_key: String,
    pub model: String,
}

/// Who wrote a chat message.
#[derive(Debug, Clone, Copy, PartialEq, Eq, Structural)]
pub enum ChatRole {
    System,
    User,
    Assistant,
}

/// The wire name of a chat role.
pub open spec fn role_name(role: ChatRole) -> Seq<char> {
    match role {
        ChatRole::System => "system"@,
        ChatRole::User => "user"@,
        ChatRole::Assistant => "assistant"@,
    }
}

/// One chat message.
#[derive(Debug, Clone, PartialEq, Eq)]
pub struct ChatMessage {
    pub role: ChatRole,
    pub content: String,
}

/// A chat completion request.
#[derive(Debug, Clone, PartialEq, Eq)]
pub struct ChatCompletionRequest {
    pub model: String,
    pub messages: Vec<ChatMessage>,
    pub stream: bool,
}

/// An HTTP request to send.
#[derive(Clone, PartialEq, Eq)]
pub struct OpenAiRequest {
    pub method: String,
    pub url: String,
    pub headers: Vec<(String, String)>,
    pub body: String,
}

/// An HTTP reply.
#[derive(Debug, Clone, PartialEq, Eq)]
pub struct OpenAiResponse {
    pub status: u16,
    pub body: String,
}

/// A character as written inside a JSON string by the request encoder:
/// backslash, quote and newline are escaped.
pub open spec fn esc_char(c: char) -> Seq<char> {
    if c == '\\' {
        seq!['\\', '\\']
    } else if c == '"' {
        seq!['\\', '"']
    } else if c == '\n' {
        seq!['\\', 'n']
    } else {
        seq![c]
    }
}

/// `s` escaped for a JSON string.
pub open spec fn escape_json(s: Seq<char>) -> Seq<char>
    decreases s.len(),
{
    if s.len() == 0 {
        seq![]
    } else {
        escape_json(s.drop_last()) + esc_char(s.last())
    }
}

/// Escapes text for a JSON string.
pub fn escape(s: &str) -> (r: String)
    ensures
        r@ == escape_json(s@),
{
    let v = chars_of(s);
    let mut r = String::new();
    let mut i: usize = 0;
    while i < v.len()
        invariant
            i <= v@.len(),
            r@ == escape_json(v@.take(i as int)),
        decreases v@.len() - i,
    {
        assert(v@.take(i + 1).drop_last() =~= v@.take(i as int));
        let c = v[i];
        if c == '\\' {
            push_char(&mut r, '\\');
            push_char(&mut r, '\\');
        } else if c == '"' {
            push_char(&mut r, '\\');
            push_char(&mut r, '"');
        } else if c == '\n' {
            push_char(&mut r, '\\');
            push_char(&mut r, 'n');
        } else {
            push_char(&mut r, c);
        }
        assert(r@ =~= escape_json(v@.take(i as int)) + esc_char(c));
        i = i + 1;
    }
    assert(v@.take(v@.len() as int) =~= v@);
    r
}

/// The JSON object of one message.
pub open spec fn message_json(m: ChatMessage) -> Seq<char> {
    "{\"role\":\""@ + role_name(m.role) + "\",\"content\":\""@ + escape_json(m.content@) + "\"}"@
}

/// The JSON body of a request.
pub open spec fn request_json(r: ChatCompletionRequest) -> Seq<char> {
    "{\"model\":\""@ + escape_json(r.model@) + "\",\"messages\":["@ + join(
        r.messages@.map_values(|m: ChatMessage| message_json(m)),
        ","@,
    ) + "],\"stream\":"@ + (if r.stream {
        "true"@
    } else {
        "false"@
    }) + "}"@
}

impl ChatCompletionRequest {
    /// The JSON body of the request, with fields in a fixed order.
    pub fn json(&self) -> (r: String)
        ensures
            r@ == request_json(*self),
    {
        let mut msgs: Vec<String> = Vec::new();
        let mut i: usize = 0;
        while i < self.messages.len()
            invariant
                i <= self.messages@.len(),
                strs_view(msgs@) == self.messages@.take(i as int).map_values(
                    |m: ChatMessage| message_json(m),
                ),
            decreases self.messages@.len() - i,
        {
            let m = &self.messages[i];
            let mut s = "{\"role\":\"".to_owned();
            let role = match m.role {
                ChatRole::System => "system",
                ChatRole::User => "user",
                ChatRole::Assistant => "assistant",
            };
            push_str(&mut s, role);
            push_str(&mut s, "\",\"content\":\"");
            let e = escape(m.content.as_str());
            push_str(&mut s, e.as_str());
            push_str(&mut s, "\"}");
            assert(s@ == message_json(*m));
            let ghost before = msgs@;
            msgs.push(s);
            proof {
                let f = |m: ChatMessage| message_json(m);
                assert(self.messages@.take(i + 1) =~= self.messages@.take(i as int).push(
                    self.messages@[i as int],
                ));
                assert(self.messages@.take(i + 1).map_values(f) =~= self.messages@.take(
                    i as int,
                ).map_values(f).push(f(self.messages@[i as int])));
                assert(strs_view(msgs@).len() == strs_view(before).len() + 1);
                assert forall|j: int| 0 <= j < strs_view(msgs@).len() implies strs_view(msgs@)[j]
                    == self.messages@.take(i + 1).map_values(f)[j] by {
                    if j < i {
                        assert(strs_view(msgs@)[j] == msgs@[j]@);
                        assert(msgs@[j] == before[j]);
                        assert(strs_view(before)[j] == before[j]@);
                    } else {
                        assert(strs_view(msgs@)[j] == msgs@[j]@);
                    }
                }
            }
            assert(strs_view(msgs@) =~= self.messages@.take(i + 1).map_values(
                |m: ChatMessage| message_json(m),
            ));
            i = i + 1;
        }
        assert(self.messages@.take(self.messages@.len() as int) =~= self.messages@);
        let joined = join_strs(&msgs, ",");
        let mut r = "{\"model\":\"".to_owned();
        let em = escape(self.model.as_str());
        push_str(&mut r, em.as_str());
        push_str(&mut r, "\",\"messages\":[");
        push_str(&mut r, joined.as_str());
        push_str(&mut r, "],\"stream\":");
        if self.stream {
            push_str(&mut r, "true");
        } else {
            push_str(&mut r, "false");
        }
        push_str(&mut r, "}");
        r
    }
}

/// The character an escape sequence `\c` stands for in a reply.
pub open spec fn unescape(c: char) -> char {
    if c == 'n' {
        '\n'
    } else if c == 'r' {
        '\r'
    } else if c == 't' {
        '\t'
    } else {
        c
    }
}

/// The body of a JSON string whose opening quote was just read: its
/// characters up to the closing quote, escapes resolved; `None` when the
/// string never closes.
pub open spec fn unescaped_body(s: Seq<char>) -> Option<Seq<char>>
    decreases s.len(),
{
    if s.len() == 0 {
        None
    } else if s[0] == '\\' {
        if s.len() >= 2 {
            match unescaped_body(s.skip(2)) {
                Some(r) => Some(seq![unescape(s[1])] + r),
                None => None,
            }
        } else {
            None
        }
    } else if s[0] == '"' {
        Some(seq![])
    } else {
        match unescaped_body(s.drop_first()) {
            Some(r) => Some(seq![s[0]] + r),
            None => None,
        }
    }
}

/// The body of a string whose opening quote was just read, as the model-list
/// scan reads it: up to the closing quote or the end of the text, a
/// backslash taking the next character as it is.
pub open spec fn raw_body(s: Seq<char>) -> Seq<char>
    decreases s.len(),
{
    if s.len() == 0 {
        seq![]
    } else if s[0] == '\\' {
        if s.len() >= 2 {
            seq![s[1]] + raw_body(s.skip(2))
        } else {
            seq![]
        }
    } else if s[0] == '"' {
        seq![]
    } else {
        seq![s[0]] + raw_body(s.drop_first())
    }
}

/// The string value of the first `"key"` in a JSON text: after the key, the
/// first `:`, optional whitespace, then a quoted string.
pub open spec fn spec_extract(s: Seq<char>, key: Seq<char>) -> Option<Seq<char>> {
    let needle = "\""@ + key + "\""@;
    match find(s, needle) {
        None => None,
        Some(p) => {
            let rest = s.skip(p + needle.len());
            let c = index_of(rest, ':');
            if c >= rest.len() {
                None
            } else {
                let v = trim_start(rest.skip(c + 1));
                if v.len() > 0 && v[0] == '"' {
                    unescaped_body(v.drop_first())
                } else {
                    None
                }
            }
        }
    }
}

/// The index of the first `c` at or after `from`, or the length.
fn index_of_char(v: &[char], c: char, from: usize) -> (k: usize)
    requires
        from <= v@.len(),
    ensures
        k == index_of_from(v@, c, from as int),
        from <= k <= v@.len(),
{
    let mut k = from;
    while k < v.len() && v[k] != c
        invariant
            from <= k <= v@.len(),
            forall|j: int| from <= j < k ==> v@[j] != c,
        decreases v@.len() - k,
    {
        k = k + 1;
    }
    proof {
        crate::text::lemma_index_of_from_is(v@, c, from as int, k as int);
    }
    k
}

/// Reads the body of a JSON string that starts at `start`.
fn unescape_body(v: &[char], start: usize) -> (r: Option<String>)
    requires
        start <= v@.len(),
    ensures
        match r {
            Some(s) => unescaped_body(v@.skip(start as int)) == Some(s@),
            None => unescaped_body(v@.skip(start as int)) is None,
        },
{
    let mut out = String::new();
    let mut i = start;
    loop
        invariant
            start <= i <= v@.len(),
            unescaped_body(v@.skip(start as int)) == match unescaped_body(v@.skip(i as int)) {
                Some(r) => Some(out@ + r),
                None => None,
            },
        decreases v@.len() - i,
    {
        if i >= v.len() {
            return None;
        }
        let c = v[i];
        let ghost t = v@.skip(i as int);
        assert(t[0] == c);
        if c == '\\' {
            if i + 1 < v.len() {
                let d = v[i + 1];
                let u = if d == 'n' {
                    '\n'
                } else if d == 'r' {
                    '\r'
                } else if d == 't' {
                    '\t'
                } else {
                    d
                };
                assert(t[1] == d);
                assert(t.skip(2) =~= v@.skip(i + 2));
                let ghost o0 = out@;
                push_char(&mut out, u);
                proof {
                    match unescaped_body(v@.skip(i + 2)) {
                        Some(r) => {
                            assert(o0 + (seq![u] + r) =~= out@ + r);
                        },
                        None => {},
                    }
                }
                i = i + 2;
            } else {
                return None;
            }
        } else if c == '"' {
            assert(out@ + Seq::<char>::empty() =~= out@);
            return Some(out);
        } else {
            assert(t.drop_first() =~= v@.skip(i + 1));
            let ghost o0 = out@;
            push_char(&mut out, c);
            proof {
                match unescaped_body(v@.skip(i + 1)) {
                    Some(r) => {
                        assert(o0 + (seq![c] + r) =~= out@ + r);
                    },
                    None => {},
                }
            }
            i = i + 1;
        }
    }
}

/// Reads the body of a string as the model-list scan does.
fn raw_body_exec(v: &[char]) -> (r: String)
    ensures
        r@ == raw_body(v@),
{
    let mut out = String::new();
    let mut i: usize = 0;
    assert(v@.skip(0) =~= v@);
    assert(out@ + raw_body(v@) =~= raw_body(v@));
    while i < v.len() && v[i] != '"' && !(v[i] == '\\' && i + 1 >= v.len())
        invariant
            i <= v@.len(),
            raw_body(v@) == out@ + raw_body(v@.skip(i as int)),
        decreases v@.len() - i,
    {
        let ghost t = v@.skip(i as int);
        assert(t[0] == v@[i as int]);
        let ghost o0 = out@;
        if v[i] == '\\' {
            assert(t[1] == v@[i + 1]);
            assert(t.skip(2) =~= v@.skip(i + 2));
            push_char(&mut out, v[i + 1]);
            assert(o0 + (seq![v@[i + 1]] + raw_body(v@.skip(i + 2))) =~= out@ + raw_body(
                v@.skip(i + 2),
            ));
            i = i + 2;
        } else {
            assert(t.drop_first() =~= v@.skip(i + 1));
            push_char(&mut out, v[i]);
            assert(o0 + (seq![v@[i as int]] + raw_body(v@.skip(i + 1))) =~= out@ + raw_body(
                v@.skip(i + 1),
            ));
            i = i + 1;
        }
    }
    proof {
        let t = v@.skip(i as int);
        if i < v@.len() {
            assert(t[0] == v@[i as int]);
        }
        assert(out@ + Seq::<char>::empty() =~= out@);
    }
    out
}

/// The string value of the first `"key"` in a JSON text.
pub fn extract_string(s: &str, key: &str) -> (r: Option<String>)
    ensures
        opt_view(r) == spec_extract(s@, key@),
{
    let v = chars_of(s);
    let mut needle = "\"".to_owned();
    push_str(&mut needle, key);
    push_str(&mut needle, "\"");
    let nv = chars_of(needle.as_str());
    let p = match find_chars(&v, &nv) {
        Some(p) => p,
        None => {
            return None;
        },
    };
    proof {
        crate::text::lemma_find_from(v@, nv@, 0);
    }
    let vl = v.len();
    let nl = nv.len();
    assert(p + nl <= vl);
    let rest = slice_range(&v, p + nl, vl);
    assert(rest@ =~= v@.skip(p + nv@.len()));
    let colon = index_of_char(&rest, ':', 0);
    if colon >= rest.len() {
        return None;
    }
    let vs = skip_ws(&rest, colon + 1, rest.len());
    assert(rest@.subrange(colon + 1, rest@.len() as int) =~= rest@.skip(colon + 1));
    if vs >= rest.len() || rest[vs] != '"' {
        return None;
    }
    assert(rest@.subrange(vs as int, rest@.len() as int).drop_first() =~= rest@.skip(vs + 1));
    unescape_body(&rest, vs + 1)
}

/// The API error described by a reply body.
pub open spec fn spec_parse_error(s: Seq<char>) -> OpenAiErrorView {
    OpenAiErrorView::Api {
        message: match spec_extract(s, "message"@) {
            Some(m) => m,
            None => "unknown provider error"@,
        },
        error_type: spec_extract(s, "type"@),
        code: spec_extract(s, "code"@),
    }
}

/// The API error described by a reply body; a missing message reads
/// `unknown provider error`.
pub fn parse_error(s: &str) -> (e: OpenAiError)
    ensures
        e@ == spec_parse_error(s@),
{
    let message = match extract_string(s, "message") {
        Some(m) => m,
        None => "unknown provider error".to_owned(),
    };
    OpenAiError::Api {
        message,
        error_type: extract_string(s, "type"),
        code: extract_string(s, "code"),
    }
}

/// The text holds an `"error"` key.
pub open spec fn has_error_key(s: Seq<char>) -> bool {
    contains_seq(s, "\"error\""@)
}

/// One event of a server-sent event stream.
#[derive(Debug, Clone, PartialEq, Eq)]
pub enum SseEvent {
    Delta(String),
    Done,
    Error(OpenAiError),
    Ignore,
}

/// An event with its text taken by characters.
pub enum SseEventView {
    Delta(Seq<char>),
    Done,
    Error(OpenAiErrorView),
    Ignore,
}

impl View for SseEvent {
    type V = SseEventView;

    open spec fn view(&self) -> SseEventView {
        match self {
            SseEvent::Delta(t) => SseEventView::Delta(t@),
            SseEvent::Done => SseEventView::Done,
            SseEvent::Error(e) => SseEventView::Error(e@),
            SseEvent::Ignore => SseEventView::Ignore,
        }
    }
}

/// The event a stream line stands for: `data:` lines carry `[DONE]`, a
/// `content` delta or an error; everything else is ignored.
pub open spec fn spec_sse(line: Seq<char>) -> SseEventView {
    let t = trim(line);
    if !starts_with(t, "data:"@) {
        SseEventView::Ignore
    } else {
        let data = trim(t.skip(5));
        if data == "[DONE]"@ {
            SseEventView::Done
        } else if data.len() == 0 {
            SseEventView::Ignore
        } else {
            match spec_extract(data, "content"@) {
                Some(v) => SseEventView::Delta(v),
                None => if has_error_key(data) {
                    SseEventView::Error(spec_parse_error(data))
                } else {
                    SseEventView::Ignore
                },
            }
        }
    }
}

/// Parses one line of a server-sent event stream.
pub fn parse_sse_line(line: &str) -> (e: SseEvent)
    ensures
        e@ == spec_sse(line@),
{
    let v = chars_of(line);
    let (a, b) = trim_bounds(&v, 0, v.len());
    let t = slice_range(&v, a, b);
    assert(v@.subrange(0, v@.len() as int) =~= v@);
    if !starts_with_str(&t, "data:") {
        return SseEvent::Ignore;
    }
    proof {
        reveal_strlit("data:");
    }
    let (c, d) = trim_bounds(&t, 5, t.len());
    assert(t@.subrange(5, t@.len() as int) =~= t@.skip(5));
    let data_chars = slice_range(&t, c, d);
    let data = crate::text::from_chars(&data_chars);
    if crate::text::eq_str(&data_chars, "[DONE]") {
        return SseEvent::Done;
    }
    if data_chars.len() == 0 {
        return SseEvent::Ignore;
    }
    match extract_string(data.as_str(), "content") {
        Some(v) => SseEvent::Delta(v),
        None => {
            if contains_str(&data_chars, "\"error\"") {
                SseEvent::Error(parse_error(data.as_str()))
            } else {
                SseEvent::Ignore
            }
        },
    }
}

/// The content of a chat completion, or the error the body describes.
pub open spec fn spec_chat_completion(body: Seq<char>) -> Result<Seq<char>, OpenAiErrorView> {
    match spec_extract(body, "content"@) {
        Some(c) => Ok(c),
        None => if has_error_key(body) {
            Err(spec_parse_error(body))
        } else {
            Err(OpenAiErrorView::InvalidJson)
        },
    }
}

/// Parses a (non-streaming) chat completion body. Reading a request's own
/// JSON this way gives back its first message's content when the model's
/// name does not hold the word `content`: see
/// `providers::reply_law::law_completion_reads_first_message`.
pub fn parse_chat_completion(body: &str) -> (r: Result<String, OpenAiError>)
    ensures
        match r {
            Ok(c) => spec_chat_completion(body@) == Ok::<Seq<char>, OpenAiErrorView>(c@),
            Err(e) => spec_chat_completion(body@) == Err::<Seq<char>, OpenAiErrorView>(e@),
        },
{
    match extract_string(body, "content") {
        Some(c) => Ok(c),
        None => {
            let v = chars_of(body);
            if contains_str(&v, "\"error\"") {
                Err(parse_error(body))
            } else {
                Err(OpenAiError::InvalidJson)
            }
        },
    }
}

/// What remains of a model-list scan at `cursor`, having found `acc`: find
/// the next `"id"` key and its `:`; a value that is not a string moves the
/// scan past the `:`; a string value adds its body when non-empty and new,
/// and the scan goes on from the first `"` after the opening quote.
pub open spec fn model_ids_from(cursor: Seq<char>, acc: Seq<Seq<char>>) -> Seq<Seq<char>>
    decreases cursor.len(),
{
    match find(cursor, "\"id\""@) {
        None => acc,
        Some(position) => {
            proof {
                crate::text::lemma_find_from(cursor, "\"id\""@, 0);
            }
            let rest = cursor.skip(position + "\"id\""@.len());
            let colon = index_of(rest, ':');
            proof {
                crate::text::lemma_index_of_from(rest, ':', 0);
            }
            if colon >= rest.len() {
                acc
            } else {
                let after = rest.skip(colon + 1);
                let value = trim_start(after);
                proof {
                    crate::text::lemma_trim_start_len(after);
                }
                if !(value.len() > 0 && value[0] == '"') {
                    model_ids_from(after, acc)
                } else {
                    let body = value.drop_first();
                    let id = raw_body(body);
                    let found = if id.len() > 0 && !acc.contains(id) {
                        acc.push(id)
                    } else {
                        acc
                    };
                    let q = index_of(body, '"');
                    proof {
                        crate::text::lemma_index_of_from(body, '"', 0);
                    }
                    let next = body.skip(q);
                    if next.len() == 0 {
                        found
                    } else {
                        model_ids_from(next, found)
                    }
                }
            }
        }
    }
}

/// The model ids of a `/models` reply, or the error the body describes.
pub open spec fn spec_model_ids(body: Seq<char>) -> Result<Seq<Seq<char>>, OpenAiErrorView> {
    if has_error_key(body) {
        Err(spec_parse_error(body))
    } else {
        let ids = model_ids_from(body, seq![]);
        if ids.len() == 0 {
            Err(OpenAiErrorView::InvalidJson)
        } else {
            Ok(ids)
        }
    }
}

/// Whether a list of strings holds the given text.
fn holds_text(ys: &[String], x: &[char]) -> (r: bool)
    ensures
        r == strs_view(ys@).contains(x@),
{
    let mut i: usize = 0;
    while i < ys.len()
        invariant
            i <= ys@.len(),
            forall|j: int| 0 <= j < i ==> (#[trigger] ys@[j])@ != x@,
        decreases ys@.len() - i,
    {
        let yv = chars_of(ys[i].as_str());
        if crate::text::chars_eq(&yv, x) {
            assert(strs_view(ys@)[i as int] == x@);
            return true;
        }
        i = i + 1;
    }
    assert forall|j: int| 0 <= j < strs_view(ys@).len() implies strs_view(ys@)[j] != x@ by {
        assert(strs_view(ys@)[j] == ys@[j]@);
    }
    false
}

/// Extracts the model identifiers of an OpenAI `/models` reply. The common
/// shape `{ "data": [{ "id": "model-name" }] }` is read without a full
/// schema; ids are kept once each, in order of appearance.
pub fn parse_model_ids(body: &str) -> (r: Result<Vec<String>, OpenAiError>)
    ensures
        match r {
            Ok(ids) => spec_model_ids(body@) == Ok::<Seq<Seq<char>>, OpenAiErrorView>(
                strs_view(ids@),
            ),
            Err(e) => spec_model_ids(body@) == Err::<Seq<Seq<char>>, OpenAiErrorView>(e@),
        },
{
    let all = chars_of(body);
    if contains_str(&all, "\"error\"") {
        return Err(parse_error(body));
    }
    let key = chars_of("\"id\"");
    let mut ids: Vec<String> = Vec::new();
    let mut cursor = all;
    let mut done = false;
    assert(strs_view(ids@) =~= Seq::<Seq<char>>::empty());
    while !done
        invariant
            key@ == "\"id\""@,
            model_ids_from(body@, seq![]) == if done {
                strs_view(ids@)
            } else {
                model_ids_from(cursor@, strs_view(ids@))
            },
        decreases cursor@.len() + if done {
            0int
        } else {
            1int
        },
    {
        match find_chars(&cursor, &key) {
            None => {
                done = true;
            },
            Some(position) => {
                proof {
                    crate::text::lemma_find_from(cursor@, key@, 0);
                }
                let cl = cursor.len();
                let kl = key.len();
                assert(position + kl <= cl);
                let rest = slice_range(&cursor, position + kl, cl);
                assert(rest@ =~= cursor@.skip(position + key@.len()));
                let colon = index_of_char(&rest, ':', 0);
                if colon >= rest.len() {
                    done = true;
                } else {
                    let after = slice_range(&rest, colon + 1, rest.len());
                    assert(after@ =~= rest@.skip(colon + 1));
                    let vs = skip_ws(&after, 0, after.len());
                    assert(after@.subrange(0, after@.len() as int) =~= after@);
                    if vs >= after.len() || after[vs] != '"' {
                        cursor = after;
                    } else {
                        let value = slice_range(&after, vs + 1, after.len());
                        assert(value@ =~= after@.subrange(vs as int, after@.len() as int).drop_first());
                        let id = raw_body_exec(&value);
                        let idv = chars_of(id.as_str());
                        if idv.len() > 0 && !holds_text(&ids, &idv) {
                            let ghost before = ids@;
                            ids.push(id);
                            proof {
                                assert(strs_view(ids@) =~= strs_view(before).push(idv@));
                            }
                        }
                        let q = index_of_char(&value, '"', 0);
                        let next = slice_range(&value, q, value.len());
                        assert(next@ =~= value@.skip(q as int));
                        if next.len() == 0 {
                            done = true;
                        } else {
                            cursor = next;
                        }
                    }
                }
            },
        }
    }
    if ids.len() == 0 {
        Err(OpenAiError::InvalidJson)
    } else {
        Ok(ids)
    }
}

/// The models an endpoint offers.
#[derive(Debug, Clone, PartialEq, Eq)]
pub struct ModelList {
    pub ids: Vec<String>,
}

impl ModelList {
    /// The model list of a `/models` reply; an error status reports the
    /// error the body describes.
    pub fn from_response(response: &OpenAiResponse) -> (r: Result<Self, OpenAiError>)
        ensures
            response.status >= 400 ==> (r matches Err(e) && e@ == spec_parse_error(
                response.body@,
            )),
            response.status < 400 ==> match r {
                Ok(list) => spec_model_ids(response.body@) == Ok::<
                    Seq<Seq<char>>,
                    OpenAiErrorView,
                >(strs_view(list.ids@)),
                Err(e) => spec_model_ids(response.body@) == Err::<
                    Seq<Seq<char>>,
                    OpenAiErrorView,
                >(e@),
            },
    {
        if response.status >= 400 {
            return Err(parse_error(response.body.as_str()));
        }
        match parse_model_ids(response.body.as_str()) {
            Ok(ids) => Ok(ModelList { ids }),
            Err(e) => Err(e),
        }
    }
}

/// What a chat call produced: a whole answer or the events of a stream.
#[derive(Debug, Clone, PartialEq, Eq)]
pub enum ChatResult {
    Complete(String),
    Stream(Vec<SseEvent>),
}

/// A chat result with its text taken by characters.
pub enum ChatResultView {
    Complete(Seq<char>),
    Stream(Seq<SseEventView>),
}

impl View for ChatResult {
    type V = ChatResultView;

    open spec fn view(&self) -> ChatResultView {
        match self {
            ChatResult::Complete(t) => ChatResultView::Complete(t@),
            ChatResult::Stream(es) => ChatResultView::Stream(es@.map_values(|e: SseEvent| e@)),
        }
    }
}

/// What a chat reply yields: an error status reports the body's error; a
/// streamed request accepts a plain JSON completion (a body that starts with
/// `{` after whitespace) or reads one event per line.
pub open spec fn spec_chat_result(stream: bool, status: u16, body: Seq<char>) -> Result<
    ChatResultView,
    OpenAiErrorView,
> {
    if status >= 400 {
        Err(spec_parse_error(body))
    } else if stream && !starts_with(trim_start(body), "{"@) {
        Ok(ChatResultView::Stream(lines(body).map_values(|l: Seq<char>| spec_sse(l))))
    } else {
        match spec_chat_completion(body) {
            Ok(c) => Ok(ChatResultView::Complete(c)),
            Err(e) => Err(e),
        }
    }
}

/// Interprets the reply to a chat request.
pub fn chat_result(stream: bool, response: &OpenAiResponse) -> (r: Result<ChatResult, OpenAiError>)
    ensures
        match r {
            Ok(c) => spec_chat_result(stream, response.status, response.body@) == Ok::<
                ChatResultView,
                OpenAiErrorView,
            >(c@),
            Err(e) => spec_chat_result(stream, response.status, response.body@) == Err::<
                ChatResultView,
                OpenAiErrorView,
            >(e@),
        },
{
    if response.status >= 400 {
        return Err(parse_error(response.body.as_str()));
    }
    let v = chars_of(response.body.as_str());
    let k = skip_ws(&v, 0, v.len());
    assert(v@.subrange(0, v@.len() as int) =~= v@);
    let opens_object = k < v.len() && v[k] == '{';
    proof {
        reveal_strlit("{");
        let t = v@.subrange(k as int, v@.len() as int);
        if k < v.len() {
            assert(t[0] == v@[k as int]);
            if opens_object {
                assert(t.take(1) =~= "{"@);
            } else {
                assert(t.take(1)[0] != "{"@[0]);
            }
        }
        assert(opens_object == starts_with(t, "{"@));
    }
    if stream && !opens_object {
        let ls = lines_of(&v);
        let mut events: Vec<SseEvent> = Vec::new();
        let mut i: usize = 0;
        while i < ls.len()
            invariant
                i <= ls@.len(),
                strs_view(ls@) == lines(v@),
                events@.len() == i,
                forall|j: int|
                    0 <= j < i ==> (#[trigger] events@[j])@ == spec_sse(strs_view(ls@)[j]),
            decreases ls@.len() - i,
        {
            let e = parse_sse_line(ls[i].as_str());
            assert(strs_view(ls@)[i as int] == ls@[i as int]@);
            events.push(e);
            i = i + 1;
        }
        let r = ChatResult::Stream(events);
        assert(events@.map_values(|e: SseEvent| e@) =~= lines(v@).map_values(
            |l: Seq<char>| spec_sse(l),
        ));
        Ok(r)
    } else {
        match parse_chat_completion(response.body.as_str()) {
            Ok(c) => Ok(ChatResult::Complete(c)),
            Err(e) => Err(e),
        }
    }
}

impl OpenAiCompatibleConfig {
    /// The `GET <base>/models` request, authorised with the key.
    pub fn models_request(&self) -> (r: OpenAiRequest)
        ensures
            r.method@ == "GET"@,
            r.url@ == self.endpoint.url() + "/models"@,
            r.headers@.len() == 1,
            r.headers@[0].0@ == "authorization"@,
            r.headers@[0].1@ == "Bearer "@ + self.api_key@,
            r.body@.len() == 0,
    {
        let mut auth = "Bearer ".to_owned();
        push_str(&mut auth, self.api_key.as_str());
        let mut headers: Vec<(String, String)> = Vec::new();
        headers.push(("authorization".to_owned(), auth));
        OpenAiRequest {
            method: "GET".to_owned(),
            url: self.endpoint.models_url(),
            headers,
            body: String::new(),
        }
    }

    /// The request with the configured model filled in when it names none.
    pub fn with_default_model(&self, request: ChatCompletionRequest) -> (r: ChatCompletionRequest)
        ensures
            r.model@ == if request.model@.len() == 0 {
                self.model@
            } else {
                request.model@
            },
            r.messages == request.messages,
            r.stream == request.stream,
    {
        let mut request = request;
        if request.model.as_str().is_empty() {
            request.model = crate::agent::copy_string(&self.model);
        }
        request
    }

    /// The `POST <base>/chat/completions` request carrying the JSON body of
    /// the chat request, authorised with the key.
    pub fn chat_request(&self, request: &ChatCompletionRequest) -> (r: OpenAiRequest)
        ensures
            r.method@ == "POST"@,
            r.url@ == self.endpoint.url() + "/chat/completions"@,
            r.headers@.len() == 2,
            r.headers@[0].0@ == "authorization"@,
            r.headers@[0].1@ == "Bearer "@ + self.api_key@,
            r.headers@[1].0@ == "content-type"@,
            r.headers@[1].1@ == "application/json"@,
            r.body@ == request_json(*request),
    {
        let mut auth = "Bearer ".to_owned();
        push_str(&mut auth, self.api_key.as_str());
        let mut headers: Vec<(String, String)> = Vec::new();
        headers.push(("authorization".to_owned(), auth));
        headers.push(("content-type".to_owned(), "application/json".to_owned()));
        OpenAiRequest {
            method: "POST".to_owned(),
            url: self.endpoint.chat_completions_url(),
            headers,
            body: request.json(),
        }
    }

    /// A description for logs that never shows the key.
    pub fn describe(&self) -> (r: String)
        ensures
            r@ == "OpenAiCompatibleConfig { endpoint: "@ + self.endpoint.url()
                + ", api_key: [REDACTED], model: "@ + self.model@ + " }"@,
    {
        let mut r = "OpenAiCompatibleConfig { endpoint: ".to_owned();
        push_str(&mut r, self.endpoint.as_str());
        push_str(&mut r, ", api_key: [REDACTED], model: ");
        push_str(&mut r, self.model.as_str());
        push_str(&mut r, " }");
        r
    }
}

/// A provider for an OpenAI-compatible endpoint: its settings and the
/// transport that carries its requests. The provider builds each request and
/// reads each reply; the transport only moves the bytes.
#[derive(Clone)]
pub struct OpenAiCompatibleProvider<T> {
    pub config: OpenAiCompatibleConfig,
    pub transport: T,
}

impl<T> OpenAiCompatibleProvider<T> {
    pub fn new(config: OpenAiCompatibleConfig, transport: T) -> (r: Self)
        ensures
            r.config == config,
            r.transport == transport,
    {
        OpenAiCompatibleProvider { config, transport }
    }

    /// The request that lists the endpoint's models.
    pub fn list_models_request(&self) -> (r: OpenAiRequest)
        ensures
            r.method@ == "GET"@,
            r.url@ == self.config.endpoint.url() + "/models"@,
            r.headers@.len() == 1,
            r.headers@[0].0@ == "authorization"@,
            r.headers@[0].1@ == "Bearer "@ + self.config.api_key@,
            r.body@.len() == 0,
    {
        self.config.models_request()
    }

    /// The chat request as it is sent, with the configured model filled in
    /// when it names none, and the HTTP request that carries it.
    pub fn prepare_chat(&self, request: ChatCompletionRequest) -> (r: (
        ChatCompletionRequest,
        OpenAiRequest,
    ))
        ensures
            r.0.model@ == if request.model@.len() == 0 {
                self.config.model@
            } else {
                request.model@
            },
            r.0.messages == request.messages,
            r.0.stream == request.stream,
            r.1.method@ == "POST"@,
            r.1.url@ == self.config.endpoint.url() + "/chat/completions"@,
            r.1.headers@.len() == 2,
            r.1.headers@[0].0@ == "authorization"@,
            r.1.headers@[0].1@ == "Bearer "@ + self.config.api_key@,
            r.1.headers@[1].0@ == "content-type"@,
            r.1.headers@[1].1@ == "application/json"@,
            r.1.body@ == request_json(r.0),
    {
        let request = self.config.with_default_model(request);
        let http = self.config.chat_request(&request);
        (request, http)
    }
}

} // verus!
