//! Bounded tool output: a byte- and line-capped preview of tool output plus
//! metadata about what was cut.

use vstd::prelude::*;

use crate::text::{chars_of, index_of, index_of_from, lines, lines_of, slice_range, IntoText};
use crate::utf8_len::{bytes_len, fit_len, fit_prefix, lemma_bytes_len_take, str_bytes};

verus! {

broadcast use vstd::string::group_string_axioms;

/// Opaque, typed identifier for a persisted output artifact.
#[derive(Debug, Clone, PartialEq, Eq, PartialOrd, Ord, Hash)]
pub struct ArtifactId(String);

impl ArtifactId {
    /// The id text.
    pub closed spec fn spec_str(&self) -> Seq<char> {
        self.0@
    }

    /// Wrap an id string.
    pub fn new(id: impl IntoText) -> (a: Self)
        ensures
            a.spec_str() == id.text_view(),
    {
        ArtifactId(id.into_text())
    }

    /// Borrow the underlying id string.
    pub fn as_str(&self) -> (r: &str)
        ensures
            r@ == self.spec_str(),
    {
        self.0.as_str()
    }
}

impl AsRef<str> for ArtifactId {
    fn as_ref(&self) -> (r: &str)
        ensures
            r@ == self.spec_str(),
    {
        self.0.as_str()
    }
}

/// Which limit (if any) forced the output to be cut down to a preview.
#[derive(Debug, Clone, Copy, PartialEq, Eq, Structural)]
pub enum TruncationKind {
    Untruncated,
    Bytes,
    Lines,
    Both,
}

/// A byte/line-bounded representation of tool output.
#[derive(Debug, Clone, PartialEq, Eq)]
pub struct BoundedOutput {
    /// Preview of the output, within all caps.
    pub preview: String,
    /// Length in bytes of the original output.
    pub total_bytes: usize,
    /// Line count of the original output.
    pub total_lines: usize,
    /// The preview is shorter than the original output.
    pub truncated: bool,
    /// Which limit(s) cut the output short.
    pub truncation: TruncationKind,
    /// Bytes removed to produce the preview.
    pub bytes_omitted: usize,
    /// Lines removed to produce the preview.
    pub lines_omitted: usize,
    /// Identifier of a persisted artifact, when one was written.
    pub artifact_id: Option<ArtifactId>,
    /// The full, untruncated output, when kept.
    pub full_output: Option<String>,
}

/// Limits applied when building a [`BoundedOutput`] from raw output.
#[derive(Debug, Clone, Copy, PartialEq, Eq, Structural)]
pub struct Bounds {
    /// Maximum bytes in the preview; `None` means no byte limit.
    pub max_bytes: Option<usize>,
    /// Maximum lines in the preview; `None` means no line limit.
    pub max_lines: Option<usize>,
}

impl Default for Bounds {
    fn default() -> (b: Self)
        ensures
            b == default_bounds(),
    {
        Bounds { max_bytes: Some(4096), max_lines: Some(200) }
    }
}

/// The default caps: 4096 bytes and 200 lines.
pub open spec fn default_bounds() -> Bounds {
    Bounds { max_bytes: Some(4096usize), max_lines: Some(200usize) }
}

impl Bounds {
    /// No limits at all: the preview is the full output.
    pub fn unbounded() -> (b: Self)
        ensures
            b.max_bytes is None,
            b.max_lines is None,
    {
        Bounds { max_bytes: None, max_lines: None }
    }
}

/// Length of the prefix made of the first `l` lines with their line endings
/// (the whole text when it has fewer than `l` newlines).
pub open spec fn nl_prefix(s: Seq<char>, l: nat) -> nat
    decreases l,
{
    if l == 0 {
        0
    } else {
        let k = index_of(s, '\n');
        if k < 0 || k >= s.len() {
            s.len()
        } else {
            (k + 1 + nl_prefix(s.skip(k + 1), (l - 1) as nat)) as nat
        }
    }
}

/// Trailing `\n` and `\r` characters removed.
pub open spec fn trim_nl_end(s: Seq<char>) -> Seq<char>
    decreases s.len(),
{
    if s.len() > 0 && (s.last() == '\n' || s.last() == '\r') {
        trim_nl_end(s.drop_last())
    } else {
        s
    }
}

/// More lines than the line cap allows.
pub open spec fn line_limited(s: Seq<char>, bounds: Bounds) -> bool {
    match bounds.max_lines {
        Some(l) => lines(s).len() > l,
        None => false,
    }
}

/// The text after the line cap: the first lines without their final line ending.
pub open spec fn line_preview(s: Seq<char>, bounds: Bounds) -> Seq<char> {
    match bounds.max_lines {
        Some(l) => if lines(s).len() > l {
            trim_nl_end(s.take(nl_prefix(s, l as nat) as int))
        } else {
            s
        },
        None => s,
    }
}

/// The byte cap cuts the line preview.
pub open spec fn byte_limited(s: Seq<char>, bounds: Bounds) -> bool {
    match bounds.max_bytes {
        Some(b) => bytes_len(line_preview(s, bounds)) > b,
        None => false,
    }
}

/// The preview: the line preview cut to the longest prefix that fits the byte cap.
pub open spec fn spec_preview(s: Seq<char>, bounds: Bounds) -> Seq<char> {
    let lp = line_preview(s, bounds);
    match bounds.max_bytes {
        Some(b) => if bytes_len(lp) > b {
            lp.take(fit_len(lp, b as nat) as int)
        } else {
            lp
        },
        None => lp,
    }
}

/// The truncation kind for the two limits.
pub open spec fn kind_of(by_bytes: bool, by_lines: bool) -> TruncationKind {
    if by_bytes && by_lines {
        TruncationKind::Both
    } else if by_bytes {
        TruncationKind::Bytes
    } else if by_lines {
        TruncationKind::Lines
    } else {
        TruncationKind::Untruncated
    }
}

/// The numbers and text of a bounded output, without the optional fields.
pub struct BoundedSummary {
    pub preview: Seq<char>,
    pub total_bytes: nat,
    pub total_lines: nat,
    pub truncated: bool,
    pub truncation: TruncationKind,
    pub bytes_omitted: nat,
    pub lines_omitted: nat,
}

/// What bounding `s` with `bounds` yields.
pub open spec fn bounded_summary(s: Seq<char>, bounds: Bounds) -> BoundedSummary {
    let preview = spec_preview(s, bounds);
    BoundedSummary {
        preview,
        total_bytes: bytes_len(s),
        total_lines: lines(s).len(),
        truncated: bytes_len(preview) < bytes_len(s) || line_limited(s, bounds),
        truncation: kind_of(byte_limited(s, bounds), line_limited(s, bounds)),
        bytes_omitted: (bytes_len(s) - bytes_len(preview)) as nat,
        lines_omitted: crate::context::sat_sub(lines(s).len() as int, lines(preview).len() as int)
            as nat,
    }
}

impl BoundedOutput {
    /// The numbers and text of this output.
    pub open spec fn summary(&self) -> BoundedSummary {
        BoundedSummary {
            preview: self.preview@,
            total_bytes: self.total_bytes as nat,
            total_lines: self.total_lines as nat,
            truncated: self.truncated,
            truncation: self.truncation,
            bytes_omitted: self.bytes_omitted as nat,
            lines_omitted: self.lines_omitted as nat,
        }
    }
}

proof fn lemma_index_shift(t: Seq<char>, c: char, i: int)
    requires
        0 <= i,
        t.len() > 0,
    ensures
        index_of_from(t, c, i + 1) == 1 + index_of_from(t.drop_first(), c, i),
    decreases t.len() - i,
{
    if i + 1 < t.len() {
        assert(t[i + 1] == t.drop_first()[i]);
        if t[i + 1] != c {
            lemma_index_shift(t, c, i + 1);
        }
    }
}

proof fn lemma_nl_prefix_len(s: Seq<char>, l: nat)
    ensures
        nl_prefix(s, l) <= s.len(),
    decreases l,
{
    if l > 0 {
        crate::text::lemma_index_of_from(s, '\n', 0);
        let k = index_of(s, '\n');
        if k < s.len() {
            lemma_nl_prefix_len(s.skip(k + 1), (l - 1) as nat);
        }
    }
}

proof fn lemma_nl_prefix_step(t: Seq<char>, m: nat)
    requires
        t.len() > 0,
        m > 0,
    ensures
        t[0] == '\n' ==> nl_prefix(t, m) == 1 + nl_prefix(t.drop_first(), (m - 1) as nat),
        t[0] != '\n' ==> nl_prefix(t, m) == 1 + nl_prefix(t.drop_first(), m),
{
    if t[0] == '\n' {
        assert(t.skip(1) =~= t.drop_first());
    } else {
        lemma_index_shift(t, '\n', 0);
        crate::text::lemma_index_of_from(t.drop_first(), '\n', 0);
        let k = index_of(t, '\n');
        if k < t.len() {
            assert(t.drop_first().skip(k) =~= t.skip(k + 1));
        }
    }
}

/// `nl_prefix` computed by scanning.
fn nl_prefix_exec(v: &[char], l: usize) -> (p: usize)
    ensures
        p == nl_prefix(v@, l as nat),
        p <= v.len(),
{
    let n = v.len();
    let mut i: usize = 0;
    let mut c: usize = 0;
    assert(v@.skip(0) =~= v@);
    while i < n && c < l
        invariant
            n == v.len(),
            i <= n,
            c <= l,
            i + nl_prefix(v@.skip(i as int), (l - c) as nat) == nl_prefix(v@, l as nat),
        decreases n - i,
    {
        proof {
            let t = v@.skip(i as int);
            assert(t[0] == v@[i as int]);
            assert(t.drop_first() =~= v@.skip(i + 1));
            lemma_nl_prefix_step(t, (l - c) as nat);
        }
        if v[i] == '\n' {
            c = c + 1;
        }
        i = i + 1;
    }
    proof {
        if i == n {
            assert(v@.skip(i as int).len() == 0);
            crate::text::lemma_index_of_from(v@.skip(i as int), '\n', 0);
        }
        lemma_nl_prefix_len(v@, l as nat);
    }
    i
}

proof fn lemma_trim_nl_end_take(s: Seq<char>, k: int)
    requires
        0 <= k <= s.len(),
        forall|i: int| k <= i < s.len() ==> (#[trigger] s[i] == '\n' || s[i] == '\r'),
        k == 0 || (s[k - 1] != '\n' && s[k - 1] != '\r'),
    ensures
        trim_nl_end(s) == s.take(k),
    decreases s.len() - k,
{
    if k == s.len() {
        assert(s.take(k) =~= s);
    } else {
        assert(s.drop_last().take(k) =~= s.take(k));
        assert forall|i: int| k <= i < s.drop_last().len() implies (#[trigger] s.drop_last()[i]
            == '\n' || s.drop_last()[i] == '\r') by {
            assert(s.drop_last()[i] == s[i]);
        }
        if k > 0 {
            assert(s.drop_last()[k - 1] == s[k - 1]);
        }
        lemma_trim_nl_end_take(s.drop_last(), k);
    }
}

/// The end of `v[..p]` with trailing line-ending characters removed.
fn trim_nl_back(v: &[char], p: usize) -> (e: usize)
    requires
        p <= v.len(),
    ensures
        e <= p,
        trim_nl_end(v@.take(p as int)) == v@.take(e as int),
{
    let mut e = p;
    while e > 0 && (v[e - 1] == '\n' || v[e - 1] == '\r')
        invariant
            e <= p <= v.len(),
            forall|i: int| e <= i < p ==> (#[trigger] v@[i] == '\n' || v@[i] == '\r'),
        decreases e,
    {
        e = e - 1;
    }
    proof {
        let s = v@.take(p as int);
        assert forall|i: int| e <= i < s.len() implies (#[trigger] s[i] == '\n' || s[i]
            == '\r') by {
            assert(s[i] == v@[i]);
        }
        if e > 0 {
            assert(s[e - 1] == v@[e - 1]);
        }
        lemma_trim_nl_end_take(s, e as int);
        assert(s.take(e as int) =~= v@.take(e as int));
    }
    e
}

/// The byte count of characters whose encoding is known to fit in `usize`.
fn bytes_of_chars(v: &[char]) -> (n: usize)
    requires
        bytes_len(v@) <= usize::MAX,
    ensures
        n == bytes_len(v@),
{
    let mut i: usize = 0;
    let mut acc: usize = 0;
    assert(v@.take(0) =~= Seq::<char>::empty());
    while i < v.len()
        invariant
            i <= v.len(),
            acc == bytes_len(v@.take(i as int)),
            bytes_len(v@) <= usize::MAX,
        decreases v.len() - i,
    {
        proof {
            lemma_bytes_len_take(v@, i + 1, v.len() as int);
            assert(v@.take(i + 1) =~= v@.take(i as int).push(v@[i as int]));
            crate::utf8_len::lemma_bytes_len_push(v@.take(i as int), v@[i as int]);
        }
        acc = acc + crate::utf8_len::char_len_utf8(v[i]);
        i = i + 1;
    }
    assert(v@.take(v.len() as int) =~= v@);
    acc
}

impl BoundedOutput {
    /// A bounded output from explicit preview and metadata, with no artifact
    /// id and no full output.
    pub fn from_parts(
        preview: String,
        total_bytes: usize,
        total_lines: usize,
        truncated: bool,
        truncation: TruncationKind,
        bytes_omitted: usize,
        lines_omitted: usize,
    ) -> (o: Self)
        ensures
            o.preview == preview,
            o.total_bytes == total_bytes,
            o.total_lines == total_lines,
            o.truncated == truncated,
            o.truncation == truncation,
            o.bytes_omitted == bytes_omitted,
            o.lines_omitted == lines_omitted,
            o.artifact_id is None,
            o.full_output is None,
    {
        BoundedOutput {
            preview,
            total_bytes,
            total_lines,
            truncated,
            truncation,
            bytes_omitted,
            lines_omitted,
            artifact_id: None,
            full_output: None,
        }
    }

    /// The same output with an artifact id attached.
    pub fn with_artifact_id(self, id: ArtifactId) -> (o: Self)
        ensures
            o.artifact_id == Some(id),
            o.preview == self.preview,
            o.full_output == self.full_output,
            o.truncated == self.truncated,
            o.total_bytes == self.total_bytes,
            o.total_lines == self.total_lines,
    {
        let mut o = self;
        o.artifact_id = Some(id);
        o
    }

    /// The same output with the full text attached.
    pub fn with_full_output(self, full: String) -> (o: Self)
        ensures
            o.full_output == Some(full),
            o.preview == self.preview,
            o.artifact_id == self.artifact_id,
            o.truncated == self.truncated,
            o.total_bytes == self.total_bytes,
            o.total_lines == self.total_lines,
    {
        let mut o = self;
        o.full_output = Some(full);
        o
    }

    /// The full text still to be written to disk: that of a truncated output
    /// that keeps it in memory and has no artifact yet.
    pub fn text_to_persist(&self) -> (r: Option<&str>)
        ensures
            r matches Some(t) ==> self.truncated && self.artifact_id is None && (self.full_output
                matches Some(f) && t@ == f@),
            r is None ==> !(self.truncated && self.artifact_id is None && self.full_output is Some),
    {
        if self.truncated && self.artifact_id.is_none() {
            match &self.full_output {
                Some(f) => Some(f.as_str()),
                None => None,
            }
        } else {
            None
        }
    }

    /// The output once its full text was written as an artifact: the id is
    /// kept and the in-memory copy dropped; everything else stays.
    pub fn persisted(self, id: ArtifactId) -> (o: Self)
        ensures
            o.artifact_id == Some(id),
            o.full_output is None,
            o.preview == self.preview,
            o.total_bytes == self.total_bytes,
            o.total_lines == self.total_lines,
            o.truncated == self.truncated,
            o.truncation == self.truncation,
            o.bytes_omitted == self.bytes_omitted,
            o.lines_omitted == self.lines_omitted,
    {
        let mut o = self;
        o.artifact_id = Some(id);
        o.full_output = None;
        o
    }

    /// Bounds raw output: the line cap keeps the first lines (without the last
    /// kept line's ending), then the byte cap keeps the longest prefix that
    /// fits, never splitting a character.
    pub fn truncate(input: &str, bounds: Bounds) -> (o: Self)
        ensures
            o.preview@ == spec_preview(input@, bounds),
            o.total_bytes == bytes_len(input@),
            o.total_lines == lines(input@).len(),
            o.truncated == (bytes_len(spec_preview(input@, bounds)) < bytes_len(input@)
                || line_limited(input@, bounds)),
            o.truncation == kind_of(byte_limited(input@, bounds), line_limited(input@, bounds)),
            o.bytes_omitted == bytes_len(input@) - bytes_len(spec_preview(input@, bounds)),
            o.lines_omitted == crate::context::sat_sub(
                lines(input@).len() as int,
                lines(spec_preview(input@, bounds)).len() as int,
            ),
            o.artifact_id is None,
            o.truncated ==> (o.full_output matches Some(f) && f@ == input@),
            !o.truncated ==> o.full_output is None,
            bytes_len(o.preview@) <= bytes_len(input@),
            bounds.max_bytes matches Some(b) ==> bytes_len(o.preview@) <= b,
            o.summary() == bounded_summary(input@, bounds),
    {
        let v = chars_of(input);
        let total_bytes = str_bytes(input);
        let all_lines = lines_of(&v);
        let total_lines = all_lines.len();
        proof {
            assert(crate::text::strs_view(all_lines@).len() == all_lines@.len());
        }
        let limited_by_lines = match bounds.max_lines {
            Some(l) => total_lines > l,
            None => false,
        };
        let lp: Vec<char> = if limited_by_lines {
            let l = match bounds.max_lines {
                Some(l) => l,
                None => 0,
            };
            let p = nl_prefix_exec(&v, l);
            let e = trim_nl_back(&v, p);
            slice_range(&v, 0, e)
        } else {
            slice_range(&v, 0, v.len())
        };
        proof {
            assert(v@.subrange(0, v.len() as int) =~= v@);
            if limited_by_lines {
                assert(lp@ =~= v@.take(lp@.len() as int));
            }
            lemma_bytes_len_take(v@, lp@.len() as int, v@.len() as int);
            assert(v@.take(lp@.len() as int) =~= lp@);
            assert(v@.take(v@.len() as int) =~= v@);
        }
        let lp_bytes = bytes_of_chars(&lp);
        let preview_chars: Vec<char> = match bounds.max_bytes {
            Some(b) => if lp_bytes > b {
                let k = fit_prefix(&lp, b);
                proof {
                    crate::utf8_len::lemma_fit_len(lp@, b as nat);
                }
                slice_range(&lp, 0, k)
            } else {
                slice_range(&lp, 0, lp.len())
            },
            None => slice_range(&lp, 0, lp.len()),
        };
        proof {
            assert(lp@.subrange(0, lp.len() as int) =~= lp@);
            assert(preview_chars@ =~= lp@.take(preview_chars@.len() as int));
            lemma_bytes_len_take(lp@, preview_chars@.len() as int, lp@.len() as int);
            if bounds.max_bytes is Some {
                crate::utf8_len::lemma_fit_len(lp@, bounds.max_bytes->0 as nat);
            }
        }
        let preview_bytes = bytes_of_chars(&preview_chars);
        let preview_lines = lines_of(&preview_chars);
        proof {
            assert(crate::text::strs_view(preview_lines@).len() == preview_lines@.len());
        }
        let by_bytes = preview_bytes < lp_bytes;
        let truncated = preview_bytes < total_bytes || limited_by_lines;
        let truncation = if by_bytes && limited_by_lines {
            TruncationKind::Both
        } else if by_bytes {
            TruncationKind::Bytes
        } else if limited_by_lines {
            TruncationKind::Lines
        } else {
            TruncationKind::Untruncated
        };
        let lines_omitted = if total_lines >= preview_lines.len() {
            total_lines - preview_lines.len()
        } else {
            0
        };
        let preview = crate::text::from_chars(&preview_chars);
        let full_output = if truncated {
            Some(input.to_owned())
        } else {
            None
        };
        BoundedOutput {
            preview,
            total_bytes,
            total_lines,
            truncated,
            truncation,
            bytes_omitted: total_bytes - preview_bytes,
            lines_omitted,
            artifact_id: None,
            full_output,
        }
    }
}

} // verus!
