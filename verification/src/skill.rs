//! Skills: portable capability packages (instructions, workflows, tool
//! requirements) described by a SKILL.md file with a `---` frontmatter.
//!
//! Sources, in precedence order (later overrides earlier by name): the
//! built-in skills, global skills and project skills. Reading the skill
//! directories is done by the caller, who hands the texts found to the
//! registry.

use vstd::prelude::*;

use crate::agent::copy_string;
use crate::text::{
    lemma_name_lt_asymmetric, lemma_name_lt_irreflexive, lemma_name_lt_total, lemma_name_lt_transitive, name_less, name_lt,
    chars_of, eq_str, from_chars, from_range, join, join_strs, lines, lines_of, push_str,
    slice_range, starts_with, starts_with_str, strs_view, trim, trim_bounds, trim_start, IntoText,
};

verus! {

/// Where a skill was discovered.
#[derive(Debug, Clone, Copy, PartialEq, Eq, Structural, Hash)]
pub enum SkillSource {
    BuiltIn,
    Global,
    Project,
}

impl SkillSource {
    /// The name of the source in listings.
    pub open spec fn spec_name(self) -> Seq<char> {
        match self {
            SkillSource::BuiltIn => "built-in"@,
            SkillSource::Global => "global"@,
            SkillSource::Project => "project"@,
        }
    }

    /// The name of the source in listings.
    pub fn name(&self) -> (r: &'static str)
        ensures
            r@ == self.spec_name(),
    {
        match self {
            SkillSource::BuiltIn => "built-in",
            SkillSource::Global => "global",
            SkillSource::Project => "project",
        }
    }

    /// The name of the source in listings, owned.
    pub fn to_string(&self) -> (r: String)
        ensures
            r@ == self.spec_name(),
    {
        self.name().to_owned()
    }

    /// Rank among sources: a later source overrides an earlier one.
    pub open spec fn precedence(self) -> nat {
        match self {
            SkillSource::BuiltIn => 0,
            SkillSource::Global => 1,
            SkillSource::Project => 2,
        }
    }
}

/// Lightweight metadata extracted from a SKILL.md frontmatter.
#[derive(Debug, Clone, PartialEq, Eq)]
pub struct SkillMetadata {
    pub name: String,
    pub description: String,
    pub version: String,
    pub author: String,
    pub tags: Vec<String>,
    pub source: SkillSource,
    pub path: String,
}

impl SkillMetadata {
    /// A short one-line label: `name (source)`.
    pub fn label(&self) -> (r: String)
        ensures
            r@ == self.name@ + " ("@ + self.source.spec_name() + ")"@,
    {
        let mut r = copy_string(&self.name);
        push_str(&mut r, " (");
        push_str(&mut r, self.source.name());
        push_str(&mut r, ")");
        r
    }
}

/// A fully loaded skill: metadata, the body after the frontmatter, and the
/// complete text.
#[derive(Debug, Clone, PartialEq, Eq)]
pub struct Skill {
    pub metadata: SkillMetadata,
    pub content: String,
    pub raw: String,
}

/// Why parsing or loading a skill failed.
#[derive(Debug, Clone, PartialEq, Eq)]
pub enum SkillError {
    /// The SKILL.md frontmatter could not be parsed.
    InvalidFrontmatter(String),
    /// The skill file could not be read.
    Io(String),
    /// The skill was not found in any source.
    NotFound(String),
    /// The frontmatter is missing the required `name` field.
    MissingName,
}

impl SkillError {
    /// The one-line description of the error.
    pub open spec fn spec_message(&self) -> Seq<char> {
        match self {
            SkillError::InvalidFrontmatter(m) => "invalid skill frontmatter: "@ + m@,
            SkillError::Io(m) => "skill I/O error: "@ + m@,
            SkillError::NotFound(n) => "skill not found: "@ + n@,
            SkillError::MissingName => "skill frontmatter is missing required `name` field"@,
        }
    }

    /// The one-line description of the error.
    pub fn to_string(&self) -> (s: String)
        ensures
            s@ == self.spec_message(),
    {
        let (head, tail): (&str, &str) = match self {
            SkillError::InvalidFrontmatter(m) => ("invalid skill frontmatter: ", m.as_str()),
            SkillError::Io(m) => ("skill I/O error: ", m.as_str()),
            SkillError::NotFound(n) => ("skill not found: ", n.as_str()),
            SkillError::MissingName => ("skill frontmatter is missing required `name` field", ""),
        };
        let mut s = head.to_owned();
        push_str(&mut s, tail);
        proof {
            reveal_strlit("");
        }
        s
    }
}

// ---------------------------------------------------------------------------
// Frontmatter
// ---------------------------------------------------------------------------

/// What follows an opening `---` line, if the text starts with one.
pub open spec fn after_opening(raw: Seq<char>) -> Option<Seq<char>> {
    if starts_with(raw, "---\n"@) {
        Some(raw.skip("---\n"@.len() as int))
    } else if starts_with(raw, "---\r\n"@) {
        Some(raw.skip("---\r\n"@.len() as int))
    } else {
        None
    }
}

/// The index of the first line at or after `i` that reads `---` once
/// trimmed, or the number of lines.
pub open spec fn closing_line(ls: Seq<Seq<char>>, i: int) -> int
    decreases ls.len() - i,
{
    if i < 0 || i >= ls.len() {
        ls.len() as int
    } else if trim(ls[i]) == "---"@ {
        i
    } else {
        closing_line(ls, i + 1)
    }
}

/// The position just past the first `\n` at or after `p`, or the length of
/// `s` when there is none.
pub open spec fn next_line_start(s: Seq<char>, p: int) -> int
    decreases s.len() - p,
{
    if p < 0 || p >= s.len() {
        s.len() as int
    } else if s[p] == '\n' {
        p + 1
    } else {
        next_line_start(s, p + 1)
    }
}

/// The position just past the first `n` lines of `s`, each with its line
/// ending (`\n` or `\r\n`); the length of `s` when it has fewer lines.
pub open spec fn after_lines(s: Seq<char>, n: nat) -> int
    decreases n,
{
    if n == 0 {
        0
    } else {
        next_line_start(s, after_lines(s, (n - 1) as nat))
    }
}

/// `s` with leading `\r` and `\n` removed.
pub open spec fn trim_start_newlines(s: Seq<char>) -> Seq<char>
    decreases s.len(),
{
    if s.len() > 0 && (s[0] == '\r' || s[0] == '\n') {
        trim_start_newlines(s.drop_first())
    } else {
        s
    }
}

/// A SKILL.md text split into its frontmatter lines (joined by `\n`) and
/// its body: the text after the whole closing `---` line, whatever its line
/// ending, with leading line breaks removed. Without a closing line the body
/// is empty; without a frontmatter the frontmatter is empty and the body is
/// the whole text.
pub open spec fn spec_split(raw: Seq<char>) -> (Seq<char>, Seq<char>) {
    match after_opening(raw) {
        None => (seq![], raw),
        Some(rest) => {
            let ls = lines(rest);
            let close = closing_line(ls, 0);
            let n = if close + 1 <= ls.len() {
                close + 1
            } else {
                ls.len() as int
            };
            (join(ls.take(close), "\n"@), trim_start_newlines(rest.skip(after_lines(rest, n as nat))))
        },
    }
}

proof fn lemma_closing_line_is(ls: Seq<Seq<char>>, i: int, k: int)
    requires
        0 <= i <= k <= ls.len(),
        forall|j: int| i <= j < k ==> trim(#[trigger] ls[j]) != "---"@,
        k == ls.len() || trim(ls[k]) == "---"@,
    ensures
        closing_line(ls, i) == k,
    decreases k - i,
{
    if i < k {
        lemma_closing_line_is(ls, i + 1, k);
    }
}

proof fn lemma_next_line_start_is(s: Seq<char>, p: int, q: int)
    requires
        0 <= p <= q <= s.len(),
        forall|m: int| p <= m < q ==> #[trigger] s[m] != '\n',
        q == s.len() || s[q] == '\n',
    ensures
        next_line_start(s, p) == if q < s.len() {
            q + 1
        } else {
            s.len() as int
        },
    decreases q - p,
{
    if p < q {
        lemma_next_line_start_is(s, p + 1, q);
    }
}

proof fn lemma_trim_start_newlines_is(s: Seq<char>, k: int)
    requires
        0 <= k <= s.len(),
        forall|j: int| 0 <= j < k ==> (#[trigger] s[j] == '\r' || s[j] == '\n'),
        k == s.len() || (s[k] != '\r' && s[k] != '\n'),
    ensures
        trim_start_newlines(s) == s.skip(k),
    decreases k,
{
    if k == 0 {
        assert(s.skip(0) =~= s);
    } else {
        assert(s.drop_first().skip(k - 1) =~= s.skip(k));
        assert forall|j: int| 0 <= j < k - 1 implies (#[trigger] s.drop_first()[j] == '\r'
            || s.drop_first()[j] == '\n') by {
            assert(s.drop_first()[j] == s[j + 1]);
        }
        if k - 1 < s.drop_first().len() {
            assert(s.drop_first()[k - 1] == s[k]);
        }
        lemma_trim_start_newlines_is(s.drop_first(), k - 1);
    }
}

/// Whether a line reads `---` once trimmed.
fn is_delimiter(line: &str) -> (r: bool)
    ensures
        r == (trim(line@) == "---"@),
{
    let v = chars_of(line);
    let (a, b) = trim_bounds(&v, 0, v.len());
    assert(v@.subrange(0, v@.len() as int) =~= v@);
    let t = slice_range(&v, a, b);
    eq_str(&t, "---")
}

/// Splits SKILL.md text into its frontmatter and its body.
pub fn split_frontmatter(raw: &str) -> (r: (String, String))
    ensures
        r.0@ == spec_split(raw@).0,
        r.1@ == spec_split(raw@).1,
{
    proof {
        reveal_strlit("---\n");
        reveal_strlit("---\r\n");
    }
    let v = chars_of(raw);
    let rest: Vec<char> = if starts_with_str(&v, "---\n") {
        let r = slice_range(&v, 4, v.len());
        assert(r@ =~= v@.skip(4));
        r
    } else if starts_with_str(&v, "---\r\n") {
        let r = slice_range(&v, 5, v.len());
        assert(r@ =~= v@.skip(5));
        r
    } else {
        return (String::new(), raw.to_owned());
    };
    let ls = lines_of(&rest);
    let ghost lsv = strs_view(ls@);
    let mut close: usize = 0;
    while close < ls.len() && !is_delimiter(ls[close].as_str())
        invariant
            close <= ls@.len(),
            lsv == strs_view(ls@),
            forall|j: int| 0 <= j < close ==> trim(#[trigger] lsv[j]) != "---"@,
        decreases ls@.len() - close,
    {
        assert(lsv[close as int] == ls@[close as int]@);
        close = close + 1;
    }
    proof {
        if close < ls@.len() {
            assert(lsv[close as int] == ls@[close as int]@);
        }
        lemma_closing_line_is(lsv, 0, close as int);
    }
    let mut head: Vec<String> = Vec::new();
    let mut i: usize = 0;
    while i < close
        invariant
            close <= ls@.len(),
            i <= close,
            lsv == strs_view(ls@),
            strs_view(head@) == lsv.take(i as int),
        decreases close - i,
    {
        let ghost before = head@;
        head.push(copy_string(&ls[i]));
        proof {
            assert(strs_view(head@) =~= strs_view(before).push(ls@[i as int]@));
            assert(lsv.take(i + 1) =~= lsv.take(i as int).push(lsv[i as int]));
        }
        i = i + 1;
    }
    let frontmatter = join_strs(&head, "\n");
    let n = if close < ls.len() {
        close + 1
    } else {
        ls.len()
    };
    let mut pos: usize = 0;
    let mut c: usize = 0;
    while c < n
        invariant
            c <= n,
            pos as int == after_lines(rest@, c as nat),
            pos <= rest@.len(),
        decreases n - c,
    {
        let mut q = pos;
        while q < rest.len() && rest[q] != '\n'
            invariant
                pos <= q <= rest@.len(),
                forall|m: int| pos <= m < q ==> #[trigger] rest@[m] != '\n',
            decreases rest@.len() - q,
        {
            q = q + 1;
        }
        proof {
            lemma_next_line_start_is(rest@, pos as int, q as int);
        }
        pos = if q < rest.len() {
            q + 1
        } else {
            rest.len()
        };
        c = c + 1;
    }
    let mut k = pos;
    while k < rest.len() && (rest[k] == '\r' || rest[k] == '\n')
        invariant
            pos <= k <= rest@.len(),
            forall|m: int| pos <= m < k ==> (#[trigger] rest@[m] == '\r' || rest@[m] == '\n'),
        decreases rest@.len() - k,
    {
        k = k + 1;
    }
    proof {
        let t = rest@.skip(pos as int);
        assert forall|m: int| 0 <= m < k - pos implies (#[trigger] t[m] == '\r' || t[m] == '\n') by {
            assert(t[m] == rest@[pos + m]);
        }
        if k < rest@.len() {
            assert(t[k - pos] == rest@[k as int]);
        }
        lemma_trim_start_newlines_is(t, k - pos);
        assert(t.skip(k - pos) =~= rest@.subrange(k as int, rest@.len() as int));
    }
    let body = from_range(&rest, k, rest.len());
    (frontmatter, body)
}

/// `s` with every leading and trailing `c` removed (`str::trim_matches`).
pub open spec fn trim_matches(s: Seq<char>, c: char) -> Seq<char>
    decreases s.len(),
{
    if s.len() > 0 && s[0] == c {
        trim_matches(s.drop_first(), c)
    } else if s.len() > 0 && s.last() == c {
        trim_matches(s.drop_last(), c)
    } else {
        s
    }
}

/// A value with surrounding double quotes, then single quotes, removed.
pub open spec fn unquote(s: Seq<char>) -> Seq<char> {
    trim_matches(trim_matches(s, '"'), '\'')
}

/// `s` with every leading and trailing `c` removed.
fn trim_matches_exec(v: &[char], c: char) -> (r: Vec<char>)
    ensures
        r@ == trim_matches(v@, c),
{
    let mut lo: usize = 0;
    let mut hi: usize = v.len();
    assert(v@.subrange(0, v@.len() as int) =~= v@);
    while lo < hi && (v[lo] == c || v[hi - 1] == c)
        invariant
            lo <= hi <= v@.len(),
            trim_matches(v@, c) == trim_matches(v@.subrange(lo as int, hi as int), c),
        decreases hi - lo,
    {
        let ghost s = v@.subrange(lo as int, hi as int);
        if v[lo] == c {
            assert(s[0] == v@[lo as int]);
            assert(s.drop_first() =~= v@.subrange(lo + 1, hi as int));
            lo = lo + 1;
        } else {
            assert(s[0] == v@[lo as int]);
            assert(s.last() == v@[hi - 1]);
            assert(s.drop_last() =~= v@.subrange(lo as int, hi - 1));
            hi = hi - 1;
        }
    }
    proof {
        let s = v@.subrange(lo as int, hi as int);
        if lo < hi {
            assert(s[0] == v@[lo as int]);
            assert(s.last() == v@[hi - 1]);
        }
    }
    slice_range(v, lo, hi)
}

/// A value with surrounding quotes removed.
pub fn unquote_text(v: &[char]) -> (r: String)
    ensures
        r@ == unquote(v@),
{
    unquote_exec(v)
}

/// A value with surrounding quotes removed.
fn unquote_exec(v: &[char]) -> (r: String)
    ensures
        r@ == unquote(v@),
{
    let a = trim_matches_exec(v, '"');
    let b = trim_matches_exec(&a, '\'');
    from_chars(&b)
}

/// The value of a `key: value` line, once trimmed, unquoted.
pub open spec fn field_value(line: Seq<char>, key: Seq<char>) -> Option<Seq<char>> {
    let t = trim(line);
    if starts_with(t, key) {
        let after = trim_start(t.skip(key.len() as int));
        if after.len() > 0 && after[0] == ':' {
            Some(unquote(trim(after.drop_first())))
        } else {
            None
        }
    } else {
        None
    }
}

/// The value of the first line defining the key.
pub open spec fn field_in(ls: Seq<Seq<char>>, key: Seq<char>) -> Option<Seq<char>>
    decreases ls.len(),
{
    if ls.len() == 0 {
        None
    } else {
        match field_value(ls[0], key) {
            Some(v) => Some(v),
            None => field_in(ls.drop_first(), key),
        }
    }
}

/// The value of a line, if it defines the key.
fn line_field(line: &str, key: &str) -> (r: Option<String>)
    ensures
        match r {
            Some(s) => field_value(line@, key@) == Some(s@),
            None => field_value(line@, key@) is None,
        },
{
    let v = chars_of(line);
    let (a, b) = trim_bounds(&v, 0, v.len());
    assert(v@.subrange(0, v@.len() as int) =~= v@);
    let t = slice_range(&v, a, b);
    let kv = chars_of(key);
    if !crate::text::starts_with_chars(&t, &kv) {
        return None;
    }
    let s = crate::text::skip_ws(&t, kv.len(), t.len());
    assert(t@.subrange(kv@.len() as int, t@.len() as int) =~= t@.skip(kv@.len() as int));
    if s >= t.len() || t[s] != ':' {
        return None;
    }
    let (c, d) = trim_bounds(&t, s + 1, t.len());
    assert(t@.subrange(s as int, t@.len() as int).drop_first() =~= t@.subrange(
        s + 1,
        t@.len() as int,
    ));
    let value = slice_range(&t, c, d);
    Some(unquote_exec(&value))
}

/// Extracts a simple `key: value` field from frontmatter lines.
pub fn extract_field(frontmatter: &str, key: &str) -> (r: Option<String>)
    ensures
        match r {
            Some(s) => field_in(lines(frontmatter@), key@) == Some(s@),
            None => field_in(lines(frontmatter@), key@) is None,
        },
{
    let v = chars_of(frontmatter);
    let ls = lines_of(&v);
    let ghost lsv = strs_view(ls@);
    let mut i: usize = 0;
    assert(lsv.skip(0) =~= lsv);
    while i < ls.len()
        invariant
            i <= ls@.len(),
            lsv == strs_view(ls@),
            lsv == lines(frontmatter@),
            field_in(lsv, key@) == field_in(lsv.skip(i as int), key@),
        decreases ls@.len() - i,
    {
        assert(lsv.skip(i as int)[0] == ls@[i as int]@);
        assert(lsv.skip(i as int).drop_first() =~= lsv.skip(i + 1));
        match line_field(ls[i].as_str(), key) {
            Some(s) => {
                return Some(s);
            },
            None => {},
        }
        i = i + 1;
    }
    None
}

/// The items of the list under `key:`: lines `- item` (unquoted) after the
/// key line, until a non-empty line that does not start with `-`.
pub open spec fn list_items(ls: Seq<Seq<char>>, key: Seq<char>, in_list: bool) -> Seq<Seq<char>>
    decreases ls.len(),
{
    if ls.len() == 0 {
        seq![]
    } else {
        let t = trim(ls[0]);
        let rest = ls.drop_first();
        if starts_with(t, key + ":"@) {
            list_items(rest, key, true)
        } else if in_list {
            if starts_with(t, "- "@) {
                seq![unquote(t.skip(2))] + list_items(rest, key, true)
            } else if t.len() > 0 && t[0] != '-' {
                list_items(rest, key, false)
            } else {
                list_items(rest, key, true)
            }
        } else {
            list_items(rest, key, false)
        }
    }
}

/// Extracts a YAML-style list field (lines `- item` under `key:`).
pub fn extract_list_field(frontmatter: &str, key: &str) -> (r: Vec<String>)
    ensures
        strs_view(r@) == list_items(lines(frontmatter@), key@, false),
{
    proof {
        reveal_strlit("- ");
    }
    let v = chars_of(frontmatter);
    let ls = lines_of(&v);
    let ghost lsv = strs_view(ls@);
    let mut header = key.to_owned();
    push_str(&mut header, ":");
    let hv = chars_of(header.as_str());
    let mut items: Vec<String> = Vec::new();
    let mut in_list = false;
    let mut i: usize = 0;
    assert(lsv.skip(0) =~= lsv);
    assert(strs_view(items@) + list_items(lsv, key@, false) =~= list_items(lsv, key@, false));
    while i < ls.len()
        invariant
            i <= ls@.len(),
            lsv == strs_view(ls@),
            lsv == lines(frontmatter@),
            hv@ == key@ + ":"@,
            list_items(lsv, key@, false) == strs_view(items@) + list_items(
                lsv.skip(i as int),
                key@,
                in_list,
            ),
        decreases ls@.len() - i,
    {
        let ghost rest = lsv.skip(i as int);
        assert(rest[0] == ls@[i as int]@);
        assert(rest.drop_first() =~= lsv.skip(i + 1));
        let lv = chars_of(ls[i].as_str());
        let (a, b) = trim_bounds(&lv, 0, lv.len());
        assert(lv@.subrange(0, lv@.len() as int) =~= lv@);
        let t = slice_range(&lv, a, b);
        if crate::text::starts_with_chars(&t, &hv) {
            in_list = true;
        } else if in_list {
            if starts_with_str(&t, "- ") {
                proof {
                    reveal_strlit("- ");
                }
                let item_chars = slice_range(&t, 2, t.len());
                assert(item_chars@ =~= t@.skip(2));
                let item = unquote_exec(&item_chars);
                let ghost before = items@;
                items.push(item);
                proof {
                    assert(strs_view(items@) =~= strs_view(before).push(unquote(t@.skip(2))));
                    assert(strs_view(items@) + list_items(lsv.skip(i + 1), key@, true) =~= strs_view(
                        before,
                    ) + (seq![unquote(t@.skip(2))] + list_items(lsv.skip(i + 1), key@, true)));
                }
            } else if t.len() > 0 && t[0] != '-' {
                in_list = false;
            }
        }
        i = i + 1;
    }
    assert(lsv.skip(ls@.len() as int).len() == 0);
    assert(strs_view(items@) + Seq::<Seq<char>>::empty() =~= strs_view(items@));
    items
}

// ---------------------------------------------------------------------------
// Metadata
// ---------------------------------------------------------------------------

/// The value of a field, or empty when it is absent.
pub open spec fn or_empty(o: Option<Seq<char>>) -> Seq<char> {
    match o {
        Some(v) => v,
        None => seq![],
    }
}

/// The skill name a SKILL.md text declares: the trimmed `name` field of a
/// non-empty frontmatter, when not empty.
pub open spec fn declared_name(raw: Seq<char>) -> Option<Seq<char>> {
    let fm = spec_split(raw).0;
    if fm.len() == 0 {
        None
    } else {
        match field_in(lines(fm), "name"@) {
            None => None,
            Some(n) => if trim(n).len() == 0 {
                None
            } else {
                Some(trim(n))
            },
        }
    }
}

/// The metadata fields a SKILL.md text declares besides its name.
pub open spec fn metadata_matches(m: SkillMetadata, raw: Seq<char>) -> bool {
    let ls = lines(spec_split(raw).0);
    &&& declared_name(raw) == Some(m.name@)
    &&& m.description@ == or_empty(field_in(ls, "description"@))
    &&& m.version@ == or_empty(field_in(ls, "version"@))
    &&& m.author@ == match field_in(ls, "author"@) {
        Some(a) => a,
        None => or_empty(field_in(ls, "origin"@)),
    }
    &&& strs_view(m.tags@) == list_items(ls, "tags"@, false)
}

fn value_or_empty(o: Option<String>) -> (r: String)
    ensures
        r@ == match o {
            Some(v) => v@,
            None => Seq::<char>::empty(),
        },
{
    match o {
        Some(v) => v,
        None => String::new(),
    }
}

/// Parses the metadata of a SKILL.md text; a text without a frontmatter or
/// without a non-empty `name` is refused.
pub fn parse_metadata_from_raw(raw: &str, source: SkillSource, path: String) -> (r: Result<
    SkillMetadata,
    SkillError,
>)
    ensures
        declared_name(raw@) is None <==> r is Err,
        r is Err ==> r == Err::<SkillMetadata, SkillError>(SkillError::MissingName),
        r matches Ok(m) ==> metadata_matches(m, raw@) && m.source == source && m.path == path,
{
    let (frontmatter, _) = split_frontmatter(raw);
    if frontmatter.as_str().is_empty() {
        return Err(SkillError::MissingName);
    }
    let name = match extract_field(frontmatter.as_str(), "name") {
        Some(n) => crate::text::trim_str(n.as_str()),
        None => {
            return Err(SkillError::MissingName);
        },
    };
    if name.as_str().is_empty() {
        return Err(SkillError::MissingName);
    }
    let description = value_or_empty(extract_field(frontmatter.as_str(), "description"));
    let version = value_or_empty(extract_field(frontmatter.as_str(), "version"));
    let author = match extract_field(frontmatter.as_str(), "author") {
        Some(a) => a,
        None => value_or_empty(extract_field(frontmatter.as_str(), "origin")),
    };
    let tags = extract_list_field(frontmatter.as_str(), "tags");
    Ok(SkillMetadata { name, description, version, author, tags, source, path })
}

/// The SKILL.md text of the built-in `fix-tests` skill.
pub const FIX_TESTS_SKILL: &'static str = "---\nname: fix-tests\ndescription: Diagnose and fix failing automated tests\nversion: 1.0.0\nauthor: luminus\ntags:\n  - testing\n  - debugging\n---\n\n# Fix Tests\n\n1. Identify the smallest reproducible failing test.\n2. Inspect the related implementation and recent changes.\n3. Explain the likely root cause.\n4. Apply the smallest safe fix.\n5. Run the focused test.\n6. Run the relevant test suite.\n7. Summarize the change and remaining risks.\n";

/// The SKILL.md text of the built-in `code-review` skill.
pub const CODE_REVIEW_SKILL: &'static str = "---\nname: code-review\ndescription: Review code changes for quality, correctness, and style\nversion: 1.0.0\nauthor: luminus\ntags:\n  - review\n  - quality\n---\n\n# Code Review\n\n1. Read the diff in full before commenting.\n2. Check for correctness, edge cases, and error handling.\n3. Verify naming, structure, and consistency with project conventions.\n4. Suggest improvements with rationale and examples.\n5. Approve, request changes, or block with clear reasoning.\n";

/// The built-in skills: names and SKILL.md texts.
pub open spec fn spec_builtins() -> Seq<(Seq<char>, Seq<char>)> {
    seq![("fix-tests"@, FIX_TESTS_SKILL@), ("code-review"@, CODE_REVIEW_SKILL@)]
}

/// The built-in skills: names and SKILL.md texts.
pub fn builtin_skills() -> (r: Vec<(&'static str, &'static str)>)
    ensures
        r@.len() == spec_builtins().len(),
        forall|i: int|
            0 <= i < r@.len() ==> (#[trigger] r@[i]).0@ == spec_builtins()[i].0 && r@[i].1@
                == spec_builtins()[i].1,
{
    let mut r: Vec<(&'static str, &'static str)> = Vec::new();
    r.push(("fix-tests", FIX_TESTS_SKILL));
    r.push(("code-review", CODE_REVIEW_SKILL));
    r
}

/// ASCII case-insensitive equality (`str::eq_ignore_ascii_case`).
pub open spec fn same_name(a: Seq<char>, b: Seq<char>) -> bool {
    crate::text::to_lower(a) == crate::text::to_lower(b)
}

/// ASCII case-insensitive equality.
pub fn eq_ignore_ascii_case(a: &str, b: &str) -> (r: bool)
    ensures
        r == same_name(a@, b@),
{
    let av = chars_of(a);
    let bv = chars_of(b);
    let al = crate::text::to_lower_chars(&av);
    let bl = crate::text::to_lower_chars(&bv);
    crate::text::chars_eq(&al, &bl)
}

/// The text of the first built-in skill whose name matches, if any.
pub open spec fn builtin_text_from(name: Seq<char>, i: int) -> Option<Seq<char>>
    decreases spec_builtins().len() - i,
{
    if i < 0 || i >= spec_builtins().len() {
        None
    } else if same_name(spec_builtins()[i].0, name) {
        Some(spec_builtins()[i].1)
    } else {
        builtin_text_from(name, i + 1)
    }
}

/// The text of a built-in skill, by case-insensitive name.
pub fn builtin_text(name: &str) -> (r: Option<&'static str>)
    ensures
        match r {
            Some(t) => builtin_text_from(name@, 0) == Some(t@),
            None => builtin_text_from(name@, 0) is None,
        },
{
    let all = builtin_skills();
    let mut i: usize = 0;
    while i < all.len()
        invariant
            i <= all@.len(),
            all@.len() == spec_builtins().len(),
            forall|j: int|
                0 <= j < all@.len() ==> (#[trigger] all@[j]).0@ == spec_builtins()[j].0 && all@[j].1@
                    == spec_builtins()[j].1,
            builtin_text_from(name@, 0) == builtin_text_from(name@, i as int),
        decreases all@.len() - i,
    {
        let (n, t) = all[i];
        if eq_ignore_ascii_case(n, name) {
            return Some(t);
        }
        i = i + 1;
    }
    None
}

// ---------------------------------------------------------------------------
// Registry
// ---------------------------------------------------------------------------

/// A name-ordered list with one entry per name, after adding `m`: a new
/// name goes to its place; a known name is replaced only by an entry of a
/// higher-precedence source.
pub open spec fn merge_entry(list: Seq<SkillMetadata>, m: SkillMetadata) -> Seq<SkillMetadata>
    decreases list.len(),
{
    if list.len() == 0 {
        seq![m]
    } else if list[0].name@ == m.name@ {
        if m.source.precedence() > list[0].source.precedence() {
            list.update(0, m)
        } else {
            list
        }
    } else if name_lt(m.name@, list[0].name@) {
        seq![m] + list
    } else {
        seq![list[0]] + merge_entry(list.drop_first(), m)
    }
}

/// The entries merged one by one, in order.
pub open spec fn merge_all(list: Seq<SkillMetadata>, entries: Seq<SkillMetadata>) -> Seq<
    SkillMetadata,
>
    decreases entries.len(),
{
    if entries.len() == 0 {
        list
    } else {
        merge_entry(merge_all(list, entries.drop_last()), entries.last())
    }
}

proof fn lemma_merge_prefix(list: Seq<SkillMetadata>, m: SkillMetadata, i: int)
    requires
        0 <= i <= list.len(),
        forall|j: int|
            0 <= j < i ==> (#[trigger] list[j]).name@ != m.name@ && !name_lt(
                m.name@,
                list[j].name@,
            ),
    ensures
        merge_entry(list, m) == list.take(i) + merge_entry(list.skip(i), m),
    decreases i,
{
    if i == 0 {
        assert(list.skip(0) =~= list);
        assert(list.take(0) + merge_entry(list, m) =~= merge_entry(list, m));
    } else {
        let t = list.drop_first();
        assert forall|j: int| 0 <= j < i - 1 implies (#[trigger] t[j]).name@ != m.name@ && !name_lt(
            m.name@,
            t[j].name@,
        ) by {
            assert(t[j] == list[j + 1]);
        }
        lemma_merge_prefix(t, m, i - 1);
        assert(t.skip(i - 1) =~= list.skip(i));
        assert(list.take(i) =~= seq![list[0]] + t.take(i - 1));
        assert(seq![list[0]] + (t.take(i - 1) + merge_entry(t.skip(i - 1), m)) =~= list.take(i)
            + merge_entry(list.skip(i), m));
    }
}

/// Adds one entry to a name-ordered list.
fn merge_into(list: &mut Vec<SkillMetadata>, m: SkillMetadata)
    ensures
        final(list)@ == merge_entry(old(list)@, m),
{
    let mut i: usize = 0;
    while i < list.len() && !str_eq_name(&list[i], &m) && !name_less(m.name.as_str(), list[i].name.as_str())
        invariant
            *list == *old(list),
            i <= list@.len(),
            forall|j: int|
                0 <= j < i ==> (#[trigger] list@[j]).name@ != m.name@ && !name_lt(
                    m.name@,
                    list@[j].name@,
                ),
        decreases list@.len() - i,
    {
        i = i + 1;
    }
    proof {
        lemma_merge_prefix(list@, m, i as int);
    }
    let ghost t = list@.skip(i as int);
    if i < list.len() {
        assert(t[0] == list@[i as int]);
        if str_eq_name(&list[i], &m) {
            if precedence_of(m.source) > precedence_of(list[i].source) {
                list.set(i, m);
                assert(list@ =~= old(list)@.take(i as int) + t.update(0, m));
            }
            assert(list@ =~= old(list)@.take(i as int) + merge_entry(t, m)) by {
                if !(m.source.precedence() > old(list)@[i as int].source.precedence()) {
                    assert(old(list)@ =~= old(list)@.take(i as int) + t);
                }
            }
        } else {
            list.insert(i, m);
            assert(list@ =~= old(list)@.take(i as int) + (seq![m] + t));
        }
    } else {
        list.push(m);
        assert(t.len() == 0);
        assert(list@ =~= old(list)@.take(i as int) + seq![m]);
    }
}

fn str_eq_name(a: &SkillMetadata, b: &SkillMetadata) -> (r: bool)
    ensures
        r == (a.name@ == b.name@),
{
    crate::text::str_eq(a.name.as_str(), b.name.as_str())
}

fn precedence_of(s: SkillSource) -> (r: u8)
    ensures
        r == s.precedence(),
{
    match s {
        SkillSource::BuiltIn => 0,
        SkillSource::Global => 1,
        SkillSource::Project => 2,
    }
}

/// The skill registry: the metadata of the skills found, one per name
/// (project over global over built-in), ordered by name.
#[derive(Debug, Clone)]
pub struct SkillRegistry {
    metadata: Vec<SkillMetadata>,
}

/// A skill text found: its source, its path and its SKILL.md text.
pub type FoundView = (SkillSource, Seq<char>, Seq<char>);

/// The built-in skills as found texts, at `<built-in>/<name>`.
pub open spec fn builtin_found() -> Seq<FoundView> {
    spec_builtins().map_values(
        |b: (Seq<char>, Seq<char>)| (SkillSource::BuiltIn, "<built-in>/"@ + b.0, b.1),
    )
}

/// `(path, text)` pairs found in a source's directory.
pub open spec fn found_view(source: SkillSource, found: Seq<(String, String)>) -> Seq<FoundView> {
    found.map_values(|f: (String, String)| (source, f.0@, f.1@))
}

/// Whether a found text declares a skill.
pub open spec fn declares_skill() -> spec_fn(FoundView) -> bool {
    |f: FoundView| declared_name(f.2) is Some
}

/// The metadata parsed from each found text that declares a skill.
pub open spec fn parsed_as(es: Seq<SkillMetadata>, found: Seq<FoundView>) -> bool {
    let fs = found.filter(declares_skill());
    &&& es.len() == fs.len()
    &&& forall|k: int|
        0 <= k < es.len() ==> metadata_matches(#[trigger] es[k], fs[k].2) && es[k].source
            == fs[k].0 && es[k].path@ == fs[k].1
}

/// The registry entries made of all texts found: parsed, then merged.
pub open spec fn registry_from(entries: Seq<SkillMetadata>, found: Seq<FoundView>) -> bool {
    exists|es: Seq<SkillMetadata>| parsed_as(es, found) && entries == merge_all(seq![], es)
}

impl SkillRegistry {
    /// The metadata held.
    pub closed spec fn entries(&self) -> Seq<SkillMetadata> {
        self.metadata@
    }

    /// A registry of the built-in skills.
    pub fn new() -> (r: Self)
        ensures
            registry_from(r.entries(), builtin_found()),
    {
        let empty: Vec<(String, String)> = Vec::new();
        let r = Self::discover_from(&empty, &empty);
        assert(builtin_found() + found_view(SkillSource::Global, empty@) + found_view(
            SkillSource::Project,
            empty@,
        ) =~= builtin_found());
        r
    }

    /// A registry from a metadata list, kept as given.
    pub fn from_metadata(metadata: Vec<SkillMetadata>) -> (r: Self)
        ensures
            r.entries() == metadata@,
    {
        SkillRegistry { metadata }
    }

    /// A registry of the built-in skills and of the `(path, SKILL.md text)`
    /// pairs found in the global and then the project skill directories.
    /// Texts that do not parse are skipped; for each name the entry of the
    /// highest-precedence source stays (the first found among equals); the
    /// entries are ordered by name.
    pub fn discover_from(global: &[(String, String)], project: &[(String, String)]) -> (r: Self)
        ensures
            registry_from(
                r.entries(),
                builtin_found() + found_view(SkillSource::Global, global@) + found_view(
                    SkillSource::Project,
                    project@,
                ),
            ),
    {
        let mut found: Vec<(SkillSource, String, String)> = Vec::new();
        let all = builtin_skills();
        let mut i: usize = 0;
        while i < all.len()
            invariant
                i <= all@.len(),
                all@.len() == spec_builtins().len(),
                forall|j: int|
                    0 <= j < all@.len() ==> (#[trigger] all@[j]).0@ == spec_builtins()[j].0
                        && all@[j].1@ == spec_builtins()[j].1,
                triples_view(found@) == builtin_found().take(i as int),
            decreases all@.len() - i,
        {
            let (name, raw) = all[i];
            let mut path = "<built-in>/".to_owned();
            push_str(&mut path, name);
            let ghost before = found@;
            found.push((SkillSource::BuiltIn, path, raw.to_owned()));
            assert(triples_view(found@) =~= triples_view(before).push(builtin_found()[i as int]));
            assert(builtin_found().take(i + 1) =~= builtin_found().take(i as int).push(
                builtin_found()[i as int],
            ));
            i = i + 1;
        }
        assert(builtin_found().take(spec_builtins().len() as int) =~= builtin_found());
        append_found(&mut found, global, SkillSource::Global);
        append_found(&mut found, project, SkillSource::Project);
        let mut entries: Vec<SkillMetadata> = Vec::new();
        let ghost mut es: Seq<SkillMetadata> = seq![];
        let mut k: usize = 0;
        while k < found.len()
            invariant
                k <= found@.len(),
                entries@ == merge_all(seq![], es),
                parsed_as(es, triples_view(found@).take(k as int)),
            decreases found@.len() - k,
        {
            let (source, path, raw) = &found[k];
            let ghost fs = triples_view(found@);
            proof {
                reveal(Seq::filter);
                assert(fs.take(k + 1).drop_last() =~= fs.take(k as int));
                assert(fs.take(k + 1).last() == fs[k as int]);
            }
            match parse_metadata_from_raw(raw.as_str(), *source, copy_string(path)) {
                Ok(m) => {
                    proof {
                        let old_es = es;
                        es = es.push(m);
                        assert(es.drop_last() =~= old_es);
                        let f1 = fs.take(k + 1).filter(declares_skill());
                        let f0 = fs.take(k as int).filter(declares_skill());
                        assert(f1 =~= f0.push(fs[k as int]));
                        assert forall|j: int| 0 <= j < es.len() implies metadata_matches(
                            #[trigger] es[j],
                            f1[j].2,
                        ) && es[j].source == f1[j].0 && es[j].path@ == f1[j].1 by {
                            if j < old_es.len() {
                                assert(es[j] == old_es[j]);
                                assert(f1[j] == f0[j]);
                            }
                        }
                    }
                    merge_into(&mut entries, m);
                },
                Err(_) => {
                    proof {
                        assert(fs.take(k + 1).filter(declares_skill()) =~= fs.take(
                            k as int,
                        ).filter(declares_skill()));
                    }
                },
            }
            k = k + 1;
        }
        assert(triples_view(found@).take(found@.len() as int) =~= triples_view(found@));
        SkillRegistry { metadata: entries }
    }
}

/// Found texts with their text taken by characters.
pub open spec fn triples_view(v: Seq<(SkillSource, String, String)>) -> Seq<FoundView> {
    v.map_values(|t: (SkillSource, String, String)| (t.0, t.1@, t.2@))
}

/// Appends the `(path, text)` pairs of a source to the found texts.
fn append_found(
    found: &mut Vec<(SkillSource, String, String)>,
    more: &[(String, String)],
    source: SkillSource,
)
    ensures
        triples_view(final(found)@) == triples_view(old(found)@) + found_view(source, more@),
{
    let mut i: usize = 0;
    while i < more.len()
        invariant
            i <= more@.len(),
            triples_view(found@) == triples_view(old(found)@) + found_view(source, more@).take(
                i as int,
            ),
        decreases more@.len() - i,
    {
        let (path, raw) = &more[i];
        let ghost before = found@;
        found.push((source, copy_string(path), copy_string(raw)));
        assert(triples_view(found@) =~= triples_view(before).push(found_view(source, more@)[i as int]));
        assert(found_view(source, more@).take(i + 1) =~= found_view(source, more@).take(i as int).push(
            found_view(source, more@)[i as int],
        ));
        i = i + 1;
    }
    assert(found_view(source, more@).take(more@.len() as int) =~= found_view(source, more@));
}

/// An error with its text taken by characters.
pub enum SkillErrorView {
    InvalidFrontmatter(Seq<char>),
    Io(Seq<char>),
    NotFound(Seq<char>),
    MissingName,
}

impl View for SkillError {
    type V = SkillErrorView;

    open spec fn view(&self) -> SkillErrorView {
        match self {
            SkillError::InvalidFrontmatter(m) => SkillErrorView::InvalidFrontmatter(m@),
            SkillError::Io(m) => SkillErrorView::Io(m@),
            SkillError::NotFound(n) => SkillErrorView::NotFound(n@),
            SkillError::MissingName => SkillErrorView::MissingName,
        }
    }
}

/// The index of the first entry at or after `i` whose name matches without
/// regard to ASCII case.
pub open spec fn first_named(list: Seq<SkillMetadata>, name: Seq<char>, i: int) -> Option<int>
    decreases list.len() - i,
{
    if i < 0 || i >= list.len() {
        None
    } else if same_name(list[i].name@, name) {
        Some(i)
    } else {
        first_named(list, name, i + 1)
    }
}

/// The SKILL.md text of a skill: built-in texts are known; other sources
/// use the text read from the skill's path, when it was read.
pub open spec fn loaded_text(meta: SkillMetadata, file: Option<Result<String, String>>) -> Result<
    Seq<char>,
    Seq<char>,
> {
    if meta.source is BuiltIn {
        match builtin_text_from(meta.name@, 0) {
            Some(t) => Ok(t),
            None => Err("built-in skill source missing"@),
        }
    } else {
        match file {
            Some(Ok(t)) => Ok(t@),
            Some(Err(e)) => Err(e@),
            None => Err("skill file was not read: "@ + meta.path@),
        }
    }
}

/// What loading a skill by name yields: its metadata and text, or why not.
pub open spec fn spec_load(
    entries: Seq<SkillMetadata>,
    name: Seq<char>,
    file: Option<Result<String, String>>,
) -> Result<(SkillMetadata, Seq<char>), SkillErrorView> {
    match first_named(entries, name, 0) {
        None => Err(SkillErrorView::NotFound(name)),
        Some(i) => match loaded_text(entries[i], file) {
            Ok(raw) => Ok((entries[i], raw)),
            Err(m) => Err(SkillErrorView::Io(m)),
        },
    }
}

/// A line when its value is not empty.
pub open spec fn line_if(head: Seq<char>, value: Seq<char>) -> Seq<Seq<char>> {
    if value.len() == 0 {
        seq![]
    } else {
        seq![head + value]
    }
}

/// The details shown for a skill.
pub open spec fn spec_inspect(meta: SkillMetadata, content: Seq<char>) -> Seq<char> {
    let tags = crate::text::strs_view(meta.tags@);
    join(
        seq!["Skill: "@ + meta.name@] + line_if("Description: "@, meta.description@) + line_if(
            "Version: "@,
            meta.version@,
        ) + line_if("Author: "@, meta.author@) + seq![
            "Source: "@ + meta.source.spec_name(),
            "Path: "@ + meta.path@,
        ] + (if tags.len() == 0 {
            seq![]
        } else {
            seq!["Tags: "@ + join(tags, ", "@)]
        }) + seq![seq![], "--- Skill Content ---"@, trim(content)],
        "\n"@,
    )
}

/// The text injected into the conversation when a skill is activated.
pub open spec fn spec_activation(meta: SkillMetadata, content: Seq<char>) -> Seq<char> {
    "[Skill activated: "@ + meta.name@ + " ("@ + meta.source.spec_name() + ")]\n\n"@ + trim(content)
}

/// The line listing one skill.
pub open spec fn list_line(m: SkillMetadata) -> Seq<char> {
    "  "@ + m.name@ + " ("@ + m.source.spec_name() + ")"@ + if m.description@.len() == 0 {
        Seq::<char>::empty()
    } else {
        " — "@ + m.description@
    }
}

/// The skill listing.
pub open spec fn spec_list(entries: Seq<SkillMetadata>) -> Seq<char> {
    if entries.len() == 0 {
        "No skills available."@
    } else {
        join(
            seq!["Available skills:"@] + entries.map_values(|m: SkillMetadata| list_line(m)),
            "\n"@,
        )
    }
}

fn push_line(ls: &mut Vec<String>, line: String)
    ensures
        crate::text::strs_view(final(ls)@) == crate::text::strs_view(old(ls)@).push(line@),
{
    ls.push(line);
    assert(crate::text::strs_view(ls@) =~= crate::text::strs_view(old(ls)@).push(line@));
}

fn push_line_if(ls: &mut Vec<String>, head: &str, value: &str)
    ensures
        crate::text::strs_view(final(ls)@) == crate::text::strs_view(old(ls)@) + line_if(
            head@,
            value@,
        ),
{
    if value.is_empty() {
        assert(crate::text::strs_view(ls@) + Seq::<Seq<char>>::empty() =~= crate::text::strs_view(
            ls@,
        ));
    } else {
        let mut l = head.to_owned();
        push_str(&mut l, value);
        push_line(ls, l);
        assert(crate::text::strs_view(old(ls)@).push(head@ + value@) =~= crate::text::strs_view(
            old(ls)@,
        ) + seq![head@ + value@]);
    }
}

impl Default for SkillRegistry {
    fn default() -> (r: Self)
        ensures
            registry_from(r.entries(), builtin_found()),
    {
        Self::new()
    }
}

impl SkillRegistry {
    /// The metadata of all skills held.
    pub fn discover(&self) -> (r: &[SkillMetadata])
        ensures
            r@ == self.entries(),
    {
        self.metadata.as_slice()
    }

    /// The first skill whose name matches without regard to ASCII case.
    pub fn find(&self, name: &str) -> (r: Option<&SkillMetadata>)
        ensures
            match first_named(self.entries(), name@, 0) {
                Some(i) => r == Some(&self.entries()[i]),
                None => r is None,
            },
    {
        match self.position(name) {
            Some(i) => Some(&self.metadata[i]),
            None => None,
        }
    }

    fn position(&self, name: &str) -> (r: Option<usize>)
        ensures
            r matches Some(i) ==> i < self.entries().len(),
            match r {
                Some(i) => first_named(self.entries(), name@, 0) == Some(i as int),
                None => first_named(self.entries(), name@, 0) is None,
            },
    {
        let mut i: usize = 0;
        while i < self.metadata.len()
            invariant
                i <= self.metadata@.len(),
                first_named(self.metadata@, name@, 0) == first_named(self.metadata@, name@, i as int),
            decreases self.metadata@.len() - i,
        {
            if eq_ignore_ascii_case(self.metadata[i].name.as_str(), name) {
                return Some(i);
            }
            i = i + 1;
        }
        None
    }

    /// The file to read before loading a skill: the path of a skill found
    /// outside the built-ins.
    pub fn path_to_read(&self, name: &str) -> (r: Option<String>)
        ensures
            match first_named(self.entries(), name@, 0) {
                Some(i) => if self.entries()[i].source is BuiltIn {
                    r is None
                } else {
                    r matches Some(p) && p@ == self.entries()[i].path@
                },
                None => r is None,
            },
    {
        match self.position(name) {
            Some(i) => match self.metadata[i].source {
                SkillSource::BuiltIn => None,
                _ => Some(copy_string(&self.metadata[i].path)),
            },
            None => None,
        }
    }

    /// Loads a skill: its metadata, its text and the body after the
    /// frontmatter. A skill found on disk is loaded from `file`, the result
    /// of reading its path.
    pub fn load_skill(&self, name: &str, file: Option<Result<String, String>>) -> (r: Result<
        Skill,
        SkillError,
    >)
        ensures
            match r {
                Ok(skill) => spec_load(self.entries(), name@, file) matches Ok(loaded)
                    && same_metadata(skill.metadata, loaded.0) && skill.raw@ == loaded.1
                    && skill.content@ == spec_split(skill.raw@).1,
                Err(e) => spec_load(self.entries(), name@, file) == Err::<
                    (SkillMetadata, Seq<char>),
                    SkillErrorView,
                >(e@),
            },
    {
        let i = match self.position(name) {
            Some(i) => i,
            None => {
                return Err(SkillError::NotFound(name.to_owned()));
            },
        };
        let meta = &self.metadata[i];
        let raw: String = match meta.source {
            SkillSource::BuiltIn => match builtin_text(meta.name.as_str()) {
                Some(t) => t.to_owned(),
                None => {
                    return Err(SkillError::Io("built-in skill source missing".to_owned()));
                },
            },
            _ => match file {
                Some(Ok(t)) => t,
                Some(Err(e)) => {
                    return Err(SkillError::Io(e));
                },
                None => {
                    let mut m = "skill file was not read: ".to_owned();
                    push_str(&mut m, meta.path.as_str());
                    return Err(SkillError::Io(m));
                },
            },
        };
        let (_, content) = split_frontmatter(raw.as_str());
        Ok(Skill { metadata: copy_metadata(meta), content, raw })
    }

    /// The skill listing for `/skills`.
    pub fn list_skills(&self) -> (r: String)
        ensures
            r@ == spec_list(self.entries()),
    {
        if self.metadata.len() == 0 {
            return "No skills available.".to_owned();
        }
        let mut ls: Vec<String> = Vec::new();
        push_line(&mut ls, "Available skills:".to_owned());
        let mut i: usize = 0;
        while i < self.metadata.len()
            invariant
                i <= self.metadata@.len(),
                crate::text::strs_view(ls@) == seq!["Available skills:"@] + self.metadata@.take(
                    i as int,
                ).map_values(|m: SkillMetadata| list_line(m)),
            decreases self.metadata@.len() - i,
        {
            let m = &self.metadata[i];
            let mut l = "  ".to_owned();
            push_str(&mut l, m.name.as_str());
            push_str(&mut l, " (");
            push_str(&mut l, m.source.name());
            push_str(&mut l, ")");
            if !m.description.as_str().is_empty() {
                push_str(&mut l, " — ");
                push_str(&mut l, m.description.as_str());
            }
            assert(l@ == list_line(*m));
            push_line(&mut ls, l);
            proof {
                let f = |m: SkillMetadata| list_line(m);
                assert(self.metadata@.take(i + 1).map_values(f) =~= self.metadata@.take(
                    i as int,
                ).map_values(f).push(f(self.metadata@[i as int])));
                assert(crate::text::strs_view(ls@) =~= seq!["Available skills:"@]
                    + self.metadata@.take(i + 1).map_values(f));
            }
            i = i + 1;
        }
        assert(self.metadata@.take(self.metadata@.len() as int) =~= self.metadata@);
        join_strs(&ls, "\n")
    }

    /// The details of a skill for `/skills inspect <name>`.
    pub fn inspect_skill(&self, name: &str, file: Option<Result<String, String>>) -> (r: Result<
        String,
        SkillError,
    >)
        ensures
            match r {
                Ok(t) => spec_load(self.entries(), name@, file) matches Ok(loaded) && t@
                    == spec_inspect(loaded.0, spec_split(loaded.1).1),
                Err(e) => spec_load(self.entries(), name@, file) == Err::<
                    (SkillMetadata, Seq<char>),
                    SkillErrorView,
                >(e@),
            },
    {
        let skill = match self.load_skill(name, file) {
            Ok(s) => s,
            Err(e) => {
                return Err(e);
            },
        };
        let meta = &skill.metadata;
        let mut ls: Vec<String> = Vec::new();
        let mut first = "Skill: ".to_owned();
        push_str(&mut first, meta.name.as_str());
        push_line(&mut ls, first);
        push_line_if(&mut ls, "Description: ", meta.description.as_str());
        push_line_if(&mut ls, "Version: ", meta.version.as_str());
        push_line_if(&mut ls, "Author: ", meta.author.as_str());
        let mut src = "Source: ".to_owned();
        push_str(&mut src, meta.source.name());
        push_line(&mut ls, src);
        let mut path = "Path: ".to_owned();
        push_str(&mut path, meta.path.as_str());
        push_line(&mut ls, path);
        let ghost before_tags = crate::text::strs_view(ls@);
        if meta.tags.len() > 0 {
            let mut tags = "Tags: ".to_owned();
            let joined = join_strs(&meta.tags, ", ");
            push_str(&mut tags, joined.as_str());
            push_line(&mut ls, tags);
        }
        push_line(&mut ls, String::new());
        push_line(&mut ls, "--- Skill Content ---".to_owned());
        push_line(&mut ls, crate::text::trim_str(skill.content.as_str()));
        proof {
            let tags = crate::text::strs_view(meta.tags@);
            let tag_lines = if tags.len() == 0 {
                Seq::<Seq<char>>::empty()
            } else {
                seq!["Tags: "@ + join(tags, ", "@)]
            };
            assert(before_tags + tag_lines =~= crate::text::strs_view(ls@).take(
                crate::text::strs_view(ls@).len() - 3,
            ));
            assert(crate::text::strs_view(ls@) =~= seq!["Skill: "@ + meta.name@] + line_if(
                "Description: "@,
                meta.description@,
            ) + line_if("Version: "@, meta.version@) + line_if("Author: "@, meta.author@) + seq![
                "Source: "@ + meta.source.spec_name(),
                "Path: "@ + meta.path@,
            ] + tag_lines + seq![seq![], "--- Skill Content ---"@, trim(skill.content@)]);
        }
        Ok(join_strs(&ls, "\n"))
    }

    /// The activation text of a skill for `/skill <name>`.
    pub fn use_skill(&self, name: &str, file: Option<Result<String, String>>) -> (r: Result<
        String,
        SkillError,
    >)
        ensures
            match r {
                Ok(t) => spec_load(self.entries(), name@, file) matches Ok(loaded) && t@
                    == spec_activation(loaded.0, spec_split(loaded.1).1),
                Err(e) => spec_load(self.entries(), name@, file) == Err::<
                    (SkillMetadata, Seq<char>),
                    SkillErrorView,
                >(e@),
            },
    {
        let skill = match self.load_skill(name, file) {
            Ok(s) => s,
            Err(e) => {
                return Err(e);
            },
        };
        let mut t = "[Skill activated: ".to_owned();
        push_str(&mut t, skill.metadata.name.as_str());
        push_str(&mut t, " (");
        push_str(&mut t, skill.metadata.source.name());
        push_str(&mut t, ")]\n\n");
        let body = crate::text::trim_str(skill.content.as_str());
        push_str(&mut t, body.as_str());
        Ok(t)
    }
}

fn copy_strings(v: &Vec<String>) -> (r: Vec<String>)
    ensures
        r@ == v@,
{
    let mut r: Vec<String> = Vec::new();
    let mut i: usize = 0;
    while i < v.len()
        invariant
            i <= v@.len(),
            r@ == v@.take(i as int),
        decreases v@.len() - i,
    {
        r.push(copy_string(&v[i]));
        assert(r@ =~= v@.take(i + 1));
        i = i + 1;
    }
    assert(v@.take(v@.len() as int) =~= v@);
    r
}

/// Two metadata records with the same fields, tags compared by content.
pub open spec fn same_metadata(a: SkillMetadata, b: SkillMetadata) -> bool {
    &&& a.name == b.name
    &&& a.description == b.description
    &&& a.version == b.version
    &&& a.author == b.author
    &&& a.tags@ == b.tags@
    &&& a.source == b.source
    &&& a.path == b.path
}

/// A copy of a metadata record.
fn copy_metadata(m: &SkillMetadata) -> (r: SkillMetadata)
    ensures
        same_metadata(r, *m),
{
    SkillMetadata {
        name: copy_string(&m.name),
        description: copy_string(&m.description),
        version: copy_string(&m.version),
        author: copy_string(&m.author),
        tags: copy_strings(&m.tags),
        source: m.source,
        path: copy_string(&m.path),
    }
}

// ---------------------------------------------------------------------------
// Registry laws
// ---------------------------------------------------------------------------

/// Entries ordered strictly by name: so each name occurs once.
pub open spec fn strictly_sorted(list: Seq<SkillMetadata>) -> bool {
    forall|i: int, j: int|
        0 <= i < j < list.len() ==> name_lt(#[trigger] list[i].name@, #[trigger] list[j].name@)
}

/// Every entry after a merge is the added entry or one of the list's.
proof fn lemma_merge_members(list: Seq<SkillMetadata>, m: SkillMetadata, k: int)
    requires
        0 <= k < merge_entry(list, m).len(),
    ensures
        merge_entry(list, m)[k] == m || exists|j: int| 0 <= j < list.len() && merge_entry(list, m)[k]
            == list[j],
    decreases list.len(),
{
    if list.len() == 0 {
    } else if list[0].name@ == m.name@ {
        if m.source.precedence() > list[0].source.precedence() {
            if k != 0 {
                assert(merge_entry(list, m)[k] == list[k]);
            }
        } else {
            assert(merge_entry(list, m)[k] == list[k]);
        }
    } else if name_lt(m.name@, list[0].name@) {
        if k > 0 {
            assert(merge_entry(list, m)[k] == list[k - 1]);
        }
    } else {
        if k == 0 {
            assert(merge_entry(list, m)[0] == list[0]);
        } else {
            lemma_merge_members(list.drop_first(), m, k - 1);
            assert(merge_entry(list, m)[k] == merge_entry(list.drop_first(), m)[k - 1]);
            if merge_entry(list.drop_first(), m)[k - 1] != m {
                let j = choose|j: int|
                    0 <= j < list.drop_first().len() && merge_entry(list.drop_first(), m)[k - 1]
                        == list.drop_first()[j];
                assert(list.drop_first()[j] == list[j + 1]);
            }
        }
    }
}

/// Merging keeps a list strictly ordered by name.
proof fn lemma_merge_sorted(list: Seq<SkillMetadata>, m: SkillMetadata)
    requires
        strictly_sorted(list),
    ensures
        strictly_sorted(merge_entry(list, m)),
    decreases list.len(),
{
    if list.len() == 0 {
    } else if list[0].name@ == m.name@ {
        let r = merge_entry(list, m);
        assert forall|i: int, j: int| 0 <= i < j < r.len() implies name_lt(
            #[trigger] r[i].name@,
            #[trigger] r[j].name@,
        ) by {
            assert(r[i].name@ == list[i].name@);
            assert(r[j].name@ == list[j].name@);
        }
    } else if name_lt(m.name@, list[0].name@) {
        let r = merge_entry(list, m);
        assert forall|i: int, j: int| 0 <= i < j < r.len() implies name_lt(
            #[trigger] r[i].name@,
            #[trigger] r[j].name@,
        ) by {
            if i == 0 {
                if j > 1 {
                    assert(name_lt(list[0].name@, list[j - 1].name@));
                    lemma_name_lt_transitive(m.name@, list[0].name@, list[j - 1].name@);
                }
            } else {
                assert(name_lt(list[i - 1].name@, list[j - 1].name@));
            }
        }
    } else {
        lemma_name_lt_total(m.name@, list[0].name@);
        let rest = list.drop_first();
        assert forall|i: int, j: int| 0 <= i < j < rest.len() implies name_lt(
            #[trigger] rest[i].name@,
            #[trigger] rest[j].name@,
        ) by {
            assert(rest[i] == list[i + 1]);
            assert(rest[j] == list[j + 1]);
        }
        lemma_merge_sorted(rest, m);
        let mr = merge_entry(rest, m);
        let r = merge_entry(list, m);
        assert(r == seq![list[0]] + mr);
        assert forall|i: int, j: int| 0 <= i < j < r.len() implies name_lt(
            #[trigger] r[i].name@,
            #[trigger] r[j].name@,
        ) by {
            if i == 0 {
                assert(r[j] == mr[j - 1]);
                lemma_merge_members(rest, m, j - 1);
                if mr[j - 1] != m {
                    let k = choose|k: int| 0 <= k < rest.len() && mr[j - 1] == rest[k];
                    assert(rest[k] == list[k + 1]);
                    assert(name_lt(list[0].name@, list[k + 1].name@));
                }
            } else {
                assert(r[i] == mr[i - 1]);
                assert(r[j] == mr[j - 1]);
            }
        }
    }
}

/// The registry's entries are ordered strictly by name: each name occurs
/// once, however many sources define it.
pub proof fn law_registry_names_are_sorted_and_unique(es: Seq<SkillMetadata>)
    ensures
        strictly_sorted(merge_all(seq![], es)),
    decreases es.len(),
{
    if es.len() > 0 {
        law_registry_names_are_sorted_and_unique(es.drop_last());
        lemma_merge_sorted(merge_all(seq![], es.drop_last()), es.last());
    }
}

/// After a merge, the entry kept for the added name comes from a source at
/// least as high as the added one's.
pub proof fn law_merge_keeps_highest_precedence(list: Seq<SkillMetadata>, m: SkillMetadata)
    requires
        strictly_sorted(list),
    ensures
        exists|k: int|
            0 <= k < merge_entry(list, m).len() && (#[trigger] merge_entry(list, m)[k]).name@
                == m.name@ && merge_entry(list, m)[k].source.precedence() >= m.source.precedence(),
    decreases list.len(),
{
    if list.len() == 0 {
        assert(merge_entry(list, m)[0] == m);
    } else if list[0].name@ == m.name@ {
        assert(merge_entry(list, m)[0].name@ == m.name@);
    } else if name_lt(m.name@, list[0].name@) {
        assert(merge_entry(list, m)[0] == m);
    } else {
        let rest = list.drop_first();
        assert forall|i: int, j: int| 0 <= i < j < rest.len() implies name_lt(
            #[trigger] rest[i].name@,
            #[trigger] rest[j].name@,
        ) by {
            assert(rest[i] == list[i + 1]);
            assert(rest[j] == list[j + 1]);
        }
        law_merge_keeps_highest_precedence(rest, m);
        let k = choose|k: int|
            0 <= k < merge_entry(rest, m).len() && (#[trigger] merge_entry(rest, m)[k]).name@
                == m.name@ && merge_entry(rest, m)[k].source.precedence() >= m.source.precedence();
        assert(merge_entry(list, m)[k + 1] == merge_entry(rest, m)[k]);
    }
}

} // verus!
