//! File edit history with undo/redo stacks and per-file revert.
//!
//! Each edit records the path, before-content, after-content and a
//! timestamp. The history decides which record an undo, redo or revert acts
//! on; the caller writes the record's content back to disk (`before_content`
//! for undo and revert, `after_content` for redo).

use vstd::prelude::*;

use crate::context::sat_sub;
use crate::edit::prefixed_lines;
use crate::text::{
    chars_of, dec, join, join_strs, lines, lines_of, push_char, push_dec, push_str, split_on,
    split_on_char, str_eq, strs_view, IntoText,
};

verus! {

/// A single file edit record capturing before/after content.
#[derive(Debug, Clone, PartialEq, Eq)]
pub struct FileEditRecord {
    pub path: String,
    pub before_content: String,
    pub after_content: String,
    pub timestamp: u64,
}

/// The pieces of a path between separators that name a step: not empty
/// and not `.`.
pub open spec fn kept_segments(segs: Seq<Seq<char>>) -> Seq<Seq<char>>
    decreases segs.len(),
{
    if segs.len() == 0 {
        seq![]
    } else {
        let k = kept_segments(segs.drop_last());
        if segs.last().len() > 0 && segs.last() != "."@ {
            k.push(segs.last())
        } else {
            k
        }
    }
}

/// A path written by its components, as paths are compared: repeated and
/// trailing separators and inner `.` steps make no difference; a leading
/// `/` or a leading `.` step does.
pub open spec fn path_key(p: Seq<char>) -> Seq<char> {
    let segs = split_on(p, '/');
    let body = join(kept_segments(segs), "/"@);
    if p.len() > 0 && p[0] == '/' {
        "/"@ + body
    } else if segs.len() > 0 && segs[0] == "."@ {
        "./"@ + body
    } else {
        body
    }
}

/// The path written by its components.
pub fn path_key_of(p: &str) -> (r: String)
    ensures
        r@ == path_key(p@),
{
    let v = chars_of(p);
    let segs = split_on_char(&v, '/');
    let ghost sv = strs_view(segs@);
    let mut kept: Vec<String> = Vec::new();
    let mut i: usize = 0;
    while i < segs.len()
        invariant
            i <= segs@.len(),
            sv == strs_view(segs@),
            strs_view(kept@) == kept_segments(sv.take(i as int)),
        decreases segs@.len() - i,
    {
        proof {
            assert(sv.take(i + 1).drop_last() =~= sv.take(i as int));
            assert(sv[i as int] == segs@[i as int]@);
        }
        if !segs[i].as_str().is_empty() && !str_eq(segs[i].as_str(), ".") {
            let ghost before = kept@;
            kept.push(crate::agent::copy_string(&segs[i]));
            assert(strs_view(kept@) =~= strs_view(before).push(segs@[i as int]@));
        }
        i = i + 1;
    }
    assert(sv.take(sv.len() as int) =~= sv);
    let body = join_strs(&kept, "/");
    if v.len() > 0 && v[0] == '/' {
        let mut r = "/".to_owned();
        push_str(&mut r, body.as_str());
        r
    } else if segs.len() > 0 && str_eq(segs[0].as_str(), ".") {
        assert(sv[0] == segs@[0]@);
        let mut r = "./".to_owned();
        push_str(&mut r, body.as_str());
        r
    } else {
        proof {
            if sv.len() > 0 {
                assert(sv[0] == segs@[0]@);
            }
        }
        body
    }
}

/// Whether two paths have the same components.
pub fn same_path(a: &str, b: &str) -> (r: bool)
    ensures
        r == (path_key(a@) == path_key(b@)),
{
    let ka = path_key_of(a);
    let kb = path_key_of(b);
    str_eq(ka.as_str(), kb.as_str())
}

/// How many of `xs` (counted with repetition) do not occur in `ys`.
pub open spec fn count_missing(xs: Seq<Seq<char>>, ys: Seq<Seq<char>>) -> nat
    decreases xs.len(),
{
    if xs.len() == 0 {
        0
    } else {
        count_missing(xs.drop_last(), ys) + if ys.contains(xs.last()) {
            0nat
        } else {
            1nat
        }
    }
}

/// Whether a list of strings holds the given text.
fn contains_text(ys: &[String], x: &str) -> (r: bool)
    ensures
        r == strs_view(ys@).contains(x@),
{
    let mut i: usize = 0;
    while i < ys.len()
        invariant
            i <= ys@.len(),
            forall|j: int| 0 <= j < i ==> (#[trigger] ys@[j])@ != x@,
        decreases ys@.len() - i,
    {
        if str_eq(ys[i].as_str(), x) {
            assert(strs_view(ys@)[i as int] == x@);
            return true;
        }
        i = i + 1;
    }
    assert forall|j: int| 0 <= j < strs_view(ys@).len() implies strs_view(ys@)[j] != x@ by {
        assert(strs_view(ys@)[j] == ys@[j]@);
    }
    false
}

/// How many of `xs` do not occur in `ys`.
fn count_missing_exec(xs: &[String], ys: &[String]) -> (n: usize)
    ensures
        n == count_missing(strs_view(xs@), strs_view(ys@)),
{
    let mut n: usize = 0;
    let mut i: usize = 0;
    while i < xs.len()
        invariant
            i <= xs@.len(),
            n <= i,
            n == count_missing(strs_view(xs@).take(i as int), strs_view(ys@)),
        decreases xs@.len() - i,
    {
        proof {
            let t = strs_view(xs@).take(i + 1);
            assert(t.drop_last() =~= strs_view(xs@).take(i as int));
            assert(t.last() == xs@[i as int]@);
        }
        if !contains_text(ys, xs[i].as_str()) {
            n = n + 1;
        }
        i = i + 1;
    }
    assert(strs_view(xs@).take(xs@.len() as int) =~= strs_view(xs@));
    n
}

/// The lines of a text, as strings.
fn text_lines(s: &str) -> (r: Vec<String>)
    ensures
        strs_view(r@) == lines(s@),
{
    let v = chars_of(s);
    lines_of(&v)
}

impl FileEditRecord {
    /// Lines of the new content that the old content does not have.
    pub open spec fn spec_added(&self) -> nat {
        count_missing(lines(self.after_content@), lines(self.before_content@))
    }

    /// Lines of the old content that the new content does not have.
    pub open spec fn spec_removed(&self) -> nat {
        count_missing(lines(self.before_content@), lines(self.after_content@))
    }

    /// Count of added lines (lines in `after` but not in `before`).
    pub fn added_lines(&self) -> (n: usize)
        ensures
            n == self.spec_added(),
    {
        let before = text_lines(self.before_content.as_str());
        let after = text_lines(self.after_content.as_str());
        count_missing_exec(&after, &before)
    }

    /// Count of removed lines (lines in `before` but not in `after`).
    pub fn removed_lines(&self) -> (n: usize)
        ensures
            n == self.spec_removed(),
    {
        let before = text_lines(self.before_content.as_str());
        let after = text_lines(self.after_content.as_str());
        count_missing_exec(&before, &after)
    }
}

/// A copy of a record.
fn copy_record(r: &FileEditRecord) -> (c: FileEditRecord)
    ensures
        c == *r,
{
    FileEditRecord {
        path: crate::agent::copy_string(&r.path),
        before_content: crate::agent::copy_string(&r.before_content),
        after_content: crate::agent::copy_string(&r.after_content),
        timestamp: r.timestamp,
    }
}

/// Undo/redo history for file edits within a session.
#[derive(Debug)]
pub struct DiffHistory {
    pub undo_stack: Vec<FileEditRecord>,
    pub redo_stack: Vec<FileEditRecord>,
}

impl View for DiffHistory {
    /// The undo stack and the redo stack, bottom first.
    type V = (Seq<FileEditRecord>, Seq<FileEditRecord>);

    open spec fn view(&self) -> (Seq<FileEditRecord>, Seq<FileEditRecord>) {
        (self.undo_stack@, self.redo_stack@)
    }
}

/// The stacks after an undo: the newest edit moves to the redo stack.
pub open spec fn undone(h: (Seq<FileEditRecord>, Seq<FileEditRecord>)) -> (
    Seq<FileEditRecord>,
    Seq<FileEditRecord>,
) {
    if h.0.len() == 0 {
        h
    } else {
        (h.0.drop_last(), h.1.push(h.0.last()))
    }
}

/// The stacks after a redo: the newest undone edit moves back.
pub open spec fn redone(h: (Seq<FileEditRecord>, Seq<FileEditRecord>)) -> (
    Seq<FileEditRecord>,
    Seq<FileEditRecord>,
) {
    if h.1.len() == 0 {
        h
    } else {
        (h.0.push(h.1.last()), h.1.drop_last())
    }
}

/// `i` is the earliest record of the path on the stack.
pub open spec fn is_first_of(rs: Seq<FileEditRecord>, path: Seq<char>, i: int) -> bool {
    &&& 0 <= i < rs.len()
    &&& path_key(rs[i].path@) == path_key(path)
    &&& forall|j: int| 0 <= j < i ==> path_key(#[trigger] rs[j].path@) != path_key(path)
}

/// Whether a record is of another path (by components).
pub open spec fn other_path(path: Seq<char>) -> spec_fn(FileEditRecord) -> bool {
    |r: FileEditRecord| path_key(r.path@) != path_key(path)
}

/// The records of other paths, in order.
pub open spec fn without_path(rs: Seq<FileEditRecord>, path: Seq<char>) -> Seq<FileEditRecord> {
    rs.filter(other_path(path))
}

/// The components of each path.
pub open spec fn path_keys(ps: Seq<Seq<char>>) -> Seq<Seq<char>> {
    ps.map_values(|q: Seq<char>| path_key(q))
}

/// The paths of the records, each once (by components), in order of first
/// appearance, each as first written.
pub open spec fn distinct_paths(rs: Seq<FileEditRecord>) -> Seq<Seq<char>>
    decreases rs.len(),
{
    if rs.len() == 0 {
        seq![]
    } else {
        let p = distinct_paths(rs.drop_last());
        if path_keys(p).contains(path_key(rs.last().path@)) {
            p
        } else {
            p.push(rs.last().path@)
        }
    }
}

/// `a + b`, capped at `usize::MAX`.
pub open spec fn sat_add(a: nat, b: nat) -> nat {
    if a + b <= usize::MAX {
        a + b
    } else {
        usize::MAX as nat
    }
}

/// The added (or removed) line counts of a path's records, summed and capped
/// at `usize::MAX`.
pub open spec fn path_total(rs: Seq<FileEditRecord>, path: Seq<char>, added: bool) -> nat
    decreases rs.len(),
{
    if rs.len() == 0 {
        0
    } else {
        let t = path_total(rs.drop_last(), path, added);
        if path_key(rs.last().path@) == path_key(path) {
            sat_add(
                t,
                if added {
                    rs.last().spec_added()
                } else {
                    rs.last().spec_removed()
                },
            )
        } else {
            t
        }
    }
}

/// The diffs of the records, one after the other.
pub open spec fn diffs_of(rs: Seq<FileEditRecord>) -> Seq<char>
    decreases rs.len(),
{
    if rs.len() == 0 {
        seq![]
    } else {
        diffs_of(rs.drop_last()) + spec_unified_diff(
            rs.last().path@,
            rs.last().before_content@,
            rs.last().after_content@,
        )
    }
}

impl Default for DiffHistory {
    fn default() -> (h: Self)
        ensures
            h@.0.len() == 0,
            h@.1.len() == 0,
    {
        DiffHistory { undo_stack: Vec::new(), redo_stack: Vec::new() }
    }
}

impl DiffHistory {
    /// Records an edit that has been applied, with the content the file had
    /// before it and the time it was recorded; any new edit empties the redo
    /// stack.
    pub fn record_edit(&mut self, path: impl IntoText, before: impl IntoText, after: impl IntoText)
        ensures
            final(self)@.0.len() == old(self)@.0.len() + 1,
            final(self)@.0.drop_last() == old(self)@.0,
            final(self)@.0.last().path@ == path.text_view(),
            final(self)@.0.last().before_content@ == before.text_view(),
            final(self)@.0.last().after_content@ == after.text_view(),
            final(self)@.1.len() == 0,
    {
        let timestamp = crate::clock::unix_seconds_now();
        self.undo_stack.push(
            FileEditRecord {
                path: path.into_text(),
                before_content: before.into_text(),
                after_content: after.into_text(),
                timestamp,
            },
        );
        self.redo_stack.clear();
        assert(self.undo_stack@.drop_last() =~= old(self).undo_stack@);
    }

    /// Undoes the most recent edit: the record moves to the redo stack and is
    /// returned so its `before_content` can be written back.
    pub fn undo(&mut self) -> (r: Option<FileEditRecord>)
        ensures
            final(self)@ == undone(old(self)@),
            r == if old(self)@.0.len() == 0 {
                None
            } else {
                Some(old(self)@.0.last())
            },
    {
        match self.undo_stack.pop() {
            Some(record) => {
                self.redo_stack.push(copy_record(&record));
                Some(record)
            },
            None => None,
        }
    }

    /// Redoes the most recently undone edit: the record moves back to the
    /// undo stack and is returned so its `after_content` can be written again.
    pub fn redo(&mut self) -> (r: Option<FileEditRecord>)
        ensures
            final(self)@ == redone(old(self)@),
            r == if old(self)@.1.len() == 0 {
                None
            } else {
                Some(old(self)@.1.last())
            },
    {
        match self.redo_stack.pop() {
            Some(record) => {
                self.undo_stack.push(copy_record(&record));
                Some(record)
            },
            None => None,
        }
    }

    /// Reverts a file to its initial state: returns the earliest recorded
    /// edit of the path (whose `before_content` is that state) and removes
    /// every record of the path from both stacks. With no edit of the path
    /// on the undo stack, nothing changes.
    pub fn revert_file(&mut self, target: &str) -> (r: Option<FileEditRecord>)
        ensures
            r is None <==> forall|j: int|
                0 <= j < old(self)@.0.len() ==> path_key(#[trigger] old(self)@.0[j].path@)
                    != path_key(target@),
            r is None ==> final(self)@ == old(self)@,
            r matches Some(rec) ==> exists|i: int|
                is_first_of(old(self)@.0, target@, i) && rec == old(self)@.0[i],
            r is Some ==> final(self)@ == (
                without_path(old(self)@.0, target@),
                without_path(old(self)@.1, target@),
            ),
    {
        let mut i: usize = 0;
        while i < self.undo_stack.len()
            invariant
                *self == *old(self),
                i <= self.undo_stack@.len(),
                forall|j: int| 0 <= j < i ==> path_key(#[trigger] self.undo_stack@[j].path@)
                    != path_key(target@),
            decreases self.undo_stack@.len() - i,
        {
            if same_path(self.undo_stack[i].path.as_str(), target) {
                let initial = copy_record(&self.undo_stack[i]);
                assert(is_first_of(old(self)@.0, target@, i as int));
                let undo = keep_other_paths(&self.undo_stack, target);
                let redo = keep_other_paths(&self.redo_stack, target);
                self.undo_stack = undo;
                self.redo_stack = redo;
                return Some(initial);
            }
            i = i + 1;
        }
        None
    }

    /// Every modified path, in order of first edit, with its added and removed
    /// line counts summed over its edits on the undo stack.
    pub fn changes(&self) -> (r: Vec<(String, usize, usize)>)
        ensures
            r@.len() == distinct_paths(self@.0).len(),
            forall|i: int|
                0 <= i < r@.len() ==> {
                    let path = distinct_paths(self@.0)[i];
                    &&& (#[trigger] r@[i]).0@ == path
                    &&& r@[i].1 == path_total(self@.0, path, true)
                    &&& r@[i].2 == path_total(self@.0, path, false)
                },
    {
        let mut ordered: Vec<String> = Vec::new();
        let mut keys: Vec<String> = Vec::new();
        let mut i: usize = 0;
        while i < self.undo_stack.len()
            invariant
                i <= self.undo_stack@.len(),
                strs_view(ordered@) == distinct_paths(self.undo_stack@.take(i as int)),
                strs_view(keys@) == path_keys(strs_view(ordered@)),
            decreases self.undo_stack@.len() - i,
        {
            proof {
                let t = self.undo_stack@.take(i + 1);
                assert(t.drop_last() =~= self.undo_stack@.take(i as int));
            }
            let path = &self.undo_stack[i].path;
            let key = path_key_of(path.as_str());
            if !contains_text(&keys, key.as_str()) {
                let ghost before = ordered@;
                let ghost kbefore = keys@;
                ordered.push(crate::agent::copy_string(path));
                keys.push(key);
                proof {
                    assert(strs_view(ordered@) =~= strs_view(before).push(path@));
                    assert(strs_view(ordered@) =~= distinct_paths(self.undo_stack@.take(i as int)).push(
                        path@,
                    ));
                    assert(strs_view(keys@) =~= strs_view(kbefore).push(path_key(path@)));
                    assert(path_keys(strs_view(ordered@)) =~= path_keys(strs_view(before)).push(
                        path_key(path@),
                    ));
                }
            }
            i = i + 1;
        }
        assert(self.undo_stack@.take(self.undo_stack@.len() as int) =~= self.undo_stack@);
        let mut r: Vec<(String, usize, usize)> = Vec::new();
        let mut k: usize = 0;
        while k < ordered.len()
            invariant
                k <= ordered@.len(),
                strs_view(ordered@) == distinct_paths(self@.0),
                r@.len() == k,
                forall|m: int|
                    0 <= m < k ==> {
                        let path = distinct_paths(self@.0)[m];
                        &&& (#[trigger] r@[m]).0@ == path
                        &&& r@[m].1 == path_total(self@.0, path, true)
                        &&& r@[m].2 == path_total(self@.0, path, false)
                    },
            decreases ordered@.len() - k,
        {
            let path = ordered[k].as_str();
            assert(strs_view(ordered@)[k as int] == path@);
            let (added, removed) = self.path_totals(path);
            r.push((crate::agent::copy_string(&ordered[k]), added, removed));
            k = k + 1;
        }
        r
    }

    /// The summed added and removed line counts of a path's records.
    fn path_totals(&self, path: &str) -> (r: (usize, usize))
        ensures
            r.0 == path_total(self@.0, path@, true),
            r.1 == path_total(self@.0, path@, false),
    {
        let mut added: usize = 0;
        let mut removed: usize = 0;
        let mut i: usize = 0;
        while i < self.undo_stack.len()
            invariant
                i <= self.undo_stack@.len(),
                added == path_total(self.undo_stack@.take(i as int), path@, true),
                removed == path_total(self.undo_stack@.take(i as int), path@, false),
            decreases self.undo_stack@.len() - i,
        {
            proof {
                let t = self.undo_stack@.take(i + 1);
                assert(t.drop_last() =~= self.undo_stack@.take(i as int));
            }
            let record = &self.undo_stack[i];
            if same_path(record.path.as_str(), path) {
                added = added.saturating_add(record.added_lines());
                removed = removed.saturating_add(record.removed_lines());
            }
            i = i + 1;
        }
        assert(self.undo_stack@.take(self.undo_stack@.len() as int) =~= self.undo_stack@);
        (added, removed)
    }

    /// The unified diffs of all edits on the undo stack, oldest first.
    pub fn unified_diff(&self) -> (r: String)
        ensures
            r@ == diffs_of(self@.0),
    {
        let mut output = String::new();
        let mut i: usize = 0;
        while i < self.undo_stack.len()
            invariant
                i <= self.undo_stack@.len(),
                output@ == diffs_of(self.undo_stack@.take(i as int)),
            decreases self.undo_stack@.len() - i,
        {
            proof {
                let t = self.undo_stack@.take(i + 1);
                assert(t.drop_last() =~= self.undo_stack@.take(i as int));
            }
            let record = &self.undo_stack[i];
            let diff = unified_diff_for(
                record.path.as_str(),
                record.before_content.as_str(),
                record.after_content.as_str(),
            );
            push_str(&mut output, diff.as_str());
            i = i + 1;
        }
        assert(self.undo_stack@.take(self.undo_stack@.len() as int) =~= self.undo_stack@);
        output
    }

    /// Number of edits on the undo stack.
    pub fn undo_count(&self) -> (n: usize)
        ensures
            n == self@.0.len(),
    {
        self.undo_stack.len()
    }

    /// Number of edits on the redo stack.
    pub fn redo_count(&self) -> (n: usize)
        ensures
            n == self@.1.len(),
    {
        self.redo_stack.len()
    }

    /// Whether no edit is recorded on either stack.
    pub fn is_empty(&self) -> (r: bool)
        ensures
            r == (self@.0.len() == 0 && self@.1.len() == 0),
    {
        self.undo_stack.len() == 0 && self.redo_stack.len() == 0
    }
}

/// The records of other paths, in order.
fn keep_other_paths(rs: &Vec<FileEditRecord>, target: &str) -> (r: Vec<FileEditRecord>)
    ensures
        r@ == without_path(rs@, target@),
{
    let mut out: Vec<FileEditRecord> = Vec::new();
    let mut i: usize = 0;
    while i < rs.len()
        invariant
            i <= rs@.len(),
            out@ == without_path(rs@.take(i as int), target@),
        decreases rs@.len() - i,
    {
        proof {
            let t = rs@.take(i + 1);
            assert(t.drop_last() =~= rs@.take(i as int));
        }
        if !same_path(rs[i].path.as_str(), target) {
            out.push(copy_record(&rs[i]));
        }
        proof {
            reveal(Seq::filter);
            let t = rs@.take(i + 1);
            assert(t.filter(other_path(target@)) == if other_path(target@)(t.last()) {
                t.drop_last().filter(other_path(target@)).push(t.last())
            } else {
                t.drop_last().filter(other_path(target@))
            });
        }
        i = i + 1;
    }
    assert(rs@.take(rs@.len() as int) =~= rs@);
    out
}

/// Length of the longest common prefix of two lists of lines.
pub open spec fn common_prefix(a: Seq<Seq<char>>, b: Seq<Seq<char>>) -> nat
    decreases a.len(),
{
    if a.len() > 0 && b.len() > 0 && a[0] == b[0] {
        1 + common_prefix(a.drop_first(), b.drop_first())
    } else {
        0
    }
}

/// Length of the longest common suffix of two lists of lines.
pub open spec fn common_suffix(a: Seq<Seq<char>>, b: Seq<Seq<char>>) -> nat
    decreases a.len(),
{
    if a.len() > 0 && b.len() > 0 && a.last() == b.last() {
        1 + common_suffix(a.drop_last(), b.drop_last())
    } else {
        0
    }
}

/// The `j`-th line from the end.
pub open spec fn from_end(s: Seq<Seq<char>>, j: int) -> Seq<char> {
    s[s.len() - 1 - j]
}

proof fn lemma_common_prefix(a: Seq<Seq<char>>, b: Seq<Seq<char>>, k: int)
    requires
        0 <= k <= a.len(),
        k <= b.len(),
        forall|j: int| 0 <= j < k ==> a[j] == b[j],
        k == a.len() || k == b.len() || a[k] != b[k],
    ensures
        common_prefix(a, b) == k,
    decreases k,
{
    if k > 0 {
        assert(a[0] == b[0]);
        lemma_common_prefix(a.drop_first(), b.drop_first(), k - 1);
    }
}

proof fn lemma_common_suffix(a: Seq<Seq<char>>, b: Seq<Seq<char>>, k: int)
    requires
        0 <= k <= a.len(),
        k <= b.len(),
        forall|j: int| 0 <= j < k ==> #[trigger] from_end(a, j) == from_end(b, j),
        k == a.len() || k == b.len() || a[a.len() - 1 - k] != b[b.len() - 1 - k],
    ensures
        common_suffix(a, b) == k,
    decreases k,
{
    if k > 0 {
        assert(from_end(a, 0) == from_end(b, 0));
        assert(a.last() == b.last());
        let a2 = a.drop_last();
        let b2 = b.drop_last();
        assert forall|j: int| 0 <= j < k - 1 implies #[trigger] from_end(a2, j) == from_end(b2, j) by {
            assert(from_end(a, j + 1) == from_end(b, j + 1));
        }
        lemma_common_suffix(a2, b2, k - 1);
    }
}

/// A minimal unified diff of two contents: the header, then, when the line
/// lists differ, one hunk holding the lines between their common prefix and
/// common suffix, removed lines first.
pub open spec fn spec_unified_diff(path: Seq<char>, before: Seq<char>, after: Seq<char>) -> Seq<
    char,
> {
    let b = lines(before);
    let a = lines(after);
    let p = common_prefix(b, a);
    let s = common_suffix(b.skip(p as int), a.skip(p as int));
    let bm = b.subrange(p as int, b.len() - s);
    let am = a.subrange(p as int, a.len() - s);
    let header = "--- a/"@ + path + "\n+++ b/"@ + path + "\n"@;
    if bm.len() == 0 && am.len() == 0 {
        header
    } else {
        header + "@@ -"@ + dec(p + 1) + ","@ + dec(bm.len()) + " +"@ + dec(p + 1) + ","@ + dec(
            am.len(),
        ) + " @@\n"@ + prefixed_lines('-', bm) + prefixed_lines('+', am)
    }
}

/// Appends `c` + line + newline for each line of `ls[lo..hi]`.
fn push_prefixed(out: &mut String, c: char, ls: &[String], lo: usize, hi: usize)
    requires
        lo <= hi <= ls@.len(),
    ensures
        final(out)@ == old(out)@ + prefixed_lines(c, strs_view(ls@).subrange(lo as int, hi as int)),
{
    let mut i: usize = lo;
    assert(strs_view(ls@).subrange(lo as int, lo as int) =~= Seq::<Seq<char>>::empty());
    assert(old(out)@ + prefixed_lines(c, Seq::<Seq<char>>::empty()) =~= old(out)@);
    while i < hi
        invariant
            lo <= i <= hi <= ls@.len(),
            out@ == old(out)@ + prefixed_lines(c, strs_view(ls@).subrange(lo as int, i as int)),
        decreases hi - i,
    {
        let ghost o0 = out@;
        push_char(out, c);
        push_str(out, ls[i].as_str());
        push_char(out, '\n');
        proof {
            let t = strs_view(ls@).subrange(lo as int, i + 1);
            assert(t.drop_last() =~= strs_view(ls@).subrange(lo as int, i as int));
            assert(t.last() == ls@[i as int]@);
            assert(out@ =~= o0 + seq![c] + ls@[i as int]@ + seq!['\n']);
        }
        i = i + 1;
    }
}

/// Produces a minimal unified diff between two contents of a path.
pub fn unified_diff_for(path: &str, before: &str, after: &str) -> (r: String)
    ensures
        r@ == spec_unified_diff(path@, before@, after@),
{
    let bl = text_lines(before);
    let al = text_lines(after);
    let ghost b = lines(before@);
    let ghost a = lines(after@);
    let mut out = "--- a/".to_owned();
    push_str(&mut out, path);
    push_str(&mut out, "\n+++ b/");
    push_str(&mut out, path);
    push_str(&mut out, "\n");
    let nb = bl.len();
    let na = al.len();
    let n = if nb < na {
        nb
    } else {
        na
    };
    let mut p: usize = 0;
    while p < n && str_eq(bl[p].as_str(), al[p].as_str())
        invariant
            p <= n,
            n <= nb,
            n <= na,
            nb == b.len(),
            na == a.len(),
            b == strs_view(bl@),
            a == strs_view(al@),
            forall|j: int| 0 <= j < p ==> b[j] == a[j],
        decreases n - p,
    {
        p = p + 1;
    }
    proof {
        lemma_common_prefix(b, a, p as int);
    }
    let m = if nb - p < na - p {
        nb - p
    } else {
        na - p
    };
    let ghost bs = b.skip(p as int);
    let ghost as_ = a.skip(p as int);
    let mut s: usize = 0;
    while s < m && str_eq(bl[nb - 1 - s].as_str(), al[na - 1 - s].as_str())
        invariant
            p <= nb,
            p <= na,
            s <= m,
            m <= nb - p,
            m <= na - p,
            nb == b.len(),
            na == a.len(),
            b == strs_view(bl@),
            a == strs_view(al@),
            bs == b.skip(p as int),
            as_ == a.skip(p as int),
            forall|j: int| 0 <= j < s ==> #[trigger] from_end(bs, j) == from_end(as_, j),
        decreases m - s,
    {
        assert(from_end(bs, s as int) == b[nb - 1 - s]);
        assert(from_end(as_, s as int) == a[na - 1 - s]);
        s = s + 1;
    }
    proof {
        if s < m {
            assert(bs[bs.len() - 1 - s] == b[nb - 1 - s]);
            assert(as_[as_.len() - 1 - s] == a[na - 1 - s]);
        }
        lemma_common_suffix(bs, as_, s as int);
    }
    let bm_len = nb - s - p;
    let am_len = na - s - p;
    if bm_len == 0 && am_len == 0 {
        return out;
    }
    push_str(&mut out, "@@ -");
    push_dec(&mut out, (p as u128) + 1);
    push_str(&mut out, ",");
    push_dec(&mut out, bm_len as u128);
    push_str(&mut out, " +");
    push_dec(&mut out, (p as u128) + 1);
    push_str(&mut out, ",");
    push_dec(&mut out, am_len as u128);
    push_str(&mut out, " @@\n");
    push_prefixed(&mut out, '-', &bl, p, nb - s);
    push_prefixed(&mut out, '+', &al, p, na - s);
    out
}

/// Undoing an edit and redoing it gives back the same stacks.
pub proof fn law_redo_after_undo_restores(h: (Seq<FileEditRecord>, Seq<FileEditRecord>))
    requires
        h.0.len() > 0,
    ensures
        redone(undone(h)) == h,
{
    assert(undone(h).0.push(h.0.last()) =~= h.0);
    assert(undone(h).1.drop_last() =~= h.1);
}

/// Redoing an undone edit and undoing it again gives back the same stacks.
pub proof fn law_undo_after_redo_restores(h: (Seq<FileEditRecord>, Seq<FileEditRecord>))
    requires
        h.1.len() > 0,
    ensures
        undone(redone(h)) == h,
{
    assert(redone(h).0.drop_last() =~= h.0);
    assert(redone(h).1.push(h.1.last()) =~= h.1);
}

/// After a revert no record of the path is left on either stack.
pub proof fn law_revert_leaves_no_record_of_path(
    h: (Seq<FileEditRecord>, Seq<FileEditRecord>),
    path: Seq<char>,
)
    ensures
        forall|j: int|
            0 <= j < without_path(h.0, path).len() ==> path_key(
                (#[trigger] without_path(h.0, path)[j]).path@,
            ) != path_key(path),
        forall|j: int|
            0 <= j < without_path(h.1, path).len() ==> path_key(
                (#[trigger] without_path(h.1, path)[j]).path@,
            ) != path_key(path),
{
    let pred = other_path(path);
    assert forall|j: int| 0 <= j < without_path(h.0, path).len() implies path_key(
        (#[trigger] without_path(h.0, path)[j]).path@,
    ) != path_key(path) by {
        h.0.lemma_filter_pred(pred, j);
    }
    assert forall|j: int| 0 <= j < without_path(h.1, path).len() implies path_key(
        (#[trigger] without_path(h.1, path)[j]).path@,
    ) != path_key(path) by {
        h.1.lemma_filter_pred(pred, j);
    }
}

/// The lines of `xs` that `ys` lacks, in order.
pub open spec fn lacking(xs: Seq<Seq<char>>, ys: Seq<Seq<char>>) -> Seq<Seq<char>> {
    xs.filter(|l: Seq<char>| !ys.contains(l))
}

proof fn lemma_count_missing_is_lacking(xs: Seq<Seq<char>>, ys: Seq<Seq<char>>)
    ensures
        count_missing(xs, ys) == lacking(xs, ys).len(),
    decreases xs.len(),
{
    reveal(Seq::filter);
    if xs.len() > 0 {
        lemma_count_missing_is_lacking(xs.drop_last(), ys);
    }
}

proof fn lemma_nothing_lacking(xs: Seq<Seq<char>>, ys: Seq<Seq<char>>)
    requires
        forall|i: int| 0 <= i < xs.len() ==> ys.contains(#[trigger] xs[i]),
    ensures
        count_missing(xs, ys) == 0,
    decreases xs.len(),
{
    if xs.len() > 0 {
        assert(ys.contains(xs[xs.len() - 1]));
        assert forall|i: int| 0 <= i < xs.drop_last().len() implies ys.contains(
            #[trigger] xs.drop_last()[i],
        ) by {
            assert(xs.drop_last()[i] == xs[i]);
        }
        lemma_nothing_lacking(xs.drop_last(), ys);
    }
}

/// A record's added lines are its new content's lines, counted with
/// repetition, that its old content does not have, and its removed lines
/// the old content's lines that the new one does not have: an unchanged
/// line is neither, and an edit that changes nothing adds and removes
/// nothing.
pub proof fn law_added_and_removed_are_the_differing_lines(r: FileEditRecord)
    ensures
        r.spec_added() == lacking(lines(r.after_content@), lines(r.before_content@)).len(),
        r.spec_removed() == lacking(lines(r.before_content@), lines(r.after_content@)).len(),
        r.spec_added() <= lines(r.after_content@).len(),
        r.spec_removed() <= lines(r.before_content@).len(),
        (forall|i: int|
            0 <= i < lines(r.after_content@).len() ==> lines(r.before_content@).contains(
                #[trigger] lines(r.after_content@)[i],
            )) ==> r.spec_added() == 0,
        r.after_content@ == r.before_content@ ==> r.spec_added() == 0 && r.spec_removed() == 0,
{
    let b = lines(r.before_content@);
    let a = lines(r.after_content@);
    lemma_count_missing_is_lacking(a, b);
    lemma_count_missing_is_lacking(b, a);
    a.lemma_filter_len(|l: Seq<char>| !b.contains(l));
    b.lemma_filter_len(|l: Seq<char>| !a.contains(l));
    if forall|i: int| 0 <= i < a.len() ==> b.contains(#[trigger] a[i]) {
        lemma_nothing_lacking(a, b);
    }
    if r.after_content@ == r.before_content@ {
        assert forall|i: int| 0 <= i < a.len() implies b.contains(#[trigger] a[i]) by {
            assert(b[i] == a[i]);
        }
        lemma_nothing_lacking(a, b);
        lemma_nothing_lacking(b, a);
    }
}

proof fn lemma_common_prefix_props(a: Seq<Seq<char>>, b: Seq<Seq<char>>)
    ensures
        common_prefix(a, b) <= a.len(),
        common_prefix(a, b) <= b.len(),
        forall|j: int| 0 <= j < common_prefix(a, b) ==> a[j] == b[j],
        common_prefix(a, b) < a.len() && common_prefix(a, b) < b.len() ==> a[common_prefix(a, b) as int]
            != b[common_prefix(a, b) as int],
    decreases a.len(),
{
    if a.len() > 0 && b.len() > 0 && a[0] == b[0] {
        lemma_common_prefix_props(a.drop_first(), b.drop_first());
        let k = common_prefix(a.drop_first(), b.drop_first());
        assert forall|j: int| 0 <= j < common_prefix(a, b) implies a[j] == b[j] by {
            if j > 0 {
                assert(a.drop_first()[j - 1] == b.drop_first()[j - 1]);
            }
        }
        if k < a.drop_first().len() && k < b.drop_first().len() {
            assert(a.drop_first()[k as int] != b.drop_first()[k as int]);
        }
    }
}

proof fn lemma_common_suffix_props(a: Seq<Seq<char>>, b: Seq<Seq<char>>)
    ensures
        common_suffix(a, b) <= a.len(),
        common_suffix(a, b) <= b.len(),
        forall|j: int| 0 <= j < common_suffix(a, b) ==> #[trigger] from_end(a, j) == from_end(b, j),
        common_suffix(a, b) < a.len() && common_suffix(a, b) < b.len() ==> from_end(
            a,
            common_suffix(a, b) as int,
        ) != from_end(b, common_suffix(a, b) as int),
    decreases a.len(),
{
    if a.len() > 0 && b.len() > 0 && a.last() == b.last() {
        let a2 = a.drop_last();
        let b2 = b.drop_last();
        lemma_common_suffix_props(a2, b2);
        let k = common_suffix(a2, b2);
        assert forall|j: int| 0 <= j < common_suffix(a, b) implies #[trigger] from_end(a, j)
            == from_end(b, j) by {
            if j > 0 {
                assert(from_end(a2, j - 1) == from_end(b2, j - 1));
                assert(from_end(a2, j - 1) == from_end(a, j));
                assert(from_end(b2, j - 1) == from_end(b, j));
            }
        }
        if k < a2.len() && k < b2.len() {
            assert(from_end(a2, k as int) == from_end(a, (k + 1) as int));
            assert(from_end(b2, k as int) == from_end(b, (k + 1) as int));
        }
    }
}

/// A diff of line lists `b` to `a` with `p` shared lines in front and `s`
/// shared lines at the end: the header, then, when anything changed, one
/// hunk that removes the other lines of `b` and adds those of `a`.
pub open spec fn hunk_text(path: Seq<char>, b: Seq<Seq<char>>, a: Seq<Seq<char>>, p: int, s: int) -> Seq<char> {
    let bm = b.subrange(p, b.len() - s);
    let am = a.subrange(p, a.len() - s);
    let header = "--- a/"@ + path + "\n+++ b/"@ + path + "\n"@;
    if bm.len() == 0 && am.len() == 0 {
        header
    } else {
        header + "@@ -"@ + dec((p + 1) as nat) + ","@ + dec(bm.len()) + " +"@ + dec((p + 1) as nat)
            + ","@ + dec(am.len()) + " @@\n"@ + prefixed_lines('-', bm) + prefixed_lines('+', am)
    }
}

/// `p` lines in front and `s` at the end are shared by `b` and `a`, and no
/// more: when both sides keep changed lines, their first lines differ and
/// their last lines differ.
pub open spec fn shared_ends(b: Seq<Seq<char>>, a: Seq<Seq<char>>, p: int, s: int) -> bool {
    &&& 0 <= p && 0 <= s
    &&& p + s <= b.len() && p + s <= a.len()
    &&& b.take(p) == a.take(p)
    &&& b.skip(b.len() - s) == a.skip(a.len() - s)
    &&& (p + s < b.len() && p + s < a.len()) ==> (b[p] != a[p] && b[b.len() - 1 - s] != a[a.len()
        - 1 - s])
}

/// The diff of an edit shows one hunk holding exactly the lines between the
/// longest shared front and the longest shared end: no line that both
/// versions share at the front or at the end is shown as removed and added
/// again.
pub proof fn law_diff_hunk_skips_shared_ends(path: Seq<char>, before: Seq<char>, after: Seq<char>)
    ensures
        exists|p: int, s: int|
            #[trigger] shared_ends(lines(before), lines(after), p, s) && spec_unified_diff(
                path,
                before,
                after,
            ) == hunk_text(path, lines(before), lines(after), p, s),
{
    let b = lines(before);
    let a = lines(after);
    let p = common_prefix(b, a);
    lemma_common_prefix_props(b, a);
    let bs = b.skip(p as int);
    let as_ = a.skip(p as int);
    let s = common_suffix(bs, as_);
    lemma_common_suffix_props(bs, as_);
    assert(b.take(p as int) =~= a.take(p as int)) by {
        assert forall|j: int| 0 <= j < p implies b.take(p as int)[j] == a.take(p as int)[j] by {
            assert(b[j] == a[j]);
        }
    }
    assert(b.skip(b.len() - s) =~= a.skip(a.len() - s)) by {
        assert forall|j: int| 0 <= j < s implies #[trigger] b.skip(b.len() - s)[j] == a.skip(a.len() - s)[j] by {
            let k = s - 1 - j;
            assert(from_end(bs, k) == from_end(as_, k));
        }
    }
    if p + s < b.len() && p + s < a.len() {
        assert(from_end(bs, s as int) == b[b.len() - 1 - s]);
        assert(from_end(as_, s as int) == a[a.len() - 1 - s]);
    }
    assert(shared_ends(b, a, p as int, s as int));
    assert(spec_unified_diff(path, before, after) == hunk_text(path, b, a, p as int, s as int));
}

} // verus!
