//! What the tools report once they have run: directory listings, file
//! metadata, glob and grep results, shell outcomes. Walking the file system
//! and running processes is left to the caller, who hands over what it found.

use vstd::prelude::*;

use crate::text::{
    chars_of, contains_seq, dec, join, join_strs, lemma_name_lt_irreflexive, lemma_name_lt_total,
    lemma_name_lt_transitive, lines, lines_of, name_less, name_lt, push_dec, push_str, strs_view,
    trim,
};
use crate::tools::{is_sensitive, is_under, spec_is_sensitive, spec_under, ToolError};

verus! {

broadcast use vstd::seq_lib::group_to_multiset_ensures;

/// Most glob matches reported.
pub const GLOB_RESULT_CAP: usize = 200;

/// Most grep matches reported.
pub const GREP_MATCH_CAP: usize = 200;

/// Largest file searched by grep, in bytes.
pub const GREP_MAX_FILE_BYTES: u64 = 1048576;

/// Shell timeout used unless configured otherwise, in seconds.
pub const DEFAULT_SHELL_TIMEOUT_SECS: u64 = 30;

/// Names in non-decreasing code-point (so byte) order.
pub open spec fn sorted_names(s: Seq<Seq<char>>) -> bool {
    forall|i: int, j: int| 0 <= i < j < s.len() ==> !name_lt(#[trigger] s[j], #[trigger] s[i])
}

/// `s` holds the names of `v` in sorted order.
pub open spec fn sorted_of(s: Seq<Seq<char>>, v: Seq<Seq<char>>) -> bool {
    sorted_names(s) && s.to_multiset() == v.to_multiset()
}

proof fn lemma_insert_sorted(s: Seq<Seq<char>>, p: int, x: Seq<char>)
    requires
        sorted_names(s),
        0 <= p <= s.len(),
        forall|k: int| 0 <= k < p ==> !name_lt(x, #[trigger] s[k]),
        p < s.len() ==> name_lt(x, s[p]),
    ensures
        sorted_names(s.insert(p, x)),
{
    let t = s.insert(p, x);
    assert forall|i: int, j: int| 0 <= i < j < t.len() implies !name_lt(#[trigger] t[j], #[trigger] t[i]) by {
        if j < p {
            assert(t[i] == s[i] && t[j] == s[j]);
        } else if j == p {
            assert(t[j] == x && t[i] == s[i]);
            if name_lt(x, s[i]) {
                assert(!name_lt(x, s[i]));
            }
        } else if i == p {
            assert(t[i] == x && t[j] == s[j - 1]);
            // x < s[p] <= s[j-1]
            if name_lt(s[j - 1], x) {
                if j - 1 == p {
                    lemma_name_lt_transitive(x, s[p], x);
                    lemma_name_lt_irreflexive(x);
                } else {
                    assert(!name_lt(s[j - 1], s[p]));
                    if s[j - 1] != s[p] {
                        lemma_name_lt_total(s[j - 1], s[p]);
                        lemma_name_lt_transitive(x, s[p], s[j - 1]);
                        lemma_name_lt_transitive(x, s[j - 1], x);
                    } else {
                        lemma_name_lt_transitive(x, s[p], x);
                    }
                    lemma_name_lt_irreflexive(x);
                }
            }
        } else if i < p {
            assert(t[i] == s[i] && t[j] == s[j - 1]);
        } else {
            assert(t[i] == s[i - 1] && t[j] == s[j - 1]);
        }
    }
}

/// Sorts names in code-point order (`[String]::sort`).
pub fn sort_strings(v: Vec<String>) -> (r: Vec<String>)
    ensures
        sorted_of(strs_view(r@), strs_view(v@)),
{
    let mut r: Vec<String> = Vec::new();
    let mut i: usize = 0;
    while i < v.len()
        invariant
            i <= v@.len(),
            sorted_names(strs_view(r@)),
            strs_view(r@).to_multiset() == strs_view(v@).take(i as int).to_multiset(),
        decreases v@.len() - i,
    {
        let x = crate::agent::copy_string(&v[i]);
        let mut p: usize = 0;
        while p < r.len() && !name_less(x.as_str(), r[p].as_str())
            invariant
                p <= r@.len(),
                forall|k: int| 0 <= k < p ==> !name_lt(x@, #[trigger] strs_view(r@)[k]),
            decreases r@.len() - p,
        {
            assert(strs_view(r@)[p as int] == r@[p as int]@);
            p = p + 1;
        }
        proof {
            if p < r@.len() {
                assert(strs_view(r@)[p as int] == r@[p as int]@);
            }
            lemma_insert_sorted(strs_view(r@), p as int, x@);
        }
        let ghost before = r@;
        let ghost xv = x@;
        r.insert(p, x);
        proof {
            assert(strs_view(r@) =~= strs_view(before).insert(p as int, xv));
            vstd::seq_lib::to_multiset_insert(strs_view(before), p as int, xv);
            let t = strs_view(v@).take(i + 1);
            assert(t =~= strs_view(v@).take(i as int).push(xv));
            vstd::seq_lib::to_multiset_build(strs_view(v@).take(i as int), xv);
        }
        i = i + 1;
    }
    assert(strs_view(v@).take(v@.len() as int) =~= strs_view(v@));
    r
}

/// The `list_dir` report: entry names in sorted order, one per line.
pub fn listing(names: Vec<String>) -> (r: String)
    ensures
        exists|s: Seq<Seq<char>>| sorted_of(s, strs_view(names@)) && r@ == join(s, "\n"@),
{
    let sorted = sort_strings(names);
    join_strs(&sorted, "\n")
}

/// The kind of a file-system entry as reported.
pub open spec fn kind_name(is_file: bool, is_dir: bool) -> Seq<char> {
    if is_dir {
        "dir"@
    } else if is_file {
        "file"@
    } else {
        "other"@
    }
}

/// The `file_meta` report.
pub open spec fn spec_file_meta(
    path: Seq<char>,
    size: u64,
    is_file: bool,
    is_dir: bool,
    modified: Option<u64>,
) -> Seq<char> {
    "path: "@ + path + "\nsize: "@ + dec(size as nat) + "\nkind: "@ + kind_name(is_file, is_dir)
        + "\nis_file: "@ + (if is_file {
        "true"@
    } else {
        "false"@
    }) + "\nis_dir: "@ + (if is_dir {
        "true"@
    } else {
        "false"@
    }) + "\nmodified_unix: "@ + match modified {
        Some(t) => dec(t as nat),
        None => "unknown"@,
    }
}

/// Formats the `file_meta` report from what the file system said.
pub fn file_meta_text(
    path: &str,
    size: u64,
    is_file: bool,
    is_dir: bool,
    modified: Option<u64>,
) -> (r: String)
    ensures
        r@ == spec_file_meta(path@, size, is_file, is_dir, modified),
{
    let mut r = "path: ".to_owned();
    push_str(&mut r, path);
    push_str(&mut r, "\nsize: ");
    push_dec(&mut r, size as u128);
    push_str(&mut r, "\nkind: ");
    push_str(
        &mut r,
        if is_dir {
            "dir"
        } else if is_file {
            "file"
        } else {
            "other"
        },
    );
    push_str(&mut r, "\nis_file: ");
    push_str(
        &mut r,
        if is_file {
            "true"
        } else {
            "false"
        },
    );
    push_str(&mut r, "\nis_dir: ");
    push_str(
        &mut r,
        if is_dir {
            "true"
        } else {
            "false"
        },
    );
    push_str(&mut r, "\nmodified_unix: ");
    match modified {
        Some(t) => push_dec(&mut r, t as u128),
        None => push_str(&mut r, "unknown"),
    }
    r
}

/// The `write_file` report.
pub fn write_report(bytes: usize, path: &str) -> (r: String)
    ensures
        r@ == "wrote "@ + dec(bytes as nat) + " bytes to "@ + path@,
{
    let mut r = "wrote ".to_owned();
    push_dec(&mut r, bytes as u128);
    push_str(&mut r, " bytes to ");
    push_str(&mut r, path);
    r
}

/// A report of matches: the first `cap` lines, a note when more were
/// found, `(no matches)` when nothing is left to show.
pub open spec fn capped_report(s: Seq<Seq<char>>, cap: nat, note: Seq<char>) -> Seq<char> {
    let kept = if s.len() > cap {
        s.take(cap as int)
    } else {
        s
    };
    let out = join(kept, "\n"@) + if s.len() > cap {
        note
    } else {
        seq![]
    };
    if out.len() == 0 {
        "(no matches)"@
    } else {
        out
    }
}

/// The `glob` report: the matched paths sorted, at most 200 of them.
pub fn glob_report(matches: Vec<String>) -> (r: String)
    ensures
        exists|s: Seq<Seq<char>>|
            sorted_of(s, strs_view(matches@)) && r@ == capped_report(
                s,
                GLOB_RESULT_CAP as nat,
                "\n… truncated to "@ + dec(GLOB_RESULT_CAP as nat) + " results"@,
            ),
{
    let sorted = sort_strings(matches);
    let ghost s = strs_view(sorted@);
    let n = sorted.len();
    let mut kept: Vec<String> = Vec::new();
    let limit = if n > GLOB_RESULT_CAP {
        GLOB_RESULT_CAP
    } else {
        n
    };
    let mut i: usize = 0;
    while i < limit
        invariant
            limit <= n,
            n == sorted@.len(),
            i <= limit,
            s == strs_view(sorted@),
            strs_view(kept@) == s.take(i as int),
        decreases limit - i,
    {
        let ghost before = kept@;
        kept.push(crate::agent::copy_string(&sorted[i]));
        assert(strs_view(kept@) =~= strs_view(before).push(sorted@[i as int]@));
        assert(s.take(i + 1) =~= s.take(i as int).push(s[i as int]));
        i = i + 1;
    }
    if n <= GLOB_RESULT_CAP {
        assert(s.take(n as int) =~= s);
    }
    let mut out = join_strs(&kept, "\n");
    if n > GLOB_RESULT_CAP {
        push_str(&mut out, "\n… truncated to ");
        push_dec(&mut out, GLOB_RESULT_CAP as u128);
        push_str(&mut out, " results");
    }
    if out.as_str().is_empty() {
        return "(no matches)".to_owned();
    }
    out
}

/// The matching lines of one file, as `path:line:content`, while fewer than
/// `room` lines are held; the flag says the search stopped for lack of room.
pub open spec fn grep_lines(
    display: Seq<char>,
    ls: Seq<Seq<char>>,
    pattern: Seq<char>,
    start: nat,
    room: nat,
) -> (Seq<Seq<char>>, bool)
    decreases ls.len(),
{
    if ls.len() == 0 {
        (seq![], false)
    } else if room == 0 {
        (seq![], true)
    } else if contains_seq(ls[0], pattern) {
        let rest = grep_lines(display, ls.drop_first(), pattern, start + 1, (room - 1) as nat);
        (seq![display + ":"@ + dec(start + 1) + ":"@ + ls[0]] + rest.0, rest.1)
    } else {
        grep_lines(display, ls.drop_first(), pattern, start + 1, room)
    }
}

/// Searches one file's text: its matching lines, at most `room` of them,
/// and whether the search stopped because that many were found.
pub fn grep_text(display: &str, text: &str, pattern: &str, room: usize) -> (r: (Vec<String>, bool))
    ensures
        strs_view(r.0@) == grep_lines(display@, lines(text@), pattern@, 0, room as nat).0,
        r.1 == grep_lines(display@, lines(text@), pattern@, 0, room as nat).1,
{
    let v = chars_of(text);
    let ls = lines_of(&v);
    let ghost lsv = strs_view(ls@);
    let pv = chars_of(pattern);
    let mut out: Vec<String> = Vec::new();
    let mut i: usize = 0;
    let mut left = room;
    let mut stopped = false;
    assert(lsv.skip(0) =~= lsv);
    assert(strs_view(out@) + grep_lines(display@, lsv, pattern@, 0, room as nat).0 =~= grep_lines(
        display@,
        lsv,
        pattern@,
        0,
        room as nat,
    ).0);
    while i < ls.len() && !stopped
        invariant
            i <= ls@.len(),
            lsv == strs_view(ls@),
            pv@ == pattern@,
            stopped ==> left == 0 && i < ls@.len(),
            grep_lines(display@, lsv, pattern@, 0, room as nat).0 == strs_view(out@) + grep_lines(
                display@,
                lsv.skip(i as int),
                pattern@,
                i as nat,
                left as nat,
            ).0,
            grep_lines(display@, lsv, pattern@, 0, room as nat).1 == grep_lines(
                display@,
                lsv.skip(i as int),
                pattern@,
                i as nat,
                left as nat,
            ).1,
        decreases ls@.len() - i + if stopped {
            0int
        } else {
            1int
        },
    {
        let ghost rest = lsv.skip(i as int);
        assert(rest[0] == ls@[i as int]@);
        assert(rest.drop_first() =~= lsv.skip(i + 1));
        if left == 0 {
            stopped = true;
        } else {
            let lv = chars_of(ls[i].as_str());
            if crate::text::contains_chars(&lv, &pv) {
                let mut line = display.to_owned();
                push_str(&mut line, ":");
                push_dec(&mut line, (i as u128) + 1);
                push_str(&mut line, ":");
                push_str(&mut line, ls[i].as_str());
                let ghost before = out@;
                let ghost lview = line@;
                out.push(line);
                proof {
                    assert(strs_view(out@) =~= strs_view(before).push(lview));
                    let g = grep_lines(
                        display@,
                        lsv.skip(i + 1),
                        pattern@,
                        (i + 1) as nat,
                        (left - 1) as nat,
                    );
                    assert(strs_view(before) + (seq![lview] + g.0) =~= strs_view(out@) + g.0);
                }
                left = left - 1;
            }
            i = i + 1;
        }
    }
    proof {
        if !stopped {
            assert(lsv.skip(i as int).len() == 0);
            assert(strs_view(out@) + Seq::<Seq<char>>::empty() =~= strs_view(out@));
        } else {
            assert(lsv.skip(i as int).len() > 0);
            assert(strs_view(out@) + Seq::<Seq<char>>::empty() =~= strs_view(out@));
        }
    }
    (out, stopped)
}

/// The `grep` report: the matches found, one per line, with a note when the
/// search stopped at the cap; `(no matches)` when there are none.
pub fn grep_report(matches: &Vec<String>, truncated: bool) -> (r: String)
    ensures
        matches@.len() == 0 ==> r@ == "(no matches)"@,
        matches@.len() > 0 ==> r@ == join(strs_view(matches@), "\n"@) + if truncated {
            "\n… truncated to "@ + dec(GREP_MATCH_CAP as nat) + " matches"@
        } else {
            Seq::<char>::empty()
        },
{
    if matches.len() == 0 {
        return "(no matches)".to_owned();
    }
    let mut out = join_strs(matches, "\n");
    if truncated {
        push_str(&mut out, "\n… truncated to ");
        push_dec(&mut out, GREP_MATCH_CAP as u128);
        push_str(&mut out, " matches");
    }
    out
}

/// A control byte that text files rarely hold.
pub open spec fn is_nontext(b: u8) -> bool {
    b < 0x09 || (0x0d < b && b < 0x20) || b == 0x7f
}

/// The number of such bytes among the first `n`.
pub open spec fn nontext_count(s: Seq<u8>, n: int) -> nat
    decreases n,
{
    if n <= 0 {
        0
    } else {
        nontext_count(s, n - 1) + if is_nontext(s[n - 1]) {
            1nat
        } else {
            0nat
        }
    }
}

/// Bytes sampled to judge whether a file is text.
pub const BINARY_SAMPLE_BYTES: usize = 8192;

/// A file looks binary: it holds a NUL byte, or more than a tenth of its
/// first 8192 bytes are control bytes other than whitespace.
pub open spec fn spec_binary_ish(s: Seq<u8>) -> bool {
    let n: nat = if s.len() < BINARY_SAMPLE_BYTES {
        s.len()
    } else {
        BINARY_SAMPLE_BYTES as nat
    };
    s.contains(0u8) || (n > 0 && nontext_count(s, n as int) * 100 / n > 10)
}

/// Whether file content looks binary.
pub fn is_binary_ish(bytes: &[u8]) -> (r: bool)
    ensures
        r == spec_binary_ish(bytes@),
{
    let mut i: usize = 0;
    while i < bytes.len()
        invariant
            i <= bytes@.len(),
            forall|j: int| 0 <= j < i ==> bytes@[j] != 0u8,
        decreases bytes@.len() - i,
    {
        if bytes[i] == 0 {
            assert(bytes@[i as int] == 0u8);
            return true;
        }
        i = i + 1;
    }
    assert(!bytes@.contains(0u8));
    let n = if bytes.len() < BINARY_SAMPLE_BYTES {
        bytes.len()
    } else {
        BINARY_SAMPLE_BYTES
    };
    if n == 0 {
        return false;
    }
    let mut count: usize = 0;
    let mut k: usize = 0;
    while k < n
        invariant
            n <= bytes@.len(),
            n <= BINARY_SAMPLE_BYTES,
            k <= n,
            count <= k,
            count == nontext_count(bytes@, k as int),
        decreases n - k,
    {
        let b = bytes[k];
        if b < 0x09 || (b > 0x0d && b < 0x20) || b == 0x7f {
            count = count + 1;
        }
        k = k + 1;
    }
    count * 100 / n > 10
}

/// The value of a decimal numeral.
pub open spec fn numeral_value(s: Seq<char>) -> nat
    decreases s.len(),
{
    if s.len() == 0 {
        0
    } else {
        numeral_value(s.drop_last()) * 10 + ((s.last() as u32) - ('0' as u32)) as nat
    }
}

/// Only ASCII digits, at least one.
pub open spec fn is_numeral(s: Seq<char>) -> bool {
    s.len() > 0 && forall|i: int| 0 <= i < s.len() ==> '0' <= #[trigger] s[i] <= '9'
}

/// `u64::from_str`: an optional `+` then a numeral whose value fits.
pub open spec fn spec_parse_u64(s: Seq<char>) -> Option<u64> {
    let digits = if s.len() > 0 && s[0] == '+' {
        s.drop_first()
    } else {
        s
    };
    if is_numeral(digits) && numeral_value(digits) <= u64::MAX {
        Some(numeral_value(digits) as u64)
    } else {
        None
    }
}

/// Parses an unsigned decimal number (`u64::from_str`).
pub fn parse_u64(s: &str) -> (r: Option<u64>)
    ensures
        r == spec_parse_u64(s@),
{
    let v = chars_of(s);
    let start: usize = if v.len() > 0 && v[0] == '+' {
        1
    } else {
        0
    };
    let ghost digits = if v@.len() > 0 && v@[0] == '+' {
        v@.drop_first()
    } else {
        v@
    };
    assert(digits =~= v@.skip(start as int));
    if start >= v.len() {
        return None;
    }
    let mut value: u128 = 0;
    let mut i = start;
    while i < v.len()
        invariant
            start <= i <= v@.len(),
            v@ == s@,
            digits == v@.skip(start as int),
            digits == (if s@.len() > 0 && s@[0] == '+' {
                s@.drop_first()
            } else {
                s@
            }),
            forall|j: int| start <= j < i ==> '0' <= #[trigger] v@[j] <= '9',
            value == numeral_value(v@.subrange(start as int, i as int)),
            value <= u64::MAX,
        decreases v@.len() - i,
    {
        let c = v[i];
        if !('0' <= c && c <= '9') {
            proof {
                assert(digits[i - start] == c);
                assert(!('0' <= digits[i - start] <= '9'));
                assert(!is_numeral(digits));
            }
            return None;
        }
        let d = (c as u32) - ('0' as u32);
        proof {
            assert(v@.subrange(start as int, i + 1).drop_last() =~= v@.subrange(
                start as int,
                i as int,
            ));
        }
        let next = value * 10 + (d as u128);
        if next > (u64::MAX as u128) {
            proof {
                assert(digits.take(i + 1 - start) =~= v@.subrange(start as int, i + 1));
                if is_numeral(digits) {
                    lemma_numeral_prefix_bound(digits, (i + 1 - start) as int);
                }
            }
            return None;
        }
        value = next;
        i = i + 1;
    }
    assert(v@.subrange(start as int, v@.len() as int) =~= digits);
    Some(value as u64)
}

proof fn lemma_numeral_prefix_bound(s: Seq<char>, k: int)
    requires
        0 <= k <= s.len(),
        forall|i: int| 0 <= i < s.len() ==> '0' <= #[trigger] s[i] <= '9',
    ensures
        numeral_value(s.take(k)) <= numeral_value(s),
    decreases s.len() - k,
{
    if k < s.len() {
        lemma_numeral_prefix_bound(s, k + 1);
        assert(s.take(k + 1).drop_last() =~= s.take(k));
    } else {
        assert(s.take(k) =~= s);
    }
}

/// The configured shell timeout in seconds: a positive number, else 30.
pub open spec fn spec_shell_timeout(raw: Option<Seq<char>>) -> u64 {
    match raw {
        Some(r) => match spec_parse_u64(trim(r)) {
            Some(secs) => if secs > 0 {
                secs
            } else {
                DEFAULT_SHELL_TIMEOUT_SECS
            },
            None => DEFAULT_SHELL_TIMEOUT_SECS,
        },
        None => DEFAULT_SHELL_TIMEOUT_SECS,
    }
}

/// The shell timeout from the configured value, if any.
pub fn shell_timeout_secs(raw: Option<&str>) -> (r: u64)
    ensures
        r == spec_shell_timeout(
            match raw {
                Some(s) => Some(s@),
                None => None,
            },
        ),
{
    match raw {
        Some(s) => {
            let t = crate::text::trim_str(s);
            match parse_u64(t.as_str()) {
                Some(secs) => if secs > 0 {
                    secs
                } else {
                    DEFAULT_SHELL_TIMEOUT_SECS
                },
                None => DEFAULT_SHELL_TIMEOUT_SECS,
            }
        },
        None => DEFAULT_SHELL_TIMEOUT_SECS,
    }
}

/// What a finished shell command yields: its output on success, else an
/// error carrying its standard error, or its output when that is blank.
pub fn shell_outcome(success: bool, stdout: String, stderr: String) -> (r: Result<String, ToolError>)
    ensures
        success ==> r == Ok::<String, ToolError>(stdout),
        !success && trim(stderr@).len() == 0 ==> r == Err::<String, ToolError>(
            ToolError::Process(stdout),
        ),
        !success && trim(stderr@).len() > 0 ==> r == Err::<String, ToolError>(
            ToolError::Process(stderr),
        ),
{
    if success {
        return Ok(stdout);
    }
    let t = crate::text::trim_str(stderr.as_str());
    if t.as_str().is_empty() {
        Err(ToolError::Process(stdout))
    } else {
        Err(ToolError::Process(stderr))
    }
}

/// The error of a shell command killed at its deadline.
pub fn timeout_error(secs: u64) -> (e: ToolError)
    ensures
        e matches ToolError::Timeout(m) && m@ == "shell command exceeded timeout of "@ + dec(
            (if secs > 0 {
                secs
            } else {
                1
            }) as nat,
        ) + "s"@,
{
    let mut m = "shell command exceeded timeout of ".to_owned();
    push_dec(
        &mut m,
        (if secs > 0 {
            secs
        } else {
            1
        }) as u128,
    );
    push_str(&mut m, "s");
    ToolError::Timeout(m)
}

/// The pattern of a grep must not be empty.
pub fn check_grep_pattern(pattern: &str) -> (r: Result<(), ToolError>)
    ensures
        pattern@.len() == 0 <==> (r matches Err(ToolError::MissingArgument(a)) && a@ == "pattern"@),
        pattern@.len() > 0 <==> r is Ok,
{
    if pattern.is_empty() {
        Err(ToolError::MissingArgument("pattern"))
    } else {
        Ok(())
    }
}

/// The error of a shell command stopped by its cancellation token, before
/// it was started or while it ran.
pub fn cancel_error(before_start: bool) -> (e: ToolError)
    ensures
        before_start ==> (e matches ToolError::Cancelled(m) && m@
            == "shell command cancelled before start"@),
        !before_start ==> (e matches ToolError::Cancelled(m) && m@ == "shell command cancelled"@),
{
    if before_start {
        ToolError::Cancelled("shell command cancelled before start".to_owned())
    } else {
        ToolError::Cancelled("shell command cancelled".to_owned())
    }
}

/// Directory trees that walks do not enter.
pub open spec fn spec_skipped_tree(name: Seq<char>) -> bool {
    name == ".git"@ || name == "target"@ || name == "node_modules"@
}

/// Whether a walk leaves a directory of this name alone.
pub fn skipped_tree(name: &str) -> (r: bool)
    ensures
        r == spec_skipped_tree(name@),
{
    crate::text::str_eq(name, ".git") || crate::text::str_eq(name, "target")
        || crate::text::str_eq(name, "node_modules")
}

/// What a directory walk does with one entry.
#[derive(Debug, Clone, Copy, PartialEq, Eq, Structural)]
pub enum WalkStep {
    /// Enough results: stop walking.
    Stop,
    /// Leave the entry out.
    Skip,
    /// Consider the entry; walk into it when `descend`.
    Take { descend: bool },
}

/// The glob walk's step for an entry, given how many paths it has found,
/// the entry's path, its resolved path (`None` when it cannot be
/// resolved), the project root, whether it is a directory and its name:
/// stop at the result cap; leave out sensitive paths and paths that cannot
/// be resolved or resolve outside the root; take the rest, walking into
/// directories other than skipped trees.
pub open spec fn spec_glob_step(
    found: nat,
    path: Seq<char>,
    canonical: Option<Seq<char>>,
    root: Seq<char>,
    is_dir: bool,
    name: Seq<char>,
) -> WalkStep {
    if found >= GLOB_RESULT_CAP {
        WalkStep::Stop
    } else if spec_is_sensitive(path) {
        WalkStep::Skip
    } else {
        match canonical {
            None => WalkStep::Skip,
            Some(c) => if !spec_under(c, root) {
                WalkStep::Skip
            } else {
                WalkStep::Take { descend: is_dir && !spec_skipped_tree(name) }
            },
        }
    }
}

/// The glob walk's step for an entry.
pub fn glob_step(
    found: usize,
    path: &str,
    canonical: Option<&str>,
    root: &str,
    is_dir: bool,
    name: &str,
) -> (r: WalkStep)
    ensures
        r == spec_glob_step(
            found as nat,
            path@,
            match canonical {
                Some(c) => Some(c@),
                None => None,
            },
            root@,
            is_dir,
            name@,
        ),
{
    if found >= GLOB_RESULT_CAP {
        WalkStep::Stop
    } else if is_sensitive(path) {
        WalkStep::Skip
    } else {
        match canonical {
            None => WalkStep::Skip,
            Some(c) => if !is_under(c, root) {
                WalkStep::Skip
            } else {
                WalkStep::Take { descend: is_dir && !skipped_tree(name) }
            },
        }
    }
}

/// The grep walk's step for an entry: stop at the match cap; leave out
/// sensitive paths, paths that resolve outside the root (a path that cannot
/// be resolved is kept) and skipped trees; take the rest, walking into
/// directories and reading files.
pub open spec fn spec_grep_step(
    found: nat,
    path: Seq<char>,
    canonical: Option<Seq<char>>,
    root: Seq<char>,
    is_dir: bool,
    name: Seq<char>,
) -> WalkStep {
    if found >= GREP_MATCH_CAP {
        WalkStep::Stop
    } else if spec_is_sensitive(path) {
        WalkStep::Skip
    } else if canonical matches Some(c) && !spec_under(c, root) {
        WalkStep::Skip
    } else if is_dir && spec_skipped_tree(name) {
        WalkStep::Skip
    } else {
        WalkStep::Take { descend: is_dir }
    }
}

/// The grep walk's step for an entry.
pub fn grep_step(
    found: usize,
    path: &str,
    canonical: Option<&str>,
    root: &str,
    is_dir: bool,
    name: &str,
) -> (r: WalkStep)
    ensures
        r == spec_grep_step(
            found as nat,
            path@,
            match canonical {
                Some(c) => Some(c@),
                None => None,
            },
            root@,
            is_dir,
            name@,
        ),
{
    if found >= GREP_MATCH_CAP {
        return WalkStep::Stop;
    }
    if is_sensitive(path) {
        return WalkStep::Skip;
    }
    match canonical {
        Some(c) => if !is_under(c, root) {
            return WalkStep::Skip;
        },
        None => {},
    }
    if is_dir && skipped_tree(name) {
        WalkStep::Skip
    } else {
        WalkStep::Take { descend: is_dir }
    }
}

} // verus!
