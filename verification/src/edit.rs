//! Planning a unique-string file edit: content fingerprints, line-ending
//! normalization, the replacement itself and a unified diff of the hunk.
//!
//! Reading and writing the file happen outside the library; these functions
//! decide on the bytes they are given.

use std::collections::hash_map::DefaultHasher;
use std::hash::Hasher;

use vstd::prelude::*;
use vstd::std_specs::hash::DefaultHasherAdditionalSpecFns;

use crate::text::{
    chars_of, contains_str, dec, find, from_chars, index_of, push_char, push_chars, push_dec, starts_with,
    push_str, split_on, strs_view,
};
use crate::tools::ToolError;

verus! {

broadcast use vstd::string::group_string_axioms;

/// The bytes that `Hasher::write_usize` feeds a `DefaultHasher` for `n`.
pub uninterp spec fn usize_hash_bytes(n: usize) -> Seq<u8>;

/// `Hasher::write_usize` on a `DefaultHasher`: `DefaultHasher` keeps the
/// trait's provided method, which writes the integer's bytes with
/// `Hasher::write`; so the hasher records one more write, of bytes that
/// depend on `n` alone.
#[verifier::external_body]
fn hasher_write_usize(h: &mut DefaultHasher, n: usize)
    ensures
        final(h)@ == old(h)@.push(usize_hash_bytes(n)),
{
    h.write_usize(n);
}

/// What a fresh `DefaultHasher` gives after the length of `bytes` and then
/// `bytes` were written into it.
pub open spec fn fingerprint_of(bytes: Seq<u8>) -> u64 {
    DefaultHasher::spec_finish(seq![usize_hash_bytes(bytes.len() as usize), bytes])
}

/// The length of `bytes` and then `bytes` hashed with a fresh `DefaultHasher`.
fn sip_fingerprint(bytes: &[u8]) -> (h: u64)
    ensures
        h == fingerprint_of(bytes@),
{
    let mut hasher = DefaultHasher::new();
    hasher_write_usize(&mut hasher, bytes.len());
    hasher.write(bytes);
    assert(hasher@ =~= seq![usize_hash_bytes(bytes@.len() as usize), bytes@]);
    hasher.finish()
}

/// `std::str::from_utf8`: the text when the bytes are valid UTF-8, otherwise
/// the error's description. Nothing is stated of the description.
#[verifier::external_body]
fn decode_utf8_text(raw: &[u8]) -> (r: Result<String, String>)
    ensures
        r is Ok <==> vstd::utf8::valid_utf8(raw@),
        r matches Ok(s) ==> s@ == vstd::utf8::decode_utf8(raw@),
{
    match std::str::from_utf8(raw) {
        Ok(s) => Ok(s.to_owned()),
        Err(e) => Err(e.to_string()),
    }
}

/// The lower-case hexadecimal digit for `d < 16`.
pub open spec fn hex_digit(d: nat) -> char {
    seq!['0', '1', '2', '3', '4', '5', '6', '7', '8', '9', 'a', 'b', 'c', 'd', 'e', 'f'][d as int]
}

/// The last `k` hexadecimal digits of `n`, most significant first.
pub open spec fn hex_digits(n: nat, k: nat) -> Seq<char>
    decreases k,
{
    if k == 0 {
        seq![]
    } else {
        hex_digits(n / 16, (k - 1) as nat).push(hex_digit(n % 16))
    }
}

fn push_hex(s: &mut String, n: u64, k: u32)
    requires
        k <= 16,
    ensures
        final(s)@ == old(s)@ + hex_digits(n as nat, k as nat),
    decreases k,
{
    if k == 0 {
        assert(old(s)@ + hex_digits(n as nat, 0) =~= old(s)@);
        return;
    }
    push_hex(s, n / 16, k - 1);
    let d = n % 16;
    let table = ['0', '1', '2', '3', '4', '5', '6', '7', '8', '9', 'a', 'b', 'c', 'd', 'e', 'f'];
    let c = table[d as usize];
    assert(c == hex_digit(d as nat));
    push_char(s, c);
}

/// The fingerprint text `dh64:` followed by 16 lower-case hex digits.
pub open spec fn spec_content_hash(bytes: Seq<u8>) -> Seq<char> {
    "dh64:"@ + hex_digits(fingerprint_of(bytes) as nat, 16)
}

/// Content fingerprint of raw bytes: `dh64:` and 16 lower-case hex digits.
/// Not cryptographic; suitable for stale-edit detection within a session.
pub fn content_hash_of(bytes: &[u8]) -> (s: String)
    ensures
        s@ == spec_content_hash(bytes@),
{
    let h = sip_fingerprint(bytes);
    let mut s = "dh64:".to_owned();
    push_hex(&mut s, h, 16);
    s
}

/// `\r\n` and bare `\r` both turned into `\n`.
pub open spec fn collapse_newlines(s: Seq<char>) -> Seq<char>
    decreases s.len(),
{
    if s.len() == 0 {
        seq![]
    } else if s[0] == '\r' && s.len() > 1 && s[1] == '\n' {
        seq!['\n'] + collapse_newlines(s.skip(2))
    } else if s[0] == '\r' {
        seq!['\n'] + collapse_newlines(s.drop_first())
    } else {
        seq![s[0]] + collapse_newlines(s.drop_first())
    }
}

/// Every `\n` turned into `\r\n`.
pub open spec fn expand_lf(s: Seq<char>) -> Seq<char>
    decreases s.len(),
{
    if s.len() == 0 {
        seq![]
    } else if s[0] == '\n' {
        seq!['\r', '\n'] + expand_lf(s.drop_first())
    } else {
        seq![s[0]] + expand_lf(s.drop_first())
    }
}

/// Line endings rewritten to CRLF (`crlf`) or LF.
pub open spec fn normalize_newlines(s: Seq<char>, crlf: bool) -> Seq<char> {
    if crlf {
        expand_lf(collapse_newlines(s))
    } else {
        collapse_newlines(s)
    }
}

/// Rewrites bare and mixed line endings in `s` to `\r\n` (`crlf`) or `\n`.
pub fn normalize_newlines_to(s: &str, crlf: bool) -> (r: String)
    ensures
        r@ == normalize_newlines(s@, crlf),
{
    let v = chars_of(s);
    let n = v.len();
    let mut r = String::new();
    let mut i: usize = 0;
    assert(v@.skip(0) =~= v@);
    while i < n
        invariant
            n == v.len(),
            i <= n,
            r@ + normalize_newlines(v@.skip(i as int), crlf) == normalize_newlines(v@, crlf),
        decreases n - i,
    {
        let ghost t = v@.skip(i as int);
        let ghost r0 = r@;
        proof {
            assert(t[0] == v@[i as int]);
            assert(t.drop_first() =~= v@.skip(i + 1));
            if i + 1 < n {
                assert(t[1] == v@[i + 1]);
                assert(t.skip(2) =~= v@.skip(i + 2));
            }
        }
        let step: usize;
        let out: char;
        if v[i] == '\r' && i + 1 < n && v[i + 1] == '\n' {
            step = 2;
            out = '\n';
        } else if v[i] == '\r' {
            step = 1;
            out = '\n';
        } else {
            step = 1;
            out = v[i];
        }
        proof {
            assert(collapse_newlines(t) == seq![out] + collapse_newlines(v@.skip(i + step)));
            lemma_expand_concat(seq![out], collapse_newlines(v@.skip(i + step)));
        }
        if crlf && out == '\n' {
            push_char(&mut r, '\r');
            push_char(&mut r, '\n');
            proof {
                lemma_expand_one(out);
                assert(r@ =~= r0 + expand_lf(seq![out]));
            }
        } else {
            push_char(&mut r, out);
            proof {
                if crlf {
                    lemma_expand_one(out);
                }
                assert(r@ =~= r0 + seq![out]);
            }
        }
        proof {
            if crlf {
                assert(r@ + normalize_newlines(v@.skip(i + step), crlf) =~= r0 + normalize_newlines(
                    t,
                    crlf,
                ));
            } else {
                assert(r@ + normalize_newlines(v@.skip(i + step), crlf) =~= r0 + normalize_newlines(
                    t,
                    crlf,
                ));
            }
        }
        i = i + step;
    }
    proof {
        assert(v@.skip(i as int) =~= Seq::<char>::empty());
        assert(r@ + Seq::<char>::empty() =~= r@);
    }
    r
}

proof fn lemma_expand_one(c: char)
    ensures
        expand_lf(seq![c]) == (if c == '\n' {
            seq!['\r', '\n']
        } else {
            seq![c]
        }),
{
    assert(seq![c].drop_first() =~= Seq::<char>::empty());
    assert(seq![c][0] == c);
    assert(expand_lf(Seq::<char>::empty()) == Seq::<char>::empty());
    if c == '\n' {
        assert(seq!['\r', '\n'] + Seq::<char>::empty() =~= seq!['\r', '\n']);
    } else {
        assert(seq![c] + Seq::<char>::empty() =~= seq![c]);
    }
}

proof fn lemma_expand_concat(a: Seq<char>, b: Seq<char>)
    ensures
        expand_lf(a + b) == expand_lf(a) + expand_lf(b),
    decreases a.len(),
{
    if a.len() == 0 {
        assert(a + b =~= b);
        assert(expand_lf(a) + expand_lf(b) =~= expand_lf(b));
    } else {
        assert((a + b).drop_first() =~= a.drop_first() + b);
        assert((a + b)[0] == a[0]);
        lemma_expand_concat(a.drop_first(), b);
        if a[0] == '\n' {
            assert(expand_lf(a + b) =~= seq!['\r', '\n'] + expand_lf(a.drop_first() + b));
        } else {
            assert(expand_lf(a + b) =~= seq![a[0]] + expand_lf(a.drop_first() + b));
        }
    }
}

/// Non-overlapping occurrences of `p` at or after `i`, scanning left to right.
pub open spec fn count_from(s: Seq<char>, p: Seq<char>, i: int) -> nat
    decreases s.len() + 1 - i,
{
    if p.len() == 0 || i < 0 || i > s.len() {
        0
    } else {
        match crate::text::find_from(s, p, i) {
            Some(k) => if i <= k && k + p.len() <= s.len() {
                1 + count_from(s, p, k + p.len())
            } else {
                0
            },
            None => 0,
        }
    }
}

/// Non-overlapping occurrences of a non-empty pattern (`str::matches(..).count()`).
pub open spec fn count_occ(s: Seq<char>, p: Seq<char>) -> nat {
    count_from(s, p, 0)
}

/// Counts non-overlapping occurrences of a non-empty pattern.
pub fn count_occurrences(v: &[char], p: &[char]) -> (n: usize)
    requires
        p.len() > 0,
    ensures
        n == count_occ(v@, p@),
{
    let mut i: usize = 0;
    let mut n: usize = 0;
    while i <= v.len()
        invariant
            p.len() > 0,
            i <= v.len() + 1,
            n <= i,
            n + count_from(v@, p@, i as int) == count_occ(v@, p@),
        decreases v.len() + 1 - i,
    {
        match crate::text::find_chars_from(v, p, i) {
            Some(k) => {
                proof {
                    crate::text::lemma_find_from(v@, p@, i as int);
                }
                n = n + 1;
                i = k + p.len();
            },
            None => {
                return n;
            },
        }
    }
    n
}

/// The first occurrence of `p` replaced by `q` (`str::replacen(p, q, 1)`).
pub open spec fn replace_first(s: Seq<char>, p: Seq<char>, q: Seq<char>) -> Seq<char> {
    match find(s, p) {
        Some(k) => s.take(k) + q + s.skip(k + p.len()),
        None => s,
    }
}

/// Occurrences of `c`.
pub open spec fn count_char(s: Seq<char>, c: char) -> nat
    decreases s.len(),
{
    if s.len() == 0 {
        0
    } else {
        count_char(s.drop_last(), c) + if s.last() == c {
            1nat
        } else {
            0nat
        }
    }
}

/// Trailing carriage returns removed.
pub open spec fn trim_cr_all(s: Seq<char>) -> Seq<char>
    decreases s.len(),
{
    if s.len() > 0 && s.last() == '\r' {
        trim_cr_all(s.drop_last())
    } else {
        s
    }
}

/// Visual lines of a diff side: split at `\n`, trailing `\r` removed, and a
/// final empty piece dropped (so `a\n` is one line); none for empty text.
pub open spec fn diff_lines(s: Seq<char>) -> Seq<Seq<char>> {
    if s.len() == 0 {
        seq![]
    } else {
        let ls = split_on(s, '\n').map_values(|l: Seq<char>| trim_cr_all(l));
        if ls.len() > 1 && ls.last().len() == 0 {
            ls.drop_last()
        } else {
            ls
        }
    }
}

/// Each line prefixed by `c` and followed by `\n`; `c` and `\n` alone for no lines.
pub open spec fn hunk_body(c: char, ls: Seq<Seq<char>>) -> Seq<char> {
    if ls.len() == 0 {
        seq![c, '\n']
    } else {
        prefixed_lines(c, ls)
    }
}

/// Each line prefixed by `c` and followed by `\n`.
pub open spec fn prefixed_lines(c: char, ls: Seq<Seq<char>>) -> Seq<char>
    decreases ls.len(),
{
    if ls.len() == 0 {
        seq![]
    } else {
        prefixed_lines(c, ls.drop_last()) + seq![c] + ls.last() + seq!['\n']
    }
}

/// `max(n, 1)`.
pub open spec fn at_least_one(n: nat) -> nat {
    if n == 0 {
        1
    } else {
        n
    }
}

/// The unified diff of replacing `old` by `new` inside `before`: file
/// headers, one hunk header at the line of the first occurrence, the old
/// lines with `-` and the new lines with `+`.
pub open spec fn spec_replace_diff(path: Seq<char>, before: Seq<char>, old: Seq<char>, new: Seq<
    char,
>) -> Seq<char> {
    let pos = match find(before, old) {
        Some(k) => k,
        None => 0,
    };
    let start = dec(count_char(before.take(pos), '\n') + 1);
    let ol = diff_lines(old);
    let nl = diff_lines(new);
    "--- a/"@ + path + "\n+++ b/"@ + path + "\n@@ -"@ + start + ","@ + dec(at_least_one(ol.len()))
        + " +"@ + start + ","@ + dec(at_least_one(nl.len())) + " @@\n"@ + hunk_body('-', ol)
        + hunk_body('+', nl)
}

/// Counts occurrences of a character.
fn count_char_exec(v: &[char], c: char, end: usize) -> (n: usize)
    requires
        end <= v.len(),
    ensures
        n == count_char(v@.take(end as int), c),
        n <= end,
{
    let mut i: usize = 0;
    let mut n: usize = 0;
    assert(v@.take(0) =~= Seq::<char>::empty());
    while i < end
        invariant
            i <= end <= v.len(),
            n <= i,
            n == count_char(v@.take(i as int), c),
        decreases end - i,
    {
        proof {
            assert(v@.take(i + 1).drop_last() =~= v@.take(i as int));
            assert(v@.take(i + 1).last() == v@[i as int]);
        }
        if v[i] == c {
            n = n + 1;
        }
        i = i + 1;
    }
    n
}

proof fn lemma_trim_cr_take(s: Seq<char>, k: int)
    requires
        0 <= k <= s.len(),
        forall|i: int| k <= i < s.len() ==> #[trigger] s[i] == '\r',
        k == 0 || s[k - 1] != '\r',
    ensures
        trim_cr_all(s) == s.take(k),
    decreases s.len() - k,
{
    if k == s.len() {
        assert(s.take(k) =~= s);
    } else {
        assert(s.drop_last().take(k) =~= s.take(k));
        assert forall|i: int| k <= i < s.drop_last().len() implies #[trigger] s.drop_last()[i]
            == '\r' by {
            assert(s.drop_last()[i] == s[i]);
        }
        if k > 0 {
            assert(s.drop_last()[k - 1] == s[k - 1]);
        }
        lemma_trim_cr_take(s.drop_last(), k);
    }
}

/// Trailing carriage returns removed.
fn trim_cr_chars(v: &[char]) -> (r: Vec<char>)
    ensures
        r@ == trim_cr_all(v@),
{
    let mut e = v.len();
    while e > 0 && v[e - 1] == '\r'
        invariant
            e <= v.len(),
            forall|i: int| e <= i < v.len() ==> #[trigger] v@[i] == '\r',
        decreases e,
    {
        e = e - 1;
    }
    proof {
        lemma_trim_cr_take(v@, e as int);
    }
    let r = crate::text::slice_range(v, 0, e);
    assert(r@ =~= v@.take(e as int));
    r
}

/// The visual lines of one diff side.
fn diff_lines_exec(s: &str) -> (r: Vec<String>)
    ensures
        strs_view(r@) == diff_lines(s@),
{
    let v = chars_of(s);
    if v.len() == 0 {
        return Vec::new();
    }
    let pieces = crate::text::split_on_char(&v, '\n');
    let mut ls: Vec<String> = Vec::new();
    let mut i: usize = 0;
    let ghost sp = split_on(v@, '\n');
    let ghost mapped = sp.map_values(|l: Seq<char>| trim_cr_all(l));
    while i < pieces.len()
        invariant
            i <= pieces@.len(),
            strs_view(pieces@) == sp,
            mapped == sp.map_values(|l: Seq<char>| trim_cr_all(l)),
            strs_view(ls@) == mapped.take(i as int),
        decreases pieces@.len() - i,
    {
        let pc = chars_of(pieces[i].as_str());
        let t = trim_cr_chars(&pc);
        let ghost before = ls@;
        ls.push(from_chars(&t));
        proof {
            assert(sp[i as int] == pieces@[i as int]@);
            assert(mapped[i as int] == trim_cr_all(sp[i as int]));
            assert(strs_view(ls@) =~= strs_view(before).push(t@));
            assert(mapped.take(i + 1) =~= mapped.take(i as int).push(mapped[i as int]));
            assert(strs_view(ls@) =~= mapped.take(i + 1));
        }
        i = i + 1;
    }
    proof {
        assert(mapped.take(pieces@.len() as int) =~= mapped);
    }
    let n = ls.len();
    if n > 1 && ls[n - 1].as_str().is_empty() {
        let ghost before = ls@;
        ls.pop();
        proof {
            assert(strs_view(ls@) =~= strs_view(before).drop_last());
        }
    }
    ls
}

fn push_hunk_body(out: &mut String, c: char, ls: &[String])
    ensures
        final(out)@ == old(out)@ + hunk_body(c, strs_view(ls@)),
{
    if ls.len() == 0 {
        push_char(out, c);
        push_char(out, '\n');
        assert(final(out)@ =~= old(out)@ + seq![c, '\n']);
        return;
    }
    let mut i: usize = 0;
    assert(strs_view(ls@).take(0) =~= Seq::<Seq<char>>::empty());
    assert(old(out)@ + prefixed_lines(c, Seq::<Seq<char>>::empty()) =~= old(out)@);
    while i < ls.len()
        invariant
            i <= ls@.len(),
            out@ == old(out)@ + prefixed_lines(c, strs_view(ls@).take(i as int)),
        decreases ls@.len() - i,
    {
        let ghost o0 = out@;
        push_char(out, c);
        push_str(out, ls[i].as_str());
        push_char(out, '\n');
        proof {
            let t = strs_view(ls@).take(i + 1);
            assert(t.drop_last() =~= strs_view(ls@).take(i as int));
            assert(t.last() == ls@[i as int]@);
            assert(out@ =~= o0 + seq![c] + ls@[i as int]@ + seq!['\n']);
        }
        i = i + 1;
    }
    assert(strs_view(ls@).take(ls@.len() as int) =~= strs_view(ls@));
}

/// A unified-diff hunk for replacing the first occurrence of `old` by `new`
/// inside `before`. Line-based; not a full Myers diff.
pub fn unified_diff_for_replace(path_display: &str, before: &str, old: &str, new: &str) -> (r:
    String)
    ensures
        r@ == spec_replace_diff(path_display@, before@, old@, new@),
{
    let bv = chars_of(before);
    let ov = chars_of(old);
    let pos = match crate::text::find_chars(&bv, &ov) {
        Some(k) => {
            proof {
                crate::text::lemma_find_from(bv@, ov@, 0);
            }
            k
        },
        None => 0,
    };
    let nl_count = count_char_exec(&bv, '\n', pos);
    let start = (nl_count as u128) + 1;
    let old_lines = diff_lines_exec(old);
    let new_lines = diff_lines_exec(new);
    let old_n: u128 = if old_lines.len() == 0 {
        1
    } else {
        old_lines.len() as u128
    };
    let new_n: u128 = if new_lines.len() == 0 {
        1
    } else {
        new_lines.len() as u128
    };
    proof {
        assert(strs_view(old_lines@).len() == old_lines@.len());
        assert(strs_view(new_lines@).len() == new_lines@.len());
    }
    let mut out = "--- a/".to_owned();
    push_str(&mut out, path_display);
    push_str(&mut out, "\n+++ b/");
    push_str(&mut out, path_display);
    push_str(&mut out, "\n@@ -");
    push_dec(&mut out, start);
    push_str(&mut out, ",");
    push_dec(&mut out, old_n);
    push_str(&mut out, " +");
    push_dec(&mut out, start);
    push_str(&mut out, ",");
    push_dec(&mut out, new_n);
    push_str(&mut out, " @@\n");
    push_hunk_body(&mut out, '-', &old_lines);
    push_hunk_body(&mut out, '+', &new_lines);
    out
}

/// A decided edit: the decoded text, its fingerprint, the normalized
/// replacement and the updated text.
#[derive(Debug, Clone, PartialEq, Eq)]
pub struct EditPlan {
    pub original: String,
    pub before_hash: String,
    pub crlf: bool,
    pub new_normalized: String,
    pub updated: String,
    pub after_hash: String,
}

/// The refusal for an empty search string.
pub fn check_old_string(old: &str) -> (r: Result<(), ToolError>)
    ensures
        old@.len() == 0 ==> (r matches Err(ToolError::EditFailed(m)) && m@
            == "old_string must not be empty"@),
        old@.len() > 0 ==> r is Ok,
{
    if old.is_empty() {
        Err(ToolError::EditFailed("old_string must not be empty".to_owned()))
    } else {
        Ok(())
    }
}

/// The bytes of a string's UTF-8 encoding.
fn text_bytes(s: &String) -> (b: Vec<u8>)
    ensures
        b@ == vstd::utf8::encode_utf8(s@),
{
    let r = s.as_str().as_bytes_vec();
    r
}

/// Decides an edit of the file bytes `raw`: replace the single occurrence
/// of `old` with `new`, line endings of `new` following the file's
/// dominant style (CRLF when the file holds any `\r\n`). A stale expected
/// fingerprint, a NUL byte, invalid UTF-8, a missing or repeated `old` are
/// refused with `EditFailed`.
pub fn plan_edit(raw: &[u8], old: &str, new: &str, expected_hash: Option<&str>) -> (r: Result<
    EditPlan,
    ToolError,
>)
    ensures
        old@.len() == 0 ==> r is Err,
        raw@.contains(0u8) ==> r is Err,
        !vstd::utf8::valid_utf8(raw@) ==> r is Err,
        (expected_hash matches Some(e) && e@ != spec_content_hash(raw@)) ==> r is Err,
        r matches Err(e) ==> e is EditFailed,
        old@.len() == 0 ==> (r matches Err(ToolError::EditFailed(m)) && m@
            == "old_string must not be empty"@),
        old@.len() > 0 && raw@.contains(0u8) ==> (r matches Err(ToolError::EditFailed(m)) && m@
            == "refusing to edit binary file (NUL byte present)"@),
        old@.len() > 0 && !raw@.contains(0u8) && !vstd::utf8::valid_utf8(raw@) ==> (r matches Err(
            ToolError::EditFailed(m),
        ) && starts_with(m@, "file is not valid UTF-8: "@)),
        old@.len() > 0 && !raw@.contains(0u8) && vstd::utf8::valid_utf8(raw@) && (expected_hash matches Some(
            e,
        ) && e@ != spec_content_hash(raw@)) ==> (r matches Err(ToolError::EditFailed(m)) && m@
            == "stale content hash: expected "@ + expected_hash->0@ + " got "@ + spec_content_hash(raw@)),
        old@.len() > 0 && !raw@.contains(0u8) && vstd::utf8::valid_utf8(raw@) && (expected_hash matches Some(
            e,
        ) ==> e@ == spec_content_hash(raw@)) && count_occ(vstd::utf8::decode_utf8(raw@), old@) == 0
            ==> (r matches Err(ToolError::EditFailed(m)) && m@ == "old_string not found in file"@),
        old@.len() > 0 && !raw@.contains(0u8) && vstd::utf8::valid_utf8(raw@) && (expected_hash matches Some(
            e,
        ) ==> e@ == spec_content_hash(raw@)) && count_occ(vstd::utf8::decode_utf8(raw@), old@) > 1
            ==> (r matches Err(ToolError::EditFailed(m)) && m@ == "old_string is ambiguous ("@ + dec(
            count_occ(vstd::utf8::decode_utf8(raw@), old@),
        ) + " occurrences); refuse to edit"@),
        r matches Ok(plan) ==> ({
            let text = vstd::utf8::decode_utf8(raw@);
            &&& old@.len() > 0
            &&& !raw@.contains(0u8)
            &&& vstd::utf8::valid_utf8(raw@)
            &&& plan.original@ == text
            &&& plan.before_hash@ == spec_content_hash(raw@)
            &&& (expected_hash matches Some(e) ==> e@ == plan.before_hash@)
            &&& count_occ(text, old@) == 1
            &&& plan.crlf == crate::text::contains_seq(text, "\r\n"@)
            &&& plan.new_normalized@ == normalize_newlines(new@, plan.crlf)
            &&& plan.updated@ == replace_first(text, old@, plan.new_normalized@)
            &&& plan.after_hash@ == spec_content_hash(vstd::utf8::encode_utf8(plan.updated@))
        }),
        (old@.len() > 0 && !raw@.contains(0u8) && vstd::utf8::valid_utf8(raw@) && (
        expected_hash matches Some(e) ==> e@ == spec_content_hash(raw@))) ==> (r is Ok <==> count_occ(
            vstd::utf8::decode_utf8(raw@),
            old@,
        ) == 1),
{
    match check_old_string(old) {
        Ok(()) => {},
        Err(e) => {
            return Err(e);
        },
    }
    assert(old@.len() > 0);
    let mut i: usize = 0;
    while i < raw.len()
        invariant
            i <= raw@.len(),
            old@.len() > 0,
            forall|j: int| 0 <= j < i ==> raw@[j] != 0u8,
        decreases raw@.len() - i,
    {
        if raw[i] == 0u8 {
            return Err(
                ToolError::EditFailed("refusing to edit binary file (NUL byte present)".to_owned()),
            );
        }
        i = i + 1;
    }
    let original = match decode_utf8_text(raw) {
        Ok(t) => t,
        Err(e) => {
            let mut m = "file is not valid UTF-8: ".to_owned();
            let ghost head = m@;
            push_str(&mut m, e.as_str());
            assert(m@.take(head.len() as int) =~= head);
            return Err(ToolError::EditFailed(m));
        },
    };
    let before_hash = content_hash_of(raw);
    match expected_hash {
        Some(expected) => {
            if !crate::text::str_eq(expected, before_hash.as_str()) {
                let mut m = "stale content hash: expected ".to_owned();
                push_str(&mut m, expected);
                push_str(&mut m, " got ");
                push_str(&mut m, before_hash.as_str());
                return Err(ToolError::EditFailed(m));
            }
        },
        None => {},
    }
    let text = chars_of(original.as_str());
    let ov = chars_of(old);
    let occurrences = count_occurrences(&text, &ov);
    if occurrences == 0 {
        return Err(ToolError::EditFailed("old_string not found in file".to_owned()));
    }
    if occurrences > 1 {
        let mut m = "old_string is ambiguous (".to_owned();
        push_dec(&mut m, occurrences as u128);
        push_str(&mut m, " occurrences); refuse to edit");
        return Err(ToolError::EditFailed(m));
    }
    let crlf = contains_str(&text, "\r\n");
    let new_normalized = normalize_newlines_to(new, crlf);
    let text_len = text.len();
    let (k, end) = match crate::text::find_chars(&text, &ov) {
        Some(k) => {
            proof {
                crate::text::lemma_find_from(text@, ov@, 0);
                assert(crate::text::find_from(text@, ov@, 0) == Some(k as int));
                assert(k + ov@.len() <= text@.len());
            }
            let ol = ov.len();
            assert(k + ol <= text_len);
            (k, k + ol)
        },
        None => {
            return Err(ToolError::EditFailed("old_string not found in file".to_owned()));
        },
    };
    let mut updated = String::new();
    let head = crate::text::slice_range(&text, 0, k);
    push_chars(&mut updated, &head);
    push_str(&mut updated, new_normalized.as_str());
    let tail = crate::text::slice_range(&text, end, text_len);
    push_chars(&mut updated, &tail);
    proof {
        assert(head@ =~= text@.take(k as int));
        assert(tail@ =~= text@.skip(k + ov@.len()));
    }
    let updated_bytes = text_bytes(&updated);
    let after_hash = content_hash_of(&updated_bytes);
    Ok(EditPlan { original, before_hash, crlf, new_normalized, updated, after_hash })
}

/// Checks the bytes re-read just before writing against the plan: a changed
/// fingerprint or changed bytes refuse the edit.
pub fn check_unchanged(plan: &EditPlan, recheck: &[u8]) -> (r: Result<(), ToolError>)
    ensures
        r is Ok <==> (spec_content_hash(recheck@) == plan.before_hash@ && recheck@
            == vstd::utf8::encode_utf8(plan.original@)),
{
    let recheck_hash = content_hash_of(recheck);
    if !crate::text::str_eq(recheck_hash.as_str(), plan.before_hash.as_str()) {
        let mut m = "file changed since read (stale edit rejected): was ".to_owned();
        push_str(&mut m, plan.before_hash.as_str());
        push_str(&mut m, " now ");
        push_str(&mut m, recheck_hash.as_str());
        return Err(ToolError::EditFailed(m));
    }
    let orig = text_bytes(&plan.original);
    if !bytes_eq(recheck, &orig) {
        return Err(ToolError::EditFailed("file content mismatch before write".to_owned()));
    }
    Ok(())
}

fn bytes_eq(a: &[u8], b: &[u8]) -> (r: bool)
    ensures
        r == (a@ == b@),
{
    if a.len() != b.len() {
        return false;
    }
    let mut i: usize = 0;
    while i < a.len()
        invariant
            a.len() == b.len(),
            i <= a.len(),
            forall|j: int| 0 <= j < i ==> a@[j] == b@[j],
        decreases a.len() - i,
    {
        if a[i] != b[i] {
            return false;
        }
        i = i + 1;
    }
    assert(a@ =~= b@);
    true
}

/// The report of an applied edit: path, fingerprints, line-ending note,
/// replaced byte counts and the unified diff of the hunk.
pub fn edit_report(path_display: &str, old: &str, plan: &EditPlan) -> (r: String)
    ensures
        r@ == "edited "@ + path_display@ + "\nbefore_hash: "@ + plan.before_hash@
            + "\nafter_hash: "@ + plan.after_hash@ + "\n"@ + (if plan.crlf {
            "line_endings: CRLF (preserved)"@
        } else {
            "line_endings: LF"@
        }) + "\nreplaced "@ + dec(vstd::utf8::encode_utf8(old@).len() as usize as nat) + " bytes with "@ + dec(
            vstd::utf8::encode_utf8(plan.new_normalized@).len() as usize as nat,
        ) + " bytes\n"@ + spec_replace_diff(
            path_display@,
            plan.original@,
            old@,
            plan.new_normalized@,
        ),
{
    let mut r = "edited ".to_owned();
    push_str(&mut r, path_display);
    push_str(&mut r, "\nbefore_hash: ");
    push_str(&mut r, plan.before_hash.as_str());
    push_str(&mut r, "\nafter_hash: ");
    push_str(&mut r, plan.after_hash.as_str());
    push_str(&mut r, "\n");
    if plan.crlf {
        push_str(&mut r, "line_endings: CRLF (preserved)");
    } else {
        push_str(&mut r, "line_endings: LF");
    }
    push_str(&mut r, "\nreplaced ");
    push_dec(&mut r, old.len() as u128);
    push_str(&mut r, " bytes with ");
    push_dec(&mut r, plan.new_normalized.as_str().len() as u128);
    push_str(&mut r, " bytes\n");
    let diff = unified_diff_for_replace(
        path_display,
        plan.original.as_str(),
        old,
        plan.new_normalized.as_str(),
    );
    push_str(&mut r, diff.as_str());
    r
}

/// The line breaks of a text.
pub open spec fn line_breaks(s: Seq<char>) -> Seq<char> {
    s.filter(|ch: char| ch == '\n')
}

proof fn lemma_count_char_is_line_breaks(s: Seq<char>)
    ensures
        count_char(s, '\n') == line_breaks(s).len(),
    decreases s.len(),
{
    reveal(Seq::filter);
    if s.len() > 0 {
        lemma_count_char_is_line_breaks(s.drop_last());
    }
}

/// The hunk of an edit's diff starts on the line of the edit: one more than
/// the number of line breaks before the first occurrence of the replaced
/// text.
pub proof fn law_replace_hunk_starts_at_the_edited_line(
    path: Seq<char>,
    before: Seq<char>,
    old: Seq<char>,
    new: Seq<char>,
    k: int,
)
    requires
        find(before, old) == Some(k),
    ensures
        starts_with(
            spec_replace_diff(path, before, old, new),
            "--- a/"@ + path + "\n+++ b/"@ + path + "\n@@ -"@ + dec(
                line_breaks(before.take(k)).len() + 1,
            ) + ","@,
        ),
{
    lemma_count_char_is_line_breaks(before.take(k));
    let head = "--- a/"@ + path + "\n+++ b/"@ + path + "\n@@ -"@ + dec(
        line_breaks(before.take(k)).len() + 1,
    ) + ","@;
    let whole = spec_replace_diff(path, before, old, new);
    assert(whole.take(head.len() as int) =~= head);
}

/// An edit whose replaced text first occurs right after the first line
/// break, on the second line, has a hunk that starts at line 2.
pub proof fn law_replace_on_second_line_starts_at_line_two(
    path: Seq<char>,
    a: Seq<char>,
    old: Seq<char>,
    rest: Seq<char>,
    new: Seq<char>,
)
    requires
        !a.contains('\n'),
        find(a + seq!['\n'] + old + rest, old) == Some((a.len() + 1) as int),
    ensures
        starts_with(
            spec_replace_diff(path, a + seq!['\n'] + old + rest, old, new),
            "--- a/"@ + path + "\n+++ b/"@ + path + "\n@@ -2,"@,
        ),
{
    reveal_strlit("\n@@ -2,");
    reveal_strlit("\n@@ -");
    reveal_strlit(",");
    let before = a + seq!['\n'] + old + rest;
    let k: int = (a.len() + 1) as int;
    law_replace_hunk_starts_at_the_edited_line(path, before, old, new, k);
    assert(before.take(k) =~= a + seq!['\n']);
    reveal(Seq::filter);
    assert(line_breaks(a) =~= Seq::<char>::empty()) by {
        lemma_no_breaks(a);
    }
    assert(line_breaks(a + seq!['\n']) == line_breaks(a).push('\n')) by {
        assert((a + seq!['\n']).drop_last() =~= a);
    }
    assert(line_breaks(before.take(k)).len() == 1);
    assert(dec(2) =~= seq!['2']);
    let h1 = "--- a/"@ + path + "\n+++ b/"@ + path + "\n@@ -"@ + dec(2) + ","@;
    let h2 = "--- a/"@ + path + "\n+++ b/"@ + path + "\n@@ -2,"@;
    assert(h1 =~= h2);
}

proof fn lemma_no_breaks(a: Seq<char>)
    requires
        !a.contains('\n'),
    ensures
        line_breaks(a) =~= Seq::<char>::empty(),
    decreases a.len(),
{
    reveal(Seq::filter);
    if a.len() > 0 {
        assert(a.last() == a[a.len() - 1]);
        assert(!a.drop_last().contains('\n')) by {
            if a.drop_last().contains('\n') {
                let i = choose|i: int| 0 <= i < a.drop_last().len() && a.drop_last()[i] == '\n';
                assert(a[i] == '\n');
            }
        }
        lemma_no_breaks(a.drop_last());
    }
}

} // verus!
