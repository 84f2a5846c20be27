//! UTF-8 byte lengths of character sequences.

use vstd::prelude::*;

verus! {

broadcast use vstd::string::group_string_axioms;

/// Bytes in the UTF-8 encoding of one character.
pub open spec fn char_bytes(c: char) -> nat {
    let u = c as u32;
    if u <= 0x7F {
        1
    } else if u <= 0x7FF {
        2
    } else if u <= 0xFFFF {
        3
    } else {
        4
    }
}

/// Bytes in the UTF-8 encoding of a character sequence.
pub open spec fn bytes_len(s: Seq<char>) -> nat
    decreases s.len(),
{
    if s.len() == 0 {
        0
    } else {
        char_bytes(s[0]) + bytes_len(s.drop_first())
    }
}

pub proof fn lemma_bytes_len_concat(a: Seq<char>, b: Seq<char>)
    ensures
        bytes_len(a + b) == bytes_len(a) + bytes_len(b),
    decreases a.len(),
{
    if a.len() == 0 {
        assert(a + b =~= b);
    } else {
        assert((a + b).drop_first() =~= a.drop_first() + b);
        assert((a + b)[0] == a[0]);
        lemma_bytes_len_concat(a.drop_first(), b);
    }
}

pub proof fn lemma_bytes_len_push(a: Seq<char>, c: char)
    ensures
        bytes_len(a.push(c)) == bytes_len(a) + char_bytes(c),
{
    lemma_bytes_len_one(c);
    lemma_bytes_len_concat(a, seq![c]);
    assert(a + seq![c] =~= a.push(c));
}

pub proof fn lemma_bytes_len_one(c: char)
    ensures
        bytes_len(seq![c]) == char_bytes(c),
{
    assert(seq![c].drop_first() =~= Seq::<char>::empty());
    assert(seq![c][0] == c);
    assert(bytes_len(Seq::<char>::empty()) == 0);
}

/// Prefixes take no more bytes than the whole, and more characters take more bytes.
pub proof fn lemma_bytes_len_take(s: Seq<char>, i: int, j: int)
    requires
        0 <= i <= j <= s.len(),
    ensures
        bytes_len(s.take(i)) <= bytes_len(s.take(j)) <= bytes_len(s),
        i < j ==> bytes_len(s.take(i)) < bytes_len(s.take(j)),
        bytes_len(s.take(j)) >= j - i + bytes_len(s.take(i)),
    decreases j - i,
{
    if i < j {
        lemma_bytes_len_take(s, i + 1, j);
        assert(s.take(i + 1) =~= s.take(i).push(s[i]));
        lemma_bytes_len_push(s.take(i), s[i]);
    } else {
        lemma_bytes_len_concat(s.take(j), s.skip(j));
        assert(s.take(j) + s.skip(j) =~= s);
    }
}

/// The byte count agrees with the UTF-8 encoding.
pub proof fn lemma_bytes_len_utf8(s: Seq<char>)
    ensures
        bytes_len(s) == vstd::utf8::encode_utf8(s).len(),
    decreases s.len(),
{
    if s.len() > 0 {
        lemma_bytes_len_utf8(s.drop_first());
        let c = s[0];
        vstd::utf8::char_is_scalar(c);
        assert(vstd::utf8::encode_scalar(c as u32).len() == char_bytes(c));
    }
}

/// Bytes in the UTF-8 encoding of one character (`char::len_utf8`).
pub fn char_len_utf8(c: char) -> (n: usize)
    ensures
        n == char_bytes(c),
{
    let u = c as u32;
    if u <= 0x7F {
        1
    } else if u <= 0x7FF {
        2
    } else if u <= 0xFFFF {
        3
    } else {
        4
    }
}

/// `str::len`: the number of bytes of a string slice.
pub fn str_bytes(s: &str) -> (n: usize)
    ensures
        n == bytes_len(s@),
{
    proof {
        lemma_bytes_len_utf8(s@);
    }
    let b = s.as_bytes();
    b.len()
}

/// How many leading characters fit in `b` bytes.
pub open spec fn fit_len(s: Seq<char>, b: nat) -> nat
    decreases s.len(),
{
    if s.len() == 0 || char_bytes(s[0]) > b {
        0
    } else {
        1 + fit_len(s.drop_first(), (b - char_bytes(s[0])) as nat)
    }
}

pub proof fn lemma_fit_len(s: Seq<char>, b: nat)
    ensures
        fit_len(s, b) <= s.len(),
        bytes_len(s.take(fit_len(s, b) as int)) <= b,
        fit_len(s, b) < s.len() ==> bytes_len(s.take(fit_len(s, b) + 1 as int)) > b,
    decreases s.len(),
{
    if s.len() == 0 || char_bytes(s[0]) > b {
        assert(s.take(0) =~= Seq::<char>::empty());
        assert(bytes_len(Seq::<char>::empty()) == 0);
        if s.len() > 0 {
            assert(s.take(1) =~= seq![s[0]]);
            lemma_bytes_len_one(s[0]);
        }
    } else {
        let t = s.drop_first();
        let b2 = (b - char_bytes(s[0])) as nat;
        lemma_fit_len(t, b2);
        let k = fit_len(t, b2);
        assert(s.take(k + 1 as int) =~= seq![s[0]] + t.take(k as int));
        lemma_bytes_len_concat(seq![s[0]], t.take(k as int));
        lemma_bytes_len_one(s[0]);
        if k < t.len() {
            assert(s.take(k + 2 as int) =~= seq![s[0]] + t.take(k + 1 as int));
            lemma_bytes_len_concat(seq![s[0]], t.take(k + 1 as int));
        }
    }
}

/// The longest prefix of `v` whose encoding fits in `b` bytes, by character count.
pub fn fit_prefix(v: &[char], b: usize) -> (k: usize)
    requires
        bytes_len(v@) <= usize::MAX,
    ensures
        k == fit_len(v@, b as nat),
{
    let n = v.len();
    let mut i: usize = 0;
    let mut acc: usize = 0;
    assert(v@.skip(0) =~= v@);
    assert(v@.take(0) =~= Seq::<char>::empty());
    while i < n && char_len_utf8(v[i]) <= b - acc
        invariant
            n == v.len(),
            i <= n,
            acc <= b,
            acc == bytes_len(v@.take(i as int)),
            bytes_len(v@) <= usize::MAX,
            fit_len(v@, b as nat) == i + fit_len(v@.skip(i as int), (b - acc) as nat),
        decreases n - i,
    {
        proof {
            lemma_bytes_len_take(v@, i + 1, n as int);
            assert(v@.take(i + 1) =~= v@.take(i as int).push(v@[i as int]));
            lemma_bytes_len_push(v@.take(i as int), v@[i as int]);
            assert(v@.skip(i as int).drop_first() =~= v@.skip(i + 1));
            assert(v@.skip(i as int)[0] == v@[i as int]);
        }
        acc = acc + char_len_utf8(v[i]);
        i = i + 1;
    }
    proof {
        if i < n {
            assert(v@.skip(i as int)[0] == v@[i as int]);
        } else {
            assert(v@.skip(i as int).len() == 0);
        }
    }
    i
}

} // verus!
