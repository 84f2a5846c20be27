//! What the request encoder and the completion reader agree on: reading a
//! request's own JSON as a completion gives back its first message.

use vstd::prelude::*;

use crate::providers::openai_compatible::{
    esc_char, escape_json, message_json, request_json, role_name, spec_chat_completion, spec_extract,
    unescape, unescaped_body, ChatCompletionRequest, ChatMessage, ChatRole, OpenAiErrorView,
};
use crate::text::{contains_seq, ends_with, find, find_from, index_of, join, occurs_at, trim_start};

verus! {

/// Escaping a concatenation escapes each part.
proof fn lemma_escape_concat(a: Seq<char>, b: Seq<char>)
    ensures
        escape_json(a + b) == escape_json(a) + escape_json(b),
    decreases b.len(),
{
    if b.len() == 0 {
        assert(a + b =~= a);
        assert(escape_json(a) + escape_json(b) =~= escape_json(a));
    } else {
        lemma_escape_concat(a, b.drop_last());
        assert((a + b).drop_last() =~= a + b.drop_last());
        assert((a + b).last() == b.last());
        assert(escape_json(a + b) =~= escape_json(a) + escape_json(b));
    }
}

/// Escaping a non-empty text escapes its first character, then the rest.
proof fn lemma_escape_first(c: Seq<char>)
    requires
        c.len() > 0,
    ensures
        escape_json(c) == esc_char(c[0]) + escape_json(c.drop_first()),
{
    let head = seq![c[0]];
    assert(head + c.drop_first() =~= c);
    lemma_escape_concat(head, c.drop_first());
    assert(head.drop_last() =~= Seq::<char>::empty());
    assert(head.last() == c[0]);
    assert(escape_json(head.drop_last()) =~= Seq::<char>::empty());
    assert(escape_json(head) == escape_json(head.drop_last()) + esc_char(head.last()));
    assert(escape_json(head) =~= esc_char(c[0]));
}

/// Reading an escaped text up to its closing quote gives the text back.
proof fn lemma_unescape_escape(c: Seq<char>, t: Seq<char>)
    ensures
        unescaped_body(escape_json(c) + seq!['"'] + t) == Some(c),
    decreases c.len(),
{
    let s = escape_json(c) + seq!['"'] + t;
    if c.len() == 0 {
        assert(s[0] == '"');
    } else {
        lemma_escape_first(c);
        let rest = escape_json(c.drop_first()) + seq!['"'] + t;
        lemma_unescape_escape(c.drop_first(), t);
        let e = esc_char(c[0]);
        assert(s =~= e + rest);
        if c[0] == '\\' || c[0] == '"' || c[0] == '\n' {
            assert(s[0] == '\\');
            assert(s.skip(2) =~= rest);
            assert(unescape(s[1]) == c[0]);
        } else {
            assert(s[0] == c[0]);
            assert(s.drop_first() =~= rest);
        }
        assert(seq![c[0]] + c.drop_first() =~= c);
    }
}

/// An occurrence makes the pattern found from any earlier start.
proof fn lemma_occurs_found(s: Seq<char>, p: Seq<char>, j: int, i: int)
    requires
        0 <= j <= i,
        occurs_at(s, p, i),
    ensures
        find_from(s, p, j) is Some,
    decreases i - j,
{
    if !occurs_at(s, p, j) {
        lemma_occurs_found(s, p, j + 1, i);
    }
}

/// The word that marks a completion's content.
pub open spec fn content_word() -> Seq<char> {
    seq!['c', 'o', 'n', 't', 'e', 'n', 't']
}

/// A run of characters that no escape produces, except possibly an `n`
/// after its first character.
pub open spec fn plain_run(w: Seq<char>) -> bool {
    &&& w.len() >= 1
    &&& w[0] != 'n'
    &&& forall|j: int| 0 <= j < w.len() ==> #[trigger] w[j] != '\\' && w[j] != '"'
}

/// An escaped text ending in a plain run ends in that run before escaping.
proof fn lemma_escaped_suffix(m: Seq<char>, w: Seq<char>)
    requires
        plain_run(w),
        ends_with(escape_json(m), w),
    ensures
        ends_with(m, w),
    decreases m.len(),
{
    let e = escape_json(m);
    if m.len() == 0 {
        assert(e.len() == 0);
    } else {
        let mp = m.drop_last();
        let x = m.last();
        let ep = escape_json(mp);
        assert(e == ep + esc_char(x));
        if x == '\\' || x == '"' || x == '\n' {
            if w.len() >= 2 {
                assert(w[w.len() - 2] == e[e.len() - 2]);
            } else {
                assert(w[0] == e[e.len() - 1]);
            }
        } else {
            assert(e =~= ep.push(x));
            assert(w.last() == x);
            if w.len() == 1 {
                assert(m.skip(m.len() - 1) =~= seq![x]);
                assert(w =~= seq![x]);
            } else {
                let wp = w.drop_last();
                assert(ep.skip(ep.len() - wp.len()) =~= wp) by {
                    assert forall|j: int| 0 <= j < wp.len() implies ep.skip(ep.len() - wp.len())[j]
                        == wp[j] by {
                        assert(e.skip(e.len() - w.len())[j] == w[j]);
                    }
                }
                assert(plain_run(wp));
                lemma_escaped_suffix(mp, wp);
                assert(m.skip(m.len() - w.len()) =~= w) by {
                    assert forall|j: int| 0 <= j < w.len() implies m.skip(m.len() - w.len())[j]
                        == w[j] by {
                        if j < w.len() - 1 {
                            assert(mp.skip(mp.len() - wp.len())[j] == wp[j]);
                        }
                    }
                }
            }
        }
    }
}

/// A text whose escaped form holds the content word holds it itself.
proof fn lemma_escaped_run(m: Seq<char>, a: int)
    requires
        0 <= a,
        a + 7 <= escape_json(m).len(),
        escape_json(m).subrange(a, a + 7) == content_word(),
    ensures
        contains_seq(m, content_word()),
    decreases m.len(),
{
    let e = escape_json(m);
    let w = content_word();
    if m.len() == 0 {
    } else {
        let mp = m.drop_last();
        let x = m.last();
        let ep = escape_json(mp);
        assert(e == ep + esc_char(x));
        if a + 7 <= ep.len() {
            assert(ep.subrange(a, a + 7) =~= e.subrange(a, a + 7));
            lemma_escaped_run(mp, a);
            let k = find_from(mp, w, 0)->0;
            crate::text::lemma_find_from(mp, w, 0);
            assert(m.subrange(k, k + 7) =~= mp.subrange(k, k + 7));
            lemma_occurs_found(m, w, 0, k);
        } else if x == '\\' || x == '"' || x == '\n' {
            let pos = ep.len() - a;
            assert(0 <= pos < 7);
            assert(e[ep.len() as int] == '\\');
            assert(e.subrange(a, a + 7)[pos] == e[ep.len() as int]);
        } else {
            assert(e =~= ep.push(x));
            assert(a + 7 == e.len());
            let wp = w.take(6);
            assert(ep.skip(ep.len() - 6) =~= wp) by {
                assert forall|j: int| 0 <= j < 6 implies ep.skip(ep.len() - 6)[j] == wp[j] by {
                    assert(e.subrange(a, a + 7)[j] == w[j]);
                }
            }
            lemma_escaped_suffix(mp, wp);
            assert(x == e.subrange(a, a + 7)[6]);
            let k = m.len() - 7;
            assert(m.subrange(k, k + 7) =~= w) by {
                assert forall|j: int| 0 <= j < 7 implies m.subrange(k, k + 7)[j] == w[j] by {
                    if j < 6 {
                        assert(mp.skip(mp.len() - 6)[j] == wp[j]);
                    }
                }
            }
            lemma_occurs_found(m, w, 0, k);
        }
    }
}

/// A joined list starts with its first part.
proof fn lemma_join_starts_with_first(parts: Seq<Seq<char>>, sep: Seq<char>)
    requires
        parts.len() > 0,
    ensures
        parts[0].len() <= join(parts, sep).len(),
        join(parts, sep).subrange(0, parts[0].len() as int) == parts[0],
    decreases parts.len(),
{
    if parts.len() > 1 {
        lemma_join_starts_with_first(parts.drop_last(), sep);
        let j = join(parts.drop_last(), sep);
        assert(join(parts, sep) == j + sep + parts.last());
        assert(join(parts, sep).subrange(0, parts[0].len() as int) =~= j.subrange(
            0,
            parts[0].len() as int,
        ));
    } else {
        assert(join(parts, sep).subrange(0, parts[0].len() as int) =~= parts[0]);
    }
}

/// `find_from` is the first occurrence at or after `i`.
proof fn lemma_find_from_is(s: Seq<char>, p: Seq<char>, i: int, k: int)
    requires
        0 <= i <= k,
        occurs_at(s, p, k),
        forall|q: int| i <= q < k ==> !occurs_at(s, p, q),
    ensures
        find_from(s, p, i) == Some(k),
    decreases k - i,
{
    if i < k {
        lemma_find_from_is(s, p, i + 1, k);
    }
}

/// The part of a request between the model's closing quote and the first
/// message's content key.
pub open spec fn between(role: ChatRole) -> Seq<char> {
    "\",\"messages\":[{\"role\":\""@ + role_name(role) + "\","@
}

proof fn lemma_between_has_no_c(role: ChatRole)
    ensures
        between(role).len() > 0,
        between(role)[0] == '"',
        forall|j: int| 0 <= j < between(role).len() ==> #[trigger] between(role)[j] != 'c',
{
    reveal_strlit("\",\"messages\":[{\"role\":\"");
    reveal_strlit("\",");
    reveal_strlit("system");
    reveal_strlit("user");
    reveal_strlit("assistant");
}

/// The quoted key of a completion's content.
pub open spec fn content_key() -> Seq<char> {
    seq!['"'] + content_word() + seq!['"']
}

/// A request's JSON up to the first message's role: model and role.
pub open spec fn up_to_key(model: Seq<char>, role: ChatRole) -> Seq<char> {
    "{\"model\":\""@ + escape_json(model) + between(role)
}

/// A request's JSON up to the end of its first message.
pub open spec fn first_message_part(model: Seq<char>, role: ChatRole, content: Seq<char>) -> Seq<
    char,
> {
    up_to_key(model, role) + content_key() + ":\""@ + escape_json(content) + "\"}"@
}

/// A request's JSON begins with its model and its first message.
proof fn lemma_request_prefix(r: ChatCompletionRequest)
    requires
        r.messages@.len() > 0,
    ensures
        ({
            let pre = first_message_part(
                r.model@,
                r.messages@[0].role,
                r.messages@[0].content@,
            );
            &&& pre.len() <= request_json(r).len()
            &&& forall|i: int| 0 <= i < pre.len() ==> #[trigger] request_json(r)[i] == pre[i]
        }),
{
    reveal_strlit("content");
    reveal_strlit("{\"model\":\"");
    reveal_strlit("\",\"messages\":[");
    reveal_strlit("{\"role\":\"");
    reveal_strlit("\",\"content\":\"");
    reveal_strlit("\",");
    reveal_strlit(":\"");
    reveal_strlit("\",\"messages\":[{\"role\":\"");
    let s = request_json(r);
    let m0 = r.messages@[0];
    let mm = escape_json(r.model@);
    let h = "{\"model\":\""@;
    let l1 = "\",\"messages\":["@;
    let parts = r.messages@.map_values(|m: ChatMessage| message_json(m));
    let j0 = message_json(m0);
    assert(parts[0] == j0);
    lemma_join_starts_with_first(parts, ","@);
    let joined = join(parts, ","@);
    let tail = "],\"stream\":"@ + (if r.stream {
        "true"@
    } else {
        "false"@
    }) + "}"@;
    assert(s == h + mm + l1 + joined + tail);
    let pre = first_message_part(r.model@, m0.role, m0.content@);
    assert(j0 =~= "{\"role\":\""@ + role_name(m0.role) + "\","@ + content_key() + ":\""@
        + escape_json(m0.content@) + "\"}"@);
    assert(h + mm + l1 + j0 =~= pre);
    let hl = (h + mm + l1).len() as int;
    assert forall|i: int| 0 <= i < pre.len() implies #[trigger] s[i] == pre[i] by {
        if i >= hl {
            assert(s[i] == joined[i - hl]);
            assert(joined.subrange(0, j0.len() as int)[i - hl] == j0[i - hl]);
        }
    }
}

/// In a request's first part the content key occurs first where the first
/// message's content begins, when the model's name does not hold the word.
proof fn lemma_key_first_at(model: Seq<char>, role: ChatRole, content: Seq<char>, q: int)
    requires
        !contains_seq(model, content_word()),
        0 <= q < up_to_key(model, role).len(),
    ensures
        !occurs_at(first_message_part(model, role, content), content_key(), q),
{
    reveal_strlit("{\"model\":\"");
    let pre = first_message_part(model, role, content);
    let mm = escape_json(model);
    let ml = mm.len() as int;
    let h = "{\"model\":\""@;
    let p = up_to_key(model, role).len() as int;
    lemma_between_has_no_c(role);
    if occurs_at(pre, content_key(), q) {
        assert(pre.subrange(q, q + 9)[1] == 'c');
        assert(pre[q + 1] == 'c');
        if q + 1 < 10 {
            assert(pre[q + 1] == h[q + 1]);
        } else if q + 1 >= 10 + ml {
            if q + 1 < p {
                assert(pre[q + 1] == between(role)[q + 1 - 10 - ml]);
            } else {
                assert(pre[q + 1] == content_key()[0]);
            }
        } else if q + 8 <= 10 + ml {
            let a = q + 1 - 10;
            assert(mm.subrange(a, a + 7) =~= content_word()) by {
                assert forall|j: int| 0 <= j < 7 implies mm.subrange(a, a + 7)[j]
                    == content_word()[j] by {
                    assert(pre.subrange(q, q + 9)[j + 1] == content_key()[j + 1]);
                    assert(pre[q + 1 + j] == mm[a + j]);
                }
            }
            lemma_escaped_run(model, a);
        } else {
            let k = 10 + ml - q;
            assert(pre.subrange(q, q + 9)[k] == content_key()[k]);
            assert(pre[10 + ml] == between(role)[0]);
        }
    }
}

/// Reading a request's own JSON as a completion gives back the content of
/// its first message, when the model's name does not hold the word
/// `content`.
pub proof fn law_completion_reads_first_message(r: ChatCompletionRequest)
    requires
        r.messages@.len() > 0,
        !contains_seq(r.model@, "content"@),
    ensures
        spec_chat_completion(request_json(r)) == Ok::<Seq<char>, OpenAiErrorView>(
            r.messages@[0].content@,
        ),
{
    reveal_strlit("content");
    reveal_strlit("\"");
    reveal_strlit(":\"");
    reveal_strlit("\"}");
    assert("content"@ =~= content_word());
    assert("\""@ + "content"@ + "\""@ =~= content_key());
    let s = request_json(r);
    let m0 = r.messages@[0];
    let c = escape_json(m0.content@);
    let pre = first_message_part(r.model@, m0.role, m0.content@);
    lemma_request_prefix(r);
    let p = up_to_key(r.model@, m0.role).len() as int;
    let key = content_key();
    assert(pre =~= up_to_key(r.model@, m0.role) + key + ":\""@ + c + "\"}"@);
    assert(occurs_at(s, key, p)) by {
        assert(s.subrange(p, p + 9) =~= key) by {
            assert forall|i: int| 0 <= i < 9 implies s.subrange(p, p + 9)[i] == key[i] by {
                assert(s[p + i] == pre[p + i]);
            }
        }
    }
    assert forall|q: int| 0 <= q < p implies !occurs_at(s, key, q) by {
        lemma_key_first_at(r.model@, m0.role, m0.content@, q);
        if occurs_at(s, key, q) {
            assert(pre.subrange(q, q + 9) =~= s.subrange(q, q + 9)) by {
                assert forall|i: int| 0 <= i < 9 implies #[trigger] pre.subrange(q, q + 9)[i]
                    == s.subrange(q, q + 9)[i] by {
                    assert(s[q + i] == pre[q + i]);
                }
            }
        }
    }
    lemma_find_from_is(s, key, 0, p);
    let rest = s.skip(p + 9);
    assert(rest[0] == ':') by {
        assert(s[p + 9] == pre[p + 9]);
    }
    crate::text::lemma_index_of_from_is(rest, ':', 0, 0);
    let after = rest.skip(1);
    assert(after[0] == '"') by {
        assert(s[p + 10] == pre[p + 10]);
    }
    assert(trim_start(after) == after);
    let t = s.skip(p + 11 + c.len() + 1);
    let body = after.drop_first();
    assert(body =~= c + seq!['"'] + t) by {
        assert forall|i: int| 0 <= i < c.len() + 1 implies body[i] == (c + seq!['"'])[i] by {
            assert(s[p + 11 + i] == pre[p + 11 + i]);
        }
    }
    lemma_unescape_escape(m0.content@, t);
    assert(spec_extract(s, "content"@) == Some(m0.content@));
}

} // verus!
