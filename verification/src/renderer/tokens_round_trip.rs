//! The Design Tokens importer reads back what the exporter wrote: for cards
//! whose `$value` is a string (colours, spacing, radii, shadows), each entry
//! comes back as its slug, its `$type` and its value text.
use vstd::prelude::*;
use crate::text::{find_from, is_ws, join, replace_char, trim_end_seq, trim_seq, trim_start_seq};
use super::escape_quotes;
use super::import::{
    block_body, design_tokens_markdown, json_tokens, tokens_binder, tokens_markdown, read_block_at, read_string_at, skip_ws_at, string_body, string_field,
    token_entries,
};
use super::json::word_at;
use super::json_export::{
    card_texts_ok, lemma_tokens_json_is_json, lemma_entry_text, lemma_join_first, lemma_replace_char_concat,
    lemma_string_token_text, lemma_tokens_json_shape, lemma_word_char, lemma_word_split,
    object_of_two, token_entries_of, token_value,
    plain_text, quotable_text, quoted, string_ok, string_text, string_token_value, token_kind,
    token_string, val_member,
};
use super::{card_slugs, lemma_card_slugs_len, design_tokens_json, json_entry, CardView};

verus! {

// ── Strings ──────────────────────────────────────────────────────────────────

proof fn lemma_body_plain(s: Seq<char>, p: int, acc: Seq<char>, t: Seq<char>)
    requires
        word_at(s, p, t + seq!['"']),
        plain_text(t),
    ensures
        string_body(s, p, acc, false) == (Some(acc + t), p + t.len() + 1),
    decreases t.len(),
{
    lemma_word_char(s, p, t + seq!['"'], 0);
    if t.len() == 0 {
        assert(acc + t =~= acc);
    } else {
        assert(t + seq!['"'] =~= seq![t[0]] + (t.drop_first() + seq!['"']));
        lemma_word_split(s, p, seq![t[0]], t.drop_first() + seq!['"']);
        lemma_body_plain(s, p + 1, acc.push(t[0]), t.drop_first());
        assert(acc.push(t[0]) + t.drop_first() =~= acc + t);
    }
}

/// `escape_quotes` of a non-empty text, split after its first character.
proof fn lemma_escape_front(x: Seq<char>)
    requires
        x.len() > 0,
    ensures
        escape_quotes(x) == (if x[0] == '"' {
            seq!['\\', '"']
        } else {
            seq![x[0]]
        }) + escape_quotes(x.drop_first()),
{
    reveal_strlit("\\\"");
    assert(x =~= seq![x[0]] + x.drop_first());
    lemma_replace_char_concat(seq![x[0]], x.drop_first(), '"', "\\\""@);
    assert(seq![x[0]].drop_last() =~= Seq::<char>::empty());
    assert(replace_char(Seq::<char>::empty(), '"', "\\\""@) =~= Seq::<char>::empty());
    assert(seq![x[0]].last() == x[0]);
    if x[0] == '"' {
        assert(replace_char(seq![x[0]], '"', "\\\""@) =~= seq!['\\', '"']);
    } else {
        assert(replace_char(seq![x[0]], '"', "\\\""@) =~= seq![x[0]]);
    }
}

proof fn lemma_body_escaped(s: Seq<char>, p: int, acc: Seq<char>, x: Seq<char>)
    requires
        word_at(s, p, escape_quotes(x) + seq!['"']),
        quotable_text(x),
    ensures
        string_body(s, p, acc, false) == (Some(acc + x), p + escape_quotes(x).len() + 1),
    decreases x.len(),
{
    let e = escape_quotes(x);
    if x.len() == 0 {
        assert(e =~= Seq::<char>::empty());
        lemma_word_char(s, p, e + seq!['"'], 0);
        assert(acc + x =~= acc);
    } else {
        lemma_escape_front(x);
        let head = if x[0] == '"' {
            seq!['\\', '"']
        } else {
            seq![x[0]]
        };
        let rest = x.drop_first();
        assert(e + seq!['"'] =~= head + (escape_quotes(rest) + seq!['"']));
        lemma_word_split(s, p, head, escape_quotes(rest) + seq!['"']);
        lemma_word_char(s, p, head, 0);
        lemma_body_escaped(s, p + head.len(), acc.push(x[0]), rest);
        if x[0] == '"' {
            lemma_word_char(s, p, head, 1);
            assert(s[p] == '\\');
            assert(string_body(s, p, acc, false) == string_body(s, p + 1, acc, true));
            assert(string_body(s, p + 1, acc, true) == string_body(s, p + 2, acc.push(s[p + 1]), false));
        } else {
            assert(x[0] != '\\');
            assert(string_body(s, p, acc, false) == string_body(s, p + 1, acc.push(x[0]), false));
        }
        assert(acc.push(x[0]) + rest =~= acc + x);
    }
}

/// The string whose text is `raw` (escaped or not), read at `p`.
proof fn lemma_read_string(s: Seq<char>, p: int, raw: Seq<char>, escaped: bool)
    requires
        word_at(s, p, string_text(raw, escaped)),
        string_ok(raw, escaped),
    ensures
        read_string_at(s, p) == (Some(raw), p + string_text(raw, escaped).len()),
{
    let body = if escaped {
        escape_quotes(raw)
    } else {
        raw
    };
    let t = string_text(raw, escaped);
    lemma_word_char(s, p, t, 0);
    assert(t =~= seq!['"'] + (body + seq!['"']));
    lemma_word_split(s, p, seq!['"'], body + seq!['"']);
    if escaped {
        lemma_body_escaped(s, p + 1, Seq::<char>::empty(), raw);
    } else {
        lemma_body_plain(s, p + 1, Seq::<char>::empty(), raw);
    }
    assert(Seq::<char>::empty() + raw =~= raw);
}

// ── Blocks ───────────────────────────────────────────────────────────────────

/// A text that reads the same inside and outside a block scan: no quote and
/// no brace.
pub open spec fn neutral_text(t: Seq<char>) -> bool {
    forall|i: int| 0 <= i < t.len() ==> t[i] != '"' && t[i] != '{' && t[i] != '}'
}

proof fn lemma_block_outside(s: Seq<char>, p: int, acc: Seq<char>, d: int, t: Seq<char>)
    requires
        word_at(s, p, t),
        neutral_text(t),
    ensures
        block_body(s, p, acc, d, false, false, '{', '}') == block_body(
            s,
            p + t.len(),
            acc + t,
            d,
            false,
            false,
            '{',
            '}',
        ),
    decreases t.len(),
{
    if t.len() == 0 {
        assert(acc + t =~= acc);
    } else {
        lemma_word_char(s, p, t, 0);
        assert(t =~= seq![t[0]] + t.drop_first());
        lemma_word_split(s, p, seq![t[0]], t.drop_first());
        assert(neutral_text(t.drop_first())) by {
            assert forall|i: int| 0 <= i < t.drop_first().len() implies t.drop_first()[i] != '"'
                && t.drop_first()[i] != '{' && t.drop_first()[i] != '}' by {
                assert(t.drop_first()[i] == t[i + 1]);
            }
        }
        lemma_block_outside(s, p + 1, acc.push(t[0]), d, t.drop_first());
        assert(acc.push(t[0]) + t.drop_first() =~= acc + t);
    }
}

proof fn lemma_block_in_plain(s: Seq<char>, p: int, acc: Seq<char>, d: int, t: Seq<char>)
    requires
        word_at(s, p, t),
        plain_text(t),
    ensures
        block_body(s, p, acc, d, true, false, '{', '}') == block_body(
            s,
            p + t.len(),
            acc + t,
            d,
            true,
            false,
            '{',
            '}',
        ),
    decreases t.len(),
{
    if t.len() == 0 {
        assert(acc + t =~= acc);
    } else {
        lemma_word_char(s, p, t, 0);
        assert(t =~= seq![t[0]] + t.drop_first());
        lemma_word_split(s, p, seq![t[0]], t.drop_first());
        lemma_block_in_plain(s, p + 1, acc.push(t[0]), d, t.drop_first());
        assert(acc.push(t[0]) + t.drop_first() =~= acc + t);
    }
}

proof fn lemma_block_in_escaped(s: Seq<char>, p: int, acc: Seq<char>, d: int, x: Seq<char>)
    requires
        word_at(s, p, escape_quotes(x)),
        quotable_text(x),
    ensures
        block_body(s, p, acc, d, true, false, '{', '}') == block_body(
            s,
            p + escape_quotes(x).len(),
            acc + escape_quotes(x),
            d,
            true,
            false,
            '{',
            '}',
        ),
    decreases x.len(),
{
    let e = escape_quotes(x);
    if x.len() == 0 {
        assert(e =~= Seq::<char>::empty());
        assert(acc + e =~= acc);
    } else {
        lemma_escape_front(x);
        let head = if x[0] == '"' {
            seq!['\\', '"']
        } else {
            seq![x[0]]
        };
        let rest = x.drop_first();
        let er = escape_quotes(rest);
        lemma_word_split(s, p, head, er);
        lemma_word_char(s, p, head, 0);
        lemma_block_in_escaped(s, p + head.len(), acc + head, d, rest);
        assert(acc + head + er =~= acc + e);
        if x[0] == '"' {
            lemma_word_char(s, p, head, 1);
            assert(block_body(s, p, acc, d, true, false, '{', '}') == block_body(
                s,
                p + 1,
                acc.push('\\'),
                d,
                true,
                true,
                '{',
                '}',
            ));
            assert(block_body(s, p + 1, acc.push('\\'), d, true, true, '{', '}') == block_body(
                s,
                p + 2,
                acc.push('\\').push('"'),
                d,
                true,
                false,
                '{',
                '}',
            ));
            assert(acc.push('\\').push('"') =~= acc + head);
        } else {
            assert(acc.push(x[0]) =~= acc + head);
        }
    }
}

proof fn lemma_block_string(
    s: Seq<char>,
    p: int,
    acc: Seq<char>,
    d: int,
    raw: Seq<char>,
    escaped: bool,
)
    requires
        word_at(s, p, string_text(raw, escaped)),
        string_ok(raw, escaped),
    ensures
        block_body(s, p, acc, d, false, false, '{', '}') == block_body(
            s,
            p + string_text(raw, escaped).len(),
            acc + string_text(raw, escaped),
            d,
            false,
            false,
            '{',
            '}',
        ),
{
    let body = if escaped {
        escape_quotes(raw)
    } else {
        raw
    };
    let t = string_text(raw, escaped);
    assert(t =~= seq!['"'] + body + seq!['"']);
    lemma_word_split(s, p, seq!['"'] + body, seq!['"']);
    lemma_word_split(s, p, seq!['"'], body);
    lemma_word_char(s, p, t, 0);
    lemma_word_char(s, p, t, body.len() as int + 1);
    let a1 = acc.push('"');
    if escaped {
        lemma_block_in_escaped(s, p + 1, a1, d, raw);
    } else {
        lemma_block_in_plain(s, p + 1, a1, d, raw);
    }
    let a2 = a1 + body;
    assert(a2.push('"') =~= acc + t);
}

proof fn lemma_kind_plain(c: CardView)
    ensures
        plain_text(token_kind(c)),
        token_kind(c).len() > 0,
        token_kind(c)[0] != '$',
        plain_text("$type"@),
        plain_text("$value"@),
        "$type"@ =~= seq!['$', 't', 'y', 'p', 'e'],
        "$value"@ =~= seq!['$', 'v', 'a', 'l', 'u', 'e'],
{
    reveal_strlit("color");
    reveal_strlit("typography");
    reveal_strlit("dimension");
    reveal_strlit("borderRadius");
    reveal_strlit("shadow");
    reveal_strlit("$type");
    reveal_strlit("$value");
}

/// The object an entry of a string-valued card maps its slug to, piece by
/// piece.
pub open spec fn block_pieces(c: CardView) -> Seq<char> {
    seq!['{'] + (seq![' '] + (quoted("$type"@) + (seq![':', ' '] + (string_text(
        token_kind(c),
        false,
    ) + (seq![',', ' '] + (quoted("$value"@) + (seq![':', ' '] + (string_text(
        token_string(c),
        c is Shadow,
    ) + (seq![' '] + seq!['}'])))))))))
}

proof fn lemma_block_pieces(c: CardView)
    ensures
        string_token_value(c) =~= block_pieces(c),
{
}

#[verifier::spinoff_prover]
#[verifier::rlimit(40)]
proof fn lemma_read_block(s: Seq<char>, q: int, c: CardView)
    requires
        !(c is Font),
        card_texts_ok(c),
        word_at(s, q, string_token_value(c)),
    ensures
        read_block_at(s, q, '{', '}') == (Some(string_token_value(c)), q + string_token_value(
            c,
        ).len()),
{
    lemma_kind_plain(c);
    lemma_block_pieces(c);
    let st1 = string_text(token_kind(c), false);
    let st2 = string_text(token_string(c), c is Shadow);
    let qt = quoted("$type"@);
    let qv = quoted("$value"@);
    assert(string_ok(token_string(c), c is Shadow));
    let t9 = seq![' '] + seq!['}'];
    let t8 = st2 + t9;
    let t7 = seq![':', ' '] + t8;
    let t6 = qv + t7;
    let t5 = seq![',', ' '] + t6;
    let t4 = st1 + t5;
    let t3 = seq![':', ' '] + t4;
    let t2 = qt + t3;
    let t1 = seq![' '] + t2;
    let b = string_token_value(c);
    assert(b == seq!['{'] + t1);
    lemma_word_char(s, q, b, 0);
    lemma_word_split(s, q, seq!['{'], t1);
    let p1 = q + 1;
    lemma_word_split(s, p1, seq![' '], t2);
    lemma_block_outside(s, p1, seq!['{'], 1, seq![' ']);
    let p2 = p1 + 1;
    lemma_word_split(s, p2, qt, t3);
    assert(qt == string_text("$type"@, false));
    lemma_block_string(s, p2, seq!['{'] + seq![' '], 1, "$type"@, false);
    let p3 = p2 + qt.len();
    lemma_word_split(s, p3, seq![':', ' '], t4);
    lemma_block_outside(s, p3, seq!['{'] + seq![' '] + qt, 1, seq![':', ' ']);
    let p4 = p3 + 2;
    lemma_word_split(s, p4, st1, t5);
    lemma_block_string(s, p4, seq!['{'] + seq![' '] + qt + seq![':', ' '], 1, token_kind(c), false);
    let p5 = p4 + st1.len();
    lemma_word_split(s, p5, seq![',', ' '], t6);
    lemma_block_outside(s, p5, seq!['{'] + seq![' '] + qt + seq![':', ' '] + st1, 1, seq![',', ' ']);
    let p6 = p5 + 2;
    lemma_word_split(s, p6, qv, t7);
    assert(qv == string_text("$value"@, false));
    let a6 = seq!['{'] + seq![' '] + qt + seq![':', ' '] + st1 + seq![',', ' '];
    lemma_block_string(s, p6, a6, 1, "$value"@, false);
    let p7 = p6 + qv.len();
    lemma_word_split(s, p7, seq![':', ' '], t8);
    lemma_block_outside(s, p7, a6 + qv, 1, seq![':', ' ']);
    let p8 = p7 + 2;
    lemma_word_split(s, p8, st2, t9);
    let a8 = a6 + qv + seq![':', ' '];
    lemma_block_string(s, p8, a8, 1, token_string(c), c is Shadow);
    let p9 = p8 + st2.len();
    lemma_word_split(s, p9, seq![' '], seq!['}']);
    lemma_block_outside(s, p9, a8 + st2, 1, seq![' ']);
    lemma_word_char(s, p9 + 1, seq!['}'], 0);
    let a10 = a8 + st2 + seq![' '];
    assert(a10.push('}') =~= b);
}

// ── Fields of an entry ───────────────────────────────────────────────────────

proof fn lemma_find_first(s: Seq<char>, needle: Seq<char>, from: int, k: int)
    requires
        0 <= from <= k,
        word_at(s, k, needle),
        forall|j: int| from <= j < k ==> !word_at(s, j, needle),
    ensures
        find_from(s, needle, from) == Some(k),
    decreases k - from,
{
    if from < k {
        assert(!word_at(s, from, needle));
        lemma_find_first(s, needle, from + 1, k);
    }
}

proof fn lemma_trim_one_space(x: Seq<char>)
    requires
        x.len() > 0,
        !is_ws(x[0]),
    ensures
        trim_start_seq(seq![' '] + x) == x,
{
    assert((seq![' '] + x).drop_first() =~= x);
    assert((seq![' '] + x)[0] == ' ');
    assert(is_ws(' '));
    assert(trim_start_seq(x) == x);
    assert(trim_start_seq(seq![' '] + x) == trim_start_seq(x));
}

/// After `"key"` at `k` in `obj` come `: ` and a string: the field reads the
/// string's text.
#[verifier::spinoff_prover]
#[verifier::rlimit(40)]
proof fn lemma_field_value(
    obj: Seq<char>,
    key: Seq<char>,
    k: int,
    raw: Seq<char>,
    escaped: bool,
    tail: Seq<char>,
)
    requires
        find_from(obj, quoted(key), 0) == Some(k),
        0 <= k,
        k + quoted(key).len() <= obj.len(),
        obj.skip(k + quoted(key).len()) == seq![':', ' '] + string_text(raw, escaped) + tail,
        string_ok(raw, escaped),
    ensures
        string_field(obj, key) == Some(raw),
{
    let st = string_text(raw, escaped);
    let rest = obj.skip(k + quoted(key).len());
    assert(word_at(rest, 0, seq![':'])) by {
        assert(rest.subrange(0, 1) =~= seq![':']);
    }
    lemma_find_first(rest, seq![':'], 0, 0);
    assert(rest.skip(1) =~= seq![' '] + (st + tail));
    assert((st + tail)[0] == '"');
    lemma_trim_one_space(st + tail);
    let after = st + tail;
    assert(word_at(after, 0, st)) by {
        assert(after.subrange(0, st.len() as int) =~= st);
    }
    lemma_read_string(after, 0, raw, escaped);
}

#[verifier::spinoff_prover]
#[verifier::rlimit(40)]
proof fn lemma_entry_fields(c: CardView)
    requires
        !(c is Font),
        card_texts_ok(c),
    ensures
        string_field(string_token_value(c), "$type"@) == Some(token_kind(c)),
        string_field(string_token_value(c), "$value"@) == Some(token_string(c)),
{
    lemma_kind_plain(c);
    lemma_block_pieces(c);
    let b = string_token_value(c);
    let kind = token_kind(c);
    let st1 = string_text(kind, false);
    let st2 = string_text(token_string(c), c is Shadow);
    let qt = quoted("$type"@);
    let qv = quoted("$value"@);
    assert(string_ok(token_string(c), c is Shadow));
    // `"$type"` sits at 2.
    assert(word_at(b, 2, qt)) by {
        assert(b.subrange(2, 9) =~= qt);
    }
    assert forall|j: int| 0 <= j < 2 implies !word_at(b, j, qt) by {
        if word_at(b, j, qt) {
            lemma_word_char(b, j, qt, 0);
        }
    }
    lemma_find_first(b, qt, 0, 2);
    assert(b.skip(9) =~= seq![':', ' '] + st1 + (seq![',', ' '] + qv + seq![':', ' '] + st2
        + seq![' ', '}']));
    lemma_field_value(
        b,
        "$type"@,
        2,
        kind,
        false,
        seq![',', ' '] + qv + seq![':', ' '] + st2 + seq![' ', '}'],
    );
    // `"$value"` sits after `{ "$type": "kind", `.
    let k: int = 13 + st1.len() as int;
    assert(word_at(b, k, qv)) by {
        assert(b.subrange(k, k + 8) =~= qv);
    }
    assert forall|j: int| 0 <= j < k implies !word_at(b, j, qv) by {
        if word_at(b, j, qv) {
            lemma_word_char(b, j, qv, 0);
            lemma_word_char(b, j, qv, 1);
            lemma_word_char(b, j, qv, 2);
            if 12 <= j < 11 + st1.len() {
                assert(b[j] == kind[j - 12]);
            }
        }
    }
    lemma_find_first(b, qv, 0, k);
    assert(b.skip(k + 8) =~= seq![':', ' '] + st2 + seq![' ', '}']);
    lemma_field_value(b, "$value"@, k, token_string(c), c is Shadow, seq![' ', '}']);
}

// ── Entries ──────────────────────────────────────────────────────────────────

/// The `(key, $type, $value)` triples of string-valued cards under their slugs.
pub open spec fn written_tokens(slugs: Seq<Seq<char>>, cs: Seq<CardView>) -> Seq<
    (Seq<char>, Seq<char>, Seq<char>),
> {
    Seq::new(cs.len(), |i: int| (slugs[i], token_kind(cs[i]), token_string(cs[i])))
}

#[verifier::spinoff_prover]
#[verifier::rlimit(40)]
proof fn lemma_read_entry(s: Seq<char>, p: int, slug: Seq<char>, c: CardView)
    requires
        word_at(s, p, seq!['\n'] + json_entry(slug, c)),
        plain_text(slug),
        !(c is Font),
        card_texts_ok(c),
        p >= 0,
        p + 1 + json_entry(slug, c).len() < s.len(),
    ensures
        ({
            let q0 = p + 3;
            let q1 = q0 + slug.len() + 2;
            let q3 = q1 + 2;
            &&& skip_ws_at(s, p) == q0
            &&& s[q0] == '"'
            &&& read_string_at(s, q0) == (Some(slug), q1)
            &&& skip_ws_at(s, q1) == q1
            &&& s[q1] == ':'
            &&& skip_ws_at(s, q1 + 1) == q3
            &&& s[q3] == '{'
            &&& read_block_at(s, q3, '{', '}') == (Some(string_token_value(c)), p + 1 + json_entry(
                slug,
                c,
            ).len())
        }),
{
    lemma_entry_text(slug, c);
    lemma_string_token_text(c);
    let b = string_token_value(c);
    let e = json_entry(slug, c);
    let t = seq!['\n'] + e;
    let st = string_text(slug, false);
    assert(t =~= seq!['\n', ' ', ' '] + st + seq![':', ' '] + b);
    lemma_word_char(s, p, t, 0);
    lemma_word_char(s, p, t, 1);
    lemma_word_char(s, p, t, 2);
    lemma_word_char(s, p, t, 3);
    assert(is_ws('\n'));
    assert(is_ws(' '));
    assert(skip_ws_at(s, p + 3) == p + 3);
    assert(skip_ws_at(s, p + 2) == p + 3);
    assert(skip_ws_at(s, p + 1) == p + 3);
    assert(skip_ws_at(s, p) == p + 3);
    assert(t =~= (seq!['\n', ' ', ' '] + st) + (seq![':', ' '] + b));
    lemma_word_split(s, p, seq!['\n', ' ', ' '] + st, seq![':', ' '] + b);
    lemma_word_split(s, p, seq!['\n', ' ', ' '], st);
    lemma_read_string(s, p + 3, slug, false);
    let q1 = p + 3 + st.len();
    lemma_word_char(s, p, t, 3 + st.len() as int);
    lemma_word_char(s, p, t, 4 + st.len() as int);
    lemma_word_char(s, p, t, 5 + st.len() as int);
    assert(skip_ws_at(s, q1) == q1);
    assert(skip_ws_at(s, q1 + 2) == q1 + 2);
    assert(skip_ws_at(s, q1 + 1) == q1 + 2);
    lemma_word_split(s, q1, seq![':', ' '], b);
    lemma_read_block(s, q1 + 2, c);
}

#[verifier::spinoff_prover]
#[verifier::rlimit(40)]
proof fn lemma_entries_read(
    s: Seq<char>,
    p: int,
    q: Seq<Seq<char>>,
    slugs: Seq<Seq<char>>,
    cs: Seq<CardView>,
    acc: Seq<(Seq<char>, Seq<char>, Seq<char>)>,
)
    requires
        q.len() >= 1,
        q.len() == slugs.len() == cs.len(),
        forall|j: int|
            0 <= j < q.len() ==> q[j] == json_entry(slugs[j], cs[j]) && plain_text(slugs[j])
                && card_texts_ok(cs[j]) && !(cs[j] is Font),
        word_at(s, p, seq!['\n'] + join(q, seq![',', '\n']) + seq!['\n']),
        p + join(q, seq![',', '\n']).len() + 2 == s.len(),
        p >= 0,
    ensures
        token_entries(s, p, acc) == Some(acc + written_tokens(slugs, cs)),
    decreases q.len(),
{
    let sep = seq![',', '\n'];
    let whole = seq!['\n'] + join(q, sep) + seq!['\n'];
    lemma_join_first(q, sep);
    lemma_entry_fields(cs[0]);
    let e0 = q[0];
    let q4 = p + 1 + e0.len();
    let acc2 = acc.push((slugs[0], token_kind(cs[0]), token_string(cs[0])));
    if q.len() == 1 {
        assert(whole =~= (seq!['\n'] + e0) + seq!['\n']);
        lemma_word_split(s, p, seq!['\n'] + e0, seq!['\n']);
        lemma_read_entry(s, p, slugs[0], cs[0]);
        lemma_word_char(s, p, whole, 1 + e0.len() as int);
        assert(skip_ws_at(s, q4 + 1) == q4 + 1);
        assert(skip_ws_at(s, q4) == q4 + 1);
        assert(token_entries(s, q4, acc2) == Some(acc2));
        assert(acc2 =~= acc + written_tokens(slugs, cs));
    } else {
        let rest = join(q.drop_first(), sep);
        assert(whole =~= (seq!['\n'] + e0) + (seq![','] + (seq!['\n'] + rest + seq!['\n'])));
        lemma_word_split(s, p, seq!['\n'] + e0, seq![','] + (seq!['\n'] + rest + seq!['\n']));
        lemma_read_entry(s, p, slugs[0], cs[0]);
        lemma_word_split(s, q4, seq![','], seq!['\n'] + rest + seq!['\n']);
        lemma_word_char(s, q4, seq![','], 0);
        assert(skip_ws_at(s, q4) == q4);
        assert(token_entries(s, q4, acc2) == token_entries(s, q4 + 1, acc2));
        let q1 = q.drop_first();
        assert forall|j: int| 0 <= j < q1.len() implies q1[j] == json_entry(
            slugs.drop_first()[j],
            cs.drop_first()[j],
        ) && plain_text(slugs.drop_first()[j]) && card_texts_ok(cs.drop_first()[j]) && !(
        cs.drop_first()[j] is Font) by {
            assert(q1[j] == q[j + 1]);
        }
        lemma_entries_read(s, q4 + 1, q1, slugs.drop_first(), cs.drop_first(), acc2);
        assert(acc2 + written_tokens(slugs.drop_first(), cs.drop_first()) =~= acc + written_tokens(
            slugs,
            cs,
        ));
    }
}

/// The importer reads back what the exporter wrote: for colour, spacing,
/// radius and shadow cards whose slugs and texts can stand between quotes,
/// the entries of the tokens document come back, in order, as each card's
/// slug, its `$type` and its value text (a shadow's escaped quotes restored).
#[verifier::spinoff_prover]
#[verifier::rlimit(40)]
pub proof fn lemma_tokens_read_back(cards: Seq<CardView>)
    requires
        forall|i: int|
            #![trigger cards[i]]
            #![trigger card_slugs(cards)[i]]
            0 <= i < cards.len() ==> !(cards[i] is Font) && plain_text(card_slugs(cards)[i])
                && card_texts_ok(cards[i]),
    ensures
        json_tokens(design_tokens_json(cards)) == Some(
            written_tokens(card_slugs(cards), cards),
        ),
{
    reveal_strlit("{\n");
    reveal_strlit("}");
    let content = design_tokens_json(cards);
    let slugs = card_slugs(cards);
    lemma_card_slugs_len(cards);
    let sep = seq![',', '\n'];
    let q = token_entries_of(cards);
    if cards.len() == 0 {
        assert(join(q, ",\n"@) =~= Seq::<char>::empty());
        assert(content =~= seq!['{', '\n', '}']);
    } else {
        lemma_tokens_json_shape(cards);
    }
    assert(content.len() >= 3);
    assert(content[0] == '{');
    assert(content.last() == '}');
    assert(trim_start_seq(content) == content);
    assert(trim_end_seq(content) == content);
    assert(trim_seq(content) == content);
    let inner = content.subrange(1, content.len() - 1);
    if cards.len() == 0 {
        assert(inner =~= seq!['\n']);
        assert(is_ws('\n'));
        assert(skip_ws_at(inner, 1) == 1);
        assert(skip_ws_at(inner, 0) == 1);
        assert(written_tokens(slugs, cards) =~= Seq::<(Seq<char>, Seq<char>, Seq<char>)>::empty());
    } else {
        assert(inner =~= seq!['\n'] + join(q, sep) + seq!['\n']);
        assert(word_at(inner, 0, inner)) by {
            assert(inner.subrange(0, inner.len() as int) =~= inner);
        }
        assert forall|j: int| 0 <= j < q.len() implies q[j] == json_entry(slugs[j], cards[j])
            && plain_text(slugs[j]) && card_texts_ok(cards[j]) && !(cards[j] is Font) by {
            assert(plain_text(card_slugs(cards)[j]));
        }
        lemma_entries_read(inner, 0, q, slugs, cards, Seq::empty());
        assert(Seq::<(Seq<char>, Seq<char>, Seq<char>)>::empty() + written_tokens(slugs, cards)
            =~= written_tokens(slugs, cards));
    }
}

/// Importing the exported tokens document gives the binder of the tokens the
/// export wrote, for colour, spacing, radius and shadow cards whose slugs and
/// texts can stand between quotes.
pub proof fn lemma_import_of_export(cards: Seq<CardView>)
    requires
        forall|i: int|
            #![trigger cards[i]]
            #![trigger card_slugs(cards)[i]]
            0 <= i < cards.len() ==> !(cards[i] is Font) && plain_text(card_slugs(cards)[i])
                && card_texts_ok(cards[i]),
    ensures
        design_tokens_markdown(design_tokens_json(cards)) == tokens_binder(
            written_tokens(card_slugs(cards), cards),
        ),
{
    lemma_tokens_read_back(cards);
    lemma_tokens_json_is_json(cards);
}

} // verus!
