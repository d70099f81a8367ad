//! The Design Tokens export is JSON: the document `to_design_tokens_json`
//! writes is accepted by the JSON syntax of `json`, as long as the texts it
//! places between quotes need no escaping beyond the quotes it escapes itself.
use vstd::prelude::*;
use super::json::{
    digits_end, exponent_end, fraction_end, is_json_text, is_json_ws, json_ws, lemma_digits_end,
    members_end, number_end, string_rest, value_end, word_at,
};
use crate::token::is_digit_char;
use crate::text::{dec_digit, decimal, join, replace_char};
use super::{card_slugs, lemma_card_slugs_len, design_tokens_json, escape_quotes, json_entry, json_token_body, CardView};

verus! {

// ── Texts that may stand between quotes ──────────────────────────────────────

/// A text that can stand between JSON quotes as it is: no `"`, no `\`, no
/// control character.
pub open spec fn plain_text(t: Seq<char>) -> bool {
    forall|i: int| 0 <= i < t.len() ==> t[i] != '"' && t[i] != '\\' && (t[i] as u32) >= 0x20
}

/// A text that can stand between JSON quotes once its `"` are escaped: no `\`,
/// no control character.
pub open spec fn quotable_text(t: Seq<char>) -> bool {
    forall|i: int| 0 <= i < t.len() ==> t[i] != '\\' && (t[i] as u32) >= 0x20
}

/// A text that is a JSON number on its own.
pub open spec fn json_number_text(t: Seq<char>) -> bool {
    number_end(t, 0) == Some(t.len() as int)
}

// ── Reading pieces of a text ─────────────────────────────────────────────────

pub(crate) proof fn lemma_word_split(s: Seq<char>, p: int, u: Seq<char>, v: Seq<char>)
    requires
        word_at(s, p, u + v),
    ensures
        word_at(s, p, u),
        word_at(s, p + u.len(), v),
{
    let w = s.subrange(p, p + (u + v).len());
    assert(w == u + v);
    assert(s.subrange(p, p + u.len()) =~= w.subrange(0, u.len() as int));
    assert(w.subrange(0, u.len() as int) =~= u);
    assert(s.subrange(p + u.len(), p + u.len() + v.len()) =~= w.subrange(
        u.len() as int,
        w.len() as int,
    ));
    assert(w.subrange(u.len() as int, w.len() as int) =~= v);
}

pub(crate) proof fn lemma_word_char(s: Seq<char>, p: int, u: Seq<char>, i: int)
    requires
        word_at(s, p, u),
        0 <= i < u.len(),
    ensures
        s[p + i] == u[i],
{
    assert(s.subrange(p, p + u.len())[i] == u[i]);
}

// ── Strings ──────────────────────────────────────────────────────────────────

proof fn lemma_plain_string(s: Seq<char>, p: int, t: Seq<char>)
    requires
        word_at(s, p, t + seq!['"']),
        plain_text(t),
    ensures
        string_rest(s, p) == Some(p + t.len() + 1),
    decreases t.len(),
{
    lemma_word_char(s, p, t + seq!['"'], 0);
    if t.len() > 0 {
        assert(t + seq!['"'] =~= seq![t[0]] + (t.drop_first() + seq!['"']));
        lemma_word_split(s, p, seq![t[0]], t.drop_first() + seq!['"']);
        lemma_plain_string(s, p + 1, t.drop_first());
    }
}

pub(crate) proof fn lemma_replace_char_concat(a: Seq<char>, b: Seq<char>, c: char, by: Seq<char>)
    ensures
        replace_char(a + b, c, by) == replace_char(a, c, by) + replace_char(b, c, by),
    decreases b.len(),
{
    if b.len() == 0 {
        assert(a + b =~= a);
        assert(replace_char(a, c, by) + replace_char(b, c, by) =~= replace_char(a, c, by));
    } else {
        assert((a + b).drop_last() =~= a + b.drop_last());
        assert((a + b).last() == b.last());
        lemma_replace_char_concat(a, b.drop_last(), c, by);
        if b.last() == c {
            assert(replace_char(a, c, by) + replace_char(b.drop_last(), c, by) + by =~= replace_char(
                a,
                c,
                by,
            ) + (replace_char(b.drop_last(), c, by) + by));
        } else {
            assert((replace_char(a, c, by) + replace_char(b.drop_last(), c, by)).push(b.last())
                =~= replace_char(a, c, by) + replace_char(b.drop_last(), c, by).push(b.last()));
        }
    }
}

proof fn lemma_escaped_string(s: Seq<char>, p: int, x: Seq<char>)
    requires
        word_at(s, p, escape_quotes(x) + seq!['"']),
        quotable_text(x),
    ensures
        string_rest(s, p) == Some(p + escape_quotes(x).len() + 1),
    decreases x.len(),
{
    reveal_strlit("\\\"");
    let e = escape_quotes(x);
    if x.len() == 0 {
        lemma_word_char(s, p, e + seq!['"'], 0);
    } else {
        let rest = x.drop_first();
        assert(x =~= seq![x[0]] + rest);
        lemma_replace_char_concat(seq![x[0]], rest, '"', "\\\""@);
        let head = replace_char(seq![x[0]], '"', "\\\""@);
        assert(seq![x[0]].drop_last() =~= Seq::<char>::empty());
        assert(replace_char(Seq::<char>::empty(), '"', "\\\""@) =~= Seq::<char>::empty());
        assert(seq![x[0]].last() == x[0]);
        assert(e == head + escape_quotes(rest));
        assert(e + seq!['"'] =~= head + (escape_quotes(rest) + seq!['"']));
        lemma_word_split(s, p, head, escape_quotes(rest) + seq!['"']);
        if x[0] == '"' {
            assert(head =~= "\\\""@);
            lemma_word_char(s, p, head, 0);
            lemma_word_char(s, p, head, 1);
        } else {
            assert(head =~= seq![x[0]]);
            lemma_word_char(s, p, head, 0);
        }
        lemma_escaped_string(s, p + head.len(), rest);
    }
}

// ── Numbers ──────────────────────────────────────────────────────────────────

/// A character that cannot continue a number.
pub open spec fn ends_number(c: char) -> bool {
    !is_digit_char(c) && c != '.' && c != 'e' && c != 'E' && c != '+' && c != '-'
}

/// The text `t` as it stands at position `p` of `s`, followed there by a
/// character that ends a number.
pub open spec fn placed(s: Seq<char>, p: int, t: Seq<char>) -> bool {
    word_at(s, p, t) && p + t.len() < s.len() && ends_number(s[p + t.len()])
}

/// An optional position moved by `p`.
pub open spec fn shifted(r: Option<int>, p: int) -> Option<int> {
    match r {
        Some(e) => Some(e + p),
        None => None,
    }
}

proof fn lemma_digits_local(s: Seq<char>, p: int, t: Seq<char>, k: int)
    requires
        placed(s, p, t),
        0 <= k <= t.len(),
    ensures
        digits_end(s, p + k) == p + digits_end(t, k),
    decreases t.len() - k,
{
    if k < t.len() {
        lemma_word_char(s, p, t, k);
        if is_digit_char(t[k]) {
            lemma_digits_local(s, p, t, k + 1);
        }
    }
}

proof fn lemma_exponent_local(s: Seq<char>, p: int, t: Seq<char>, c: int)
    requires
        placed(s, p, t),
        0 <= c <= t.len(),
    ensures
        exponent_end(s, p + c) == shifted(exponent_end(t, c), p),
{
    let n = t.len() as int;
    if c < n {
        lemma_word_char(s, p, t, c);
        if t[c] == 'e' || t[c] == 'E' {
            if c + 1 < n {
                lemma_word_char(s, p, t, c + 1);
            }
            let d = if c + 1 < n && (t[c + 1] == '+' || t[c + 1] == '-') {
                c + 2
            } else {
                c + 1
            };
            if d < n {
                lemma_word_char(s, p, t, d);
                if is_digit_char(t[d]) {
                    lemma_digits_local(s, p, t, d + 1);
                }
            }
        }
    }
}

proof fn lemma_fraction_local(s: Seq<char>, p: int, t: Seq<char>, b: int)
    requires
        placed(s, p, t),
        0 <= b <= t.len(),
    ensures
        fraction_end(s, p + b) == shifted(fraction_end(t, b), p),
{
    let n = t.len() as int;
    if b < n {
        lemma_word_char(s, p, t, b);
        if t[b] == '.' {
            if b + 1 < n {
                lemma_word_char(s, p, t, b + 1);
                if is_digit_char(t[b + 1]) {
                    lemma_digits_local(s, p, t, b + 2);
                    lemma_digits_end(t, b + 2);
                    lemma_exponent_local(s, p, t, digits_end(t, b + 2));
                }
            }
        } else {
            lemma_exponent_local(s, p, t, b);
        }
    } else {
        lemma_exponent_local(s, p, t, b);
    }
}

proof fn lemma_number_local(s: Seq<char>, p: int, t: Seq<char>)
    requires
        placed(s, p, t),
        json_number_text(t),
    ensures
        number_end(s, p) == Some(p + t.len()),
{
    let n = t.len() as int;
    assert(n > 0);
    lemma_word_char(s, p, t, 0);
    let a = if t[0] == '-' {
        1int
    } else {
        0int
    };
    if a < n {
        lemma_word_char(s, p, t, a);
        if t[a] == '0' {
            lemma_fraction_local(s, p, t, a + 1);
        } else if '1' <= t[a] && t[a] <= '9' {
            lemma_digits_local(s, p, t, a + 1);
            lemma_digits_end(t, a + 1);
            lemma_fraction_local(s, p, t, digits_end(t, a + 1));
        }
    }
}

proof fn lemma_decimal_digits(n: nat)
    ensures
        decimal(n).len() >= 1,
        forall|i: int| 0 <= i < decimal(n).len() ==> is_digit_char(#[trigger] decimal(n)[i]),
        n == 0 ==> decimal(n) == seq!['0'],
        n > 0 ==> decimal(n)[0] != '0',
    decreases n,
{
    if n >= 10 {
        lemma_decimal_digits(n / 10);
        assert(is_digit_char(dec_digit(n % 10)));
        assert forall|i: int| 0 <= i < decimal(n).len() implies is_digit_char(
            #[trigger] decimal(n)[i],
        ) by {
            if i < decimal(n).len() - 1 {
                assert(decimal(n)[i] == decimal(n / 10)[i]);
            }
        }
    } else {
        assert(is_digit_char(dec_digit(n)));
        if n == 0 {
            assert(decimal(n) =~= seq!['0']);
        }
    }
}

proof fn lemma_decimal_number(n: nat)
    ensures
        json_number_text(decimal(n)),
{
    let t = decimal(n);
    lemma_decimal_digits(n);
    let len = t.len() as int;
    if n == 0 {
        assert(fraction_end(t, 1) == Some(1int));
    } else {
        assert forall|i: int| 1 <= i <= len implies digits_end(t, i) == len by {
            lemma_digits_to_end(t, i);
        }
        assert(digits_end(t, 1) == len);
    }
}

proof fn lemma_digits_to_end(t: Seq<char>, i: int)
    requires
        0 <= i <= t.len(),
        forall|k: int| 0 <= k < t.len() ==> is_digit_char(#[trigger] t[k]),
    ensures
        digits_end(t, i) == t.len(),
    decreases t.len() - i,
{
    if i < t.len() {
        lemma_digits_to_end(t, i + 1);
    }
}

// ── Values and members ───────────────────────────────────────────────────────

/// What `members_end` does after a member whose value ends at `e`, for the
/// member that started at `q`.
pub open spec fn members_after(s: Seq<char>, e: int, q: int) -> Option<int> {
    let w = json_ws(s, e);
    if w <= q || w >= s.len() {
        None
    } else if s[w] == ',' {
        members_end(s, json_ws(s, w + 1))
    } else if s[w] == '}' {
        Some(w + 1)
    } else {
        None
    }
}

/// A member `"key": value`.
pub open spec fn val_member(key: Seq<char>, value: Seq<char>) -> Seq<char> {
    seq!['"'] + key + seq!['"', ':', ' '] + value
}

/// A string between quotes.
pub open spec fn quoted(body: Seq<char>) -> Seq<char> {
    seq!['"'] + body + seq!['"']
}

pub(crate) proof fn lemma_word_mid(s: Seq<char>, p: int, a: Seq<char>, b: Seq<char>, c: Seq<char>)
    requires
        word_at(s, p, a + b + c),
    ensures
        word_at(s, p + a.len(), b),
{
    lemma_word_split(s, p, a + b, c);
    lemma_word_split(s, p, a, b);
}

proof fn lemma_member_value(
    s: Seq<char>,
    m: int,
    key: Seq<char>,
    value: Seq<char>,
    e: int,
)
    requires
        word_at(s, m, val_member(key, value)),
        plain_text(key),
        value.len() > 0,
        !is_json_ws(value[0]),
        value_end(s, m + key.len() + 4) == Some(e),
    ensures
        members_end(s, m) == members_after(s, e, m),
{
    let t = val_member(key, value);
    assert(t =~= seq!['"'] + (key + seq!['"']) + (seq![':', ' '] + value));
    lemma_word_mid(s, m, seq!['"'], key + seq!['"'], seq![':', ' '] + value);
    lemma_plain_string(s, m + 1, key);
    let k = m + key.len() + 2;
    lemma_word_char(s, m, t, 0);
    lemma_word_char(s, m, t, key.len() + 2 as int);
    lemma_word_char(s, m, t, key.len() + 3 as int);
    lemma_word_char(s, m, t, key.len() + 4 as int);
    assert(json_ws(s, k) == k);
    assert(json_ws(s, k + 2) == k + 2);
    assert(json_ws(s, k + 1) == k + 2);
}

proof fn lemma_string_value(
    s: Seq<char>,
    v: int,
    raw: Seq<char>,
    escaped: bool,
)
    requires
        word_at(s, v, quoted(if escaped { escape_quotes(raw) } else { raw })),
        escaped ==> quotable_text(raw),
        !escaped ==> plain_text(raw),
    ensures
        value_end(s, v) == Some(
            v + (if escaped { escape_quotes(raw) } else { raw }).len() + 2,
        ),
{
    let body = if escaped {
        escape_quotes(raw)
    } else {
        raw
    };
    lemma_word_char(s, v, quoted(body), 0);
    assert(quoted(body) =~= seq!['"'] + (body + seq!['"']));
    lemma_word_split(s, v, seq!['"'], body + seq!['"']);
    if escaped {
        lemma_escaped_string(s, v + 1, raw);
    } else {
        lemma_plain_string(s, v + 1, raw);
    }
}

proof fn lemma_number_value(s: Seq<char>, v: int, t: Seq<char>)
    requires
        placed(s, v, t),
        json_number_text(t),
    ensures
        value_end(s, v) == Some(v + t.len()),
{
    reveal_strlit("true");
    reveal_strlit("false");
    reveal_strlit("null");
    lemma_word_char(s, v, t, 0);
    lemma_number_local(s, v, t);
    assert(t[0] == '-' || is_digit_char(t[0]));
    if word_at(s, v, "true"@) {
        lemma_word_char(s, v, "true"@, 0);
    }
    if word_at(s, v, "false"@) {
        lemma_word_char(s, v, "false"@, 0);
    }
    if word_at(s, v, "null"@) {
        lemma_word_char(s, v, "null"@, 0);
    }
}

proof fn lemma_after_comma(s: Seq<char>, e: int, q: int)
    requires
        0 <= q < e,
        e + 2 < s.len(),
        s[e] == ',',
        s[e + 1] == ' ',
        !is_json_ws(s[e + 2]),
    ensures
        members_after(s, e, q) == members_end(s, e + 2),
{
    assert(json_ws(s, e + 2) == e + 2);
    assert(json_ws(s, e + 1) == e + 2);
    assert(json_ws(s, e) == e);
}

proof fn lemma_after_close(s: Seq<char>, e: int, q: int)
    requires
        0 <= q < e,
        e + 1 < s.len(),
        s[e] == ' ',
        s[e + 1] == '}',
    ensures
        members_after(s, e, q) == Some(e + 2),
{
    assert(json_ws(s, e + 1) == e + 1);
    assert(json_ws(s, e) == e + 1);
}

/// An object of two members, as the exporter writes it: `{ m1, m2 }`.
pub open spec fn object_of_two(m1: Seq<char>, m2: Seq<char>) -> Seq<char> {
    seq!['{', ' '] + m1 + seq![',', ' '] + m2 + seq![' ', '}']
}

/// The text of a string value whose body is `raw`, escaped or not.
pub open spec fn string_text(raw: Seq<char>, escaped: bool) -> Seq<char> {
    quoted(if escaped { escape_quotes(raw) } else { raw })
}

/// `raw` can be written as a string, escaped or not.
pub open spec fn string_ok(raw: Seq<char>, escaped: bool) -> bool {
    (escaped ==> quotable_text(raw)) && (!escaped ==> plain_text(raw))
}

proof fn lemma_string_member(
    s: Seq<char>,
    m: int,
    key: Seq<char>,
    raw: Seq<char>,
    escaped: bool,
)
    requires
        word_at(s, m, val_member(key, string_text(raw, escaped))),
        plain_text(key),
        string_ok(raw, escaped),
    ensures
        members_end(s, m) == members_after(
            s,
            m + val_member(key, string_text(raw, escaped)).len(),
            m,
        ),
{
    let v = string_text(raw, escaped);
    assert(val_member(key, v) =~= (seq!['"'] + key + seq!['"', ':', ' ']) + v + Seq::<char>::empty());
    lemma_word_mid(s, m, seq!['"'] + key + seq!['"', ':', ' '], v, Seq::<char>::empty());
    lemma_string_value(s, m + key.len() + 4, raw, escaped);
    lemma_member_value(s, m, key, v, m + key.len() + 4 + v.len());
}

#[verifier::spinoff_prover]
#[verifier::rlimit(40)]
proof fn lemma_object_of_two_strings(
    s: Seq<char>,
    v: int,
    k1: Seq<char>,
    r1: Seq<char>,
    e1: bool,
    k2: Seq<char>,
    r2: Seq<char>,
    e2: bool,
)
    requires
        word_at(
            s,
            v,
            object_of_two(val_member(k1, string_text(r1, e1)), val_member(k2, string_text(r2, e2))),
        ),
        plain_text(k1),
        plain_text(k2),
        string_ok(r1, e1),
        string_ok(r2, e2),
    ensures
        value_end(s, v) == Some(
            v + object_of_two(
                val_member(k1, string_text(r1, e1)),
                val_member(k2, string_text(r2, e2)),
            ).len(),
        ),
{
    let m1 = val_member(k1, string_text(r1, e1));
    let m2 = val_member(k2, string_text(r2, e2));
    let t = object_of_two(m1, m2);
    lemma_word_char(s, v, t, 0);
    lemma_word_char(s, v, t, 1);
    lemma_word_char(s, v, t, 2);
    assert(json_ws(s, v + 2) == v + 2);
    assert(json_ws(s, v + 1) == v + 2);
    let a = v + 2;
    assert(t =~= seq!['{', ' '] + m1 + (seq![',', ' '] + m2 + seq![' ', '}']));
    lemma_word_mid(s, v, seq!['{', ' '], m1, seq![',', ' '] + m2 + seq![' ', '}']);
    lemma_string_member(s, a, k1, r1, e1);
    let b = a + m1.len();
    lemma_word_char(s, v, t, 2 + m1.len() as int);
    lemma_word_char(s, v, t, 3 + m1.len() as int);
    lemma_word_char(s, v, t, 4 + m1.len() as int);
    lemma_after_comma(s, b, a);
    assert(t =~= (seq!['{', ' '] + m1 + seq![',', ' ']) + m2 + seq![' ', '}']);
    lemma_word_mid(s, v, seq!['{', ' '] + m1 + seq![',', ' '], m2, seq![' ', '}']);
    lemma_string_member(s, b + 2, k2, r2, e2);
    let c = b + 2 + m2.len();
    lemma_word_char(s, v, t, 4 + m1.len() as int + m2.len());
    lemma_word_char(s, v, t, 5 + m1.len() as int + m2.len());
    lemma_after_close(s, c, b + 2);
}

proof fn lemma_number_member(s: Seq<char>, m: int, key: Seq<char>, t: Seq<char>)
    requires
        word_at(s, m, val_member(key, t)),
        plain_text(key),
        json_number_text(t),
        m + val_member(key, t).len() < s.len(),
        ends_number(s[m + val_member(key, t).len()]),
    ensures
        members_end(s, m) == members_after(s, m + val_member(key, t).len(), m),
{
    assert(val_member(key, t) =~= (seq!['"'] + key + seq!['"', ':', ' ']) + t + Seq::<char>::empty());
    lemma_word_mid(s, m, seq!['"'] + key + seq!['"', ':', ' '], t, Seq::<char>::empty());
    lemma_number_value(s, m + key.len() + 4, t);
    assert(t[0] == '-' || is_digit_char(t[0]));
    lemma_member_value(s, m, key, t, m + key.len() + 4 + t.len());
}

#[verifier::spinoff_prover]
#[verifier::rlimit(40)]
proof fn lemma_object_of_two(
    s: Seq<char>,
    v: int,
    k1: Seq<char>,
    r1: Seq<char>,
    e1: bool,
    k2: Seq<char>,
    val2: Seq<char>,
)
    requires
        word_at(s, v, object_of_two(val_member(k1, string_text(r1, e1)), val_member(k2, val2))),
        plain_text(k1),
        plain_text(k2),
        string_ok(r1, e1),
        val2.len() > 0,
        !is_json_ws(val2[0]),
        value_end(
            s,
            v + 2 + val_member(k1, string_text(r1, e1)).len() + 2 + k2.len() + 4,
        ) == Some(v + 2 + val_member(k1, string_text(r1, e1)).len() + 2 + k2.len() + 4 + val2.len()),
    ensures
        value_end(s, v) == Some(
            v + object_of_two(val_member(k1, string_text(r1, e1)), val_member(k2, val2)).len(),
        ),
{
    let m1 = val_member(k1, string_text(r1, e1));
    let m2 = val_member(k2, val2);
    let t = object_of_two(m1, m2);
    lemma_word_char(s, v, t, 0);
    lemma_word_char(s, v, t, 1);
    lemma_word_char(s, v, t, 2);
    assert(json_ws(s, v + 2) == v + 2);
    assert(json_ws(s, v + 1) == v + 2);
    let a = v + 2;
    assert(t =~= seq!['{', ' '] + m1 + (seq![',', ' '] + m2 + seq![' ', '}']));
    lemma_word_mid(s, v, seq!['{', ' '], m1, seq![',', ' '] + m2 + seq![' ', '}']);
    lemma_string_member(s, a, k1, r1, e1);
    let b = a + m1.len();
    lemma_word_char(s, v, t, 2 + m1.len() as int);
    lemma_word_char(s, v, t, 3 + m1.len() as int);
    lemma_word_char(s, v, t, 4 + m1.len() as int);
    lemma_after_comma(s, b, a);
    assert(t =~= (seq!['{', ' '] + m1 + seq![',', ' ']) + m2 + seq![' ', '}']);
    lemma_word_mid(s, v, seq!['{', ' '] + m1 + seq![',', ' '], m2, seq![' ', '}']);
    lemma_member_value(s, b + 2, k2, val2, b + 2 + m2.len());
    let c = b + 2 + m2.len();
    lemma_word_char(s, v, t, 4 + m1.len() as int + m2.len());
    lemma_word_char(s, v, t, 5 + m1.len() as int + m2.len());
    lemma_after_close(s, c, b + 2);
}

proof fn lemma_object_open(s: Seq<char>, v: int, body: Seq<char>)
    requires
        word_at(s, v, seq!['{', ' '] + body),
        body.len() > 0,
        body[0] == '"',
    ensures
        value_end(s, v) == members_end(s, v + 2),
{
    let t = seq!['{', ' '] + body;
    lemma_word_char(s, v, t, 0);
    lemma_word_char(s, v, t, 1);
    lemma_word_char(s, v, t, 2);
    assert(json_ws(s, v + 2) == v + 2);
    assert(json_ws(s, v + 1) == v + 2);
}

proof fn lemma_string_then(
    s: Seq<char>,
    m: int,
    key: Seq<char>,
    raw: Seq<char>,
    escaped: bool,
    rest: Seq<char>,
)
    requires
        word_at(s, m, val_member(key, string_text(raw, escaped)) + seq![',', ' '] + rest),
        plain_text(key),
        string_ok(raw, escaped),
        rest.len() > 0,
        rest[0] == '"',
        m >= 0,
    ensures
        members_end(s, m) == members_end(
            s,
            m + val_member(key, string_text(raw, escaped)).len() + 2,
        ),
{
    let mm = val_member(key, string_text(raw, escaped));
    let t = mm + seq![',', ' '] + rest;
    assert(t =~= Seq::<char>::empty() + mm + (seq![',', ' '] + rest));
    lemma_word_mid(s, m, Seq::<char>::empty(), mm, seq![',', ' '] + rest);
    lemma_string_member(s, m, key, raw, escaped);
    lemma_word_char(s, m, t, mm.len() as int);
    lemma_word_char(s, m, t, mm.len() as int + 1);
    lemma_word_char(s, m, t, mm.len() as int + 2);
    lemma_after_comma(s, m + mm.len(), m);
}

proof fn lemma_number_then(
    s: Seq<char>,
    m: int,
    key: Seq<char>,
    num: Seq<char>,
    rest: Seq<char>,
)
    requires
        word_at(s, m, val_member(key, num) + seq![',', ' '] + rest),
        plain_text(key),
        json_number_text(num),
        rest.len() > 0,
        rest[0] == '"',
        m >= 0,
    ensures
        members_end(s, m) == members_end(s, m + val_member(key, num).len() + 2),
{
    let mm = val_member(key, num);
    let t = mm + seq![',', ' '] + rest;
    assert(t =~= Seq::<char>::empty() + mm + (seq![',', ' '] + rest));
    lemma_word_mid(s, m, Seq::<char>::empty(), mm, seq![',', ' '] + rest);
    lemma_word_char(s, m, t, mm.len() as int);
    lemma_word_char(s, m, t, mm.len() as int + 1);
    lemma_word_char(s, m, t, mm.len() as int + 2);
    lemma_number_member(s, m, key, num);
    lemma_after_comma(s, m + mm.len(), m);
}

proof fn lemma_number_close(s: Seq<char>, m: int, key: Seq<char>, num: Seq<char>)
    requires
        word_at(s, m, val_member(key, num) + seq![' ', '}']),
        plain_text(key),
        json_number_text(num),
        m >= 0,
    ensures
        members_end(s, m) == Some(m + val_member(key, num).len() + 2),
{
    let mm = val_member(key, num);
    let t = mm + seq![' ', '}'];
    lemma_word_split(s, m, mm, seq![' ', '}']);
    lemma_word_char(s, m, t, mm.len() as int);
    lemma_word_char(s, m, t, mm.len() as int + 1);
    lemma_number_member(s, m, key, num);
    lemma_after_close(s, m + mm.len(), m);
}

/// The `$value` object of a typography token.
pub open spec fn font_value(
    family: Seq<char>,
    size_px: Seq<char>,
    weight: u16,
    line_height: Option<Seq<char>>,
) -> Seq<char> {
    seq!['{', ' '] + (val_member("fontFamily"@, string_text(family, true)) + seq![',', ' ']
        + (val_member("fontSize"@, string_text(size_px + seq!['p', 'x'], false)) + seq![',', ' ']
        + font_tail(weight, line_height)))
}

/// The weight and line height members of a typography value, and its `}`.
pub open spec fn font_tail(weight: u16, line_height: Option<Seq<char>>) -> Seq<char> {
    match line_height {
        Some(t) => val_member("fontWeight"@, decimal(weight as nat)) + seq![',', ' '] + (
        val_member("lineHeight"@, t) + seq![' ', '}']),
        None => val_member("fontWeight"@, decimal(weight as nat)) + seq![' ', '}'],
    }
}

#[verifier::spinoff_prover]
#[verifier::rlimit(40)]
proof fn lemma_font_tail(
    s: Seq<char>,
    c: int,
    weight: u16,
    line_height: Option<Seq<char>>,
)
    requires
        word_at(s, c, font_tail(weight, line_height)),
        line_height matches Some(t) ==> json_number_text(t),
        c >= 0,
    ensures
        members_end(s, c) == Some(c + font_tail(weight, line_height).len()),
{
    reveal_strlit("fontWeight");
    reveal_strlit("lineHeight");
    lemma_decimal_number(weight as nat);
    let dec = decimal(weight as nat);
    match line_height {
        Some(lh) => {
            let rest = val_member("lineHeight"@, lh) + seq![' ', '}'];
            lemma_number_then(s, c, "fontWeight"@, dec, rest);
            let d2 = c + val_member("fontWeight"@, dec).len() + 2;
            lemma_word_split(s, c, val_member("fontWeight"@, dec) + seq![',', ' '], rest);
            lemma_number_close(s, d2, "lineHeight"@, lh);
        },
        None => {
            lemma_number_close(s, c, "fontWeight"@, dec);
        },
    }
}

#[verifier::spinoff_prover]
#[verifier::rlimit(40)]
proof fn lemma_font_value(
    s: Seq<char>,
    v: int,
    family: Seq<char>,
    size_px: Seq<char>,
    weight: u16,
    line_height: Option<Seq<char>>,
)
    requires
        word_at(s, v, font_value(family, size_px, weight, line_height)),
        quotable_text(family),
        plain_text(size_px),
        line_height matches Some(t) ==> json_number_text(t),
        v >= 0,
    ensures
        value_end(s, v) == Some(v + font_value(family, size_px, weight, line_height).len()),
{
    reveal_strlit("fontFamily");
    reveal_strlit("fontSize");
    let size = size_px + seq!['p', 'x'];
    assert(plain_text(size));
    let ma = val_member("fontFamily"@, string_text(family, true));
    let mb = val_member("fontSize"@, string_text(size, false));
    let tail = font_tail(weight, line_height);
    let body_b = mb + seq![',', ' '] + tail;
    let body_a = ma + seq![',', ' '] + body_b;
    lemma_word_split(s, v, seq!['{', ' '], body_a);
    lemma_object_open(s, v, body_a);
    lemma_string_then(s, v + 2, "fontFamily"@, family, true, body_b);
    let b = v + 2 + ma.len() + 2;
    lemma_word_split(s, v + 2, ma + seq![',', ' '], body_b);
    lemma_string_then(s, b, "fontSize"@, size, false, tail);
    let c = b + mb.len() + 2;
    lemma_word_split(s, b, mb + seq![',', ' '], tail);
    lemma_font_tail(s, c, weight, line_height);
}

// ── Token entries ────────────────────────────────────────────────────────────

/// The texts of a card that the export writes between quotes can stand there
/// (font families and shadows have their quotes escaped), and a line height
/// is a JSON number.
pub open spec fn card_texts_ok(c: CardView) -> bool {
    match c {
        CardView::Color(item) => plain_text(item.hex),
        CardView::Font { family, size_px, line_height, .. } => quotable_text(family) && plain_text(
            size_px,
        ) && (line_height matches Some(t) ==> json_number_text(t)),
        CardView::Space { display, .. } => plain_text(display),
        CardView::Radius { display, .. } => plain_text(display),
        CardView::Shadow { css, .. } => quotable_text(css),
    }
}

/// The object a card's entry maps its slug to.
pub open spec fn token_value(c: CardView) -> Seq<char> {
    "{ \"$type\": "@ + json_token_body(c)
}

/// The `$type` a card's entry states.
pub open spec fn token_kind(c: CardView) -> Seq<char> {
    match c {
        CardView::Color(_) => "color"@,
        CardView::Font { .. } => "typography"@,
        CardView::Space { .. } => "dimension"@,
        CardView::Radius { .. } => "borderRadius"@,
        CardView::Shadow { .. } => "shadow"@,
    }
}

/// The text a card's string `$value` holds (before its quotes are escaped);
/// a font's `$value` is an object instead.
pub open spec fn token_string(c: CardView) -> Seq<char> {
    match c {
        CardView::Color(item) => item.hex,
        CardView::Font { .. } => Seq::<char>::empty(),
        CardView::Space { display, .. } => display,
        CardView::Radius { display, .. } => display,
        CardView::Shadow { css, .. } => css,
    }
}

/// The entry object of a card whose `$value` is a string.
pub open spec fn string_token_value(c: CardView) -> Seq<char> {
    object_of_two(
        val_member("$type"@, string_text(token_kind(c), false)),
        val_member("$value"@, string_text(token_string(c), c is Shadow)),
    )
}

#[verifier::spinoff_prover]
#[verifier::rlimit(40)]
pub(crate) proof fn lemma_string_token_text(c: CardView)
    requires
        !(c is Font),
    ensures
        token_value(c) == string_token_value(c),
{
    reveal_strlit("{ \"$type\": ");
    reveal_strlit("\", \"$value\": \"");
    reveal_strlit("\" }");
    reveal_strlit("$type");
    reveal_strlit("$value");
    reveal_strlit("color");
    reveal_strlit("dimension");
    reveal_strlit("borderRadius");
    reveal_strlit("shadow");
    reveal_strlit("\"color\", \"$value\": \"");
    reveal_strlit("\"dimension\", \"$value\": \"");
    reveal_strlit("\"borderRadius\", \"$value\": \"");
    reveal_strlit("\"shadow\", \"$value\": \"");
    let kind = token_kind(c);
    let body = if c is Shadow {
        escape_quotes(token_string(c))
    } else {
        token_string(c)
    };
    let lit = match c {
        CardView::Color(_) => "\"color\", \"$value\": \""@,
        CardView::Space { .. } => "\"dimension\", \"$value\": \""@,
        CardView::Radius { .. } => "\"borderRadius\", \"$value\": \""@,
        _ => "\"shadow\", \"$value\": \""@,
    };
    assert(lit =~= seq!['"'] + kind + "\", \"$value\": \""@);
    assert(json_token_body(c) == lit + body + "\" }"@);
    assert(token_value(c) =~= string_token_value(c));
}

#[verifier::spinoff_prover]
#[verifier::rlimit(40)]
proof fn lemma_token_value(s: Seq<char>, v: int, c: CardView)
    requires
        word_at(s, v, token_value(c)),
        card_texts_ok(c),
        v >= 0,
    ensures
        value_end(s, v) == Some(v + token_value(c).len()),
{
    reveal_strlit("$type");
    reveal_strlit("$value");
    reveal_strlit("color");
    reveal_strlit("dimension");
    reveal_strlit("borderRadius");
    reveal_strlit("shadow");
    match c {
        CardView::Font { .. } => {
            lemma_font_token(s, v, c);
        },
        _ => {
            lemma_string_token_text(c);
            lemma_object_of_two_strings(
                s,
                v,
                "$type"@,
                token_kind(c),
                false,
                "$value"@,
                token_string(c),
                c is Shadow,
            );
        },
    }
}

/// The `$value` object of a typography token as the export writes it.
pub open spec fn font_value_text(c: CardView) -> Seq<char> {
    "{ \"fontFamily\": \""@ + escape_quotes(c->family) + "\", \"fontSize\": \""@ + c->size_px
        + "px\", \"fontWeight\": "@ + decimal(c->weight as nat) + match c->line_height {
        Some(t) => ", \"lineHeight\": "@ + t,
        None => Seq::<char>::empty(),
    } + " }"@
}

#[verifier::spinoff_prover]
#[verifier::rlimit(40)]
proof fn lemma_font_text_outer(c: CardView)
    requires
        c is Font,
    ensures
        json_token_body(c) =~= "\"typography\", \"$value\": "@ + font_value_text(c) + " }"@,
{
    reveal_strlit("\"typography\", \"$value\": { \"fontFamily\": \"");
    reveal_strlit("\"typography\", \"$value\": ");
    reveal_strlit("{ \"fontFamily\": \"");
    reveal_strlit(" } }");
    reveal_strlit(" }");
    assert("\"typography\", \"$value\": { \"fontFamily\": \""@ =~= "\"typography\", \"$value\": "@
        + "{ \"fontFamily\": \""@);
    assert(" } }"@ =~= " }"@ + " }"@);
}

#[verifier::spinoff_prover]
#[verifier::rlimit(40)]
proof fn lemma_font_text_inner(c: CardView)
    requires
        c is Font,
    ensures
        font_value_text(c) =~= font_value(c->family, c->size_px, c->weight, c->line_height),
{
    reveal_strlit("{ \"fontFamily\": \"");
    reveal_strlit("\", \"fontSize\": \"");
    reveal_strlit("px\", \"fontWeight\": ");
    reveal_strlit(", \"lineHeight\": ");
    reveal_strlit(" }");
    reveal_strlit("fontFamily");
    reveal_strlit("fontSize");
    reveal_strlit("fontWeight");
    reveal_strlit("lineHeight");
    let esc = escape_quotes(c->family);
    let dec = decimal(c->weight as nat);
    let lh_open = seq!['"'] + "lineHeight"@ + seq!['"', ':', ' '];
    let lhp = match c->line_height {
        Some(t) => ", \"lineHeight\": "@ + t,
        None => Seq::<char>::empty(),
    };
    let tail_text = match c->line_height {
        Some(t) => seq![',', ' '] + (lh_open + t),
        None => Seq::<char>::empty(),
    };
    assert(lhp =~= tail_text);
    assert(font_tail(c->weight, c->line_height) =~= seq!['"'] + "fontWeight"@ + seq![
        '"',
        ':',
        ' ',
    ] + dec + tail_text + seq![' ', '}']);
}

#[verifier::spinoff_prover]
#[verifier::rlimit(40)]
proof fn lemma_font_text(c: CardView)
    requires
        c is Font,
    ensures
        ({
            let fv = font_value(c->family, c->size_px, c->weight, c->line_height);
            let m1 = val_member("$type"@, string_text("typography"@, false));
            token_value(c) =~= object_of_two(m1, val_member("$value"@, fv))
        }),
{
    reveal_strlit("{ \"$type\": ");
    reveal_strlit("\"typography\", \"$value\": ");
    reveal_strlit(" }");
    reveal_strlit("typography");
    reveal_strlit("$type");
    reveal_strlit("$value");
    lemma_font_text_outer(c);
    lemma_font_text_inner(c);
    let fv = font_value(c->family, c->size_px, c->weight, c->line_height);
    assert(token_value(c) =~= "{ \"$type\": "@ + ("\"typography\", \"$value\": "@ + fv + " }"@));
}

#[verifier::spinoff_prover]
#[verifier::rlimit(40)]
proof fn lemma_font_token(s: Seq<char>, v: int, c: CardView)
    requires
        c is Font,
        word_at(s, v, token_value(c)),
        card_texts_ok(c),
        v >= 0,
    ensures
        value_end(s, v) == Some(v + token_value(c).len()),
{
    reveal_strlit("$type");
    reveal_strlit("$value");
    reveal_strlit("typography");
    lemma_font_text(c);
    let fv = font_value(c->family, c->size_px, c->weight, c->line_height);
    let m1 = val_member("$type"@, string_text("typography"@, false));
    let t = object_of_two(m1, val_member("$value"@, fv));
    let pre = seq!['{', ' '] + m1 + seq![',', ' '] + (seq!['"'] + "$value"@ + seq!['"', ':', ' ']);
    assert(t =~= pre + fv + seq![' ', '}']);
    lemma_word_mid(s, v, pre, fv, seq![' ', '}']);
    lemma_font_value(s, v + pre.len(), c->family, c->size_px, c->weight, c->line_height);
    lemma_object_of_two(s, v, "$type"@, "typography"@, false, "$value"@, fv);
}

// ── The document ─────────────────────────────────────────────────────────────

pub(crate) proof fn lemma_join_first(parts: Seq<Seq<char>>, sep: Seq<char>)
    requires
        parts.len() >= 1,
    ensures
        join(parts, sep) == if parts.len() == 1 {
            parts[0]
        } else {
            parts[0] + sep + join(parts.drop_first(), sep)
        },
    decreases parts.len(),
{
    if parts.len() == 2 {
        assert(parts.drop_last().len() == 1);
        assert(join(parts.drop_last(), sep) == parts.drop_last()[0]);
        assert(parts.drop_first().len() == 1);
        assert(join(parts.drop_first(), sep) == parts.drop_first()[0]);
        assert(join(parts, sep) =~= parts[0] + sep + join(parts.drop_first(), sep));
    } else if parts.len() > 2 {
        let dl = parts.drop_last();
        lemma_join_first(dl, sep);
        assert(parts.drop_first().drop_last() =~= dl.drop_first());
        assert(parts.drop_first().last() == parts.last());
        assert(join(parts.drop_first(), sep) == join(dl.drop_first(), sep) + sep + parts.last());
        assert(join(parts, sep) =~= parts[0] + sep + join(parts.drop_first(), sep));
    }
}

#[verifier::spinoff_prover]
#[verifier::rlimit(40)]
pub(crate) proof fn lemma_entry_text(slug: Seq<char>, c: CardView)
    ensures
        json_entry(slug, c) =~= seq![' ', ' '] + val_member(slug, token_value(c)),
{
    reveal_strlit("  \"");
    reveal_strlit("\": { \"$type\": ");
    reveal_strlit("{ \"$type\": ");
    assert("\": { \"$type\": "@ =~= seq!['"', ':', ' '] + "{ \"$type\": "@);
}

#[verifier::spinoff_prover]
#[verifier::rlimit(40)]
proof fn lemma_entry_member(s: Seq<char>, p: int, slug: Seq<char>, c: CardView)
    requires
        word_at(s, p, json_entry(slug, c)),
        plain_text(slug),
        card_texts_ok(c),
        p >= 0,
    ensures
        members_end(s, p + 2) == members_after(
            s,
            p + json_entry(slug, c).len(),
            p + 2,
        ),
{
    lemma_entry_text(slug, c);
    let tv = token_value(c);
    reveal_strlit("{ \"$type\": ");
    assert(tv[0] == '{');
    lemma_word_split(s, p, seq![' ', ' '], val_member(slug, tv));
    assert(val_member(slug, tv) =~= (seq!['"'] + slug + seq!['"', ':', ' ']) + tv
        + Seq::<char>::empty());
    lemma_word_mid(s, p + 2, seq!['"'] + slug + seq!['"', ':', ' '], tv, Seq::<char>::empty());
    lemma_token_value(s, p + 2 + slug.len() + 4, c);
    lemma_member_value(s, p + 2, slug, tv, p + 2 + slug.len() + 4 + tv.len());
}

#[verifier::spinoff_prover]
#[verifier::rlimit(40)]
proof fn lemma_entry_list(
    s: Seq<char>,
    p: int,
    q: Seq<Seq<char>>,
    slugs: Seq<Seq<char>>,
    cs: Seq<CardView>,
)
    requires
        q.len() >= 1,
        q.len() == slugs.len() == cs.len(),
        forall|j: int|
            0 <= j < q.len() ==> q[j] == json_entry(slugs[j], cs[j]) && plain_text(slugs[j])
                && card_texts_ok(cs[j]),
        word_at(s, p, join(q, seq![',', '\n']) + seq!['\n', '}']),
        p + join(q, seq![',', '\n']).len() + 2 == s.len(),
        p >= 0,
    ensures
        members_end(s, p + 2) == Some(s.len() as int),
    decreases q.len(),
{
    let sep = seq![',', '\n'];
    lemma_join_first(q, sep);
    lemma_word_split(s, p, join(q, sep), seq!['\n', '}']);
    let e = p + q[0].len();
    lemma_entry_text(slugs[0], cs[0]);
    if q.len() == 1 {
        lemma_word_split(s, p, q[0], Seq::<char>::empty());
        lemma_entry_member(s, p, slugs[0], cs[0]);
        lemma_word_char(s, p, join(q, sep) + seq!['\n', '}'], q[0].len() as int);
        lemma_word_char(s, p, join(q, sep) + seq!['\n', '}'], q[0].len() as int + 1);
        assert(json_ws(s, e + 1) == e + 1);
        assert(json_ws(s, e) == e + 1);
    } else {
        let rest = join(q.drop_first(), sep);
        let t = join(q, sep) + seq!['\n', '}'];
        assert(t =~= q[0] + (sep + (rest + seq!['\n', '}'])));
        lemma_word_split(s, p, q[0], sep + (rest + seq!['\n', '}']));
        lemma_entry_member(s, p, slugs[0], cs[0]);
        lemma_word_split(s, e, sep, rest + seq!['\n', '}']);
        lemma_word_char(s, e, sep, 0);
        lemma_word_char(s, e, sep, 1);
        let q1 = q.drop_first();
        assert(q1[0] == json_entry(slugs[1], cs[1]));
        lemma_entry_text(slugs[1], cs[1]);
        lemma_word_split(s, e + 2, rest, seq!['\n', '}']);
        lemma_join_first(q1, sep);
        if q1.len() > 1 {
            assert(rest =~= q1[0] + (sep + join(q1.drop_first(), sep)));
            lemma_word_split(s, e + 2, q1[0], sep + join(q1.drop_first(), sep));
        }
        let first = q1[0];
        assert(first =~= seq![' ', ' '] + val_member(slugs[1], token_value(cs[1])));
        lemma_word_char(s, e + 2, first, 0);
        lemma_word_char(s, e + 2, first, 1);
        lemma_word_char(s, e + 2, first, 2);
        assert(json_ws(s, e + 4) == e + 4);
        assert(json_ws(s, e + 3) == e + 4);
        assert(json_ws(s, e + 2) == e + 4);
        assert(json_ws(s, e + 1) == e + 4);
        assert(json_ws(s, e) == e);
        assert forall|j: int| 0 <= j < q1.len() implies q1[j] == json_entry(
            slugs.drop_first()[j],
            cs.drop_first()[j],
        ) && plain_text(slugs.drop_first()[j]) && card_texts_ok(cs.drop_first()[j]) by {
            assert(q1[j] == q[j + 1]);
        }
        lemma_entry_list(s, e + 2, q1, slugs.drop_first(), cs.drop_first());
    }
}

/// The entries of the tokens document, one per card.
pub open spec fn token_entries_of(cards: Seq<CardView>) -> Seq<Seq<char>> {
    Seq::new(cards.len(), |i: int| json_entry(card_slugs(cards)[i], cards[i]))
}

#[verifier::spinoff_prover]
#[verifier::rlimit(40)]
pub(crate) proof fn lemma_tokens_json_shape(cards: Seq<CardView>)
    requires
        cards.len() > 0,
    ensures
        design_tokens_json(cards) =~= seq!['{', '\n'] + (join(token_entries_of(cards), seq![',', '\n'])
            + seq!['\n', '}']),
{
    reveal_strlit("{\n");
    reveal_strlit(",\n");
    reveal_strlit("\n");
    reveal_strlit("}");
    assert(",\n"@ =~= seq![',', '\n']);
}

#[verifier::spinoff_prover]
#[verifier::rlimit(40)]
proof fn lemma_tokens_json_nonempty(cards: Seq<CardView>)
    requires
        cards.len() > 0,
        forall|i: int|
            0 <= i < cards.len() ==> plain_text(#[trigger] card_slugs(cards)[i]) && card_texts_ok(
                cards[i],
            ),
    ensures
        is_json_text(design_tokens_json(cards)),
{
    let slugs = card_slugs(cards);
    let q = token_entries_of(cards);
    let s = design_tokens_json(cards);
    let sep = seq![',', '\n'];
    lemma_card_slugs_len(cards);
    lemma_tokens_json_shape(cards);
    assert(s.subrange(0, s.len() as int) =~= s);
    lemma_word_split(s, 0, seq!['{', '\n'], join(q, sep) + seq!['\n', '}']);
    lemma_word_char(s, 0, s, 0);
    lemma_first_entry_at(s, 2, q, sep);
    lemma_entry_text(slugs[0], cards[0]);
    let first = q[0];
    lemma_word_char(s, 2, first, 0);
    lemma_word_char(s, 2, first, 1);
    lemma_word_char(s, 2, first, 2);
    assert(json_ws(s, 4) == 4);
    assert(json_ws(s, 3) == 4);
    assert(json_ws(s, 2) == 4);
    assert(json_ws(s, 1) == 4);
    assert(json_ws(s, 0) == 0);
    assert forall|j: int| 0 <= j < q.len() implies q[j] == json_entry(slugs[j], cards[j])
        && plain_text(slugs[j]) && card_texts_ok(cards[j]) by {
        assert(plain_text(card_slugs(cards)[j]));
    }
    lemma_word_split(s, 2, join(q, sep), seq!['\n', '}']);
    lemma_entry_list(s, 2, q, slugs, cards);
    assert(json_ws(s, s.len() as int) == s.len());
}

#[verifier::spinoff_prover]
#[verifier::rlimit(40)]
proof fn lemma_first_entry_at(s: Seq<char>, p: int, q: Seq<Seq<char>>, sep: Seq<char>)
    requires
        q.len() >= 1,
        word_at(s, p, join(q, sep) + seq!['\n', '}']),
    ensures
        word_at(s, p, q[0]),
{
    lemma_join_first(q, sep);
    lemma_word_split(s, p, join(q, sep), seq!['\n', '}']);
    if q.len() > 1 {
        assert(join(q, sep) =~= q[0] + (sep + join(q.drop_first(), sep)));
        lemma_word_split(s, p, q[0], sep + join(q.drop_first(), sep));
    }
}

/// The W3C Design Tokens document the export writes is JSON, whenever the
/// texts it places between quotes can stand there: slugs, hex values, sizes
/// and displays hold no `"`, `\` or control character, font families and
/// shadows no `\` or control character (their quotes are escaped), and each
/// line height is a JSON number.
#[verifier::spinoff_prover]
#[verifier::rlimit(40)]
pub proof fn lemma_tokens_json_is_json(cards: Seq<CardView>)
    requires
        forall|i: int|
            0 <= i < cards.len() ==> plain_text(#[trigger] card_slugs(cards)[i]) && card_texts_ok(
                cards[i],
            ),
    ensures
        is_json_text(design_tokens_json(cards)),
{
    if cards.len() == 0 {
        reveal_strlit("{\n");
        reveal_strlit("}");
        let s = design_tokens_json(cards);
        let q = Seq::new(0, |i: int| json_entry(card_slugs(cards)[i], cards[i]));
        assert(join(q, ",\n"@) =~= Seq::<char>::empty());
        assert(s =~= seq!['{', '\n', '}']);
        assert(json_ws(s, 0) == 0);
        assert(json_ws(s, 2) == 2);
        assert(json_ws(s, 1) == 2);
        assert(json_ws(s, 3) == 3);
    } else {
        lemma_tokens_json_nonempty(cards);
    }
}

} // verus!
