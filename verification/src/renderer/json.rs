//! JSON syntax (RFC 8259): whether a text is one JSON value between optional
//! whitespace.
use vstd::prelude::*;
use crate::text::{chars_of, matches_at};
use crate::token::{is_digit_char, is_hex_char};

verus! {

/// JSON whitespace: space, tab, line feed, carriage return.
pub open spec fn is_json_ws(c: char) -> bool {
    c == ' ' || c == '\t' || c == '\n' || c == '\r'
}

/// The first position at or after `p` that is not JSON whitespace.
pub open spec fn json_ws(s: Seq<char>, p: int) -> int
    decreases s.len() - p,
{
    if 0 <= p < s.len() && is_json_ws(s[p]) {
        json_ws(s, p + 1)
    } else {
        p
    }
}

/// Skipping JSON whitespace never moves back, nor past the end, and stops on
/// a character that is not whitespace.
pub proof fn lemma_json_ws(s: Seq<char>, p: int)
    ensures
        json_ws(s, p) >= p,
        p <= s.len() ==> json_ws(s, p) <= s.len(),
        0 <= json_ws(s, p) < s.len() ==> !is_json_ws(s[json_ws(s, p)]),
    decreases s.len() - p,
{
    if 0 <= p < s.len() && is_json_ws(s[p]) {
        lemma_json_ws(s, p + 1);
    }
}

/// A character that may follow `\` in a string, other than `u`.
pub open spec fn is_simple_escape(c: char) -> bool {
    c == '"' || c == '\\' || c == '/' || c == 'b' || c == 'f' || c == 'n' || c == 'r' || c
        == 't'
}

/// The rest of a string from `p`, just after its opening quote: the position
/// after the closing quote. Control characters must be escaped; an escape is
/// `\` and one of `" \ / b f n r t`, or `\u` and four hex digits.
pub open spec fn string_rest(s: Seq<char>, p: int) -> Option<int>
    decreases s.len() - p,
{
    if p < 0 || p >= s.len() {
        None
    } else if s[p] == '"' {
        Some(p + 1)
    } else if s[p] == '\\' {
        if p + 1 < s.len() && is_simple_escape(s[p + 1]) {
            string_rest(s, p + 2)
        } else if p + 5 < s.len() && s[p + 1] == 'u' && is_hex_char(s[p + 2]) && is_hex_char(
            s[p + 3],
        ) && is_hex_char(s[p + 4]) && is_hex_char(s[p + 5]) {
            string_rest(s, p + 6)
        } else {
            None
        }
    } else if (s[p] as u32) < 0x20 {
        None
    } else {
        string_rest(s, p + 1)
    }
}

/// The first position at or after `p` that is not a decimal digit.
pub open spec fn digits_end(s: Seq<char>, p: int) -> int
    decreases s.len() - p,
{
    if 0 <= p < s.len() && is_digit_char(s[p]) {
        digits_end(s, p + 1)
    } else {
        p
    }
}

/// The exponent part of a number at `c`, if any: the position after it.
pub open spec fn exponent_end(s: Seq<char>, c: int) -> Option<int> {
    if 0 <= c < s.len() && (s[c] == 'e' || s[c] == 'E') {
        let d = if c + 1 < s.len() && (s[c + 1] == '+' || s[c + 1] == '-') {
            c + 2
        } else {
            c + 1
        };
        if d < s.len() && is_digit_char(s[d]) {
            Some(digits_end(s, d + 1))
        } else {
            None
        }
    } else {
        Some(c)
    }
}

/// The fraction part of a number at `b`, if any, followed by its exponent.
pub open spec fn fraction_end(s: Seq<char>, b: int) -> Option<int> {
    if 0 <= b < s.len() && s[b] == '.' {
        if b + 1 < s.len() && is_digit_char(s[b + 1]) {
            exponent_end(s, digits_end(s, b + 2))
        } else {
            None
        }
    } else {
        exponent_end(s, b)
    }
}

/// A number at `p`: an optional `-`, an integer part without leading zeros,
/// an optional fraction and an optional exponent; the position after it.
pub open spec fn number_end(s: Seq<char>, p: int) -> Option<int> {
    let a = if 0 <= p < s.len() && s[p] == '-' {
        p + 1
    } else {
        p
    };
    if 0 <= a < s.len() && s[a] == '0' {
        fraction_end(s, a + 1)
    } else if 0 <= a < s.len() && '1' <= s[a] && s[a] <= '9' {
        fraction_end(s, digits_end(s, a + 1))
    } else {
        None
    }
}

/// `w` is written in `s` at `p`.
pub open spec fn word_at(s: Seq<char>, p: int, w: Seq<char>) -> bool {
    0 <= p && p + w.len() <= s.len() && s.subrange(p, p + w.len()) == w
}

/// A value at `p` (no leading whitespace): the position after it.
pub open spec fn value_end(s: Seq<char>, p: int) -> Option<int>
    decreases s.len() - p, 0nat,
{
    if p < 0 || p >= s.len() {
        None
    } else if s[p] == '{' || s[p] == '[' {
        proof {
            lemma_json_ws(s, p + 1);
        }
        if s[p] == '{' {
            object_end(s, json_ws(s, p + 1))
        } else {
            array_end(s, json_ws(s, p + 1))
        }
    } else if s[p] == '"' {
        string_rest(s, p + 1)
    } else if word_at(s, p, "true"@) {
        Some(p + 4)
    } else if word_at(s, p, "false"@) {
        Some(p + 5)
    } else if word_at(s, p, "null"@) {
        Some(p + 4)
    } else {
        number_end(s, p)
    }
}

/// The members of an object from `q`, just after `{` and whitespace: the
/// position after its `}`.
pub open spec fn object_end(s: Seq<char>, q: int) -> Option<int>
    decreases s.len() - q, 2nat,
{
    if 0 <= q < s.len() && s[q] == '}' {
        Some(q + 1)
    } else {
        members_end(s, q)
    }
}

/// `"key" : value` members from `q`, separated by `,` and closed by `}`.
/// Each value moves the position forward, so the member after a `,` starts
/// past `q`.
pub open spec fn members_end(s: Seq<char>, q: int) -> Option<int>
    decreases s.len() - q, 1nat,
{
    if q < 0 || q >= s.len() || s[q] != '"' {
        None
    } else {
        match string_rest(s, q + 1) {
            None => None,
            Some(k) => {
                let c = json_ws(s, k);
                if c < 0 || c >= s.len() || s[c] != ':' {
                    None
                } else {
                    let v = json_ws(s, c + 1);
                    proof {
                        lemma_json_ws(s, k);
                        lemma_json_ws(s, c + 1);
                        lemma_string_rest(s, q + 1);
                    }
                    match value_end(s, v) {
                        None => None,
                        Some(e) => {
                            let w = json_ws(s, e);
                            if w <= q || w >= s.len() {
                                None
                            } else if s[w] == ',' {
                                proof {
                                    lemma_json_ws(s, w + 1);
                                }
                                members_end(s, json_ws(s, w + 1))
                            } else if s[w] == '}' {
                                Some(w + 1)
                            } else {
                                None
                            }
                        },
                    }
                }
            },
        }
    }
}

/// The elements of an array from `q`, just after `[` and whitespace: the
/// position after its `]`.
pub open spec fn array_end(s: Seq<char>, q: int) -> Option<int>
    decreases s.len() - q, 2nat,
{
    if 0 <= q < s.len() && s[q] == ']' {
        Some(q + 1)
    } else {
        elements_end(s, q)
    }
}

/// Values from `q`, separated by `,` and closed by `]`.
pub open spec fn elements_end(s: Seq<char>, q: int) -> Option<int>
    decreases s.len() - q, 1nat,
{
    if q < 0 || q >= s.len() {
        None
    } else {
        match value_end(s, q) {
            None => None,
            Some(e) => {
                let w = json_ws(s, e);
                if w <= q || w >= s.len() {
                    None
                } else if s[w] == ',' {
                    proof {
                        lemma_json_ws(s, w + 1);
                    }
                    elements_end(s, json_ws(s, w + 1))
                } else if s[w] == ']' {
                    Some(w + 1)
                } else {
                    None
                }
            },
        }
    }
}

/// `s` is a JSON text: one value between optional whitespace.
pub open spec fn is_json_text(s: Seq<char>) -> bool {
    match value_end(s, json_ws(s, 0)) {
        Some(e) => json_ws(s, e) == s.len(),
        None => false,
    }
}

/// A string that closes ends after its start and within the text.
pub proof fn lemma_string_rest(s: Seq<char>, p: int)
    ensures
        string_rest(s, p) matches Some(e) ==> p < e <= s.len(),
    decreases s.len() - p,
{
    if 0 <= p < s.len() && s[p] != '"' {
        if s[p] == '\\' {
            if p + 1 < s.len() && is_simple_escape(s[p + 1]) {
                lemma_string_rest(s, p + 2);
            } else if p + 5 < s.len() {
                lemma_string_rest(s, p + 6);
            }
        } else {
            lemma_string_rest(s, p + 1);
        }
    }
}

/// A run of digits never moves back, nor past the end.
pub proof fn lemma_digits_end(s: Seq<char>, p: int)
    ensures
        digits_end(s, p) >= p,
        p <= s.len() ==> digits_end(s, p) <= s.len(),
    decreases s.len() - p,
{
    if 0 <= p < s.len() && is_digit_char(s[p]) {
        lemma_digits_end(s, p + 1);
    }
}

// ── Executable checker ───────────────────────────────────────────────────────

/// The position an optional result holds.
pub open spec fn opt_pos(r: Option<usize>) -> Option<int> {
    match r {
        Some(e) => Some(e as int),
        None => None,
    }
}

fn ws_exec(s: &Vec<char>, p: usize) -> (q: usize)
    requires
        p <= s.len(),
    ensures
        q == json_ws(s@, p as int),
        p <= q <= s.len(),
{
    let mut q = p;
    while q < s.len() && (s[q] == ' ' || s[q] == '\t' || s[q] == '\n' || s[q] == '\r')
        invariant
            p <= q <= s.len(),
            json_ws(s@, p as int) == json_ws(s@, q as int),
        decreases s.len() - q,
    {
        q = q + 1;
    }
    q
}

fn is_hex_exec(c: char) -> (b: bool)
    ensures
        b == is_hex_char(c),
{
    ('0' <= c && c <= '9') || ('a' <= c && c <= 'f') || ('A' <= c && c <= 'F')
}

fn is_digit_exec(c: char) -> (b: bool)
    ensures
        b == is_digit_char(c),
{
    '0' <= c && c <= '9'
}

fn string_rest_exec(s: &Vec<char>, p: usize) -> (r: Option<usize>)
    requires
        p <= s.len(),
    ensures
        opt_pos(r) == string_rest(s@, p as int),
{
    let mut i = p;
    loop
        invariant
            p <= i <= s.len(),
            string_rest(s@, p as int) == string_rest(s@, i as int),
        decreases s.len() - i,
    {
        if i >= s.len() {
            return None;
        }
        let c = s[i];
        if c == '"' {
            return Some(i + 1);
        }
        if c == '\\' {
            if s.len() - i > 1 && (s[i + 1] == '"' || s[i + 1] == '\\' || s[i + 1] == '/'
                || s[i + 1] == 'b' || s[i + 1] == 'f' || s[i + 1] == 'n' || s[i + 1] == 'r'
                || s[i + 1] == 't') {
                i = i + 2;
            } else if s.len() - i > 5 && s[i + 1] == 'u' && is_hex_exec(s[i + 2]) && is_hex_exec(
                s[i + 3],
            ) && is_hex_exec(s[i + 4]) && is_hex_exec(s[i + 5]) {
                i = i + 6;
            } else {
                return None;
            }
        } else if (c as u32) < 0x20 {
            return None;
        } else {
            i = i + 1;
        }
    }
}

fn digits_end_exec(s: &Vec<char>, p: usize) -> (q: usize)
    requires
        p <= s.len(),
    ensures
        q == digits_end(s@, p as int),
        p <= q <= s.len(),
{
    let mut q = p;
    while q < s.len() && is_digit_exec(s[q])
        invariant
            p <= q <= s.len(),
            digits_end(s@, p as int) == digits_end(s@, q as int),
        decreases s.len() - q,
    {
        q = q + 1;
    }
    q
}

fn exponent_end_exec(s: &Vec<char>, c: usize) -> (r: Option<usize>)
    requires
        c <= s.len(),
    ensures
        opt_pos(r) == exponent_end(s@, c as int),
        r matches Some(e) ==> c <= e <= s.len(),
{
    if c < s.len() && (s[c] == 'e' || s[c] == 'E') {
        let d = if c + 1 < s.len() && (s[c + 1] == '+' || s[c + 1] == '-') {
            c + 2
        } else {
            c + 1
        };
        if d < s.len() && is_digit_exec(s[d]) {
            Some(digits_end_exec(s, d + 1))
        } else {
            None
        }
    } else {
        Some(c)
    }
}

fn fraction_end_exec(s: &Vec<char>, b: usize) -> (r: Option<usize>)
    requires
        b <= s.len(),
    ensures
        opt_pos(r) == fraction_end(s@, b as int),
        r matches Some(e) ==> b <= e <= s.len(),
{
    if b < s.len() && s[b] == '.' {
        if b + 1 < s.len() && is_digit_exec(s[b + 1]) {
            let d = digits_end_exec(s, b + 2);
            exponent_end_exec(s, d)
        } else {
            None
        }
    } else {
        exponent_end_exec(s, b)
    }
}

fn number_end_exec(s: &Vec<char>, p: usize) -> (r: Option<usize>)
    requires
        p <= s.len(),
    ensures
        opt_pos(r) == number_end(s@, p as int),
        r matches Some(e) ==> p < e <= s.len(),
{
    let a = if p < s.len() && s[p] == '-' {
        p + 1
    } else {
        p
    };
    if a < s.len() && s[a] == '0' {
        fraction_end_exec(s, a + 1)
    } else if a < s.len() && '1' <= s[a] && s[a] <= '9' {
        let b = digits_end_exec(s, a + 1);
        fraction_end_exec(s, b)
    } else {
        None
    }
}

fn value_exec(s: &Vec<char>, p: usize) -> (r: Option<usize>)
    requires
        p <= s.len(),
    ensures
        opt_pos(r) == value_end(s@, p as int),
        r matches Some(e) ==> p < e <= s.len(),
    decreases s.len() - p, 0nat,
{
    if p >= s.len() {
        return None;
    }
    let c = s[p];
    if c == '{' || c == '[' {
        let q = ws_exec(s, p + 1);
        if c == '{' {
            object_exec(s, q)
        } else {
            array_exec(s, q)
        }
    } else if c == '"' {
        proof {
            lemma_string_rest(s@, p + 1);
        }
        string_rest_exec(s, p + 1)
    } else {
        proof {
            reveal_strlit("true");
            reveal_strlit("false");
            reveal_strlit("null");
        }
        if matches_at(s, p, &chars_of("true")) {
            Some(p + 4)
        } else if matches_at(s, p, &chars_of("false")) {
            Some(p + 5)
        } else if matches_at(s, p, &chars_of("null")) {
            Some(p + 4)
        } else {
            number_end_exec(s, p)
        }
    }
}

fn object_exec(s: &Vec<char>, q0: usize) -> (r: Option<usize>)
    requires
        q0 <= s.len(),
    ensures
        opt_pos(r) == object_end(s@, q0 as int),
        r matches Some(e) ==> q0 < e <= s.len(),
    decreases s.len() - q0, 1nat,
{
    if q0 < s.len() && s[q0] == '}' {
        return Some(q0 + 1);
    }
    let mut q = q0;
    loop
        invariant
            q0 <= q <= s.len(),
            object_end(s@, q0 as int) == members_end(s@, q as int),
        decreases s.len() - q,
    {
        if q >= s.len() || s[q] != '"' {
            return None;
        }
        let k = match string_rest_exec(s, q + 1) {
            Some(k) => k,
            None => return None,
        };
        proof {
            lemma_string_rest(s@, q + 1);
        }
        let c = ws_exec(s, k);
        if c >= s.len() || s[c] != ':' {
            return None;
        }
        let v = ws_exec(s, c + 1);
        let e = match value_exec(s, v) {
            Some(e) => e,
            None => return None,
        };
        let w = ws_exec(s, e);
        if w >= s.len() {
            return None;
        }
        if s[w] == ',' {
            q = ws_exec(s, w + 1);
        } else if s[w] == '}' {
            return Some(w + 1);
        } else {
            return None;
        }
    }
}

fn array_exec(s: &Vec<char>, q0: usize) -> (r: Option<usize>)
    requires
        q0 <= s.len(),
    ensures
        opt_pos(r) == array_end(s@, q0 as int),
        r matches Some(e) ==> q0 < e <= s.len(),
    decreases s.len() - q0, 1nat,
{
    if q0 < s.len() && s[q0] == ']' {
        return Some(q0 + 1);
    }
    let mut q = q0;
    loop
        invariant
            q0 <= q <= s.len(),
            array_end(s@, q0 as int) == elements_end(s@, q as int),
        decreases s.len() - q,
    {
        if q >= s.len() {
            return None;
        }
        let e = match value_exec(s, q) {
            Some(e) => e,
            None => return None,
        };
        let w = ws_exec(s, e);
        if w >= s.len() {
            return None;
        }
        if s[w] == ',' {
            q = ws_exec(s, w + 1);
        } else if s[w] == ']' {
            return Some(w + 1);
        } else {
            return None;
        }
    }
}

/// Whether `content` is a JSON text: one value between optional whitespace.
pub fn is_json(content: &str) -> (b: bool)
    ensures
        b == is_json_text(content@),
{
    let s = chars_of(content);
    let p = ws_exec(&s, 0);
    match value_exec(&s, p) {
        Some(e) => ws_exec(&s, e) == s.len(),
        None => false,
    }
}

} // verus!
