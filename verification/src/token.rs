//! Colour token types and extraction from raw strings.
//!
//! `scan_color` reads every colour syntax the binder accepts (`#hex`, `rgb()`,
//! `rgba()`, `hsl()`, `hsla()`, `transparent`, the CSS names). The forms whose
//! values are fractional numbers (an `rgba` alpha, the `hsl` arguments) come
//! back as `ColorScan::RgbAlpha` / `ColorScan::Hsl` with their argument text,
//! for the caller to evaluate; everything else resolves to a `ColorValue`.
use vstd::prelude::*;
use crate::named_colors::{lookup_named, named_rgb};
use crate::text::{
    chars_of, ends_with, has_prefix, hex_byte, hex_digit, is_ws, trim_end_seq, matches_at, push_char, push_hex_byte, skip_ws,
    slice_of, split_by, split_on, starts_with, string_of, trim, trim_seq, trim_start_seq,
};

verus! {

// ── ColorValue ───────────────────────────────────────────────────────────────

/// A parsed colour value from a Markdown document.
///
/// All numeric formats (`#hex`, `rgb()`, `rgba()`, `hsl()`, `hsla()`) collapse
/// into the single `Rgba` variant. `Named` keeps the author's spelling (e.g.
/// `red`) and is resolved on demand.
#[derive(Debug, Clone, PartialEq)]
pub enum ColorValue {
    /// Resolved red, green, blue, alpha — each 0..=255.
    Rgba(u8, u8, u8, u8),
    /// A CSS named colour, resolved on demand. Always fully opaque.
    Named(String),
}

/// The mathematical content of a `ColorValue`.
pub enum ColorView {
    Rgba(u8, u8, u8, u8),
    Named(Seq<char>),
}

impl View for ColorValue {
    type V = ColorView;

    open spec fn view(&self) -> ColorView {
        match self {
            ColorValue::Rgba(r, g, b, a) => ColorView::Rgba(*r, *g, *b, *a),
            ColorValue::Named(n) => ColorView::Named(n@),
        }
    }
}

impl Default for ColorValue {
    fn default() -> (c: Self)
        ensures
            c@ == ColorView::Rgba(128, 128, 128, 255),
    {
        ColorValue::Rgba(128, 128, 128, 255)
    }
}

/// The (r, g, b, a) channels a colour stands for: a name resolves through the
/// CSS table (mid grey when it is not there) and is always opaque.
pub open spec fn rgba_of(c: ColorView) -> (u8, u8, u8, u8) {
    match c {
        ColorView::Rgba(r, g, b, a) => (r, g, b, a),
        ColorView::Named(n) => match named_rgb(n) {
            Some(rgb) => (rgb.0, rgb.1, rgb.2, 255),
            None => (128, 128, 128, 255),
        },
    }
}

/// `#rrggbb` when `a` is 255, `#rrggbbaa` otherwise, lowercase.
pub open spec fn hex_string(rgba: (u8, u8, u8, u8)) -> Seq<char> {
    seq!['#'] + hex_byte(rgba.0) + hex_byte(rgba.1) + hex_byte(rgba.2) + if rgba.3 == 255 {
        Seq::<char>::empty()
    } else {
        hex_byte(rgba.3)
    }
}

impl ColorValue {
    /// Returns the (r, g, b, a) components, resolving named colours (alpha 255).
    pub fn to_rgba(&self) -> (r: (u8, u8, u8, u8))
        ensures
            r == rgba_of(self@),
    {
        match self {
            ColorValue::Rgba(r, g, b, a) => (*r, *g, *b, *a),
            ColorValue::Named(name) => {
                let (r, g, b) = named_to_rgb(name.as_str());
                (r, g, b, 255)
            },
        }
    }

    /// Returns the opaque (r, g, b) components, discarding any alpha.
    pub fn to_rgb(&self) -> (r: (u8, u8, u8))
        ensures
            r == (rgba_of(self@).0, rgba_of(self@).1, rgba_of(self@).2),
    {
        let (r, g, b, _) = self.to_rgba();
        (r, g, b)
    }

    /// The alpha channel, 0..=255 (255 = fully opaque).
    pub fn alpha(&self) -> (a: u8)
        ensures
            a == rgba_of(self@).3,
    {
        self.to_rgba().3
    }

    /// Returns the colour as a lowercase hex string — `#rrggbb` when opaque,
    /// `#rrggbbaa` when it carries transparency.
    pub fn to_hex_string(&self) -> (s: String)
        ensures
            s@ == hex_string(rgba_of(self@)),
    {
        let (r, g, b, a) = self.to_rgba();
        let mut s = String::new();
        push_char(&mut s, '#');
        push_hex_byte(&mut s, r);
        push_hex_byte(&mut s, g);
        push_hex_byte(&mut s, b);
        if a != 255 {
            push_hex_byte(&mut s, a);
        }
        assert(s@ =~= hex_string((r, g, b, a)));
        s
    }
}

/// The channels of a CSS named colour; mid grey for an unknown name.
fn named_to_rgb(name: &str) -> (r: (u8, u8, u8))
    ensures
        r == match named_rgb(name@) {
            Some(rgb) => rgb,
            None => (128u8, 128u8, 128u8),
        },
{
    match lookup_named(&chars_of(name)) {
        Some(rgb) => rgb,
        None => (128, 128, 128),
    }
}

// ── Scanning ─────────────────────────────────────────────────────────────────

/// The outcome of reading a colour token.
#[derive(Debug, Clone, PartialEq)]
pub enum ColorScan {
    /// A fully resolved colour.
    Ready(ColorValue),
    /// `rgb(r, g, b, a)` or `rgba(r, g, b, a)`: the channels, and the trimmed
    /// text of the alpha argument (a `0..1` fraction, a percentage, or a
    /// `0..255` number).
    RgbAlpha(u8, u8, u8, String),
    /// `hsl(..)` or `hsla(..)`: the hue text without a trailing `deg`, the
    /// saturation and lightness texts without a trailing `%`, and the trimmed
    /// alpha text when a fourth argument is present.
    Hsl(String, String, String, Option<String>),
}

/// The mathematical content of a `ColorScan`.
pub enum ScanView {
    Ready(ColorView),
    RgbAlpha(u8, u8, u8, Seq<char>),
    Hsl(Seq<char>, Seq<char>, Seq<char>, Option<Seq<char>>),
}

impl View for ColorScan {
    type V = ScanView;

    open spec fn view(&self) -> ScanView {
        match self {
            ColorScan::Ready(c) => ScanView::Ready(c@),
            ColorScan::RgbAlpha(r, g, b, a) => ScanView::RgbAlpha(*r, *g, *b, a@),
            ColorScan::Hsl(h, s, l, a) => ScanView::Hsl(
                h@,
                s@,
                l@,
                match a {
                    Some(t) => Some(t@),
                    None => None,
                },
            ),
        }
    }
}

/// An ASCII hexadecimal digit.
pub open spec fn is_hex_char(c: char) -> bool {
    ('0' <= c && c <= '9') || ('a' <= c && c <= 'f') || ('A' <= c && c <= 'F')
}

/// The value of a hexadecimal digit.
pub open spec fn hex_value(c: char) -> nat {
    if '0' <= c && c <= '9' {
        (c as nat - 48) as nat
    } else if 'a' <= c && c <= 'f' {
        (c as nat - 87) as nat
    } else {
        (c as nat - 55) as nat
    }
}

/// Two hexadecimal digits read as a byte.
pub open spec fn hex_pair(hi: char, lo: char) -> u8 {
    (16 * hex_value(hi) + hex_value(lo)) as u8
}

/// The digits after `#`: `rgb`, `rgba` (each nibble doubled), `rrggbb` or
/// `rrggbbaa`; alpha 255 when absent.
pub open spec fn hex_color(h: Seq<char>) -> Option<ColorView> {
    if !(forall|i: int| 0 <= i < h.len() ==> is_hex_char(#[trigger] h[i])) {
        None
    } else if h.len() == 3 || h.len() == 4 {
        Some(
            ColorView::Rgba(
                hex_pair(h[0], h[0]),
                hex_pair(h[1], h[1]),
                hex_pair(h[2], h[2]),
                if h.len() == 4 {
                    hex_pair(h[3], h[3])
                } else {
                    255
                },
            ),
        )
    } else if h.len() == 6 || h.len() == 8 {
        Some(
            ColorView::Rgba(
                hex_pair(h[0], h[1]),
                hex_pair(h[2], h[3]),
                hex_pair(h[4], h[5]),
                if h.len() == 8 {
                    hex_pair(h[6], h[7])
                } else {
                    255
                },
            ),
        )
    } else {
        None
    }
}

/// An ASCII decimal digit.
pub open spec fn is_digit_char(c: char) -> bool {
    '0' <= c && c <= '9'
}

/// The number written by a run of decimal digits.
pub open spec fn digits_value(d: Seq<char>) -> nat
    decreases d.len(),
{
    if d.len() == 0 {
        0
    } else {
        digits_value(d.drop_last()) * 10 + (d.last() as nat - 48) as nat
    }
}

/// The digits of an unsigned number, after an optional `+`.
pub open spec fn unsigned_digits(s: Seq<char>) -> Seq<char> {
    if s.len() > 0 && s[0] == '+' {
        s.drop_first()
    } else {
        s
    }
}

/// `str::parse` for an unsigned integer type whose largest value is `max`: an
/// optional `+`, then one or more ASCII digits, the value at most `max`.
pub open spec fn parse_unsigned(s: Seq<char>, max: nat) -> Option<nat> {
    let d = unsigned_digits(s);
    if d.len() == 0 || !(forall|i: int| 0 <= i < d.len() ==> is_digit_char(#[trigger] d[i])) {
        None
    } else if digits_value(d) <= max {
        Some(digits_value(d))
    } else {
        None
    }
}

/// `str::parse::<u8>`.
pub open spec fn parse_u8(s: Seq<char>) -> Option<u8> {
    match parse_unsigned(s, 255) {
        Some(v) => Some(v as u8),
        None => None,
    }
}

/// `s` with every trailing copy of `pat` removed (`str::trim_end_matches`).
pub open spec fn trim_end_matches(s: Seq<char>, pat: Seq<char>) -> Seq<char>
    decreases s.len(),
{
    if pat.len() > 0 && ends_with(s, pat) {
        trim_end_matches(s.take(s.len() - pat.len()), pat)
    } else {
        s
    }
}

/// `name(args)`: the text between the parentheses, allowing whitespace between
/// the name and `(`.
pub open spec fn strip_call(s: Seq<char>, name: Seq<char>) -> Option<Seq<char>> {
    if starts_with(s, name) {
        let t = trim_start_seq(s.skip(name.len() as int));
        if t.len() > 0 && t[0] == '(' && t.len() > 1 && t.last() == ')' {
            Some(t.subrange(1, t.len() - 1))
        } else {
            None
        }
    } else {
        None
    }
}

/// The argument list of `rgba(..)`, else of `rgb(..)`.
pub open spec fn rgb_args(s: Seq<char>) -> Option<Seq<char>> {
    match strip_call(s, "rgba"@) {
        Some(inner) => Some(inner),
        None => strip_call(s, "rgb"@),
    }
}

/// The argument list of `hsla(..)`, else of `hsl(..)`.
pub open spec fn hsl_args(s: Seq<char>) -> Option<Seq<char>> {
    match strip_call(s, "hsla"@) {
        Some(inner) => Some(inner),
        None => strip_call(s, "hsl"@),
    }
}

/// Three or four comma-separated arguments: three `u8` channels, then the
/// alpha text if present.
pub open spec fn rgb_scan(inner: Seq<char>) -> Option<ScanView> {
    let parts = split_by(inner, seq![',']);
    if parts.len() != 3 && parts.len() != 4 {
        None
    } else {
        match (
            parse_u8(trim_seq(parts[0])),
            parse_u8(trim_seq(parts[1])),
            parse_u8(trim_seq(parts[2])),
        ) {
            (Some(r), Some(g), Some(b)) => if parts.len() == 4 {
                Some(ScanView::RgbAlpha(r, g, b, trim_seq(parts[3])))
            } else {
                Some(ScanView::Ready(ColorView::Rgba(r, g, b, 255)))
            },
            _ => None,
        }
    }
}

/// Three or four comma-separated `hsl` arguments, trimmed, with the `deg` and
/// `%` units taken off.
pub open spec fn hsl_scan(inner: Seq<char>) -> Option<ScanView> {
    let parts = split_by(inner, seq![',']);
    if parts.len() != 3 && parts.len() != 4 {
        None
    } else {
        Some(
            ScanView::Hsl(
                trim_end_matches(trim_seq(parts[0]), "deg"@),
                trim_end_matches(trim_seq(parts[1]), "%"@),
                trim_end_matches(trim_seq(parts[2]), "%"@),
                if parts.len() == 4 {
                    Some(trim_seq(parts[3]))
                } else {
                    None
                },
            ),
        )
    }
}

/// ASCII letters lowered, everything else kept (`str::to_ascii_lowercase`).
pub open spec fn ascii_lower(s: Seq<char>) -> Seq<char> {
    Seq::new(
        s.len(),
        |i: int|
            if 'A' <= s[i] && s[i] <= 'Z' {
                ((s[i] as u8) + 32) as char
            } else {
                s[i]
            },
    )
}

/// What a colour token reads as. The token is trimmed first; `#` starts a hex
/// colour, `rgb`/`rgba` and `hsl`/`hsla` calls are recognised with exact
/// lowercase names, and `transparent` and the CSS names in any letter case.
pub open spec fn scan(s: Seq<char>) -> Option<ScanView> {
    let t = trim_seq(s);
    if t.len() > 0 && t[0] == '#' {
        match hex_color(t.drop_first()) {
            Some(c) => Some(ScanView::Ready(c)),
            None => None,
        }
    } else if rgb_args(t) is Some {
        rgb_scan(rgb_args(t)->0)
    } else if hsl_args(t) is Some {
        hsl_scan(hsl_args(t)->0)
    } else if ascii_lower(t) == "transparent"@ {
        Some(ScanView::Ready(ColorView::Rgba(0, 0, 0, 0)))
    } else if named_rgb(ascii_lower(t)) is Some {
        Some(ScanView::Ready(ColorView::Named(ascii_lower(t))))
    } else {
        None
    }
}

/// Reads a colour token.
///
/// Recognises `#rgb`, `#rgba`, `#rrggbb`, `#rrggbbaa`; `rgb(r, g, b)` and
/// `rgba(r, g, b, a)`; `hsl(h, s%, l%)` and `hsla(h, s%, l%, a)`;
/// `transparent`; and the 148 CSS named colours.
pub fn scan_color(s: &str) -> (r: Option<ColorScan>)
    ensures
        match r {
            Some(x) => scan(s@) == Some(x@),
            None => scan(s@) is None,
        },
{
    let v = chars_of(s);
    let t = trim(&v);
    if t.len() > 0 && t[0] == '#' {
        let digits = slice_of(&t, 1, t.len());
        assert(digits@ =~= t@.drop_first());
        return match parse_hex(&digits) {
            Some(c) => Some(ColorScan::Ready(c)),
            None => None,
        };
    }
    let rgb = match strip_call_exec(&t, &chars_of("rgba")) {
        Some(inner) => Some(inner),
        None => strip_call_exec(&t, &chars_of("rgb")),
    };
    if let Some(inner) = rgb {
        return parse_rgb(&inner);
    }
    let hsl = match strip_call_exec(&t, &chars_of("hsla")) {
        Some(inner) => Some(inner),
        None => strip_call_exec(&t, &chars_of("hsl")),
    };
    if let Some(inner) = hsl {
        return parse_hsl(&inner);
    }
    let lower = to_ascii_lower(&t);
    let transparent = chars_of("transparent");
    if lower.len() == transparent.len() && matches_at(&lower, 0, &transparent) {
        assert(lower@.subrange(0, lower@.len() as int) =~= lower@);
        return Some(ColorScan::Ready(ColorValue::Rgba(0, 0, 0, 0)));
    }
    proof {
        if lower@ == transparent@ {
            assert(lower@.subrange(0, lower@.len() as int) =~= lower@);
        }
    }
    if lookup_named(&lower).is_some() {
        return Some(ColorScan::Ready(ColorValue::Named(string_of(&lower))));
    }
    None
}

/// `str::to_ascii_lowercase`.
fn to_ascii_lower(v: &Vec<char>) -> (r: Vec<char>)
    ensures
        r@ == ascii_lower(v@),
{
    let mut r: Vec<char> = Vec::new();
    let mut i: usize = 0;
    while i < v.len()
        invariant
            i <= v.len(),
            r@ =~= ascii_lower(v@).take(i as int),
        decreases v.len() - i,
    {
        let c = v[i];
        if 'A' <= c && c <= 'Z' {
            r.push(((c as u8) + 32) as char);
        } else {
            r.push(c);
        }
        i = i + 1;
    }
    r
}

/// `name(args)` → `args`.
fn strip_call_exec(t: &Vec<char>, name: &Vec<char>) -> (r: Option<Vec<char>>)
    ensures
        match r {
            Some(x) => strip_call(t@, name@) == Some(x@),
            None => strip_call(t@, name@) is None,
        },
{
    if !has_prefix(t, name) {
        return None;
    }
    let i = skip_ws(t, name.len(), t.len());
    let ghost u = trim_start_seq(t@.skip(name.len() as int));
    assert(t@.subrange(name.len() as int, t.len() as int) =~= t@.skip(name.len() as int));
    assert(u =~= t@.subrange(i as int, t.len() as int));
    if i < t.len() && t[i] == '(' && t.len() - i > 1 && t[t.len() - 1] == ')' {
        let inner = slice_of(t, i + 1, t.len() - 1);
        assert(inner@ =~= u.subrange(1, u.len() - 1));
        Some(inner)
    } else {
        None
    }
}

/// The value of a hexadecimal digit.
fn hex_value_of(c: char) -> (v: u8)
    requires
        is_hex_char(c),
    ensures
        v as nat == hex_value(c),
        v < 16,
{
    if '0' <= c && c <= '9' {
        ((c as u32) - 48) as u8
    } else if 'a' <= c && c <= 'f' {
        ((c as u32) - 87) as u8
    } else {
        ((c as u32) - 55) as u8
    }
}

/// Two hexadecimal digits as a byte.
fn hex_pair_of(hi: char, lo: char) -> (b: u8)
    requires
        is_hex_char(hi),
        is_hex_char(lo),
    ensures
        b == hex_pair(hi, lo),
{
    let h = hex_value_of(hi);
    let l = hex_value_of(lo);
    h * 16 + l
}

/// The digits after `#`.
fn parse_hex(h: &Vec<char>) -> (r: Option<ColorValue>)
    ensures
        match r {
            Some(c) => hex_color(h@) == Some(c@),
            None => hex_color(h@) is None,
        },
{
    let mut i: usize = 0;
    while i < h.len()
        invariant
            i <= h.len(),
            forall|k: int| 0 <= k < i ==> is_hex_char(#[trigger] h@[k]),
        decreases h.len() - i,
    {
        let c = h[i];
        if !(('0' <= c && c <= '9') || ('a' <= c && c <= 'f') || ('A' <= c && c <= 'F')) {
            assert(!is_hex_char(h@[i as int]));
            return None;
        }
        i = i + 1;
    }
    let n = h.len();
    if n == 3 || n == 4 {
        let a = if n == 4 {
            hex_pair_of(h[3], h[3])
        } else {
            255
        };
        Some(
            ColorValue::Rgba(
                hex_pair_of(h[0], h[0]),
                hex_pair_of(h[1], h[1]),
                hex_pair_of(h[2], h[2]),
                a,
            ),
        )
    } else if n == 6 || n == 8 {
        let a = if n == 8 {
            hex_pair_of(h[6], h[7])
        } else {
            255
        };
        Some(
            ColorValue::Rgba(
                hex_pair_of(h[0], h[1]),
                hex_pair_of(h[2], h[3]),
                hex_pair_of(h[4], h[5]),
                a,
            ),
        )
    } else {
        None
    }
}

/// `str::parse::<u8>`.
pub fn parse_u8_exec(s: &Vec<char>) -> (r: Option<u8>)
    ensures
        r == parse_u8(s@),
{
    match parse_unsigned_exec(s, 255) {
        Some(v) => Some(v as u8),
        None => None,
    }
}

/// `str::parse` for an unsigned type whose largest value is `max`.
pub fn parse_unsigned_exec(s: &Vec<char>, max: u64) -> (r: Option<u64>)
    ensures
        match r {
            Some(v) => parse_unsigned(s@, max as nat) == Some(v as nat),
            None => parse_unsigned(s@, max as nat) is None,
        },
{
    let start: usize = if s.len() > 0 && s[0] == '+' {
        1
    } else {
        0
    };
    let ghost d = unsigned_digits(s@);
    assert(d =~= s@.skip(start as int));
    if start == s.len() {
        return None;
    }
    let mut acc: u64 = 0;
    let mut i = start;
    let mut fits = true;
    while i < s.len()
        invariant
            start <= i <= s.len(),
            d == s@.skip(start as int),
            d == unsigned_digits(s@),
            forall|k: int| start <= k < i ==> is_digit_char(#[trigger] s@[k]),
            fits ==> acc as nat == digits_value(s@.subrange(start as int, i as int)),
            fits ==> acc <= max,
            !fits ==> digits_value(s@.subrange(start as int, i as int)) > max,
        decreases s.len() - i,
    {
        let c = s[i];
        if !('0' <= c && c <= '9') {
            assert(d[i - start] == s@[i as int]);
            assert(!is_digit_char(d[i - start]));
            return None;
        }
        let ghost prev = s@.subrange(start as int, i as int);
        assert(s@.subrange(start as int, i + 1).drop_last() =~= prev);
        let dv = ((c as u32) - 48) as u64;
        if fits {
            if dv > max || acc > (max - dv) / 10 {
                fits = false;
                assert(acc * 10 + dv > max) by (nonlinear_arith)
                    requires
                        dv > max || acc > (max - dv) / 10,
                        dv <= max ==> (max - dv) / 10 * 10 + 10 > max - dv,
                ;
            } else {
                assert(acc * 10 + dv <= max) by (nonlinear_arith)
                    requires
                        acc <= (max - dv) / 10,
                ;
                acc = acc * 10 + dv;
            }
        } else {
            assert(digits_value(prev) * 10 + dv > max) by (nonlinear_arith)
                requires
                    digits_value(prev) > max,
            ;
        }
        i = i + 1;
    }
    assert(s@.subrange(start as int, s.len() as int) =~= d);
    if fits {
        Some(acc)
    } else {
        None
    }
}

/// Three or four comma-separated arguments of `rgb`/`rgba`.
fn parse_rgb(inner: &Vec<char>) -> (r: Option<ColorScan>)
    ensures
        match r {
            Some(x) => rgb_scan(inner@) == Some(x@),
            None => rgb_scan(inner@) is None,
        },
{
    let mut seps: Vec<char> = Vec::new();
    seps.push(',');
    assert(seps@ =~= seq![',']);
    let parts = split_on(inner, &seps);
    if parts.len() != 3 && parts.len() != 4 {
        return None;
    }
    let r = match parse_u8_exec(&trim(&parts[0])) {
        Some(v) => v,
        None => return None,
    };
    let g = match parse_u8_exec(&trim(&parts[1])) {
        Some(v) => v,
        None => return None,
    };
    let b = match parse_u8_exec(&trim(&parts[2])) {
        Some(v) => v,
        None => return None,
    };
    if parts.len() == 4 {
        let alpha = trim(&parts[3]);
        Some(ColorScan::RgbAlpha(r, g, b, string_of(&alpha)))
    } else {
        Some(ColorScan::Ready(ColorValue::Rgba(r, g, b, 255)))
    }
}

/// `str::trim_end_matches` with a non-empty literal pattern.
pub fn trim_end_matching(v: &Vec<char>, pat: &Vec<char>) -> (r: Vec<char>)
    requires
        pat.len() > 0,
    ensures
        r@ == trim_end_matches(v@, pat@),
{
    let mut end = v.len();
    assert(v@.take(v.len() as int) =~= v@);
    while end >= pat.len() && matches_at(v, end - pat.len(), pat)
        invariant
            end <= v.len(),
            pat.len() > 0,
            trim_end_matches(v@, pat@) == trim_end_matches(v@.take(end as int), pat@),
        decreases end,
    {
        let ghost w = v@.take(end as int);
        assert(w.skip(w.len() - pat.len()) =~= v@.subrange(end - pat.len(), end as int));
        assert(w.take(w.len() - pat.len()) =~= v@.take(end - pat.len()));
        end = end - pat.len();
    }
    proof {
        let w = v@.take(end as int);
        if ends_with(w, pat@) {
            assert(w.skip(w.len() - pat.len()) =~= v@.subrange(end - pat.len(), end as int));
        }
    }
    assert(v@.take(v.len() as int) =~= v@);
    slice_of(v, 0, end)
}

/// Three or four comma-separated arguments of `hsl`/`hsla`.
fn parse_hsl(inner: &Vec<char>) -> (r: Option<ColorScan>)
    ensures
        match r {
            Some(x) => hsl_scan(inner@) == Some(x@),
            None => hsl_scan(inner@) is None,
        },
{
    let mut seps: Vec<char> = Vec::new();
    seps.push(',');
    assert(seps@ =~= seq![',']);
    let parts = split_on(inner, &seps);
    if parts.len() != 3 && parts.len() != 4 {
        return None;
    }
    let deg = chars_of("deg");
    let pct = chars_of("%");
    proof {
        reveal_strlit("deg");
        reveal_strlit("%");
    }
    let h = trim_end_matching(&trim(&parts[0]), &deg);
    let s = trim_end_matching(&trim(&parts[1]), &pct);
    let l = trim_end_matching(&trim(&parts[2]), &pct);
    let a = if parts.len() == 4 {
        Some(string_of(&trim(&parts[3])))
    } else {
        None
    };
    Some(ColorScan::Hsl(string_of(&h), string_of(&s), string_of(&l), a))
}

// ── Laws ─────────────────────────────────────────────────────────────────────

proof fn lemma_hex_digit(n: nat)
    requires
        n < 16,
    ensures
        is_hex_char(hex_digit(n)),
        hex_value(hex_digit(n)) == n,
        !is_ws(hex_digit(n)),
{
}

proof fn lemma_hex_byte(b: u8)
    ensures
        hex_byte(b).len() == 2,
        is_hex_char(hex_byte(b)[0]),
        is_hex_char(hex_byte(b)[1]),
        !is_ws(hex_byte(b)[1]),
        hex_pair(hex_byte(b)[0], hex_byte(b)[1]) == b,
{
    lemma_hex_digit((b / 16) as nat);
    lemma_hex_digit((b % 16) as nat);
}

/// Writing a colour with `to_hex_string` and reading it back with
/// `scan_color` gives the same four channels.
pub proof fn lemma_hex_round_trip(r: u8, g: u8, b: u8, a: u8)
    ensures
        scan(hex_string((r, g, b, a))) == Some(ScanView::Ready(ColorView::Rgba(r, g, b, a))),
{
    let s = hex_string((r, g, b, a));
    lemma_hex_byte(r);
    lemma_hex_byte(g);
    lemma_hex_byte(b);
    lemma_hex_byte(a);
    assert(trim_start_seq(s) == s);
    assert(!is_ws(s.last()));
    assert(trim_end_seq(s) == s);
    let h = s.drop_first();
    assert(h =~= hex_byte(r) + hex_byte(g) + hex_byte(b) + if a == 255 {
        Seq::<char>::empty()
    } else {
        hex_byte(a)
    });
    assert(forall|i: int| 0 <= i < h.len() ==> is_hex_char(#[trigger] h[i]));
    assert(hex_color(h) == Some(ColorView::Rgba(r, g, b, a)));
}

/// A named colour is always fully opaque.
pub proof fn lemma_named_colors_opaque(name: Seq<char>)
    ensures
        rgba_of(ColorView::Named(name)).3 == 255,
{
}

/// A name that `scan_color` accepts is in the CSS table, so resolving it never
/// falls back to grey.
pub proof fn lemma_scanned_names_resolve(s: Seq<char>)
    ensures
        scan(s) matches Some(ScanView::Ready(ColorView::Named(n))) ==> named_rgb(n) is Some,
{
}

// ── WCAG ─────────────────────────────────────────────────────────────────────

/// The WCAG conformance level a contrast ratio achieves for normal-size text.
#[derive(Debug, Clone, Copy, PartialEq, Eq, Structural)]
pub enum WcagLevel {
    Aaa,
    Aa,
    Fail,
}

impl WcagLevel {
    /// The level's display label.
    pub fn label(self) -> (s: &'static str)
        ensures
            s@ == match self {
                WcagLevel::Aaa => "AAA"@,
                WcagLevel::Aa => "AA"@,
                WcagLevel::Fail => "Fail"@,
            },
    {
        match self {
            WcagLevel::Aaa => "AAA",
            WcagLevel::Aa => "AA",
            WcagLevel::Fail => "Fail",
        }
    }
}

} // verus!
