//! Design-token cards and their export formats: CSS custom properties, W3C
//! Design Tokens JSON, GIMP palettes, Tailwind colour configs and Adobe
//! Swatch Exchange palettes.
//!
//! The numeric values of font, spacing and radius cards are held as the text
//! that `f64`'s `Display` writes for them (`16`, `1.5`, `0.5`); the exports
//! print exactly that text.
use vstd::prelude::*;
use crate::text::{
    chars_of, concat, decimal, join, pad_left, push_char, push_chars, push_decimal, push_str,
    push_u8_width3, replace_char, runs, string_of, views,
};
use vstd::set_lib::{lemma_int_range, lemma_len_subset, lemma_map_size, set_int_range};
use self::palette_round_trip::lemma_decimal_value;
use crate::token::is_digit_char;

pub mod import;
pub mod json;
pub mod json_export;
pub mod palette_round_trip;
pub mod tokens_round_trip;

pub use self::import::{design_tokens_json_to_markdown, gpl_to_markdown};

verus! {

// ── Cards ────────────────────────────────────────────────────────────────────

/// A single colour item ready to be rendered — components plus display strings.
#[derive(Debug, Clone)]
pub struct SwatchItem {
    pub name: String,
    /// `#rrggbb` when opaque, `#rrggbbaa` when transparent — lowercase.
    pub hex: String,
    pub r: u8,
    pub g: u8,
    pub b: u8,
    /// Alpha channel, 0..=255 (255 = fully opaque).
    pub a: u8,
}

/// A design-token card to be rendered on the canvas.
///
/// `Color` wraps a swatch; the other variants render as preview cards. Sizes
/// are the decimal text of the number of pixels (or of the unitless line
/// height), as `f64`'s `Display` writes it.
#[derive(Debug, Clone)]
pub enum RenderCard {
    Color(SwatchItem),
    Font {
        name: String,
        family: String,
        size_px: String,
        weight: u16,
        line_height: Option<String>,
        /// Original text after `font:`, shown as the value label.
        display: String,
    },
    Space { name: String, value_px: String, display: String },
    Radius { name: String, value_px: String, display: String },
    Shadow { name: String, css: String },
}

/// The mathematical content of a `SwatchItem`.
pub struct ItemView {
    pub name: Seq<char>,
    pub hex: Seq<char>,
    pub r: u8,
    pub g: u8,
    pub b: u8,
    pub a: u8,
}

/// The mathematical content of a `RenderCard`.
pub enum CardView {
    Color(ItemView),
    Font {
        name: Seq<char>,
        family: Seq<char>,
        size_px: Seq<char>,
        weight: u16,
        line_height: Option<Seq<char>>,
        display: Seq<char>,
    },
    Space { name: Seq<char>, value_px: Seq<char>, display: Seq<char> },
    Radius { name: Seq<char>, value_px: Seq<char>, display: Seq<char> },
    Shadow { name: Seq<char>, css: Seq<char> },
}

impl View for SwatchItem {
    type V = ItemView;

    open spec fn view(&self) -> ItemView {
        ItemView {
            name: self.name@,
            hex: self.hex@,
            r: self.r,
            g: self.g,
            b: self.b,
            a: self.a,
        }
    }
}

impl View for RenderCard {
    type V = CardView;

    open spec fn view(&self) -> CardView {
        match self {
            RenderCard::Color(item) => CardView::Color(item@),
            RenderCard::Font { name, family, size_px, weight, line_height, display } =>
                CardView::Font {
                name: name@,
                family: family@,
                size_px: size_px@,
                weight: *weight,
                line_height: match line_height {
                    Some(t) => Some(t@),
                    None => None,
                },
                display: display@,
            },
            RenderCard::Space { name, value_px, display } => CardView::Space {
                name: name@,
                value_px: value_px@,
                display: display@,
            },
            RenderCard::Radius { name, value_px, display } => CardView::Radius {
                name: name@,
                value_px: value_px@,
                display: display@,
            },
            RenderCard::Shadow { name, css } => CardView::Shadow { name: name@, css: css@ },
        }
    }
}

/// The name shown on a card.
pub open spec fn card_name(c: CardView) -> Seq<char> {
    match c {
        CardView::Color(item) => item.name,
        CardView::Font { name, .. } => name,
        CardView::Space { name, .. } => name,
        CardView::Radius { name, .. } => name,
        CardView::Shadow { name, .. } => name,
    }
}

/// The short value string shown below a card's name: the hex of a colour, the
/// display text of a font, spacing or radius, the CSS of a shadow.
pub open spec fn card_value(c: CardView) -> Seq<char> {
    match c {
        CardView::Color(item) => item.hex,
        CardView::Font { display, .. } => display,
        CardView::Space { display, .. } => display,
        CardView::Radius { display, .. } => display,
        CardView::Shadow { css, .. } => css,
    }
}

/// The views of a sequence of cards.
pub open spec fn card_views(cards: Seq<RenderCard>) -> Seq<CardView> {
    cards.map_values(|c: RenderCard| c@)
}

/// The views of a sequence of swatch items.
pub open spec fn item_views(items: Seq<SwatchItem>) -> Seq<ItemView> {
    items.map_values(|i: SwatchItem| i@)
}

impl RenderCard {
    /// The name shown on the card.
    pub fn name(&self) -> (s: &str)
        ensures
            s@ == card_name(self@),
    {
        match self {
            RenderCard::Color(item) => item.name.as_str(),
            RenderCard::Font { name, .. } => name.as_str(),
            RenderCard::Space { name, .. } => name.as_str(),
            RenderCard::Radius { name, .. } => name.as_str(),
            RenderCard::Shadow { name, .. } => name.as_str(),
        }
    }

    /// The short value string shown below the card name and copied to clipboard.
    pub fn value_label(&self) -> (s: String)
        ensures
            s@ == card_value(self@),
    {
        match self {
            RenderCard::Color(item) => item.hex.clone(),
            RenderCard::Font { display, .. } => display.clone(),
            RenderCard::Space { display, .. } => display.clone(),
            RenderCard::Radius { display, .. } => display.clone(),
            RenderCard::Shadow { css, .. } => css.clone(),
        }
    }

    /// The text that lands on the clipboard when the card is clicked or Enter
    /// is pressed.
    pub fn copy_value(&self) -> (s: String)
        ensures
            s@ == card_value(self@),
    {
        self.value_label()
    }

    /// The inner `SwatchItem` of a colour card.
    pub fn as_color(&self) -> (r: Option<&SwatchItem>)
        ensures
            match self {
                RenderCard::Color(item) => r == Some(item),
                _ => r is None,
            },
    {
        match self {
            RenderCard::Color(item) => Some(item),
            _ => None,
        }
    }
}

// ── Slugs ────────────────────────────────────────────────────────────────────

/// `s` in lowercase, as `str::to_lowercase` produces it.
pub uninterp spec fn lowercase(s: Seq<char>) -> Seq<char>;

/// `char::is_alphanumeric`: alphabetic or numeric in the Unicode sense.
pub uninterp spec fn is_alnum(c: char) -> bool;

/// Calls `str::to_lowercase`. The contract names the result.
#[verifier::external_body]
fn to_lowercase(s: &str) -> (r: String)
    ensures
        r@ == lowercase(s@),
{
    s.to_lowercase()
}

/// Calls `char::is_alphanumeric`. The contract names the result.
#[verifier::external_body]
fn alphanumeric(c: char) -> (b: bool)
    ensures
        b == is_alnum(c),
{
    c.is_alphanumeric()
}

/// The maximal runs of alphanumeric characters of `s`.
pub open spec fn alnum_words(s: Seq<char>) -> Seq<Seq<char>> {
    runs(s, |c: char| !is_alnum(c))
}

/// `s` without its leading copies of `c` (`str::trim_start_matches`).
pub open spec fn trim_start_char(s: Seq<char>, c: char) -> Seq<char>
    decreases s.len(),
{
    if s.len() > 0 && s[0] == c {
        trim_start_char(s.drop_first(), c)
    } else {
        s
    }
}

/// A kebab-case slug for a token name: the alphanumeric words of the lowercased
/// name joined by single hyphens, or `fallback` without leading `#` when the
/// name has no such word.
pub open spec fn slug_base(name: Seq<char>, fallback: Seq<char>) -> Seq<char> {
    let w = join(alnum_words(lowercase(name)), seq!['-']);
    if w.len() == 0 {
        trim_start_char(fallback, '#')
    } else {
        w
    }
}

/// The `k`-th candidate for a slug: the slug itself for `k <= 1`, then `slug-k`.
pub open spec fn numbered(base: Seq<char>, k: nat) -> Seq<char> {
    if k <= 1 {
        base
    } else {
        base + seq!['-'] + decimal(k)
    }
}

/// The first number from `k` on whose candidate `used` does not hold. The
/// search stops at `used.len() + 1`, where a free candidate always exists.
pub open spec fn free_number(used: Seq<Seq<char>>, base: Seq<char>, k: nat) -> nat
    decreases used.len() + 1 - k,
{
    if k > used.len() || !used.contains(numbered(base, k)) {
        k
    } else {
        free_number(used, base, k + 1)
    }
}

/// Slugs made distinct left to right: a slug keeps its base when no earlier
/// slug took it, and otherwise becomes `base-k` for the smallest `k >= 2` that
/// no earlier slug took (`primary`, `primary-2`, `primary-3`, …).
pub open spec fn dedup(bases: Seq<Seq<char>>) -> Seq<Seq<char>>
    decreases bases.len(),
{
    if bases.len() == 0 {
        seq![]
    } else {
        let prev = dedup(bases.drop_last());
        prev.push(numbered(bases.last(), free_number(prev, bases.last(), 1)))
    }
}

/// The de-duplicated slugs of a sequence of cards.
pub open spec fn card_slugs(cards: Seq<CardView>) -> Seq<Seq<char>> {
    dedup(Seq::new(cards.len(), |i: int| slug_base(card_name(cards[i]), card_value(cards[i]))))
}

proof fn lemma_numbered_injective(base: Seq<char>, k1: nat, k2: nat)
    requires
        k1 >= 1,
        k2 >= 1,
        numbered(base, k1) == numbered(base, k2),
    ensures
        k1 == k2,
{
    lemma_decimal_value(k1);
    lemma_decimal_value(k2);
    let n: int = base.len() as int + 1;
    if k1 >= 2 && k2 >= 2 {
        assert(numbered(base, k1).skip(n) =~= decimal(k1));
        assert(numbered(base, k2).skip(n) =~= decimal(k2));
    } else if k1 >= 2 {
        assert(numbered(base, k1).len() > base.len());
    } else if k2 >= 2 {
        assert(numbered(base, k2).len() > base.len());
    }
}

/// Among the first `used.len() + 1` candidates, one is free.
proof fn lemma_some_candidate_free(used: Seq<Seq<char>>, base: Seq<char>)
    ensures
        !(forall|k: nat| 1 <= k <= used.len() + 1 ==> used.contains(#[trigger] numbered(base, k))),
{
    if forall|k: nat| 1 <= k <= used.len() + 1 ==> used.contains(#[trigger] numbered(base, k)) {
        let x = set_int_range(1, used.len() as int + 2);
        lemma_int_range(1, used.len() as int + 2);
        let f = |k: int| numbered(base, k as nat);
        assert forall|a: int, b: int| x.contains(a) && x.contains(b) && #[trigger] f(a) == #[trigger] f(
            b,
        ) implies a == b by {
            lemma_numbered_injective(base, a as nat, b as nat);
        }
        let y = x.map(f);
        lemma_map_size(x, y, f);
        assert forall|s: Seq<char>| y.contains(s) implies used.to_set().contains(s) by {
            let k = choose|k: int| x.contains(k) && f(k) == s;
            assert(used.contains(numbered(base, k as nat)));
        }
        vstd::seq_lib::seq_to_set_is_finite(used);
        lemma_len_subset(y, used.to_set());
        used.lemma_cardinality_of_set();
    }
}

proof fn lemma_free_number(used: Seq<Seq<char>>, base: Seq<char>, k: nat)
    requires
        1 <= k <= used.len() + 1,
        forall|j: nat| 1 <= j < k ==> used.contains(#[trigger] numbered(base, j)),
    ensures
        k <= free_number(used, base, k) <= used.len() + 1,
        !used.contains(numbered(base, free_number(used, base, k))),
        forall|j: nat|
            1 <= j < free_number(used, base, k) ==> used.contains(#[trigger] numbered(base, j)),
    decreases used.len() + 1 - k,
{
    if k > used.len() {
        lemma_some_candidate_free(used, base);
    } else if used.contains(numbered(base, k)) {
        lemma_free_number(used, base, k + 1);
    }
}

/// The card slugs are one for each card.
pub(crate) proof fn lemma_card_slugs_len(cards: Seq<CardView>)
    ensures
        card_slugs(cards).len() == cards.len(),
{
    lemma_dedup_distinct(
        Seq::new(cards.len(), |i: int| slug_base(card_name(cards[i]), card_value(cards[i]))),
    );
}

/// `s` is `base` numbered by the first `k >= 1` whose candidate `used` does not
/// hold.
pub open spec fn first_free(used: Seq<Seq<char>>, base: Seq<char>, s: Seq<char>) -> bool {
    exists|k: nat|
        k >= 1 && s == numbered(base, k) && !used.contains(s) && forall|j: nat|
            1 <= j < k ==> used.contains(#[trigger] numbered(base, j))
}

/// There is one slug for each base, and no two slugs are equal. Each slug is
/// its base numbered by the first `k >= 1` whose candidate no earlier slug
/// holds, so a base that no earlier slug took is kept as it is.
pub proof fn lemma_dedup_distinct(bases: Seq<Seq<char>>)
    ensures
        dedup(bases).len() == bases.len(),
        dedup(bases).no_duplicates(),
        forall|i: int|
            0 <= i < bases.len() ==> first_free(
                dedup(bases).take(i),
                bases[i],
                #[trigger] dedup(bases)[i],
            ),
    decreases bases.len(),
{
    if bases.len() > 0 {
        let bs = bases.drop_last();
        let prev = dedup(bs);
        let b = bases.last();
        lemma_dedup_distinct(bs);
        lemma_free_number(prev, b, 1);
        let k = free_number(prev, b, 1);
        let d = dedup(bases);
        assert(d == prev.push(numbered(b, k)));
        assert forall|i: int, j: int|
            0 <= i < d.len() && 0 <= j < d.len() && i != j implies d[i] != d[j] by {
            if i == prev.len() {
                assert(prev.contains(d[j]));
            } else if j == prev.len() {
                assert(prev.contains(d[i]));
            }
        }
        assert forall|i: int| 0 <= i < bases.len() implies first_free(
            d.take(i),
            bases[i],
            #[trigger] d[i],
        ) by {
            if i == prev.len() {
                assert(d.take(i) =~= prev);
                assert(bases[i] == b);
                assert(k >= 1 && d[i] == numbered(bases[i], k) && !d.take(i).contains(d[i]));
                assert(forall|j: nat|
                    1 <= j < k ==> d.take(i).contains(#[trigger] numbered(bases[i], j)));
            } else {
                assert(d.take(i) =~= prev.take(i));
                assert(bases[i] == bs[i]);
                assert(d[i] == prev[i]);
                assert(first_free(prev.take(i), bs[i], prev[i]));
            }
        }
    }
}

/// How many entries of `s` equal `x`.
pub open spec fn count_in(s: Seq<Seq<char>>, x: Seq<char>) -> nat
    decreases s.len(),
{
    if s.len() == 0 {
        0
    } else {
        count_in(s.drop_last(), x) + if s.last() == x {
            1nat
        } else {
            0nat
        }
    }
}

/// No base is another base (or itself) with a numeric suffix `-k`, `k >= 2`.
pub open spec fn suffix_free(bases: Seq<Seq<char>>) -> bool {
    forall|i: int, j: int, k: nat|
        #![trigger bases[j], numbered(bases[i], k)]
        0 <= i < bases.len() && 0 <= j < bases.len() && k >= 2 ==> bases[j] != numbered(bases[i], k)
}

proof fn lemma_numbered_joint(b1: Seq<char>, k1: nat, b2: Seq<char>, k2: nat)
    requires
        k1 >= 2,
        k2 >= 2,
        numbered(b1, k1) == numbered(b2, k2),
    ensures
        b1 == b2,
        k1 == k2,
{
    lemma_decimal_value(k1);
    lemma_decimal_value(k2);
    let s = numbered(b1, k1);
    assert(s.len() == b1.len() + 1 + decimal(k1).len());
    assert(s.len() == b2.len() + 1 + decimal(k2).len());
    assert(s == b1 + (seq!['-'] + decimal(k1)));
    assert(s == b2 + (seq!['-'] + decimal(k2)));
    if b1.len() < b2.len() {
        let p = b2.len() as int;
        assert(s[p] == (seq!['-'] + decimal(k2))[0]);
        assert(s[p] == (seq!['-'] + decimal(k1))[p - b1.len()]);
        assert(is_digit_char(decimal(k1)[p - b1.len() - 1]));
    } else if b2.len() < b1.len() {
        let p = b1.len() as int;
        assert(s[p] == (seq!['-'] + decimal(k1))[0]);
        assert(s[p] == (seq!['-'] + decimal(k2))[p - b2.len()]);
        assert(is_digit_char(decimal(k2)[p - b2.len() - 1]));
    } else {
        assert(b1 =~= s.take(b1.len() as int));
        assert(b2 =~= numbered(b2, k2).take(b2.len() as int));
        lemma_numbered_injective(b1, k1, k2);
    }
}

proof fn lemma_count_prefix(s: Seq<Seq<char>>, x: Seq<char>, n: int)
    requires
        0 <= n <= s.len(),
    ensures
        count_in(s.take(n), x) <= count_in(s, x),
    decreases s.len(),
{
    if n < s.len() {
        assert(s.drop_last().take(n) =~= s.take(n));
        lemma_count_prefix(s.drop_last(), x, n);
    } else {
        assert(s.take(n) =~= s);
    }
}

/// The `j`-th entry equal to `x` stands somewhere in `s`.
proof fn lemma_count_occurrence(s: Seq<Seq<char>>, x: Seq<char>, j: nat)
    requires
        1 <= j <= count_in(s, x),
    ensures
        exists|p: int| 0 <= p < s.len() && s[p] == x && count_in(s.take(p + 1), x) == j,
    decreases s.len(),
{
    let n = s.len() as int;
    if j <= count_in(s.drop_last(), x) {
        lemma_count_occurrence(s.drop_last(), x, j);
        let p = choose|p: int|
            0 <= p < s.drop_last().len() && s.drop_last()[p] == x && count_in(
                s.drop_last().take(p + 1),
                x,
            ) == j;
        assert(s.drop_last().take(p + 1) =~= s.take(p + 1));
        assert(s[p] == x);
    } else {
        assert(s.take(n) =~= s);
        assert(s[n - 1] == x);
    }
}

/// Where no base is another base with a numeric suffix, slugs are numbered by
/// occurrence as the rule is usually stated: the `k`-th occurrence of a base
/// becomes `base-k` (`primary`, `primary-2`, `primary-3`, …).
pub proof fn lemma_dedup_counts_occurrences(bases: Seq<Seq<char>>)
    requires
        suffix_free(bases),
    ensures
        forall|i: int|
            0 <= i < bases.len() ==> #[trigger] dedup(bases)[i] == numbered(
                bases[i],
                count_in(bases.take(i + 1), bases[i]),
            ),
    decreases bases.len(),
{
    if bases.len() > 0 {
        let n = bases.len() as int;
        let bs = bases.drop_last();
        let prev = dedup(bs);
        let b = bases.last();
        let c = count_in(bases, b);
        assert(suffix_free(bs)) by {
            assert forall|i: int, j: int, k: nat|
                #![trigger bs[j], numbered(bs[i], k)]
                0 <= i < bs.len() && 0 <= j < bs.len() && k >= 2 implies bs[j] != numbered(
                bs[i],
                k,
            ) by {
                assert(bs[i] == bases[i] && bs[j] == bases[j]);
            }
        }
        lemma_dedup_counts_occurrences(bs);
        lemma_dedup_distinct(bs);
        lemma_free_number(prev, b, 1);
        assert(bases.take(n) =~= bases);
        assert(c == count_in(bs, b) + 1);
        // Every smaller number is taken by an earlier occurrence of `b`.
        assert forall|j: nat| 1 <= j < c implies prev.contains(#[trigger] numbered(b, j)) by {
            lemma_count_occurrence(bs, b, j);
            let p = choose|p: int| 0 <= p < bs.len() && bs[p] == b && count_in(bs.take(p + 1), b) == j;
            assert(prev[p] == numbered(bs[p], count_in(bs.take(p + 1), bs[p])));
        }
        // The number `c` itself is free.
        assert(!prev.contains(numbered(b, c))) by {
            if prev.contains(numbered(b, c)) {
                let p = choose|p: int| 0 <= p < prev.len() && prev[p] == numbered(b, c);
                let cp = count_in(bs.take(p + 1), bs[p]);
                assert(prev[p] == numbered(bs[p], cp));
                lemma_count_prefix(bs, bs[p], p + 1);
                lemma_count_in_last(bs, p);
                assert(bs[p] == bases[p]);
                if cp >= 2 && c >= 2 {
                    lemma_numbered_joint(bs[p], cp, b, c);
                } else if c >= 2 {
                    assert(bases[p] == numbered(bases[n - 1], c));
                } else if cp >= 2 {
                    assert(bases[n - 1] == numbered(bases[p], cp));
                } else {
                    assert(bs[p] == b);
                }
            }
        }
        let k = free_number(prev, b, 1);
        if k < c {
            assert(prev.contains(numbered(b, k)));
        }
        if k > c {
            assert(prev.contains(numbered(b, c)));
        }
        assert(k == c);
        assert forall|i: int| 0 <= i < bases.len() implies #[trigger] dedup(bases)[i] == numbered(
            bases[i],
            count_in(bases.take(i + 1), bases[i]),
        ) by {
            if i < n - 1 {
                assert(dedup(bases)[i] == prev[i]);
                assert(bases.take(i + 1) =~= bs.take(i + 1));
                assert(bases[i] == bs[i]);
            }
        }
    }
}

proof fn lemma_count_in_last(s: Seq<Seq<char>>, p: int)
    requires
        0 <= p < s.len(),
    ensures
        count_in(s.take(p + 1), s[p]) >= 1,
{
    assert(s.take(p + 1).last() == s[p]);
}

/// The maximal runs of characters of `v` that `char::is_alphanumeric` accepts.
pub fn split_alnum(v: &Vec<char>) -> (r: Vec<Vec<char>>)
    ensures
        views(r@) == alnum_words(v@),
{
    let mut out: Vec<Vec<char>> = Vec::new();
    let mut i: usize = 0;
    let mut prev_kept = false;
    assert(v@.take(0) =~= Seq::<char>::empty());
    while i < v.len()
        invariant
            i <= v.len(),
            views(out@) == alnum_words(v@.take(i as int)),
            prev_kept == (i > 0 && is_alnum(v@[i - 1])),
            prev_kept ==> out.len() > 0,
        decreases v.len() - i,
    {
        let c = v[i];
        let keep = alphanumeric(c);
        let ghost before = views(out@);
        assert(v@.take(i + 1).drop_last() =~= v@.take(i as int));
        if !keep {
        } else if prev_kept {
            let last = out.len() - 1;
            let mut piece = out.remove(last);
            piece.push(c);
            out.push(piece);
            assert(views(out@) =~= before.update(before.len() - 1, before.last().push(c)));
        } else {
            let mut piece: Vec<char> = Vec::new();
            piece.push(c);
            out.push(piece);
            assert(views(out@) =~= before.push(seq![c]));
        }
        prev_kept = keep;
        i = i + 1;
    }
    assert(v@.take(v.len() as int) =~= v@);
    out
}

/// The pieces of `parts` joined by `sep`.
pub fn join_with(parts: &Vec<Vec<char>>, sep: char) -> (r: Vec<char>)
    ensures
        r@ == join(views(parts@), seq![sep]),
{
    let mut r: Vec<char> = Vec::new();
    let mut i: usize = 0;
    assert(views(parts@).take(0) =~= Seq::<Seq<char>>::empty());
    while i < parts.len()
        invariant
            i <= parts.len(),
            r@ == join(views(parts@).take(i as int), seq![sep]),
        decreases parts.len() - i,
    {
        let ghost ps = views(parts@);
        assert(ps.take(i + 1).drop_last() =~= ps.take(i as int));
        if i > 0 {
            r.push(sep);
        }
        let mut k: usize = 0;
        let ghost r0 = r@;
        while k < parts[i].len()
            invariant
                i < parts.len(),
                k <= parts[i as int].len(),
                r@ == r0 + parts[i as int]@.take(k as int),
            decreases parts[i as int].len() - k,
        {
            r.push(parts[i][k]);
            k = k + 1;
            assert(r@ =~= r0 + parts[i as int]@.take(k as int));
        }
        assert(parts[i as int]@.take(k as int) =~= parts[i as int]@);
        proof {
            if i == 0 {
                assert(ps.take(1) =~= seq![ps[0]]);
            }
            assert(r@ =~= join(ps.take(i + 1), seq![sep]));
        }
        i = i + 1;
    }
    assert(views(parts@).take(parts.len() as int) =~= views(parts@));
    r
}

/// Converts a token name to a kebab-case slug, falling back to `fallback`
/// (typically the value string without `#`) when the name is all punctuation.
pub fn name_to_slug(name: &str, fallback: &str) -> (s: Vec<char>)
    ensures
        s@ == slug_base(name@, fallback@),
{
    let lower = to_lowercase(name);
    let words = split_alnum(&chars_of(lower.as_str()));
    let base = join_with(&words, '-');
    if base.len() == 0 {
        let fb = chars_of(fallback);
        let mut i: usize = 0;
        assert(fb@.skip(0) =~= fb@);
        while i < fb.len() && fb[i] == '#'
            invariant
                i <= fb.len(),
                trim_start_char(fb@, '#') == trim_start_char(fb@.skip(i as int), '#'),
            decreases fb.len() - i,
        {
            assert(fb@.skip(i as int).drop_first() =~= fb@.skip(i + 1));
            i = i + 1;
        }
        assert(fb@.skip(i as int) =~= fb@.subrange(i as int, fb.len() as int));
        crate::text::slice_of(&fb, i, fb.len())
    } else {
        base
    }
}

/// Two character vectors hold the same text.
pub fn same_text(a: &Vec<char>, b: &Vec<char>) -> (r: bool)
    ensures
        r == (a@ == b@),
{
    if a.len() != b.len() {
        return false;
    }
    let r = crate::text::matches_at(a, 0, b);
    assert(a@.subrange(0, b.len() as int) =~= a@);
    r
}

/// Whether `v` holds a piece with the text of `x`.
fn contains_text(v: &Vec<Vec<char>>, x: &Vec<char>) -> (r: bool)
    ensures
        r == views(v@).contains(x@),
{
    let mut i: usize = 0;
    while i < v.len()
        invariant
            i <= v.len(),
            forall|j: int| 0 <= j < i ==> views(v@)[j] != x@,
        decreases v.len() - i,
    {
        if same_text(&v[i], x) {
            assert(views(v@)[i as int] == x@);
            return true;
        }
        i = i + 1;
    }
    false
}

/// The candidate `numbered(base, k)` as characters.
fn numbered_chars(base: &Vec<char>, k: usize) -> (r: Vec<char>)
    ensures
        r@ == numbered(base@, k as nat),
{
    let mut slug: Vec<char> = Vec::new();
    let mut t: usize = 0;
    while t < base.len()
        invariant
            t <= base.len(),
            slug@ == base@.take(t as int),
        decreases base.len() - t,
    {
        slug.push(base[t]);
        t = t + 1;
        assert(slug@ =~= base@.take(t as int));
    }
    assert(base@.take(t as int) =~= base@);
    if k > 1 {
        slug.push('-');
        let mut digits = String::new();
        push_decimal(&mut digits, k as u64);
        let dv = chars_of(digits.as_str());
        let mut d: usize = 0;
        let ghost s0 = slug@;
        while d < dv.len()
            invariant
                d <= dv.len(),
                slug@ == s0 + dv@.take(d as int),
            decreases dv.len() - d,
        {
            slug.push(dv[d]);
            d = d + 1;
            assert(slug@ =~= s0 + dv@.take(d as int));
        }
        assert(dv@.take(d as int) =~= dv@);
    }
    slug
}

/// Numbers slugs left to right so that no two are equal: a slug keeps its
/// base when it is free, and otherwise takes the first free `base-k`, `k >= 2`.
pub fn dedup_slugs(bases: &Vec<Vec<char>>) -> (r: Vec<Vec<char>>)
    ensures
        views(r@) == dedup(views(bases@)),
        r.len() == bases.len(),
        forall|i: int, j: int| 0 <= i < j < r.len() ==> r[i]@ != r[j]@,
{
    let ghost bs = views(bases@);
    let mut out: Vec<Vec<char>> = Vec::new();
    let mut i: usize = 0;
    assert(bs.take(0) =~= Seq::<Seq<char>>::empty());
    while i < bases.len()
        invariant
            i <= bases.len(),
            out.len() == i,
            bs == views(bases@),
            views(out@) == dedup(bs.take(i as int)),
        decreases bases.len() - i,
    {
        let ghost prev = views(out@);
        let ghost b = bs[i as int];
        let mut k: usize = 1;
        let mut cand = numbered_chars(&bases[i], 1);
        while k <= out.len() && contains_text(&out, &cand)
            invariant
                1 <= k <= out.len() + 1,
                out.len() == i,
                i < bases.len(),
                bs == views(bases@),
                views(out@) == prev,
                b == bases[i as int]@,
                cand@ == numbered(b, k as nat),
                free_number(prev, b, 1) == free_number(prev, b, k as nat),
            decreases out.len() + 1 - k,
        {
            k = k + 1;
            cand = numbered_chars(&bases[i], k);
        }
        assert(free_number(prev, b, k as nat) == k);
        out.push(cand);
        assert(bs.take(i + 1).drop_last() =~= bs.take(i as int));
        assert(views(out@) =~= prev.push(cand@));
        i = i + 1;
    }
    assert(bs.take(bases.len() as int) =~= bs);
    proof {
        lemma_dedup_distinct(bs);
        assert forall|i: int, j: int| 0 <= i < j < out.len() implies out[i]@ != out[j]@ by {
            assert(views(out@)[i] == out[i]@);
            assert(views(out@)[j] == out[j]@);
        }
    }
    out
}

/// Builds de-duplicated kebab-case slugs for a slice of cards: each card's
/// slug comes from its name, falling back to its value label.
pub fn unique_slugs(cards: &[RenderCard]) -> (r: Vec<Vec<char>>)
    ensures
        views(r@) == card_slugs(card_views(cards@)),
        r.len() == cards.len(),
        forall|i: int, j: int| 0 <= i < j < r.len() ==> r[i]@ != r[j]@,
{
    let ghost cs = card_views(cards@);
    let mut bases: Vec<Vec<char>> = Vec::new();
    let mut i: usize = 0;
    while i < cards.len()
        invariant
            i <= cards.len(),
            cs == card_views(cards@),
            views(bases@) =~= Seq::new(
                i as nat,
                |k: int| slug_base(card_name(cs[k]), card_value(cs[k])),
            ),
        decreases cards.len() - i,
    {
        let card = &cards[i];
        let label = card.value_label();
        let slug = name_to_slug(card.name(), label.as_str());
        let ghost before = views(bases@);
        bases.push(slug);
        assert(cs[i as int] == cards@[i as int]@);
        assert(views(bases@) =~= before.push(slug@));
        i = i + 1;
    }
    assert(Seq::new(
        cards.len() as nat,
        |k: int| slug_base(card_name(cs[k]), card_value(cs[k])),
    ) =~= Seq::new(cs.len(), |k: int| slug_base(card_name(cs[k]), card_value(cs[k]))));
    dedup_slugs(&bases)
}

// ── CSS ──────────────────────────────────────────────────────────────────────

/// The de-duplicated slugs of a sequence of swatch items (name, else hex).
pub open spec fn item_slugs(items: Seq<ItemView>) -> Seq<Seq<char>> {
    dedup(Seq::new(items.len(), |i: int| slug_base(items[i].name, items[i].hex)))
}

/// One CSS custom property line.
pub open spec fn css_line(slug: Seq<char>, hex: Seq<char>) -> Seq<char> {
    "  --color-"@ + slug + ": "@ + hex + ";\n"@
}

/// The CSS custom properties for a sequence of swatch items.
pub open spec fn css_variables(items: Seq<ItemView>) -> Seq<char> {
    ":root {\n"@ + concat(
        Seq::new(items.len(), |i: int| css_line(item_slugs(items)[i], items[i].hex)),
    ) + "}"@
}

/// Generates CSS custom properties from swatches:
///
/// ```css
/// :root {
///   --color-primary: #3482e3;
///   --color-success: #2ec27e;
/// }
/// ```
pub fn to_css_variables(items: &[SwatchItem]) -> (css: String)
    ensures
        css@ == css_variables(item_views(items@)),
{
    let ghost iv = item_views(items@);
    let mut bases: Vec<Vec<char>> = Vec::new();
    let mut i: usize = 0;
    while i < items.len()
        invariant
            i <= items.len(),
            iv == item_views(items@),
            views(bases@) =~= Seq::new(i as nat, |k: int| slug_base(iv[k].name, iv[k].hex)),
        decreases items.len() - i,
    {
        let slug = name_to_slug(items[i].name.as_str(), items[i].hex.as_str());
        let ghost before = views(bases@);
        bases.push(slug);
        assert(iv[i as int] == items@[i as int]@);
        assert(views(bases@) =~= before.push(slug@));
        i = i + 1;
    }
    assert(Seq::new(items.len() as nat, |k: int| slug_base(iv[k].name, iv[k].hex)) =~= Seq::new(
        iv.len(),
        |k: int| slug_base(iv[k].name, iv[k].hex),
    ));
    let slugs = dedup_slugs(&bases);
    assert(views(slugs@).len() == slugs@.len());
    let ghost lines = Seq::new(iv.len(), |k: int| css_line(item_slugs(iv)[k], iv[k].hex));
    let mut out = String::new();
    push_str(&mut out, ":root {\n");
    let mut j: usize = 0;
    assert(lines.take(0) =~= Seq::<Seq<char>>::empty());
    while j < items.len()
        invariant
            j <= items.len(),
            iv == item_views(items@),
            slugs.len() == items.len(),
            views(slugs@) == item_slugs(iv),
            lines == Seq::new(iv.len(), |k: int| css_line(item_slugs(iv)[k], iv[k].hex)),
            out@ == ":root {\n"@ + concat(lines.take(j as int)),
        decreases items.len() - j,
    {
        let ghost o0 = out@;
        push_str(&mut out, "  --color-");
        push_chars(&mut out, &slugs[j]);
        push_str(&mut out, ": ");
        push_str(&mut out, items[j].hex.as_str());
        push_str(&mut out, ";\n");
        assert(lines.take(j + 1).drop_last() =~= lines.take(j as int));
        assert(out@ =~= o0 + lines[j as int]);
        j = j + 1;
    }
    assert(lines.take(j as int) =~= lines);
    push_str(&mut out, "}");
    out
}

// ── Design Tokens JSON ───────────────────────────────────────────────────────

/// `s` with each `"` escaped as `\"`.
pub open spec fn escape_quotes(s: Seq<char>) -> Seq<char> {
    replace_char(s, '"', "\\\""@)
}

/// The JSON value part of one token entry, after `"$type": `.
pub open spec fn json_token_body(c: CardView) -> Seq<char> {
    match c {
        CardView::Color(item) => "\"color\", \"$value\": \""@ + item.hex + "\" }"@,
        CardView::Font { family, size_px, weight, line_height, .. } =>
            "\"typography\", \"$value\": { \"fontFamily\": \""@ + escape_quotes(family)
            + "\", \"fontSize\": \""@ + size_px + "px\", \"fontWeight\": "@ + decimal(
            weight as nat,
        ) + match line_height {
            Some(t) => ", \"lineHeight\": "@ + t,
            None => Seq::<char>::empty(),
        } + " } }"@,
        CardView::Space { display, .. } => "\"dimension\", \"$value\": \""@ + display + "\" }"@,
        CardView::Radius { display, .. } => "\"borderRadius\", \"$value\": \""@ + display
            + "\" }"@,
        CardView::Shadow { css, .. } => "\"shadow\", \"$value\": \""@ + escape_quotes(css)
            + "\" }"@,
    }
}

/// One top-level token entry (without the separating comma).
pub open spec fn json_entry(slug: Seq<char>, c: CardView) -> Seq<char> {
    "  \""@ + slug + "\": { \"$type\": "@ + json_token_body(c)
}

/// A W3C Design Tokens document holding one entry per card, keyed by the
/// card's de-duplicated slug, entries separated by `,\n`.
pub open spec fn design_tokens_json(cards: Seq<CardView>) -> Seq<char> {
    "{\n"@ + join(
        Seq::new(cards.len(), |i: int| json_entry(card_slugs(cards)[i], cards[i])),
        ",\n"@,
    ) + (if cards.len() > 0 {
        "\n"@
    } else {
        Seq::<char>::empty()
    }) + "}"@
}

/// Appends `s` with each `"` escaped.
fn push_escaped(out: &mut String, s: &str)
    ensures
        final(out)@ == old(out)@ + escape_quotes(s@),
{
    let v = chars_of(s);
    let ghost o0 = out@;
    let mut i: usize = 0;
    assert(v@.take(0) =~= Seq::<char>::empty());
    while i < v.len()
        invariant
            i <= v.len(),
            out@ == o0 + escape_quotes(v@.take(i as int)),
        decreases v.len() - i,
    {
        assert(v@.take(i + 1).drop_last() =~= v@.take(i as int));
        if v[i] == '"' {
            push_str(out, "\\\"");
        } else {
            push_char(out, v[i]);
        }
        i = i + 1;
    }
    assert(v@.take(v.len() as int) =~= v@);
}

fn push_json_entry(out: &mut String, slug: &Vec<char>, card: &RenderCard)
    ensures
        final(out)@ == old(out)@ + json_entry(slug@, card@),
{
    let ghost o0 = out@;
    push_str(out, "  \"");
    push_chars(out, slug);
    push_str(out, "\": { \"$type\": ");
    let ghost o1 = out@;
    match card {
        RenderCard::Color(item) => {
            push_str(out, "\"color\", \"$value\": \"");
            push_str(out, item.hex.as_str());
            push_str(out, "\" }");
        },
        RenderCard::Font { family, size_px, weight, line_height, .. } => {
            push_str(out, "\"typography\", \"$value\": { \"fontFamily\": \"");
            push_escaped(out, family.as_str());
            push_str(out, "\", \"fontSize\": \"");
            push_str(out, size_px.as_str());
            push_str(out, "px\", \"fontWeight\": ");
            push_decimal(out, *weight as u64);
            match line_height {
                Some(t) => {
                    push_str(out, ", \"lineHeight\": ");
                    push_str(out, t.as_str());
                },
                None => {},
            }
            push_str(out, " } }");
        },
        RenderCard::Space { display, .. } => {
            push_str(out, "\"dimension\", \"$value\": \"");
            push_str(out, display.as_str());
            push_str(out, "\" }");
        },
        RenderCard::Radius { display, .. } => {
            push_str(out, "\"borderRadius\", \"$value\": \"");
            push_str(out, display.as_str());
            push_str(out, "\" }");
        },
        RenderCard::Shadow { css, .. } => {
            push_str(out, "\"shadow\", \"$value\": \"");
            push_escaped(out, css.as_str());
            push_str(out, "\" }");
        },
    }
    assert(out@ =~= o1 + json_token_body(card@));
    assert(out@ =~= o0 + json_entry(slug@, card@));
}

/// Exports all design tokens as a W3C Design Tokens Community Group JSON
/// document. Each card becomes one top-level token entry:
/// - Color  → `"$type": "color"`, `"$value": "#rrggbb"`
/// - Font   → `"$type": "typography"`, `"$value": {fontFamily, fontSize, fontWeight[, lineHeight]}`
/// - Space  → `"$type": "dimension"`, `"$value": "8px"`
/// - Radius → `"$type": "borderRadius"`, `"$value": "6px"`
/// - Shadow → `"$type": "shadow"`, `"$value": "0 2px 8px …"`
pub fn to_design_tokens_json(cards: &[RenderCard]) -> (json: String)
    ensures
        json@ == design_tokens_json(card_views(cards@)),
{
    let ghost cs = card_views(cards@);
    let slugs = unique_slugs(cards);
    assert(views(slugs@).len() == slugs@.len());
    let ghost entries = Seq::new(cs.len(), |i: int| json_entry(card_slugs(cs)[i], cs[i]));
    let mut out = String::new();
    push_str(&mut out, "{\n");
    let mut i: usize = 0;
    assert(entries.take(0) =~= Seq::<Seq<char>>::empty());
    while i < cards.len()
        invariant
            i <= cards.len(),
            cs == card_views(cards@),
            slugs.len() == cards.len(),
            views(slugs@) == card_slugs(cs),
            entries == Seq::new(cs.len(), |i: int| json_entry(card_slugs(cs)[i], cs[i])),
            out@ == "{\n"@ + join(entries.take(i as int), ",\n"@),
        decreases cards.len() - i,
    {
        let ghost o0 = out@;
        if i > 0 {
            push_str(&mut out, ",\n");
        }
        push_json_entry(&mut out, &slugs[i], &cards[i]);
        proof {
            assert(cs[i as int] == cards@[i as int]@);
            assert(entries.take(i + 1).drop_last() =~= entries.take(i as int));
            if i == 0 {
                assert(entries.take(1) =~= seq![entries[0]]);
            }
            assert(out@ =~= "{\n"@ + join(entries.take(i + 1), ",\n"@));
        }
        i = i + 1;
    }
    assert(entries.take(i as int) =~= entries);
    if cards.len() > 0 {
        push_str(&mut out, "\n");
    }
    push_str(&mut out, "}");
    out
}

// ── GIMP palette ─────────────────────────────────────────────────────────────

/// The palette line of a colour card, `  R   G   B\tName`; nothing for other
/// cards.
pub open spec fn gpl_line(c: CardView) -> Seq<char> {
    match c {
        CardView::Color(item) => pad_left(decimal(item.r as nat), 3) + " "@ + pad_left(
            decimal(item.g as nat),
            3,
        ) + " "@ + pad_left(decimal(item.b as nat), 3) + "\t"@ + item.name + "\n"@,
        _ => Seq::<char>::empty(),
    }
}

/// A GIMP palette file holding the colour cards.
pub open spec fn gimp_palette(cards: Seq<CardView>, palette_name: Seq<char>) -> Seq<char> {
    "GIMP Palette\n"@ + "Name: "@ + palette_name + "\n"@ + "Columns: 5\n#\n"@ + concat(
        cards.map_values(|c: CardView| gpl_line(c)),
    )
}

/// Exports colour tokens as a GIMP palette file (`.gpl`). Non-colour tokens
/// are skipped.
pub fn to_gimp_palette(cards: &[RenderCard], palette_name: &str) -> (gpl: String)
    ensures
        gpl@ == gimp_palette(card_views(cards@), palette_name@),
{
    let ghost lines = card_views(cards@).map_values(|c: CardView| gpl_line(c));
    let mut out = String::new();
    push_str(&mut out, "GIMP Palette\n");
    push_str(&mut out, "Name: ");
    push_str(&mut out, palette_name);
    push_str(&mut out, "\n");
    push_str(&mut out, "Columns: 5\n#\n");
    let ghost head = out@;
    let mut i: usize = 0;
    assert(lines.take(0) =~= Seq::<Seq<char>>::empty());
    while i < cards.len()
        invariant
            i <= cards.len(),
            lines == card_views(cards@).map_values(|c: CardView| gpl_line(c)),
            out@ == head + concat(lines.take(i as int)),
        decreases cards.len() - i,
    {
        let ghost o0 = out@;
        match &cards[i] {
            RenderCard::Color(item) => {
                push_u8_width3(&mut out, item.r);
                push_str(&mut out, " ");
                push_u8_width3(&mut out, item.g);
                push_str(&mut out, " ");
                push_u8_width3(&mut out, item.b);
                push_str(&mut out, "\t");
                push_str(&mut out, item.name.as_str());
                push_str(&mut out, "\n");
            },
            _ => {},
        }
        assert(lines[i as int] == gpl_line(cards@[i as int]@));
        assert(out@ =~= o0 + lines[i as int]);
        assert(lines.take(i + 1).drop_last() =~= lines.take(i as int));
        i = i + 1;
    }
    assert(lines.take(i as int) =~= lines);
    out
}

// ── Tailwind ─────────────────────────────────────────────────────────────────

/// The swatch items of the colour cards, in order.
pub open spec fn color_items(cards: Seq<CardView>) -> Seq<ItemView>
    decreases cards.len(),
{
    if cards.len() == 0 {
        seq![]
    } else {
        match cards.last() {
            CardView::Color(item) => color_items(cards.drop_last()).push(item),
            _ => color_items(cards.drop_last()),
        }
    }
}

/// One entry of the Tailwind `colors` table.
pub open spec fn tailwind_line(slug: Seq<char>, hex: Seq<char>) -> Seq<char> {
    "      '"@ + slug + "': '"@ + hex + "',\n"@
}

/// A Tailwind CSS config module whose `theme.colors` holds the colour cards
/// under their de-duplicated slugs.
pub open spec fn tailwind_config(cards: Seq<CardView>) -> Seq<char> {
    let items = color_items(cards);
    "/** @type {import('tailwindcss').Config} */\nmodule.exports = {\n  theme: {\n    colors: {\n"@
        + concat(Seq::new(items.len(), |i: int| tailwind_line(item_slugs(items)[i], items[i].hex)))
        + "    },\n  },\n};\n"@
}

/// Exports colour tokens as a Tailwind CSS `theme.colors` config snippet.
/// Non-colour tokens are skipped.
pub fn to_tailwind_config(cards: &[RenderCard]) -> (js: String)
    ensures
        js@ == tailwind_config(card_views(cards@)),
{
    let ghost cs = card_views(cards@);
    let mut items: Vec<&SwatchItem> = Vec::new();
    let mut i: usize = 0;
    assert(cs.take(0) =~= Seq::<CardView>::empty());
    while i < cards.len()
        invariant
            i <= cards.len(),
            cs == card_views(cards@),
            items@.map_values(|it: &SwatchItem| it@) == color_items(cs.take(i as int)),
        decreases cards.len() - i,
    {
        assert(cs.take(i + 1).drop_last() =~= cs.take(i as int));
        assert(cs[i as int] == cards@[i as int]@);
        let ghost before = items@.map_values(|it: &SwatchItem| it@);
        match cards[i].as_color() {
            Some(item) => {
                items.push(item);
                assert(items@.map_values(|it: &SwatchItem| it@) =~= before.push(item@));
            },
            None => {},
        }
        i = i + 1;
    }
    assert(cs.take(i as int) =~= cs);
    let ghost iv = color_items(cs);
    let mut bases: Vec<Vec<char>> = Vec::new();
    let mut k: usize = 0;
    while k < items.len()
        invariant
            k <= items.len(),
            items@.map_values(|it: &SwatchItem| it@) == iv,
            views(bases@) =~= Seq::new(k as nat, |t: int| slug_base(iv[t].name, iv[t].hex)),
        decreases items.len() - k,
    {
        let slug = name_to_slug(items[k].name.as_str(), items[k].hex.as_str());
        let ghost before = views(bases@);
        bases.push(slug);
        assert(iv[k as int] == items@[k as int]@);
        assert(views(bases@) =~= before.push(slug@));
        k = k + 1;
    }
    assert(Seq::new(items.len() as nat, |t: int| slug_base(iv[t].name, iv[t].hex)) =~= Seq::new(
        iv.len(),
        |t: int| slug_base(iv[t].name, iv[t].hex),
    ));
    let slugs = dedup_slugs(&bases);
    assert(views(slugs@).len() == slugs@.len());
    let ghost lines = Seq::new(iv.len(), |t: int| tailwind_line(item_slugs(iv)[t], iv[t].hex));
    let mut out = String::new();
    push_str(
        &mut out,
        "/** @type {import('tailwindcss').Config} */\nmodule.exports = {\n  theme: {\n    colors: {\n",
    );
    let ghost head = out@;
    let mut j: usize = 0;
    assert(lines.take(0) =~= Seq::<Seq<char>>::empty());
    while j < items.len()
        invariant
            j <= items.len(),
            items@.map_values(|it: &SwatchItem| it@) == iv,
            slugs.len() == items.len(),
            views(slugs@) == item_slugs(iv),
            lines == Seq::new(iv.len(), |t: int| tailwind_line(item_slugs(iv)[t], iv[t].hex)),
            out@ == head + concat(lines.take(j as int)),
        decreases items.len() - j,
    {
        let ghost o0 = out@;
        push_str(&mut out, "      '");
        push_chars(&mut out, &slugs[j]);
        push_str(&mut out, "': '");
        push_str(&mut out, items[j].hex.as_str());
        push_str(&mut out, "',\n");
        assert(iv[j as int] == items@[j as int]@);
        assert(lines.take(j + 1).drop_last() =~= lines.take(j as int));
        assert(out@ =~= o0 + lines[j as int]);
        j = j + 1;
    }
    assert(lines.take(j as int) =~= lines);
    push_str(&mut out, "    },\n  },\n};\n");
    out
}

// ── Adobe Swatch Exchange ────────────────────────────────────────────────────

/// The IEEE-754 single-precision bit pattern of `c / 255`, the channel value
/// the ASE format stores.
#[verifier::opaque]
pub open spec fn ase_channel(c: u8) -> u32 {
    if c == 0 {
        0x00000000
    } else if c == 1 {
        0x3b808081
    } else if c == 2 {
        0x3c008081
    } else if c == 3 {
        0x3c40c0c1
    } else if c == 4 {
        0x3c808081
    } else if c == 5 {
        0x3ca0a0a1
    } else if c == 6 {
        0x3cc0c0c1
    } else if c == 7 {
        0x3ce0e0e1
    } else if c == 8 {
        0x3d008081
    } else if c == 9 {
        0x3d109091
    } else if c == 10 {
        0x3d20a0a1
    } else if c == 11 {
        0x3d30b0b1
    } else if c == 12 {
        0x3d40c0c1
    } else if c == 13 {
        0x3d50d0d1
    } else if c == 14 {
        0x3d60e0e1
    } else if c == 15 {
        0x3d70f0f1
    } else if c == 16 {
        0x3d808081
    } else if c == 17 {
        0x3d888889
    } else if c == 18 {
        0x3d909091
    } else if c == 19 {
        0x3d989899
    } else if c == 20 {
        0x3da0a0a1
    } else if c == 21 {
        0x3da8a8a9
    } else if c == 22 {
        0x3db0b0b1
    } else if c == 23 {
        0x3db8b8b9
    } else if c == 24 {
        0x3dc0c0c1
    } else if c == 25 {
        0x3dc8c8c9
    } else if c == 26 {
        0x3dd0d0d1
    } else if c == 27 {
        0x3dd8d8d9
    } else if c == 28 {
        0x3de0e0e1
    } else if c == 29 {
        0x3de8e8e9
    } else if c == 30 {
        0x3df0f0f1
    } else if c == 31 {
        0x3df8f8f9
    } else if c == 32 {
        0x3e008081
    } else if c == 33 {
        0x3e048485
    } else if c == 34 {
        0x3e088889
    } else if c == 35 {
        0x3e0c8c8d
    } else if c == 36 {
        0x3e109091
    } else if c == 37 {
        0x3e149495
    } else if c == 38 {
        0x3e189899
    } else if c == 39 {
        0x3e1c9c9d
    } else if c == 40 {
        0x3e20a0a1
    } else if c == 41 {
        0x3e24a4a5
    } else if c == 42 {
        0x3e28a8a9
    } else if c == 43 {
        0x3e2cacad
    } else if c == 44 {
        0x3e30b0b1
    } else if c == 45 {
        0x3e34b4b5
    } else if c == 46 {
        0x3e38b8b9
    } else if c == 47 {
        0x3e3cbcbd
    } else if c == 48 {
        0x3e40c0c1
    } else if c == 49 {
        0x3e44c4c5
    } else if c == 50 {
        0x3e48c8c9
    } else if c == 51 {
        0x3e4ccccd
    } else if c == 52 {
        0x3e50d0d1
    } else if c == 53 {
        0x3e54d4d5
    } else if c == 54 {
        0x3e58d8d9
    } else if c == 55 {
        0x3e5cdcdd
    } else if c == 56 {
        0x3e60e0e1
    } else if c == 57 {
        0x3e64e4e5
    } else if c == 58 {
        0x3e68e8e9
    } else if c == 59 {
        0x3e6ceced
    } else if c == 60 {
        0x3e70f0f1
    } else if c == 61 {
        0x3e74f4f5
    } else if c == 62 {
        0x3e78f8f9
    } else if c == 63 {
        0x3e7cfcfd
    } else if c == 64 {
        0x3e808081
    } else if c == 65 {
        0x3e828283
    } else if c == 66 {
        0x3e848485
    } else if c == 67 {
        0x3e868687
    } else if c == 68 {
        0x3e888889
    } else if c == 69 {
        0x3e8a8a8b
    } else if c == 70 {
        0x3e8c8c8d
    } else if c == 71 {
        0x3e8e8e8f
    } else if c == 72 {
        0x3e909091
    } else if c == 73 {
        0x3e929293
    } else if c == 74 {
        0x3e949495
    } else if c == 75 {
        0x3e969697
    } else if c == 76 {
        0x3e989899
    } else if c == 77 {
        0x3e9a9a9b
    } else if c == 78 {
        0x3e9c9c9d
    } else if c == 79 {
        0x3e9e9e9f
    } else if c == 80 {
        0x3ea0a0a1
    } else if c == 81 {
        0x3ea2a2a3
    } else if c == 82 {
        0x3ea4a4a5
    } else if c == 83 {
        0x3ea6a6a7
    } else if c == 84 {
        0x3ea8a8a9
    } else if c == 85 {
        0x3eaaaaab
    } else if c == 86 {
        0x3eacacad
    } else if c == 87 {
        0x3eaeaeaf
    } else if c == 88 {
        0x3eb0b0b1
    } else if c == 89 {
        0x3eb2b2b3
    } else if c == 90 {
        0x3eb4b4b5
    } else if c == 91 {
        0x3eb6b6b7
    } else if c == 92 {
        0x3eb8b8b9
    } else if c == 93 {
        0x3ebababb
    } else if c == 94 {
        0x3ebcbcbd
    } else if c == 95 {
        0x3ebebebf
    } else if c == 96 {
        0x3ec0c0c1
    } else if c == 97 {
        0x3ec2c2c3
    } else if c == 98 {
        0x3ec4c4c5
    } else if c == 99 {
        0x3ec6c6c7
    } else if c == 100 {
        0x3ec8c8c9
    } else if c == 101 {
        0x3ecacacb
    } else if c == 102 {
        0x3ecccccd
    } else if c == 103 {
        0x3ecececf
    } else if c == 104 {
        0x3ed0d0d1
    } else if c == 105 {
        0x3ed2d2d3
    } else if c == 106 {
        0x3ed4d4d5
    } else if c == 107 {
        0x3ed6d6d7
    } else if c == 108 {
        0x3ed8d8d9
    } else if c == 109 {
        0x3edadadb
    } else if c == 110 {
        0x3edcdcdd
    } else if c == 111 {
        0x3edededf
    } else if c == 112 {
        0x3ee0e0e1
    } else if c == 113 {
        0x3ee2e2e3
    } else if c == 114 {
        0x3ee4e4e5
    } else if c == 115 {
        0x3ee6e6e7
    } else if c == 116 {
        0x3ee8e8e9
    } else if c == 117 {
        0x3eeaeaeb
    } else if c == 118 {
        0x3eececed
    } else if c == 119 {
        0x3eeeeeef
    } else if c == 120 {
        0x3ef0f0f1
    } else if c == 121 {
        0x3ef2f2f3
    } else if c == 122 {
        0x3ef4f4f5
    } else if c == 123 {
        0x3ef6f6f7
    } else if c == 124 {
        0x3ef8f8f9
    } else if c == 125 {
        0x3efafafb
    } else if c == 126 {
        0x3efcfcfd
    } else if c == 127 {
        0x3efefeff
    } else if c == 128 {
        0x3f008081
    } else if c == 129 {
        0x3f018182
    } else if c == 130 {
        0x3f028283
    } else if c == 131 {
        0x3f038384
    } else if c == 132 {
        0x3f048485
    } else if c == 133 {
        0x3f058586
    } else if c == 134 {
        0x3f068687
    } else if c == 135 {
        0x3f078788
    } else if c == 136 {
        0x3f088889
    } else if c == 137 {
        0x3f09898a
    } else if c == 138 {
        0x3f0a8a8b
    } else if c == 139 {
        0x3f0b8b8c
    } else if c == 140 {
        0x3f0c8c8d
    } else if c == 141 {
        0x3f0d8d8e
    } else if c == 142 {
        0x3f0e8e8f
    } else if c == 143 {
        0x3f0f8f90
    } else if c == 144 {
        0x3f109091
    } else if c == 145 {
        0x3f119192
    } else if c == 146 {
        0x3f129293
    } else if c == 147 {
        0x3f139394
    } else if c == 148 {
        0x3f149495
    } else if c == 149 {
        0x3f159596
    } else if c == 150 {
        0x3f169697
    } else if c == 151 {
        0x3f179798
    } else if c == 152 {
        0x3f189899
    } else if c == 153 {
        0x3f19999a
    } else if c == 154 {
        0x3f1a9a9b
    } else if c == 155 {
        0x3f1b9b9c
    } else if c == 156 {
        0x3f1c9c9d
    } else if c == 157 {
        0x3f1d9d9e
    } else if c == 158 {
        0x3f1e9e9f
    } else if c == 159 {
        0x3f1f9fa0
    } else if c == 160 {
        0x3f20a0a1
    } else if c == 161 {
        0x3f21a1a2
    } else if c == 162 {
        0x3f22a2a3
    } else if c == 163 {
        0x3f23a3a4
    } else if c == 164 {
        0x3f24a4a5
    } else if c == 165 {
        0x3f25a5a6
    } else if c == 166 {
        0x3f26a6a7
    } else if c == 167 {
        0x3f27a7a8
    } else if c == 168 {
        0x3f28a8a9
    } else if c == 169 {
        0x3f29a9aa
    } else if c == 170 {
        0x3f2aaaab
    } else if c == 171 {
        0x3f2babac
    } else if c == 172 {
        0x3f2cacad
    } else if c == 173 {
        0x3f2dadae
    } else if c == 174 {
        0x3f2eaeaf
    } else if c == 175 {
        0x3f2fafb0
    } else if c == 176 {
        0x3f30b0b1
    } else if c == 177 {
        0x3f31b1b2
    } else if c == 178 {
        0x3f32b2b3
    } else if c == 179 {
        0x3f33b3b4
    } else if c == 180 {
        0x3f34b4b5
    } else if c == 181 {
        0x3f35b5b6
    } else if c == 182 {
        0x3f36b6b7
    } else if c == 183 {
        0x3f37b7b8
    } else if c == 184 {
        0x3f38b8b9
    } else if c == 185 {
        0x3f39b9ba
    } else if c == 186 {
        0x3f3ababb
    } else if c == 187 {
        0x3f3bbbbc
    } else if c == 188 {
        0x3f3cbcbd
    } else if c == 189 {
        0x3f3dbdbe
    } else if c == 190 {
        0x3f3ebebf
    } else if c == 191 {
        0x3f3fbfc0
    } else if c == 192 {
        0x3f40c0c1
    } else if c == 193 {
        0x3f41c1c2
    } else if c == 194 {
        0x3f42c2c3
    } else if c == 195 {
        0x3f43c3c4
    } else if c == 196 {
        0x3f44c4c5
    } else if c == 197 {
        0x3f45c5c6
    } else if c == 198 {
        0x3f46c6c7
    } else if c == 199 {
        0x3f47c7c8
    } else if c == 200 {
        0x3f48c8c9
    } else if c == 201 {
        0x3f49c9ca
    } else if c == 202 {
        0x3f4acacb
    } else if c == 203 {
        0x3f4bcbcc
    } else if c == 204 {
        0x3f4ccccd
    } else if c == 205 {
        0x3f4dcdce
    } else if c == 206 {
        0x3f4ececf
    } else if c == 207 {
        0x3f4fcfd0
    } else if c == 208 {
        0x3f50d0d1
    } else if c == 209 {
        0x3f51d1d2
    } else if c == 210 {
        0x3f52d2d3
    } else if c == 211 {
        0x3f53d3d4
    } else if c == 212 {
        0x3f54d4d5
    } else if c == 213 {
        0x3f55d5d6
    } else if c == 214 {
        0x3f56d6d7
    } else if c == 215 {
        0x3f57d7d8
    } else if c == 216 {
        0x3f58d8d9
    } else if c == 217 {
        0x3f59d9da
    } else if c == 218 {
        0x3f5adadb
    } else if c == 219 {
        0x3f5bdbdc
    } else if c == 220 {
        0x3f5cdcdd
    } else if c == 221 {
        0x3f5dddde
    } else if c == 222 {
        0x3f5ededf
    } else if c == 223 {
        0x3f5fdfe0
    } else if c == 224 {
        0x3f60e0e1
    } else if c == 225 {
        0x3f61e1e2
    } else if c == 226 {
        0x3f62e2e3
    } else if c == 227 {
        0x3f63e3e4
    } else if c == 228 {
        0x3f64e4e5
    } else if c == 229 {
        0x3f65e5e6
    } else if c == 230 {
        0x3f66e6e7
    } else if c == 231 {
        0x3f67e7e8
    } else if c == 232 {
        0x3f68e8e9
    } else if c == 233 {
        0x3f69e9ea
    } else if c == 234 {
        0x3f6aeaeb
    } else if c == 235 {
        0x3f6bebec
    } else if c == 236 {
        0x3f6ceced
    } else if c == 237 {
        0x3f6dedee
    } else if c == 238 {
        0x3f6eeeef
    } else if c == 239 {
        0x3f6feff0
    } else if c == 240 {
        0x3f70f0f1
    } else if c == 241 {
        0x3f71f1f2
    } else if c == 242 {
        0x3f72f2f3
    } else if c == 243 {
        0x3f73f3f4
    } else if c == 244 {
        0x3f74f4f5
    } else if c == 245 {
        0x3f75f5f6
    } else if c == 246 {
        0x3f76f6f7
    } else if c == 247 {
        0x3f77f7f8
    } else if c == 248 {
        0x3f78f8f9
    } else if c == 249 {
        0x3f79f9fa
    } else if c == 250 {
        0x3f7afafb
    } else if c == 251 {
        0x3f7bfbfc
    } else if c == 252 {
        0x3f7cfcfd
    } else if c == 253 {
        0x3f7dfdfe
    } else if c == 254 {
        0x3f7efeff
    } else {
        0x3f800000
    }
}

/// `ase_channel` as an executable table.
#[verifier::rlimit(50)]
fn ase_channel_bits(c: u8) -> (b: u32)
    ensures
        b == ase_channel(c),
{
    reveal(ase_channel);
    if c == 0 {
        0x00000000
    } else if c == 1 {
        0x3b808081
    } else if c == 2 {
        0x3c008081
    } else if c == 3 {
        0x3c40c0c1
    } else if c == 4 {
        0x3c808081
    } else if c == 5 {
        0x3ca0a0a1
    } else if c == 6 {
        0x3cc0c0c1
    } else if c == 7 {
        0x3ce0e0e1
    } else if c == 8 {
        0x3d008081
    } else if c == 9 {
        0x3d109091
    } else if c == 10 {
        0x3d20a0a1
    } else if c == 11 {
        0x3d30b0b1
    } else if c == 12 {
        0x3d40c0c1
    } else if c == 13 {
        0x3d50d0d1
    } else if c == 14 {
        0x3d60e0e1
    } else if c == 15 {
        0x3d70f0f1
    } else if c == 16 {
        0x3d808081
    } else if c == 17 {
        0x3d888889
    } else if c == 18 {
        0x3d909091
    } else if c == 19 {
        0x3d989899
    } else if c == 20 {
        0x3da0a0a1
    } else if c == 21 {
        0x3da8a8a9
    } else if c == 22 {
        0x3db0b0b1
    } else if c == 23 {
        0x3db8b8b9
    } else if c == 24 {
        0x3dc0c0c1
    } else if c == 25 {
        0x3dc8c8c9
    } else if c == 26 {
        0x3dd0d0d1
    } else if c == 27 {
        0x3dd8d8d9
    } else if c == 28 {
        0x3de0e0e1
    } else if c == 29 {
        0x3de8e8e9
    } else if c == 30 {
        0x3df0f0f1
    } else if c == 31 {
        0x3df8f8f9
    } else if c == 32 {
        0x3e008081
    } else if c == 33 {
        0x3e048485
    } else if c == 34 {
        0x3e088889
    } else if c == 35 {
        0x3e0c8c8d
    } else if c == 36 {
        0x3e109091
    } else if c == 37 {
        0x3e149495
    } else if c == 38 {
        0x3e189899
    } else if c == 39 {
        0x3e1c9c9d
    } else if c == 40 {
        0x3e20a0a1
    } else if c == 41 {
        0x3e24a4a5
    } else if c == 42 {
        0x3e28a8a9
    } else if c == 43 {
        0x3e2cacad
    } else if c == 44 {
        0x3e30b0b1
    } else if c == 45 {
        0x3e34b4b5
    } else if c == 46 {
        0x3e38b8b9
    } else if c == 47 {
        0x3e3cbcbd
    } else if c == 48 {
        0x3e40c0c1
    } else if c == 49 {
        0x3e44c4c5
    } else if c == 50 {
        0x3e48c8c9
    } else if c == 51 {
        0x3e4ccccd
    } else if c == 52 {
        0x3e50d0d1
    } else if c == 53 {
        0x3e54d4d5
    } else if c == 54 {
        0x3e58d8d9
    } else if c == 55 {
        0x3e5cdcdd
    } else if c == 56 {
        0x3e60e0e1
    } else if c == 57 {
        0x3e64e4e5
    } else if c == 58 {
        0x3e68e8e9
    } else if c == 59 {
        0x3e6ceced
    } else if c == 60 {
        0x3e70f0f1
    } else if c == 61 {
        0x3e74f4f5
    } else if c == 62 {
        0x3e78f8f9
    } else if c == 63 {
        0x3e7cfcfd
    } else if c == 64 {
        0x3e808081
    } else if c == 65 {
        0x3e828283
    } else if c == 66 {
        0x3e848485
    } else if c == 67 {
        0x3e868687
    } else if c == 68 {
        0x3e888889
    } else if c == 69 {
        0x3e8a8a8b
    } else if c == 70 {
        0x3e8c8c8d
    } else if c == 71 {
        0x3e8e8e8f
    } else if c == 72 {
        0x3e909091
    } else if c == 73 {
        0x3e929293
    } else if c == 74 {
        0x3e949495
    } else if c == 75 {
        0x3e969697
    } else if c == 76 {
        0x3e989899
    } else if c == 77 {
        0x3e9a9a9b
    } else if c == 78 {
        0x3e9c9c9d
    } else if c == 79 {
        0x3e9e9e9f
    } else if c == 80 {
        0x3ea0a0a1
    } else if c == 81 {
        0x3ea2a2a3
    } else if c == 82 {
        0x3ea4a4a5
    } else if c == 83 {
        0x3ea6a6a7
    } else if c == 84 {
        0x3ea8a8a9
    } else if c == 85 {
        0x3eaaaaab
    } else if c == 86 {
        0x3eacacad
    } else if c == 87 {
        0x3eaeaeaf
    } else if c == 88 {
        0x3eb0b0b1
    } else if c == 89 {
        0x3eb2b2b3
    } else if c == 90 {
        0x3eb4b4b5
    } else if c == 91 {
        0x3eb6b6b7
    } else if c == 92 {
        0x3eb8b8b9
    } else if c == 93 {
        0x3ebababb
    } else if c == 94 {
        0x3ebcbcbd
    } else if c == 95 {
        0x3ebebebf
    } else if c == 96 {
        0x3ec0c0c1
    } else if c == 97 {
        0x3ec2c2c3
    } else if c == 98 {
        0x3ec4c4c5
    } else if c == 99 {
        0x3ec6c6c7
    } else if c == 100 {
        0x3ec8c8c9
    } else if c == 101 {
        0x3ecacacb
    } else if c == 102 {
        0x3ecccccd
    } else if c == 103 {
        0x3ecececf
    } else if c == 104 {
        0x3ed0d0d1
    } else if c == 105 {
        0x3ed2d2d3
    } else if c == 106 {
        0x3ed4d4d5
    } else if c == 107 {
        0x3ed6d6d7
    } else if c == 108 {
        0x3ed8d8d9
    } else if c == 109 {
        0x3edadadb
    } else if c == 110 {
        0x3edcdcdd
    } else if c == 111 {
        0x3edededf
    } else if c == 112 {
        0x3ee0e0e1
    } else if c == 113 {
        0x3ee2e2e3
    } else if c == 114 {
        0x3ee4e4e5
    } else if c == 115 {
        0x3ee6e6e7
    } else if c == 116 {
        0x3ee8e8e9
    } else if c == 117 {
        0x3eeaeaeb
    } else if c == 118 {
        0x3eececed
    } else if c == 119 {
        0x3eeeeeef
    } else if c == 120 {
        0x3ef0f0f1
    } else if c == 121 {
        0x3ef2f2f3
    } else if c == 122 {
        0x3ef4f4f5
    } else if c == 123 {
        0x3ef6f6f7
    } else if c == 124 {
        0x3ef8f8f9
    } else if c == 125 {
        0x3efafafb
    } else if c == 126 {
        0x3efcfcfd
    } else if c == 127 {
        0x3efefeff
    } else if c == 128 {
        0x3f008081
    } else if c == 129 {
        0x3f018182
    } else if c == 130 {
        0x3f028283
    } else if c == 131 {
        0x3f038384
    } else if c == 132 {
        0x3f048485
    } else if c == 133 {
        0x3f058586
    } else if c == 134 {
        0x3f068687
    } else if c == 135 {
        0x3f078788
    } else if c == 136 {
        0x3f088889
    } else if c == 137 {
        0x3f09898a
    } else if c == 138 {
        0x3f0a8a8b
    } else if c == 139 {
        0x3f0b8b8c
    } else if c == 140 {
        0x3f0c8c8d
    } else if c == 141 {
        0x3f0d8d8e
    } else if c == 142 {
        0x3f0e8e8f
    } else if c == 143 {
        0x3f0f8f90
    } else if c == 144 {
        0x3f109091
    } else if c == 145 {
        0x3f119192
    } else if c == 146 {
        0x3f129293
    } else if c == 147 {
        0x3f139394
    } else if c == 148 {
        0x3f149495
    } else if c == 149 {
        0x3f159596
    } else if c == 150 {
        0x3f169697
    } else if c == 151 {
        0x3f179798
    } else if c == 152 {
        0x3f189899
    } else if c == 153 {
        0x3f19999a
    } else if c == 154 {
        0x3f1a9a9b
    } else if c == 155 {
        0x3f1b9b9c
    } else if c == 156 {
        0x3f1c9c9d
    } else if c == 157 {
        0x3f1d9d9e
    } else if c == 158 {
        0x3f1e9e9f
    } else if c == 159 {
        0x3f1f9fa0
    } else if c == 160 {
        0x3f20a0a1
    } else if c == 161 {
        0x3f21a1a2
    } else if c == 162 {
        0x3f22a2a3
    } else if c == 163 {
        0x3f23a3a4
    } else if c == 164 {
        0x3f24a4a5
    } else if c == 165 {
        0x3f25a5a6
    } else if c == 166 {
        0x3f26a6a7
    } else if c == 167 {
        0x3f27a7a8
    } else if c == 168 {
        0x3f28a8a9
    } else if c == 169 {
        0x3f29a9aa
    } else if c == 170 {
        0x3f2aaaab
    } else if c == 171 {
        0x3f2babac
    } else if c == 172 {
        0x3f2cacad
    } else if c == 173 {
        0x3f2dadae
    } else if c == 174 {
        0x3f2eaeaf
    } else if c == 175 {
        0x3f2fafb0
    } else if c == 176 {
        0x3f30b0b1
    } else if c == 177 {
        0x3f31b1b2
    } else if c == 178 {
        0x3f32b2b3
    } else if c == 179 {
        0x3f33b3b4
    } else if c == 180 {
        0x3f34b4b5
    } else if c == 181 {
        0x3f35b5b6
    } else if c == 182 {
        0x3f36b6b7
    } else if c == 183 {
        0x3f37b7b8
    } else if c == 184 {
        0x3f38b8b9
    } else if c == 185 {
        0x3f39b9ba
    } else if c == 186 {
        0x3f3ababb
    } else if c == 187 {
        0x3f3bbbbc
    } else if c == 188 {
        0x3f3cbcbd
    } else if c == 189 {
        0x3f3dbdbe
    } else if c == 190 {
        0x3f3ebebf
    } else if c == 191 {
        0x3f3fbfc0
    } else if c == 192 {
        0x3f40c0c1
    } else if c == 193 {
        0x3f41c1c2
    } else if c == 194 {
        0x3f42c2c3
    } else if c == 195 {
        0x3f43c3c4
    } else if c == 196 {
        0x3f44c4c5
    } else if c == 197 {
        0x3f45c5c6
    } else if c == 198 {
        0x3f46c6c7
    } else if c == 199 {
        0x3f47c7c8
    } else if c == 200 {
        0x3f48c8c9
    } else if c == 201 {
        0x3f49c9ca
    } else if c == 202 {
        0x3f4acacb
    } else if c == 203 {
        0x3f4bcbcc
    } else if c == 204 {
        0x3f4ccccd
    } else if c == 205 {
        0x3f4dcdce
    } else if c == 206 {
        0x3f4ececf
    } else if c == 207 {
        0x3f4fcfd0
    } else if c == 208 {
        0x3f50d0d1
    } else if c == 209 {
        0x3f51d1d2
    } else if c == 210 {
        0x3f52d2d3
    } else if c == 211 {
        0x3f53d3d4
    } else if c == 212 {
        0x3f54d4d5
    } else if c == 213 {
        0x3f55d5d6
    } else if c == 214 {
        0x3f56d6d7
    } else if c == 215 {
        0x3f57d7d8
    } else if c == 216 {
        0x3f58d8d9
    } else if c == 217 {
        0x3f59d9da
    } else if c == 218 {
        0x3f5adadb
    } else if c == 219 {
        0x3f5bdbdc
    } else if c == 220 {
        0x3f5cdcdd
    } else if c == 221 {
        0x3f5dddde
    } else if c == 222 {
        0x3f5ededf
    } else if c == 223 {
        0x3f5fdfe0
    } else if c == 224 {
        0x3f60e0e1
    } else if c == 225 {
        0x3f61e1e2
    } else if c == 226 {
        0x3f62e2e3
    } else if c == 227 {
        0x3f63e3e4
    } else if c == 228 {
        0x3f64e4e5
    } else if c == 229 {
        0x3f65e5e6
    } else if c == 230 {
        0x3f66e6e7
    } else if c == 231 {
        0x3f67e7e8
    } else if c == 232 {
        0x3f68e8e9
    } else if c == 233 {
        0x3f69e9ea
    } else if c == 234 {
        0x3f6aeaeb
    } else if c == 235 {
        0x3f6bebec
    } else if c == 236 {
        0x3f6ceced
    } else if c == 237 {
        0x3f6dedee
    } else if c == 238 {
        0x3f6eeeef
    } else if c == 239 {
        0x3f6feff0
    } else if c == 240 {
        0x3f70f0f1
    } else if c == 241 {
        0x3f71f1f2
    } else if c == 242 {
        0x3f72f2f3
    } else if c == 243 {
        0x3f73f3f4
    } else if c == 244 {
        0x3f74f4f5
    } else if c == 245 {
        0x3f75f5f6
    } else if c == 246 {
        0x3f76f6f7
    } else if c == 247 {
        0x3f77f7f8
    } else if c == 248 {
        0x3f78f8f9
    } else if c == 249 {
        0x3f79f9fa
    } else if c == 250 {
        0x3f7afafb
    } else if c == 251 {
        0x3f7bfbfc
    } else if c == 252 {
        0x3f7cfcfd
    } else if c == 253 {
        0x3f7dfdfe
    } else if c == 254 {
        0x3f7efeff
    } else {
        0x3f800000
    }
}

/// A 32-bit value in big-endian byte order.
pub open spec fn be32(x: u32) -> Seq<u8> {
    seq![
        (x / 0x100_0000) as u8,
        ((x / 0x1_0000) % 0x100) as u8,
        ((x / 0x100) % 0x100) as u8,
        (x % 0x100) as u8,
    ]
}

/// A 16-bit value in big-endian byte order.
pub open spec fn be16(x: u16) -> Seq<u8> {
    seq![(x / 0x100) as u8, (x % 0x100) as u8]
}

/// The UTF-16 code units of `s` (`str::encode_utf16`).
pub open spec fn utf16(s: Seq<char>) -> Seq<u16>
    decreases s.len(),
{
    if s.len() == 0 {
        seq![]
    } else {
        let c = s.last() as u32;
        utf16(s.drop_last()) + if c < 0x1_0000 {
            seq![c as u16]
        } else {
            seq![
                (0xD800 + (c - 0x1_0000) / 0x400) as u16,
                (0xDC00 + (c - 0x1_0000) % 0x400) as u16,
            ]
        }
    }
}

/// Code units written big-endian, one after the other.
pub open spec fn units_be(units: Seq<u16>) -> Seq<u8>
    decreases units.len(),
{
    if units.len() == 0 {
        seq![]
    } else {
        units_be(units.drop_last()) + be16(units.last())
    }
}

/// Byte sequences, one after the other.
pub open spec fn concat_bytes(parts: Seq<Seq<u8>>) -> Seq<u8>
    decreases parts.len(),
{
    if parts.len() == 0 {
        seq![]
    } else {
        concat_bytes(parts.drop_last()) + parts.last()
    }
}

/// The colour-entry block of one swatch: block type 1, the block length, the
/// name as a NUL-terminated UTF-16BE string with its unit count, the `RGB `
/// model and the three channels as big-endian floats, colour type 2 (normal).
pub open spec fn ase_block(item: ItemView) -> Seq<u8> {
    let units = utf16(item.name).push(0u16);
    seq![0x00u8, 0x01u8] + be32((2 + 2 * units.len() + 4 + 12 + 2) as u32) + be16(
        (units.len() % 0x1_0000) as u16,
    ) + units_be(units) + seq![0x52u8, 0x47u8, 0x42u8, 0x20u8] + be32(ase_channel(item.r))
        + be32(ase_channel(item.g)) + be32(ase_channel(item.b)) + seq![0x00u8, 0x02u8]
}

/// An ASE file holding the colour cards: `ASEF`, version 1.0, the block count,
/// then one colour block per swatch.
pub open spec fn ase_palette(cards: Seq<CardView>) -> Seq<u8> {
    let items = color_items(cards);
    seq![0x41u8, 0x53u8, 0x45u8, 0x46u8, 0x00u8, 0x01u8, 0x00u8, 0x00u8] + be32(
        (items.len() % 0x1_0000_0000) as u32,
    ) + concat_bytes(items.map_values(|it: ItemView| ase_block(it)))
}

/// The name lengths the ASE block-length field can hold.
pub open spec fn ase_names_fit(cards: Seq<CardView>) -> bool {
    forall|i: int|
        0 <= i < color_items(cards).len() ==> utf16(#[trigger] color_items(cards)[i].name).len()
            < 0x7fff_fff0
}

fn push_be32(out: &mut Vec<u8>, x: u32)
    ensures
        final(out)@ == old(out)@ + be32(x),
{
    let ghost o0 = out@;
    out.push((x / 0x100_0000) as u8);
    out.push(((x / 0x1_0000) % 0x100) as u8);
    out.push(((x / 0x100) % 0x100) as u8);
    out.push((x % 0x100) as u8);
    assert(out@ =~= o0 + be32(x));
}

fn push_be16(out: &mut Vec<u8>, x: u16)
    ensures
        final(out)@ == old(out)@ + be16(x),
{
    let ghost o0 = out@;
    out.push((x / 0x100) as u8);
    out.push((x % 0x100) as u8);
    assert(out@ =~= o0 + be16(x));
}

/// The UTF-16 code units of `s`, NUL-terminated.
fn utf16_units(s: &str) -> (u: Vec<u16>)
    ensures
        u@ == utf16(s@).push(0u16),
{
    let v = chars_of(s);
    let mut u: Vec<u16> = Vec::new();
    let mut i: usize = 0;
    assert(v@.take(0) =~= Seq::<char>::empty());
    while i < v.len()
        invariant
            i <= v.len(),
            u@ == utf16(v@.take(i as int)),
        decreases v.len() - i,
    {
        assert(v@.take(i + 1).drop_last() =~= v@.take(i as int));
        let c = v[i] as u32;
        let ghost u0 = u@;
        if c < 0x1_0000 {
            u.push(c as u16);
        } else {
            u.push((0xD800 + (c - 0x1_0000) / 0x400) as u16);
            u.push((0xDC00 + (c - 0x1_0000) % 0x400) as u16);
        }
        assert(u@ =~= utf16(v@.take(i + 1)));
        i = i + 1;
    }
    assert(v@.take(v.len() as int) =~= v@);
    u.push(0);
    u
}

fn push_ase_block(out: &mut Vec<u8>, item: &SwatchItem)
    requires
        utf16(item.name@).len() < 0x7fff_fff0,
    ensures
        final(out)@ == old(out)@ + ase_block(item@),
{
    let ghost o0 = out@;
    let units = utf16_units(item.name.as_str());
    out.push(0x00);
    out.push(0x01);
    let block_len: u32 = 2 + (units.len() as u32) * 2 + 4 + 12 + 2;
    push_be32(out, block_len);
    push_be16(out, (units.len() % 0x1_0000) as u16);
    let ghost o1 = out@;
    let mut k: usize = 0;
    assert(units@.take(0) =~= Seq::<u16>::empty());
    while k < units.len()
        invariant
            k <= units.len(),
            out@ == o1 + units_be(units@.take(k as int)),
        decreases units.len() - k,
    {
        assert(units@.take(k + 1).drop_last() =~= units@.take(k as int));
        push_be16(out, units[k]);
        k = k + 1;
    }
    assert(units@.take(k as int) =~= units@);
    out.push(0x52);
    out.push(0x47);
    out.push(0x42);
    out.push(0x20);
    push_be32(out, ase_channel_bits(item.r));
    push_be32(out, ase_channel_bits(item.g));
    push_be32(out, ase_channel_bits(item.b));
    out.push(0x00);
    out.push(0x02);
    assert(out@ =~= o0 + ase_block(item@));
}

/// Exports colour tokens as an Adobe Swatch Exchange (`.ase`) file. Non-colour
/// tokens are skipped.
pub fn to_ase_palette(cards: &[RenderCard]) -> (bytes: Vec<u8>)
    requires
        ase_names_fit(card_views(cards@)),
    ensures
        bytes@ == ase_palette(card_views(cards@)),
{
    let ghost cs = card_views(cards@);
    let mut items: Vec<&SwatchItem> = Vec::new();
    let mut i: usize = 0;
    assert(cs.take(0) =~= Seq::<CardView>::empty());
    while i < cards.len()
        invariant
            i <= cards.len(),
            cs == card_views(cards@),
            items@.map_values(|it: &SwatchItem| it@) == color_items(cs.take(i as int)),
        decreases cards.len() - i,
    {
        assert(cs.take(i + 1).drop_last() =~= cs.take(i as int));
        assert(cs[i as int] == cards@[i as int]@);
        let ghost before = items@.map_values(|it: &SwatchItem| it@);
        match cards[i].as_color() {
            Some(item) => {
                items.push(item);
                assert(items@.map_values(|it: &SwatchItem| it@) =~= before.push(item@));
            },
            None => {},
        }
        i = i + 1;
    }
    assert(cs.take(i as int) =~= cs);
    let ghost iv = color_items(cs);
    let ghost blocks = iv.map_values(|it: ItemView| ase_block(it));
    let mut out: Vec<u8> = Vec::new();
    out.push(0x41);
    out.push(0x53);
    out.push(0x45);
    out.push(0x46);
    out.push(0x00);
    out.push(0x01);
    out.push(0x00);
    out.push(0x00);
    push_be32(&mut out, ((items.len() as u64) % 0x1_0000_0000) as u32);
    let ghost head = out@;
    let mut k: usize = 0;
    assert(blocks.take(0) =~= Seq::<Seq<u8>>::empty());
    while k < items.len()
        invariant
            k <= items.len(),
            items@.map_values(|it: &SwatchItem| it@) == iv,
            blocks == iv.map_values(|it: ItemView| ase_block(it)),
            ase_names_fit(cs),
            iv == color_items(cs),
            out@ == head + concat_bytes(blocks.take(k as int)),
        decreases items.len() - k,
    {
        assert(iv[k as int] == items@[k as int]@);
        assert(utf16(color_items(cs)[k as int].name).len() < 0x7fff_fff0);
        assert(blocks.take(k + 1).drop_last() =~= blocks.take(k as int));
        let ghost o0 = out@;
        push_ase_block(&mut out, items[k]);
        assert(out@ == o0 + blocks[k as int]);
        k = k + 1;
    }
    assert(blocks.take(k as int) =~= blocks);
    out
}

// ── Cards from a parsed document ─────────────────────────────────────────────

/// The colour card a parsed swatch becomes: its name, hex string and channels.
pub open spec fn swatch_card_view(e: crate::parser::SwatchView) -> CardView {
    let rgba = crate::token::rgba_of(e.color);
    CardView::Color(
        ItemView {
            name: e.name,
            hex: crate::token::hex_string(rgba),
            r: rgba.0,
            g: rgba.1,
            b: rgba.2,
            a: rgba.3,
        },
    )
}

/// The colour card for a parsed swatch.
pub fn swatch_card(entry: &crate::parser::SwatchEntry) -> (c: RenderCard)
    ensures
        c@ == swatch_card_view(entry@),
{
    let (r, g, b, a) = entry.color.to_rgba();
    RenderCard::Color(
        SwatchItem { name: entry.name.clone(), hex: entry.color.to_hex_string(), r, g, b, a },
    )
}

/// One colour card per swatch of the document, in document order.
pub fn swatch_cards(doc: &crate::parser::Document) -> (cards: Vec<RenderCard>)
    ensures
        card_views(cards@) == crate::parser::flatten_swatches(doc@).map_values(
            |e: crate::parser::SwatchView| swatch_card_view(e),
        ),
{
    let all = doc.all_swatches();
    let ghost sw = crate::parser::flatten_swatches(doc@);
    let mut cards: Vec<RenderCard> = Vec::new();
    let mut i: usize = 0;
    while i < all.len()
        invariant
            i <= all.len(),
            all@.map_values(|e: &crate::parser::SwatchEntry| e@) == sw,
            card_views(cards@) =~= sw.take(i as int).map_values(
                |e: crate::parser::SwatchView| swatch_card_view(e),
            ),
        decreases all.len() - i,
    {
        let c = swatch_card(all[i]);
        let ghost before = card_views(cards@);
        cards.push(c);
        assert(sw[i as int] == all@[i as int]@);
        assert(card_views(cards@) =~= before.push(c@));
        i = i + 1;
    }
    assert(sw.take(i as int) =~= sw);
    cards
}

/// A copy of a swatch item.
fn copy_item(item: &SwatchItem) -> (c: SwatchItem)
    ensures
        c@ == item@,
{
    SwatchItem {
        name: item.name.clone(),
        hex: item.hex.clone(),
        r: item.r,
        g: item.g,
        b: item.b,
        a: item.a,
    }
}

/// The swatch items of the colour cards, in order.
pub fn color_swatch_items(cards: &[RenderCard]) -> (items: Vec<SwatchItem>)
    ensures
        item_views(items@) == color_items(card_views(cards@)),
{
    let ghost cs = card_views(cards@);
    let mut items: Vec<SwatchItem> = Vec::new();
    let mut i: usize = 0;
    assert(cs.take(0) =~= Seq::<CardView>::empty());
    while i < cards.len()
        invariant
            i <= cards.len(),
            cs == card_views(cards@),
            item_views(items@) == color_items(cs.take(i as int)),
        decreases cards.len() - i,
    {
        assert(cs.take(i + 1).drop_last() =~= cs.take(i as int));
        assert(cs[i as int] == cards@[i as int]@);
        let ghost before = item_views(items@);
        match cards[i].as_color() {
            Some(item) => {
                let c = copy_item(item);
                items.push(c);
                assert(item_views(items@) =~= before.push(c@));
            },
            None => {},
        }
        i = i + 1;
    }
    assert(cs.take(i as int) =~= cs);
    items
}

/// How many of the cards are colour cards.
pub fn color_count(cards: &[RenderCard]) -> (n: usize)
    ensures
        n == color_items(card_views(cards@)).len(),
{
    let ghost cs = card_views(cards@);
    let mut n: usize = 0;
    let mut i: usize = 0;
    assert(cs.take(0) =~= Seq::<CardView>::empty());
    while i < cards.len()
        invariant
            i <= cards.len(),
            cs == card_views(cards@),
            n == color_items(cs.take(i as int)).len(),
            n <= i,
        decreases cards.len() - i,
    {
        assert(cs.take(i + 1).drop_last() =~= cs.take(i as int));
        assert(cs[i as int] == cards@[i as int]@);
        if cards[i].as_color().is_some() {
            n = n + 1;
        }
        i = i + 1;
    }
    assert(cs.take(i as int) =~= cs);
    n
}

/// The CSS export reads only each item's name and hex text: two item lists
/// that agree on those give the same CSS, whatever their channels hold.
pub proof fn lemma_css_reads_name_and_hex(a: Seq<ItemView>, b: Seq<ItemView>)
    requires
        a.len() == b.len(),
        forall|i: int| 0 <= i < a.len() ==> a[i].name == b[i].name && a[i].hex == b[i].hex,
    ensures
        css_variables(a) == css_variables(b),
{
    assert(Seq::new(a.len(), |i: int| slug_base(a[i].name, a[i].hex)) =~= Seq::new(
        b.len(),
        |i: int| slug_base(b[i].name, b[i].hex),
    ));
    assert(Seq::new(a.len(), |i: int| css_line(item_slugs(a)[i], a[i].hex)) =~= Seq::new(
        b.len(),
        |i: int| css_line(item_slugs(b)[i], b[i].hex),
    ));
}

/// Each item is declared in the CSS as `  --color-<slug>: <hex>;` followed by
/// a line break, with its de-duplicated slug and exactly its hex text (a
/// `#rrggbbaa` value keeps its alpha).
pub proof fn lemma_css_declares_item(items: Seq<ItemView>, i: int)
    requires
        0 <= i < items.len(),
    ensures
        exists|p: int|
            0 <= p && p + ("  --color-"@ + item_slugs(items)[i] + ": "@ + items[i].hex + ";\n"@).len()
                <= css_variables(items).len() && #[trigger] css_variables(items).subrange(
                p,
                p + ("  --color-"@ + item_slugs(items)[i] + ": "@ + items[i].hex + ";\n"@).len(),
            ) == "  --color-"@ + item_slugs(items)[i] + ": "@ + items[i].hex + ";\n"@,
{
    reveal_strlit(":root {\n");
    let lines = Seq::new(items.len(), |k: int| css_line(item_slugs(items)[k], items[k].hex));
    let line = "  --color-"@ + item_slugs(items)[i] + ": "@ + items[i].hex + ";\n"@;
    assert(lines[i] == line);
    crate::text::lemma_concat_part(lines, i);
    let q = concat(lines.take(i)).len() as int;
    let p = 8 + q;
    let out = css_variables(items);
    assert(out == ":root {\n"@ + concat(lines) + "}"@);
    assert(out.subrange(p, p + line.len()) =~= concat(lines).subrange(q, q + line.len()));
}

/// Non-colour cards have no place in the Tailwind config: putting one
/// anywhere among the cards leaves the config as it was, so each colour's key
/// does not depend on the cards around it that are not colours.
pub proof fn lemma_tailwind_ignores_other_cards(cards: Seq<CardView>, k: int, c: CardView)
    requires
        0 <= k <= cards.len(),
        !(c is Color),
    ensures
        tailwind_config(cards.insert(k, c)) == tailwind_config(cards),
{
    lemma_color_items_insert(cards, k, c);
}

proof fn lemma_color_items_insert(cards: Seq<CardView>, k: int, c: CardView)
    requires
        0 <= k <= cards.len(),
        !(c is Color),
    ensures
        color_items(cards.insert(k, c)) == color_items(cards),
    decreases cards.len(),
{
    let ins = cards.insert(k, c);
    if k == cards.len() {
        assert(ins.drop_last() =~= cards);
        assert(ins.last() == c);
    } else {
        assert(ins.drop_last() =~= cards.drop_last().insert(k, c));
        assert(ins.last() == cards.last());
        lemma_color_items_insert(cards.drop_last(), k, c);
    }
}

/// Each colour card is an entry `'<slug>': '<hex>'` of the Tailwind colours,
/// keyed by the de-duplicated slug of its own name among the colour cards and
/// valued by exactly its hex text.
pub proof fn lemma_tailwind_declares_color(cards: Seq<CardView>, i: int)
    requires
        0 <= i < color_items(cards).len(),
    ensures
        exists|p: int|
            0 <= p && p + ("      '"@ + item_slugs(color_items(cards))[i] + "': '"@ + color_items(
                cards,
            )[i].hex + "',\n"@).len() <= tailwind_config(cards).len()
                && #[trigger] tailwind_config(cards).subrange(
                p,
                p + ("      '"@ + item_slugs(color_items(cards))[i] + "': '"@ + color_items(
                    cards,
                )[i].hex + "',\n"@).len(),
            ) == "      '"@ + item_slugs(color_items(cards))[i] + "': '"@ + color_items(
                cards,
            )[i].hex + "',\n"@,
{
    let items = color_items(cards);
    let head = "/** @type {import('tailwindcss').Config} */\nmodule.exports = {\n  theme: {\n    colors: {\n"@;
    let lines = Seq::new(items.len(), |t: int| tailwind_line(item_slugs(items)[t], items[t].hex));
    let line = "      '"@ + item_slugs(items)[i] + "': '"@ + items[i].hex + "',\n"@;
    assert(lines[i] == line);
    crate::text::lemma_concat_part(lines, i);
    let q = concat(lines.take(i)).len() as int;
    let p = head.len() + q;
    let out = tailwind_config(cards);
    assert(out == head + concat(lines) + "    },\n  },\n};\n"@);
    assert(out.subrange(p, p + line.len()) =~= concat(lines).subrange(q, q + line.len()));
}

} // verus!

