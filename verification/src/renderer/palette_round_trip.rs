//! Exporting colour cards as a GIMP palette and importing the palette back
//! gives the binder of the same colours, under the palette's name.
use vstd::prelude::*;
use crate::text::{
    concat, dec_digit, decimal, find_from, is_ws, lines, pad_left, runs, split_by, trim_seq,
    ws_fields,
};
use crate::token::{digits_value, is_digit_char, parse_u8, unsigned_digits};
use super::{color_items, gimp_palette, gpl_line, CardView, ItemView};
use super::import::{gpl_entry, gpl_item, gpl_markdown, gpl_run, gpl_step, GplState};
use crate::text::{join, starts_with};

verus! {

// ── Lines of a text made of terminated lines ─────────────────────────────────

/// Each piece followed by a line feed.
pub open spec fn terminated(ps: Seq<Seq<char>>) -> Seq<char> {
    concat(ps.map_values(|p: Seq<char>| p + seq!['\n']))
}

/// A line without its final carriage return, as `str::lines` gives it.
pub open spec fn without_cr(p: Seq<char>) -> Seq<char> {
    if p.len() > 0 && p.last() == '\r' {
        p.drop_last()
    } else {
        p
    }
}

#[verifier::spinoff_prover]
#[verifier::rlimit(40)]
proof fn lemma_split_extend(s: Seq<char>, y: Seq<char>)
    requires
        !y.contains('\n'),
    ensures
        split_by(s + y, seq!['\n']) == split_by(s, seq!['\n']).update(
            split_by(s, seq!['\n']).len() - 1,
            split_by(s, seq!['\n']).last() + y,
        ),
        split_by(s + y, seq!['\n']).len() == split_by(s, seq!['\n']).len(),
    decreases y.len(),
{
    lemma_split_nonempty(s);
    if y.len() == 0 {
        assert(s + y =~= s);
        assert(split_by(s, seq!['\n']).last() + y =~= split_by(s, seq!['\n']).last());
        assert(split_by(s, seq!['\n']).update(
            split_by(s, seq!['\n']).len() - 1,
            split_by(s, seq!['\n']).last(),
        ) =~= split_by(s, seq!['\n']));
    } else {
        let y1 = y.drop_last();
        assert(!y1.contains('\n')) by {
            if y1.contains('\n') {
                let k = choose|k: int| 0 <= k < y1.len() && y1[k] == '\n';
                assert(y[k] == '\n');
            }
        }
        lemma_split_extend(s, y1);
        assert((s + y).drop_last() =~= s + y1);
        assert((s + y).last() == y.last());
        assert(y.last() != '\n') by {
            assert(y[y.len() - 1] == y.last());
        }
        assert(!seq!['\n'].contains(y.last()));
        let prev = split_by(s + y1, seq!['\n']);
        lemma_split_nonempty(s + y1);
        assert(split_by(s + y, seq!['\n']) == prev.update(prev.len() - 1, prev.last().push(y.last())));
        assert(split_by(s, seq!['\n']).last() + y =~= (split_by(s, seq!['\n']).last() + y1).push(
            y.last(),
        ));
        assert(split_by(s + y, seq!['\n']) =~= split_by(s, seq!['\n']).update(
            split_by(s, seq!['\n']).len() - 1,
            split_by(s, seq!['\n']).last() + y,
        ));
    }
}

proof fn lemma_split_nonempty(s: Seq<char>)
    ensures
        split_by(s, seq!['\n']).len() >= 1,
    decreases s.len(),
{
    if s.len() > 0 {
        lemma_split_nonempty(s.drop_last());
    }
}

#[verifier::spinoff_prover]
#[verifier::rlimit(40)]
proof fn lemma_split_terminated(ps: Seq<Seq<char>>)
    requires
        forall|i: int| 0 <= i < ps.len() ==> !(#[trigger] ps[i]).contains('\n'),
    ensures
        split_by(terminated(ps), seq!['\n']) == ps.push(Seq::<char>::empty()),
    decreases ps.len(),
{
    if ps.len() == 0 {
        assert(terminated(ps) =~= Seq::<char>::empty());
        assert(split_by(Seq::<char>::empty(), seq!['\n']) =~= seq![Seq::<char>::empty()]);
        assert(ps.push(Seq::<char>::empty()) =~= seq![Seq::<char>::empty()]);
    } else {
        let front = ps.drop_last();
        let p = ps.last();
        assert forall|i: int| 0 <= i < front.len() implies !(#[trigger] front[i]).contains('\n') by {
            assert(front[i] == ps[i]);
        }
        lemma_split_terminated(front);
        assert(ps.map_values(|q: Seq<char>| q + seq!['\n']).drop_last() =~= front.map_values(
            |q: Seq<char>| q + seq!['\n'],
        ));
        assert(terminated(ps) == terminated(front) + (p + seq!['\n']));
        assert(terminated(ps) =~= (terminated(front) + p).push('\n'));
        assert(!p.contains('\n')) by {
            assert(ps[ps.len() - 1] == p);
        }
        lemma_split_extend(terminated(front), p);
        let sp = split_by(terminated(front) + p, seq!['\n']);
        assert((terminated(front) + p).push('\n').drop_last() =~= terminated(front) + p);
        assert(seq!['\n'].contains('\n')) by {
            assert(seq!['\n'][0] == '\n');
        }
        assert(split_by(terminated(ps), seq!['\n']) == sp.push(Seq::<char>::empty()));
        assert(Seq::<char>::empty() + p =~= p);
        assert(sp =~= front.push(p));
        assert(front.push(p) =~= ps);
    }
}

/// The lines of a text of line-feed terminated pieces are the pieces, each
/// without a final carriage return.
proof fn lemma_lines_terminated(ps: Seq<Seq<char>>)
    requires
        forall|i: int| 0 <= i < ps.len() ==> !(#[trigger] ps[i]).contains('\n'),
    ensures
        lines(terminated(ps)) == ps.map_values(|p: Seq<char>| without_cr(p)),
{
    lemma_split_terminated(ps);
    let parts = ps.push(Seq::<char>::empty());
    assert(parts.last().len() == 0);
    assert(lines(terminated(ps)) =~= ps.map_values(|p: Seq<char>| without_cr(p)));
}

// ── Trimming ─────────────────────────────────────────────────────────────────

proof fn lemma_trim_drop_ws(s: Seq<char>)
    requires
        s.len() > 0,
        is_ws(s.last()),
    ensures
        trim_seq(s.drop_last()) == trim_seq(s),
    decreases s.len(),
{
    if is_ws(s[0]) {
        if s.len() == 1 {
            assert(s.drop_last() =~= Seq::<char>::empty());
            assert(s.drop_first() =~= Seq::<char>::empty());
        } else {
            assert(s.drop_last().drop_first() =~= s.drop_first().drop_last());
            assert(s.drop_first().last() == s.last());
            lemma_trim_drop_ws(s.drop_first());
        }
    } else {
        assert(s.len() >= 2);
        assert(s.drop_last()[0] == s[0]);
    }
}

proof fn lemma_trim_without_cr(x: Seq<char>)
    ensures
        trim_seq(without_cr(x)) == trim_seq(x),
{
    if x.len() > 0 && x.last() == '\r' {
        lemma_trim_drop_ws(x);
    }
}

// ── Numbers ──────────────────────────────────────────────────────────────────

proof fn lemma_dec_digit(k: nat)
    requires
        k < 10,
    ensures
        dec_digit(k) as nat == k + 48,
        is_digit_char(dec_digit(k)),
{
    assert(((k + 48) as u8) as nat == k + 48);
}

#[verifier::spinoff_prover]
#[verifier::rlimit(40)]
pub(crate) proof fn lemma_decimal_value(n: nat)
    ensures
        decimal(n).len() >= 1,
        forall|i: int| 0 <= i < decimal(n).len() ==> is_digit_char(#[trigger] decimal(n)[i]),
        digits_value(decimal(n)) == n,
        n < 10 ==> decimal(n).len() == 1,
        n < 100 ==> decimal(n).len() <= 2,
        n < 1000 ==> decimal(n).len() <= 3,
    decreases n,
{
    if n >= 10 {
        lemma_decimal_value(n / 10);
        let d = decimal(n);
        assert(d.drop_last() =~= decimal(n / 10));
        lemma_dec_digit(n % 10);
        assert forall|i: int| 0 <= i < d.len() implies is_digit_char(#[trigger] d[i]) by {
            if i < d.len() - 1 {
                assert(d[i] == decimal(n / 10)[i]);
            }
        }
        assert(d.last() == dec_digit(n % 10));
        assert(digits_value(d) == digits_value(d.drop_last()) * 10 + (d.last() as nat - 48) as nat);
        assert(digits_value(d) == (n / 10) * 10 + (n % 10));
        vstd::arithmetic::div_mod::lemma_fundamental_div_mod(n as int, 10);
    } else {
        lemma_dec_digit(n);
        assert(decimal(n).drop_last() =~= Seq::<char>::empty());
        assert(digits_value(Seq::<char>::empty()) == 0);
        assert(decimal(n).last() == dec_digit(n));
    }
}

proof fn lemma_parse_decimal(x: u8)
    ensures
        parse_u8(decimal(x as nat)) == Some(x),
{
    lemma_decimal_value(x as nat);
    let d = decimal(x as nat);
    assert(unsigned_digits(d) == d);
}

// ── Whitespace-separated fields ──────────────────────────────────────────────

/// `k` spaces.
pub open spec fn spaces(k: nat) -> Seq<char> {
    Seq::new(k, |i: int| ' ')
}

proof fn lemma_runs_nonempty(s: Seq<char>, sep: spec_fn(char) -> bool)
    requires
        s.len() > 0,
        !sep(s.last()),
    ensures
        runs(s, sep).len() > 0,
    decreases s.len(),
{
    if s.len() >= 2 && !sep(s[s.len() - 2]) {
        assert(s.drop_last().last() == s[s.len() - 2]);
        lemma_runs_nonempty(s.drop_last(), sep);
    }
}

#[verifier::spinoff_prover]
#[verifier::rlimit(40)]
proof fn lemma_runs_concat(x: Seq<char>, y: Seq<char>, sep: spec_fn(char) -> bool)
    requires
        x.len() == 0 || sep(x.last()),
    ensures
        runs(x + y, sep) == runs(x, sep) + runs(y, sep),
    decreases y.len(),
{
    if y.len() == 0 {
        assert(x + y =~= x);
        assert(runs(y, sep) =~= Seq::<Seq<char>>::empty());
        assert(runs(x, sep) + runs(y, sep) =~= runs(x, sep));
    } else {
        let y1 = y.drop_last();
        let c = y.last();
        lemma_runs_concat(x, y1, sep);
        assert((x + y).drop_last() =~= x + y1);
        assert((x + y).last() == c);
        if x.len() == 0 {
            assert(x + y =~= y);
            assert(runs(x, sep) =~= Seq::<Seq<char>>::empty());
            assert(runs(x, sep) + runs(y, sep) =~= runs(y, sep));
        } else if sep(c) {
        } else if y1.len() >= 1 && !sep(y1.last()) {
            lemma_runs_nonempty(y1, sep);
            assert((x + y)[(x + y).len() - 2] == y1.last());
            assert(y[y.len() - 2] == y1.last());
            let a = runs(x, sep);
            let b = runs(y1, sep);
            assert((a + b).update((a + b).len() - 1, (a + b).last().push(c)) =~= a + b.update(
                b.len() - 1,
                b.last().push(c),
            ));
        } else {
            if y1.len() >= 1 {
                assert((x + y)[(x + y).len() - 2] == y1.last());
                assert(y[y.len() - 2] == y1.last());
            } else {
                assert((x + y)[(x + y).len() - 2] == x.last());
            }
            assert((runs(x, sep) + runs(y1, sep)).push(seq![c]) =~= runs(x, sep) + runs(y1, sep).push(
                seq![c],
            ));
        }
    }
}

proof fn lemma_runs_all_sep(s: Seq<char>, sep: spec_fn(char) -> bool)
    requires
        forall|i: int| 0 <= i < s.len() ==> sep(#[trigger] s[i]),
    ensures
        runs(s, sep) == Seq::<Seq<char>>::empty(),
    decreases s.len(),
{
    if s.len() > 0 {
        assert(sep(s[s.len() - 1]));
        lemma_runs_all_sep(s.drop_last(), sep);
    }
}

proof fn lemma_runs_word(s: Seq<char>, sep: spec_fn(char) -> bool)
    requires
        s.len() > 0,
        forall|i: int| 0 <= i < s.len() ==> !sep(#[trigger] s[i]),
    ensures
        runs(s, sep) == seq![s],
    decreases s.len(),
{
    assert(!sep(s[s.len() - 1]));
    if s.len() == 1 {
        assert(s.drop_last() =~= Seq::<char>::empty());
        assert(runs(s.drop_last(), sep) =~= Seq::<Seq<char>>::empty());
        assert(seq![s.last()] =~= s);
        assert(Seq::<Seq<char>>::empty().push(seq![s.last()]) =~= seq![s]);
    } else {
        lemma_runs_word(s.drop_last(), sep);
        assert(!sep(s[s.len() - 2]));
        assert(s.drop_last().push(s.last()) =~= s);
        assert(seq![s.drop_last()].update(0, s.drop_last().push(s.last())) =~= seq![s]);
    }
}

proof fn lemma_pad3(d: Seq<char>)
    requires
        d.len() <= 3,
    ensures
        pad_left(d, 3) == spaces((3 - d.len()) as nat) + d,
        pad_left(d, 3).len() == 3,
{
    if d.len() == 3 {
        assert(spaces(0) + d =~= d);
    } else {
        assert(pad_left(d, 3) =~= spaces((3 - d.len()) as nat) + d);
    }
}

#[verifier::spinoff_prover]
#[verifier::rlimit(40)]
proof fn lemma_padded_field(x: u8)
    ensures
        ws_fields(pad_left(decimal(x as nat), 3) + seq![' ']) == seq![decimal(x as nat)],
        ws_fields(pad_left(decimal(x as nat), 3)) == seq![decimal(x as nat)],
        pad_left(decimal(x as nat), 3).len() == 3,
        forall|i: int|
            0 <= i < 3 ==> #[trigger] pad_left(decimal(x as nat), 3)[i] == ' ' || is_digit_char(
                pad_left(decimal(x as nat), 3)[i],
            ),
{
    let d = decimal(x as nat);
    lemma_decimal_value(x as nat);
    lemma_pad3(d);
    let sp = spaces((3 - d.len()) as nat);
    let f = |c: char| is_ws(c);
    assert forall|i: int| 0 <= i < sp.len() implies f(#[trigger] sp[i]) by {}
    lemma_runs_all_sep(sp, f);
    assert forall|i: int| 0 <= i < d.len() implies !f(#[trigger] d[i]) by {
        assert(is_digit_char(d[i]));
    }
    lemma_runs_word(d, f);
    lemma_runs_concat(sp, d, f);
    assert(Seq::<Seq<char>>::empty() + seq![d] =~= seq![d]);
    let pd = pad_left(d, 3);
    assert(ws_fields(pd) == runs(pd, f));
    assert((pd + seq![' ']).drop_last() =~= pd);
    assert(ws_fields(pd + seq![' ']) == runs(pd + seq![' '], f));
    assert forall|i: int| 0 <= i < 3 implies #[trigger] pd[i] == ' ' || is_digit_char(pd[i]) by {
        if i < sp.len() {
        } else {
            assert(pd[i] == d[i - sp.len()]);
        }
    }
}

/// The three padded channel numbers of a palette line.
pub open spec fn channels(it: ItemView) -> Seq<char> {
    pad_left(decimal(it.r as nat), 3) + " "@ + pad_left(decimal(it.g as nat), 3) + " "@ + pad_left(
        decimal(it.b as nat),
        3,
    )
}

/// A palette line without its line feed.
pub open spec fn gpl_body(it: ItemView) -> Seq<char> {
    channels(it) + "\t"@ + it.name
}

#[verifier::spinoff_prover]
#[verifier::rlimit(40)]
proof fn lemma_channel_fields(it: ItemView)
    ensures
        ws_fields(channels(it)) == seq![
            decimal(it.r as nat),
            decimal(it.g as nat),
            decimal(it.b as nat),
        ],
        channels(it).len() == 11,
        forall|i: int| 0 <= i < 11 ==> #[trigger] channels(it)[i] == ' ' || is_digit_char(
            channels(it)[i],
        ),
{
    reveal_strlit(" ");
    let pr = pad_left(decimal(it.r as nat), 3);
    let pg = pad_left(decimal(it.g as nat), 3);
    let pb = pad_left(decimal(it.b as nat), 3);
    lemma_padded_field(it.r);
    lemma_padded_field(it.g);
    lemma_padded_field(it.b);
    let f = |c: char| is_ws(c);
    let c = channels(it);
    assert(c =~= (pr + seq![' ']) + ((pg + seq![' ']) + pb));
    lemma_runs_concat(pr + seq![' '], (pg + seq![' ']) + pb, f);
    lemma_runs_concat(pg + seq![' '], pb, f);
    assert(ws_fields(c) == runs(c, f));
    assert(ws_fields(pr + seq![' ']) == runs(pr + seq![' '], f));
    assert(ws_fields(pg + seq![' ']) == runs(pg + seq![' '], f));
    assert(ws_fields(pb) == runs(pb, f));
    assert(seq![decimal(it.r as nat)] + (seq![decimal(it.g as nat)] + seq![decimal(it.b as nat)])
        =~= seq![decimal(it.r as nat), decimal(it.g as nat), decimal(it.b as nat)]);
    assert forall|i: int| 0 <= i < 11 implies #[trigger] c[i] == ' ' || is_digit_char(c[i]) by {
        if i < 3 {
            assert(c[i] == pr[i]);
        } else if i == 3 {
        } else if i < 7 {
            assert(c[i] == pg[i - 4]);
        } else if i == 7 {
        } else {
            assert(c[i] == pb[i - 8]);
        }
    }
}

proof fn lemma_find_char(s: Seq<char>, c: char, from: int, k: int)
    requires
        0 <= from <= k < s.len(),
        s[k] == c,
        forall|j: int| from <= j < k ==> s[j] != c,
    ensures
        find_from(s, seq![c], from) == Some(k),
    decreases k - from,
{
    if from < k {
        assert(s.subrange(from, from + 1)[0] == s[from]);
        lemma_find_char(s, c, from + 1, k);
    } else {
        assert(s.subrange(k, k + 1) =~= seq![c]);
    }
}

/// A palette line reads back as the list item of its colour, named by the
/// trimmed card name.
#[verifier::spinoff_prover]
#[verifier::rlimit(40)]
proof fn lemma_gpl_entry(it: ItemView)
    requires
        !it.name.contains('\n'),
    ensures
        gpl_entry(without_cr(gpl_body(it))) == Some(gpl_item(trim_seq(it.name), it.r, it.g, it.b)),
{
    reveal_strlit("\t");
    lemma_channel_fields(it);
    lemma_parse_decimal(it.r);
    lemma_parse_decimal(it.g);
    lemma_parse_decimal(it.b);
    let ch = channels(it);
    let body = gpl_body(it);
    let l = without_cr(body);
    assert(body =~= ch + seq!['\t'] + it.name);
    let name_l = without_cr(it.name);
    assert(l =~= ch + seq!['\t'] + name_l);
    assert(l[11] == '\t');
    assert forall|j: int| 0 <= j < 11 implies l[j] != '\t' by {
        assert(l[j] == ch[j]);
    }
    lemma_find_char(l, '\t', 0, 11);
    assert(l.take(11) =~= ch);
    assert(l.skip(12) =~= name_l);
    lemma_trim_without_cr(it.name);
}

// ── The palette file ─────────────────────────────────────────────────────────

#[verifier::spinoff_prover]
#[verifier::rlimit(40)]
proof fn lemma_terminated_append(a: Seq<Seq<char>>, b: Seq<Seq<char>>)
    ensures
        terminated(a + b) == terminated(a) + terminated(b),
    decreases b.len(),
{
    let f = |p: Seq<char>| p + seq!['\n'];
    if b.len() == 0 {
        assert(a + b =~= a);
        assert(terminated(b) =~= Seq::<char>::empty());
        assert(terminated(a) + terminated(b) =~= terminated(a));
    } else {
        lemma_terminated_append(a, b.drop_last());
        assert((a + b).map_values(f).drop_last() =~= (a + b.drop_last()).map_values(f));
        assert(b.map_values(f).drop_last() =~= b.drop_last().map_values(f));
        assert((a + b).map_values(f).last() == b.map_values(f).last());
        assert(terminated(a) + terminated(b) =~= terminated(a) + terminated(b.drop_last())
            + b.map_values(f).last());
    }
}

#[verifier::spinoff_prover]
#[verifier::rlimit(40)]
proof fn lemma_card_lines(cards: Seq<CardView>)
    ensures
        concat(cards.map_values(|c: CardView| gpl_line(c))) == terminated(
            color_items(cards).map_values(|it: ItemView| gpl_body(it)),
        ),
    decreases cards.len(),
{
    reveal_strlit("\n");
    let g = |c: CardView| gpl_line(c);
    let h = |it: ItemView| gpl_body(it);
    if cards.len() == 0 {
        assert(cards.map_values(g) =~= Seq::<Seq<char>>::empty());
        assert(color_items(cards).map_values(h) =~= Seq::<Seq<char>>::empty());
        assert(terminated(Seq::<Seq<char>>::empty()) =~= Seq::<char>::empty());
    } else {
        let front = cards.drop_last();
        lemma_card_lines(front);
        assert(cards.map_values(g).drop_last() =~= front.map_values(g));
        match cards.last() {
            CardView::Color(it) => {
                assert(color_items(cards) == color_items(front).push(it));
                assert(color_items(cards).map_values(h) =~= color_items(front).map_values(h).push(
                    gpl_body(it),
                ));
                lemma_terminated_append(color_items(front).map_values(h), seq![gpl_body(it)]);
                assert(color_items(front).map_values(h) + seq![gpl_body(it)]
                    =~= color_items(front).map_values(h).push(gpl_body(it)));
                let m = seq![gpl_body(it)].map_values(|p: Seq<char>| p + seq!['\n']);
                assert(m.drop_last() =~= Seq::<Seq<char>>::empty());
                assert(concat(m.drop_last()) =~= Seq::<char>::empty());
                assert(m.last() == gpl_body(it) + seq!['\n']);
                assert(terminated(seq![gpl_body(it)]) == concat(m));
                assert(concat(m) =~= gpl_body(it) + seq!['\n']);
                assert(gpl_line(cards.last()) =~= gpl_body(it) + seq!['\n']);
            },
            _ => {
                assert(color_items(cards) == color_items(front));
                assert(gpl_line(cards.last()) =~= Seq::<char>::empty());
                assert(concat(cards.map_values(g)) =~= concat(front.map_values(g)));
            },
        }
    }
}

/// The header lines of a palette named `name`.
pub open spec fn gpl_header(name: Seq<char>) -> Seq<Seq<char>> {
    seq!["GIMP Palette"@, "Name: "@ + name, "Columns: 5"@, seq!['#']]
}

proof fn lemma_terminated_single(x: Seq<char>)
    ensures
        terminated(seq![x]) == x + seq!['\n'],
{
    let m = seq![x].map_values(|p: Seq<char>| p + seq!['\n']);
    assert(m.drop_last() =~= Seq::<Seq<char>>::empty());
    assert(concat(m.drop_last()) =~= Seq::<char>::empty());
    assert(m.last() == x + seq!['\n']);
    assert(concat(m) =~= x + seq!['\n']);
}

proof fn lemma_header_literals()
    ensures
        "GIMP Palette\n"@ =~= "GIMP Palette"@ + seq!['\n'],
        "Columns: 5\n#\n"@ =~= "Columns: 5"@ + seq!['\n'] + (seq!['#'] + seq!['\n']),
        "\n"@ =~= seq!['\n'],
{
    reveal_strlit("GIMP Palette\n");
    reveal_strlit("GIMP Palette");
    reveal_strlit("\n");
    reveal_strlit("Columns: 5\n#\n");
    reveal_strlit("Columns: 5");
}

#[verifier::spinoff_prover]
#[verifier::rlimit(40)]
proof fn lemma_header_text(name: Seq<char>)
    ensures
        terminated(gpl_header(name)) == "GIMP Palette\n"@ + "Name: "@ + name + "\n"@
            + "Columns: 5\n#\n"@,
{
    let h = gpl_header(name);
    let a = seq![h[0]];
    let b = seq![h[1]];
    let c = seq![h[2]];
    let d = seq![h[3]];
    assert(h =~= a + b + c + d);
    lemma_terminated_append(a + b + c, d);
    lemma_terminated_append(a + b, c);
    lemma_terminated_append(a, b);
    lemma_terminated_single(h[0]);
    lemma_terminated_single(h[1]);
    lemma_terminated_single(h[2]);
    lemma_terminated_single(h[3]);
    lemma_header_literals();
    assert(terminated(h) =~= "GIMP Palette\n"@ + "Name: "@ + name + "\n"@ + "Columns: 5\n#\n"@);
}

#[verifier::spinoff_prover]
#[verifier::rlimit(40)]
proof fn lemma_palette_lines(cards: Seq<CardView>, name: Seq<char>)
    ensures
        gimp_palette(cards, name) == terminated(
            gpl_header(name) + color_items(cards).map_values(|it: ItemView| gpl_body(it)),
        ),
{
    let bodies = color_items(cards).map_values(|it: ItemView| gpl_body(it));
    lemma_card_lines(cards);
    lemma_terminated_append(gpl_header(name), bodies);
    lemma_header_text(name);
}

/// The palette binder entry of a colour.
pub open spec fn palette_entry(it: ItemView) -> Seq<char> {
    gpl_item(trim_seq(it.name), it.r, it.g, it.b)
}

proof fn lemma_first_char_differs(s: Seq<char>, p: Seq<char>)
    requires
        s.len() > 0,
        p.len() > 0,
        s[0] != p[0],
    ensures
        !starts_with(s, p),
{
    if p.len() <= s.len() {
        assert(s.take(p.len() as int)[0] == s[0]);
    }
}

#[verifier::spinoff_prover]
#[verifier::rlimit(40)]
proof fn lemma_header_run(ls: Seq<Seq<char>>, name: Seq<char>)
    requires
        ls.len() >= 4,
        ls[0] == without_cr("GIMP Palette"@),
        ls[1] == without_cr("Name: "@ + name),
        ls[2] == without_cr("Columns: 5"@),
        ls[3] == without_cr(seq!['#']),
    ensures
        gpl_run(ls, 4) == (GplState {
            name: trim_seq(name),
            entries: Seq::<Seq<char>>::empty(),
            in_colors: true,
        }),
{
    reveal_strlit("GIMP Palette");
    reveal_strlit("Name: ");
    reveal_strlit("Columns: 5");
    reveal_strlit("Columns:");
    reveal_strlit("Imported Palette");
    let init = GplState {
        name: "Imported Palette"@,
        entries: Seq::<Seq<char>>::empty(),
        in_colors: false,
    };
    assert(gpl_run(ls, 0) == init);
    assert(ls[0] =~= "GIMP Palette"@);
    assert(ls[0].take(12) =~= "GIMP Palette"@);
    assert(gpl_run(ls, 1) == init);
    let l1 = ls[1];
    let full = "Name: "@ + name;
    lemma_first_char_differs(l1, "GIMP Palette"@);
    lemma_first_char_differs(l1, "Columns:"@);
    assert(l1.take(6) =~= "Name: "@);
    assert(l1.skip(6) =~= without_cr(name));
    lemma_trim_without_cr(name);
    let st2 = GplState { name: trim_seq(name), ..init };
    assert(gpl_run(ls, 2) == st2);
    assert(ls[2] =~= "Columns: 5"@);
    lemma_first_char_differs(ls[2], "GIMP Palette"@);
    assert(ls[2].take(8) =~= "Columns:"@);
    assert(gpl_run(ls, 3) == st2);
    assert(ls[3] =~= seq!['#']);
    assert(!starts_with(ls[3], "GIMP Palette"@));
    assert(!starts_with(ls[3], "Columns:"@));
    assert(!starts_with(ls[3], "Name: "@));
    assert(gpl_run(ls, 4) == GplState { in_colors: true, ..st2 });
}

#[verifier::spinoff_prover]
#[verifier::rlimit(40)]
proof fn lemma_body_step(st: GplState, it: ItemView)
    requires
        st.in_colors,
        !it.name.contains('\n'),
    ensures
        gpl_step(st, without_cr(gpl_body(it))) == (GplState {
            entries: st.entries.push(palette_entry(it)),
            ..st
        }),
{
    reveal_strlit("GIMP Palette");
    reveal_strlit("Name: ");
    reveal_strlit("Columns:");
    reveal_strlit("\t");
    lemma_channel_fields(it);
    lemma_gpl_entry(it);
    let l = without_cr(gpl_body(it));
    assert(gpl_body(it) =~= channels(it) + seq!['\t'] + it.name);
    assert(l.len() >= 12);
    assert(l[0] == channels(it)[0]);
    assert(channels(it)[0] == ' ' || is_digit_char(channels(it)[0]));
    lemma_first_char_differs(l, "GIMP Palette"@);
    lemma_first_char_differs(l, "Columns:"@);
    lemma_first_char_differs(l, "Name: "@);
}

#[verifier::spinoff_prover]
#[verifier::rlimit(40)]
proof fn lemma_body_run(ls: Seq<Seq<char>>, items: Seq<ItemView>, name: Seq<char>, j: int)
    requires
        ls.len() == 4 + items.len(),
        forall|k: int| 0 <= k < items.len() ==> ls[4 + k] == without_cr(gpl_body(#[trigger] items[k])),
        forall|k: int| 0 <= k < items.len() ==> !(#[trigger] items[k]).name.contains('\n'),
        gpl_run(ls, 4) == (GplState {
            name: trim_seq(name),
            entries: Seq::<Seq<char>>::empty(),
            in_colors: true,
        }),
        0 <= j <= items.len(),
    ensures
        gpl_run(ls, (4 + j) as nat) == (GplState {
            name: trim_seq(name),
            entries: items.take(j).map_values(|it: ItemView| palette_entry(it)),
            in_colors: true,
        }),
    decreases j,
{
    if j == 0 {
        assert(items.take(0).map_values(|it: ItemView| palette_entry(it)) =~= Seq::<Seq<char>>::empty());
    } else {
        lemma_body_run(ls, items, name, j - 1);
        let it = items[j - 1];
        assert(ls[4 + (j - 1)] == without_cr(gpl_body(it)));
        lemma_body_step(gpl_run(ls, (4 + j - 1) as nat), it);
        assert(items.take(j).map_values(|it: ItemView| palette_entry(it)) =~= items.take(j - 1).map_values(
            |it: ItemView| palette_entry(it),
        ).push(palette_entry(it)));
    }
}

/// Exporting colour cards as a GIMP palette named `name` and importing that
/// palette gives the binder headed by the trimmed palette name, listing each
/// colour card in order as `- **Name** — \`#rrggbb\``, named by its trimmed
/// card name. Names must not hold line feeds, which would split their lines.
#[verifier::spinoff_prover]
#[verifier::rlimit(40)]
pub proof fn lemma_gpl_round_trip(cards: Seq<CardView>, name: Seq<char>)
    requires
        !name.contains('\n'),
        forall|i: int|
            0 <= i < color_items(cards).len() ==> !(#[trigger] color_items(cards)[i]).name.contains(
                '\n',
            ),
    ensures
        gpl_markdown(gimp_palette(cards, name)) == "# "@ + trim_seq(name) + "\n\n"@ + join(
            color_items(cards).map_values(|it: ItemView| palette_entry(it)),
            "\n"@,
        ) + "\n"@,
{
    reveal_strlit("GIMP Palette");
    reveal_strlit("Name: ");
    reveal_strlit("Columns: 5");
    reveal_strlit("\t");
    let items = color_items(cards);
    let bodies = items.map_values(|it: ItemView| gpl_body(it));
    let ps = gpl_header(name) + bodies;
    lemma_palette_lines(cards, name);
    assert forall|i: int| 0 <= i < ps.len() implies !(#[trigger] ps[i]).contains('\n') by {
        if i >= 4 {
            let it = items[i - 4];
            assert(ps[i] == gpl_body(it));
            lemma_channel_fields(it);
            assert(gpl_body(it) =~= channels(it) + seq!['\t'] + it.name);
            if gpl_body(it).contains('\n') {
                let k = choose|k: int| 0 <= k < gpl_body(it).len() && gpl_body(it)[k] == '\n';
                if k < 11 {
                    assert(gpl_body(it)[k] == channels(it)[k]);
                } else if k > 11 {
                    assert(gpl_body(it)[k] == it.name[k - 12]);
                }
            }
        } else if i == 1 {
            if ps[1].contains('\n') {
                let k = choose|k: int| 0 <= k < ps[1].len() && ps[1][k] == '\n';
                if k >= 6 {
                    assert(ps[1][k] == name[k - 6]);
                }
            }
        }
    }
    lemma_lines_terminated(ps);
    let ls = lines(terminated(ps));
    assert(ls == ps.map_values(|p: Seq<char>| without_cr(p)));
    lemma_header_run(ls, name);
    assert forall|k: int| 0 <= k < items.len() implies ls[4 + k] == without_cr(
        gpl_body(#[trigger] items[k]),
    ) by {
        assert(ps[4 + k] == bodies[k]);
    }
    lemma_body_run(ls, items, name, items.len() as int);
    assert(items.take(items.len() as int) =~= items);
}

} // verus!
