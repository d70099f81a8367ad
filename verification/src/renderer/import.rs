//! Importers: GIMP palettes and W3C Design Tokens JSON to Markdown binders.
use vstd::prelude::*;
use crate::text::{
    chars_of, find, find_in, has_prefix, hex_byte, is_ws, join, lines, push_char, push_chars,
    push_hex_byte, push_str, slice_of, split_by, split_on, split_ws, starts_with, string_of,
    trim, trim_seq, views, ws_fields,
};
use crate::token::{parse_u8, parse_u8_exec};
use super::json::{is_json, is_json_text};

verus! {

// ── Lines ────────────────────────────────────────────────────────────────────

/// `str::lines`.
pub fn lines_of(v: &Vec<char>) -> (r: Vec<Vec<char>>)
    ensures
        views(r@) == lines(v@),
{
    let mut nl: Vec<char> = Vec::new();
    nl.push('\n');
    assert(nl@ =~= seq!['\n']);
    let parts = split_on(v, &nl);
    let ghost ps = views(parts@);
    let n = if parts[parts.len() - 1].len() == 0 {
        parts.len() - 1
    } else {
        parts.len()
    };
    let mut out: Vec<Vec<char>> = Vec::new();
    let mut i: usize = 0;
    while i < n
        invariant
            i <= n <= parts.len(),
            ps == views(parts@),
            ps == crate::text::split_by(v@, seq!['\n']),
            n == (if ps.last().len() == 0 {
                ps.len() - 1
            } else {
                ps.len() as int
            }),
            views(out@) =~= lines(v@).take(i as int),
        decreases n - i,
    {
        let piece = &parts[i];
        let ghost before = views(out@);
        assert(ps[i as int] == piece@);
        assert(lines(v@).len() == n);
        if i + 1 < parts.len() && piece.len() > 0 && piece[piece.len() - 1] == '\r' {
            let cut = slice_of(piece, 0, piece.len() - 1);
            assert(cut@ =~= ps[i as int].drop_last());
            out.push(cut);
        } else {
            let whole = slice_of(piece, 0, piece.len());
            assert(whole@ =~= ps[i as int]);
            out.push(whole);
        }
        let ghost item = if i < ps.len() - 1 && ps[i as int].len() > 0 && ps[i as int].last()
            == '\r' {
            ps[i as int].drop_last()
        } else {
            ps[i as int]
        };
        assert(out@.last()@ == item);
        assert(lines(v@)[i as int] == item);
        assert(views(out@) =~= before.push(item));
        assert(views(out@) =~= lines(v@).take(i + 1));
        i = i + 1;
    }
    out
}

// ── GIMP palette import ──────────────────────────────────────────────────────

/// The state of a palette import between lines.
pub struct GplState {
    pub name: Seq<char>,
    pub entries: Seq<Seq<char>>,
    pub in_colors: bool,
}

/// The Markdown list item for a palette colour.
pub open spec fn gpl_item(name: Seq<char>, r: u8, g: u8, b: u8) -> Seq<char> {
    "- **"@ + name + "** — `#"@ + hex_byte(r) + hex_byte(g) + hex_byte(b) + "`"@
}

/// A colour line `R G B<tab>Name`: at least three whitespace-separated `u8`
/// fields before the first tab; the name is the trimmed text after it.
pub open spec fn gpl_entry(line: Seq<char>) -> Option<Seq<char>> {
    match find(line, seq!['\t']) {
        None => None,
        Some(t) => {
            let fields = ws_fields(line.take(t));
            if fields.len() < 3 {
                None
            } else {
                match (parse_u8(fields[0]), parse_u8(fields[1]), parse_u8(fields[2])) {
                    (Some(r), Some(g), Some(b)) => Some(
                        gpl_item(trim_seq(line.skip(t + 1)), r, g, b),
                    ),
                    _ => None,
                }
            }
        },
    }
}

/// One line of a palette: header lines are skipped, `Name: ` sets the palette
/// name, a `#` line starts the colour section, and colour lines after it add
/// an entry.
pub open spec fn gpl_step(st: GplState, line: Seq<char>) -> GplState {
    if starts_with(line, "GIMP Palette"@) || starts_with(line, "Columns:"@) {
        st
    } else if starts_with(line, "Name: "@) {
        GplState { name: trim_seq(line.skip(6)), ..st }
    } else if line.len() > 0 && line[0] == '#' {
        GplState { in_colors: true, ..st }
    } else if !st.in_colors {
        st
    } else {
        match gpl_entry(line) {
            Some(e) => GplState { entries: st.entries.push(e), ..st },
            None => st,
        }
    }
}

/// The state after the first `n` lines.
pub open spec fn gpl_run(ls: Seq<Seq<char>>, n: nat) -> GplState
    decreases n,
{
    if n == 0 {
        GplState { name: "Imported Palette"@, entries: seq![], in_colors: false }
    } else {
        gpl_step(gpl_run(ls, (n - 1) as nat), ls[n - 1])
    }
}

/// The Markdown binder for a GIMP palette: a heading with the palette name
/// (`Imported Palette` when there is none) and one list item per colour.
pub open spec fn gpl_markdown(content: Seq<char>) -> Seq<char> {
    let st = gpl_run(lines(content), lines(content).len());
    "# "@ + st.name + "\n\n"@ + join(st.entries, "\n"@) + "\n"@
}

fn gpl_entry_exec(line: &Vec<char>) -> (r: Option<Vec<char>>)
    ensures
        match r {
            Some(e) => gpl_entry(line@) == Some(e@),
            None => gpl_entry(line@) is None,
        },
{
    let mut tab: Vec<char> = Vec::new();
    tab.push('\t');
    assert(tab@ =~= seq!['\t']);
    let t = match find_in(line, &tab, 0) {
        Some(t) => t,
        None => return None,
    };
    proof {
        crate::text::lemma_find_from_bounds(line@, tab@, 0);
    }
    assert(t + 1 <= line.len());
    let head = slice_of(line, 0, t);
    assert(head@ =~= line@.take(t as int));
    let fields = split_ws(&head);
    if fields.len() < 3 {
        return None;
    }
    let r = match parse_u8_exec(&fields[0]) {
        Some(v) => v,
        None => return None,
    };
    let g = match parse_u8_exec(&fields[1]) {
        Some(v) => v,
        None => return None,
    };
    let b = match parse_u8_exec(&fields[2]) {
        Some(v) => v,
        None => return None,
    };
    let rest = slice_of(line, t + 1, line.len());
    assert(rest@ =~= line@.skip(t + 1));
    let name = trim(&rest);
    let mut s = String::new();
    push_str(&mut s, "- **");
    push_chars(&mut s, &name);
    push_str(&mut s, "** — `#");
    push_hex_byte(&mut s, r);
    push_hex_byte(&mut s, g);
    push_hex_byte(&mut s, b);
    push_str(&mut s, "`");
    assert(s@ =~= gpl_item(name@, r, g, b));
    Some(chars_of(s.as_str()))
}

/// Parses a GIMP palette (`.gpl`) file into a Markdown binder document.
///
/// Each colour line becomes `- **Name** — \`#rrggbb\``. Non-colour lines are
/// ignored.
pub fn gpl_to_markdown(content: &str) -> (md: String)
    ensures
        md@ == gpl_markdown(content@),
{
    let ls = lines_of(&chars_of(content));
    let ghost lv = views(ls@);
    let gimp = chars_of("GIMP Palette");
    let columns = chars_of("Columns:");
    let name_key = chars_of("Name: ");
    proof {
        reveal_strlit("Name: ");
    }
    let mut name = chars_of("Imported Palette");
    let mut entries: Vec<Vec<char>> = Vec::new();
    let mut in_colors = false;
    let mut i: usize = 0;
    assert(views(entries@) =~= Seq::<Seq<char>>::empty());
    while i < ls.len()
        invariant
            i <= ls.len(),
            lv == views(ls@),
            lv == lines(content@),
            gimp@ == "GIMP Palette"@,
            columns@ == "Columns:"@,
            name_key@ == "Name: "@,
            name_key@.len() == 6,
            gpl_run(lv, i as nat) == (GplState {
                name: name@,
                entries: views(entries@),
                in_colors,
            }),
        decreases ls.len() - i,
    {
        let line = &ls[i];
        assert(lv[i as int] == line@);
        if has_prefix(line, &gimp) || has_prefix(line, &columns) {
        } else if has_prefix(line, &name_key) {
            let rest = slice_of(line, 6, line.len());
            assert(rest@ =~= line@.skip(6));
            name = trim(&rest);
        } else if line.len() > 0 && line[0] == '#' {
            in_colors = true;
        } else if !in_colors {
        } else {
            match gpl_entry_exec(line) {
                Some(e) => {
                    let ghost before = views(entries@);
                    entries.push(e);
                    assert(views(entries@) =~= before.push(e@));
                },
                None => {},
            }
        }
        i = i + 1;
    }
    let mut md = String::new();
    push_str(&mut md, "# ");
    push_chars(&mut md, &name);
    push_str(&mut md, "\n\n");
    let body = crate::renderer::join_with(&entries, '\n');
    proof {
        reveal_strlit("\n");
        assert("\n"@ =~= seq!['\n']);
    }
    push_chars(&mut md, &body);
    push_str(&mut md, "\n");
    md
}

// ── Design Tokens JSON import ────────────────────────────────────────────────

/// The first position at or after `p` that is not whitespace (or the end).
pub open spec fn skip_ws_at(s: Seq<char>, p: int) -> int
    decreases s.len() - p,
{
    if 0 <= p < s.len() && is_ws(s[p]) {
        skip_ws_at(s, p + 1)
    } else {
        p
    }
}

/// The rest of a JSON string from `p`: `\` takes the next character literally,
/// `"` ends the string. The text read and the position after it; `None` and
/// the end when the string is not closed.
pub open spec fn string_body(s: Seq<char>, p: int, acc: Seq<char>, esc: bool) -> (
    Option<Seq<char>>,
    int,
)
    decreases s.len() - p,
{
    if p >= s.len() {
        (None, s.len() as int)
    } else if esc {
        string_body(s, p + 1, acc.push(s[p]), false)
    } else if s[p] == '\\' {
        string_body(s, p + 1, acc, true)
    } else if s[p] == '"' {
        (Some(acc), p + 1)
    } else {
        string_body(s, p + 1, acc.push(s[p]), false)
    }
}

/// A JSON string starting at `p` (which must hold `"`), and the position after
/// what was consumed.
pub open spec fn read_string_at(s: Seq<char>, p: int) -> (Option<Seq<char>>, int) {
    if p >= s.len() {
        (None, p)
    } else if s[p] != '"' {
        (None, p + 1)
    } else {
        string_body(s, p + 1, seq![], false)
    }
}

/// The rest of a bracketed block from `p`, tracking nesting of `open`/`close`
/// outside strings; the block text (brackets included) and the position after
/// its closing bracket, or `None` and the end when it is not closed.
pub open spec fn block_body(
    s: Seq<char>,
    p: int,
    acc: Seq<char>,
    depth: int,
    in_str: bool,
    esc: bool,
    open: char,
    close: char,
) -> (Option<Seq<char>>, int)
    decreases s.len() - p,
{
    if p >= s.len() {
        (None, s.len() as int)
    } else {
        let c = s[p];
        if esc {
            block_body(s, p + 1, acc.push(c), depth, in_str, false, open, close)
        } else if c == '\\' && in_str {
            block_body(s, p + 1, acc.push(c), depth, in_str, true, open, close)
        } else {
            let in2 = if c == '"' {
                !in_str
            } else {
                in_str
            };
            if !in2 && c == open {
                block_body(s, p + 1, acc.push(c), depth + 1, in2, false, open, close)
            } else if !in2 && c == close {
                if depth - 1 == 0 {
                    (Some(acc.push(c)), p + 1)
                } else {
                    block_body(s, p + 1, acc.push(c), depth - 1, in2, false, open, close)
                }
            } else {
                block_body(s, p + 1, acc.push(c), depth, in2, false, open, close)
            }
        }
    }
}

/// A bracketed block starting at `p` (which must hold `open`).
pub open spec fn read_block_at(s: Seq<char>, p: int, open: char, close: char) -> (
    Option<Seq<char>>,
    int,
) {
    if p >= s.len() {
        (None, p)
    } else if s[p] != open {
        (None, p + 1)
    } else {
        block_body(s, p + 1, seq![open], 1, false, false, open, close)
    }
}

/// The first `,` or `}` at or after `p` (or the end).
pub open spec fn scan_to_delim(s: Seq<char>, p: int) -> int
    decreases s.len() - p,
{
    if 0 <= p < s.len() && s[p] != ',' && s[p] != '}' {
        scan_to_delim(s, p + 1)
    } else {
        p
    }
}

/// The position after a JSON value that is not an object to read: a string,
/// an object or array block, or anything else up to the next `,` or `}`.
pub open spec fn skip_value_at(s: Seq<char>, p: int) -> int {
    let q = skip_ws_at(s, p);
    if q < s.len() && s[q] == '"' {
        read_string_at(s, q).1
    } else if q < s.len() && s[q] == '{' {
        read_block_at(s, q, '{', '}').1
    } else if q < s.len() && s[q] == '[' {
        read_block_at(s, q, '[', ']').1
    } else {
        scan_to_delim(s, q)
    }
}

/// Skipping whitespace never moves back, nor past the end.
pub proof fn lemma_skip_ws_at(s: Seq<char>, p: int)
    ensures
        skip_ws_at(s, p) >= p,
        p <= s.len() ==> skip_ws_at(s, p) <= s.len(),
    decreases s.len() - p,
{
    if 0 <= p < s.len() && is_ws(s[p]) {
        lemma_skip_ws_at(s, p + 1);
    }
}

/// Reading the rest of a string ends between `p` and the end of the text.
pub proof fn lemma_string_body(s: Seq<char>, p: int, acc: Seq<char>, esc: bool)
    requires
        p <= s.len(),
    ensures
        p <= string_body(s, p, acc, esc).1 <= s.len(),
    decreases s.len() - p,
{
    if p < s.len() {
        if esc || s[p] != '"' {
            lemma_string_body(s, p + 1, acc.push(s[p]), false);
            lemma_string_body(s, p + 1, acc, true);
        }
    }
}

/// Reading the rest of a block ends between `p` and the end of the text.
pub proof fn lemma_block_body(
    s: Seq<char>,
    p: int,
    acc: Seq<char>,
    depth: int,
    in_str: bool,
    esc: bool,
    open: char,
    close: char,
)
    requires
        p <= s.len(),
    ensures
        p <= block_body(s, p, acc, depth, in_str, esc, open, close).1 <= s.len(),
    decreases s.len() - p,
{
    if p < s.len() {
        let c = s[p];
        let in2 = if c == '"' {
            !in_str
        } else {
            in_str
        };
        lemma_block_body(s, p + 1, acc.push(c), depth, in_str, false, open, close);
        lemma_block_body(s, p + 1, acc.push(c), depth, in_str, true, open, close);
        lemma_block_body(s, p + 1, acc.push(c), depth + 1, in2, false, open, close);
        lemma_block_body(s, p + 1, acc.push(c), depth - 1, in2, false, open, close);
        lemma_block_body(s, p + 1, acc.push(c), depth, in2, false, open, close);
    }
}

/// Scanning for a delimiter never moves back, nor past the end.
pub proof fn lemma_scan_to_delim(s: Seq<char>, p: int)
    requires
        p <= s.len(),
    ensures
        p <= scan_to_delim(s, p) <= s.len(),
    decreases s.len() - p,
{
    if 0 <= p < s.len() && s[p] != ',' && s[p] != '}' {
        lemma_scan_to_delim(s, p + 1);
    }
}

/// Reading a string or a block at a position inside `s` moves past it, and
/// skipping a value never moves back.
pub proof fn lemma_positions(s: Seq<char>, p: int)
    requires
        0 <= p <= s.len(),
    ensures
        p < s.len() ==> p < read_string_at(s, p).1 <= s.len(),
        p < s.len() ==> p < read_block_at(s, p, '{', '}').1 <= s.len(),
        p < s.len() ==> p < read_block_at(s, p, '[', ']').1 <= s.len(),
        p <= skip_value_at(s, p) <= s.len(),
        p <= skip_ws_at(s, p) <= s.len(),
{
    lemma_skip_ws_at(s, p);
    if p < s.len() {
        lemma_string_body(s, p + 1, seq![], false);
        lemma_block_body(s, p + 1, seq!['{'], 1, false, false, '{', '}');
        lemma_block_body(s, p + 1, seq!['['], 1, false, false, '[', ']');
    }
    let q = skip_ws_at(s, p);
    lemma_scan_to_delim(s, q);
    if q < s.len() {
        lemma_string_body(s, q + 1, seq![], false);
        lemma_block_body(s, q + 1, seq!['{'], 1, false, false, '{', '}');
        lemma_block_body(s, q + 1, seq!['['], 1, false, false, '[', ']');
    }
}

/// `s` without leading whitespace is no longer than `s`.
pub proof fn lemma_trim_start_len(s: Seq<char>)
    ensures
        crate::text::trim_start_seq(s).len() <= s.len(),
    decreases s.len(),
{
    if s.len() > 0 && is_ws(s[0]) {
        lemma_trim_start_len(s.drop_first());
    }
}

/// The string value of `key` in a JSON object text: the first `"key"`, then
/// the first `:` after it, then a string (read up to its closing quote) or an
/// object (flattened to a `font:` token); `None` for anything else.
pub open spec fn string_field(obj: Seq<char>, key: Seq<char>) -> Option<Seq<char>>
    decreases obj.len(), 0int,
{
    let needle = seq!['"'] + key + seq!['"'];
    match find(obj, needle) {
        None => None,
        Some(pos) => {
            let rest = obj.skip(pos + needle.len());
            match find(rest, seq![':']) {
                None => None,
                Some(c) => {
                    let after = crate::text::trim_start_seq(rest.skip(c + 1));
                    if after.len() > 0 && after[0] == '"' {
                        read_string_at(after, 0).0
                    } else if after.len() > 0 && after[0] == '{' {
                        proof {
                            crate::text::lemma_find_from_bounds(obj, needle, 0);
                            crate::text::lemma_find_from_bounds(rest, seq![':'], 0);
                            lemma_trim_start_len(rest.skip(c + 1));
                        }
                        Some(typography_token(after))
                    } else {
                        None
                    }
                },
            }
        },
    }
}

/// The keyword for a numeric font weight (`regular` for any other number).
pub open spec fn weight_keyword(w: nat) -> Seq<char> {
    if w == 100 {
        "thin"@
    } else if w == 200 {
        "extralight"@
    } else if w == 300 {
        "light"@
    } else if w == 400 {
        "regular"@
    } else if w == 500 {
        "medium"@
    } else if w == 600 {
        "semibold"@
    } else if w == 700 {
        "bold"@
    } else if w == 800 {
        "extrabold"@
    } else if w == 900 {
        "black"@
    } else {
        "regular"@
    }
}

/// A typography `$value` object as a `font:` token: family (default
/// `sans-serif`), weight keyword (default weight 400), size (default `16px`)
/// and `/lineHeight` when present.
pub open spec fn typography_token(obj: Seq<char>) -> Seq<char>
    decreases obj.len(), 1int,
{
    let family = match string_field(obj, "fontFamily"@) {
        Some(f) => f,
        None => "sans-serif"@,
    };
    let size = match string_field(obj, "fontSize"@) {
        Some(f) => f,
        None => "16px"@,
    };
    let wstr = match string_field(obj, "fontWeight"@) {
        Some(f) => f,
        None => "400"@,
    };
    let weight = match crate::token::parse_unsigned(wstr, 0xffff_ffff_ffff_ffff) {
        Some(w) => w,
        None => 400,
    };
    "font: "@ + family + " "@ + weight_keyword(weight) + " "@ + size + match string_field(
        obj,
        "lineHeight"@,
    ) {
        Some(lh) => "/"@ + lh,
        None => Seq::<char>::empty(),
    }
}

/// The `(key, $type, $value)` triples found from position `p` of the inner
/// text of a top-level JSON object: each `"key": { ... }` whose block has a
/// string `$type` and a `$value`; other members are skipped. `None` when a key
/// string or an object block is not closed.
pub open spec fn token_entries(
    s: Seq<char>,
    p: int,
    acc: Seq<(Seq<char>, Seq<char>, Seq<char>)>,
) -> Option<Seq<(Seq<char>, Seq<char>, Seq<char>)>>
    decreases s.len() - p,
{
    if p < 0 || p >= s.len() {
        Some(acc)
    } else {
        let q = skip_ws_at(s, p);
        proof {
            lemma_positions(s, p);
        }
        if q < s.len() && s[q] == '"' {
            let (k, q1) = read_string_at(s, q);
            proof {
                lemma_positions(s, q);
            }
            match k {
                None => None,
                Some(key) => {
                    let q2 = skip_ws_at(s, q1);
                    proof {
                        lemma_positions(s, q1);
                    }
                    if q2 >= s.len() {
                        Some(acc)
                    } else if s[q2] != ':' {
                        token_entries(s, q2 + 1, acc)
                    } else {
                        let q3 = skip_ws_at(s, q2 + 1);
                        proof {
                            lemma_positions(s, q2 + 1);
                            lemma_positions(s, q3);
                        }
                        if q3 < s.len() && s[q3] == '{' {
                            let (obj, q4) = read_block_at(s, q3, '{', '}');
                            match obj {
                                None => None,
                                Some(o) => {
                                    let acc2 = match (
                                        string_field(o, "$type"@),
                                        string_field(o, "$value"@),
                                    ) {
                                        (Some(t), Some(v)) => acc.push((key, t, v)),
                                        _ => acc,
                                    };
                                    token_entries(s, q4, acc2)
                                },
                            }
                        } else {
                            token_entries(s, skip_value_at(s, q3), acc)
                        }
                    }
                },
            }
        } else if q < s.len() {
            token_entries(s, q + 1, acc)
        } else {
            Some(acc)
        }
    }
}

/// The tokens of a flat W3C tokens document: the trimmed text must be a
/// `{ ... }` block.
pub open spec fn json_tokens(content: Seq<char>) -> Option<
    Seq<(Seq<char>, Seq<char>, Seq<char>)>,
> {
    let t = trim_seq(content);
    if !(t.len() > 0 && t[0] == '{') || !(t.len() > 0 && t.last() == '}') {
        None
    } else {
        token_entries(t.subrange(1, t.len() - 1), 0, seq![])
    }
}

/// `char::to_uppercase` of `c`, as text.
pub uninterp spec fn uppercase_of(c: char) -> Seq<char>;

/// Calls `char::to_uppercase` and collects the characters. The contract names
/// the result.
#[verifier::external_body]
fn to_uppercase(c: char) -> (r: String)
    ensures
        r@ == uppercase_of(c),
{
    c.to_uppercase().to_string()
}

/// A word with its first character uppercased.
pub open spec fn title_word(w: Seq<char>) -> Seq<char> {
    if w.len() == 0 {
        seq![]
    } else {
        uppercase_of(w[0]) + w.drop_first()
    }
}

/// A kebab- or snake-case key as space-separated title-case words.
pub open spec fn kebab_title(s: Seq<char>) -> Seq<char> {
    join(split_by(s, seq!['-', '_']).map_values(|w: Seq<char>| title_word(w)), seq![' '])
}

/// The Markdown list items of the tokens whose `$type` is `kind`.
pub open spec fn token_items(
    toks: Seq<(Seq<char>, Seq<char>, Seq<char>)>,
    kind: Seq<char>,
    prefix: Seq<char>,
) -> Seq<Seq<char>>
    decreases toks.len(),
{
    if toks.len() == 0 {
        seq![]
    } else {
        let t = toks.last();
        let rest = token_items(toks.drop_last(), kind, prefix);
        if t.1 == kind {
            rest.push("- **"@ + kebab_title(t.0) + "** — `"@ + prefix + t.2 + "`"@)
        } else {
            rest
        }
    }
}

/// A `## heading` section listing `items`, or nothing when there are none.
pub open spec fn md_section(heading: Seq<char>, items: Seq<Seq<char>>) -> Seq<char> {
    if items.len() == 0 {
        seq![]
    } else {
        "## "@ + heading + "\n\n"@ + join(items, "\n"@) + "\n\n"@
    }
}

/// The Markdown binder listing tokens: one section per recognised token type,
/// in the order colors, typography, dimension, borderRadius, shadow; `None`
/// when no token is recognised.
pub open spec fn tokens_binder(toks: Seq<(Seq<char>, Seq<char>, Seq<char>)>) -> Option<Seq<char>> {
    let colors = token_items(toks, "color"@, seq![]);
    let fonts = token_items(toks, "typography"@, seq![]);
    let spaces = token_items(toks, "dimension"@, seq![]);
    let radii = token_items(toks, "borderRadius"@, "radius: "@);
    let shadows = token_items(toks, "shadow"@, "shadow: "@);
    if colors.len() == 0 && fonts.len() == 0 && spaces.len() == 0 && radii.len() == 0
        && shadows.len() == 0 {
        None
    } else {
        let md = "# Imported Design Tokens\n\n"@ + md_section("Colors"@, colors) + md_section(
            "Typography"@,
            fonts,
        ) + md_section("Spacing"@, spaces) + md_section("Radius"@, radii) + md_section(
            "Shadows"@,
            shadows,
        );
        Some(crate::text::trim_end_seq(md) + "\n"@)
    }
}

/// The Markdown binder for a W3C Design Tokens document: the binder of its
/// tokens; `None` when the text is not a `{ ... }` block, a key or object is
/// unterminated, or no token is recognised.
pub open spec fn tokens_markdown(content: Seq<char>) -> Option<Seq<char>> {
    match json_tokens(content) {
        None => None,
        Some(toks) => tokens_binder(toks),
    }
}

// ── Design Tokens JSON import: executable side ───────────────────────────────

/// Optional text held in a vector.
pub open spec fn opt_chars(o: Option<Vec<char>>) -> Option<Seq<char>> {
    match o {
        Some(v) => Some(v@),
        None => None,
    }
}

fn skip_ws_exec(s: &Vec<char>, p: usize) -> (q: usize)
    requires
        p <= s.len(),
    ensures
        q == skip_ws_at(s@, p as int),
        p <= q <= s.len(),
{
    let mut q = p;
    while q < s.len() && crate::text::is_whitespace(s[q])
        invariant
            p <= q <= s.len(),
            skip_ws_at(s@, p as int) == skip_ws_at(s@, q as int),
        decreases s.len() - q,
    {
        q = q + 1;
    }
    q
}

/// `read_json_string`: a JSON string starting at `p`.
fn read_string_exec(s: &Vec<char>, p: usize) -> (r: (Option<Vec<char>>, usize))
    requires
        p <= s.len(),
    ensures
        opt_chars(r.0) == read_string_at(s@, p as int).0,
        r.1 == read_string_at(s@, p as int).1,
{
    if p >= s.len() {
        return (None, p);
    }
    if s[p] != '"' {
        return (None, p + 1);
    }
    let mut acc: Vec<char> = Vec::new();
    let mut esc = false;
    let mut i = p + 1;
    while i < s.len()
        invariant
            p < i <= s.len(),
            read_string_at(s@, p as int) == string_body(s@, i as int, acc@, esc),
        decreases s.len() - i,
    {
        let c = s[i];
        if esc {
            acc.push(c);
            esc = false;
        } else if c == '\\' {
            esc = true;
        } else if c == '"' {
            return (Some(acc), i + 1);
        } else {
            acc.push(c);
        }
        i = i + 1;
    }
    (None, s.len())
}

/// `read_json_block`: a bracketed block starting at `p`.
fn read_block_exec(s: &Vec<char>, p: usize, open: char, close: char) -> (r: (
    Option<Vec<char>>,
    usize,
))
    requires
        p <= s.len(),
        s.len() < 0x7fff_fff0,
    ensures
        opt_chars(r.0) == read_block_at(s@, p as int, open, close).0,
        r.1 == read_block_at(s@, p as int, open, close).1,
{
    if p >= s.len() {
        return (None, p);
    }
    if s[p] != open {
        return (None, p + 1);
    }
    let mut acc: Vec<char> = Vec::new();
    acc.push(open);
    let mut depth: i32 = 1;
    let mut in_str = false;
    let mut esc = false;
    let mut i = p + 1;
    assert(acc@ =~= seq![open]);
    while i < s.len()
        invariant
            p < i <= s.len(),
            s.len() < 0x7fff_fff0,
            1 <= depth <= i - p,
            read_block_at(s@, p as int, open, close) == block_body(
                s@,
                i as int,
                acc@,
                depth as int,
                in_str,
                esc,
                open,
                close,
            ),
        decreases s.len() - i,
    {
        let c = s[i];
        if esc {
            acc.push(c);
            esc = false;
        } else if c == '\\' && in_str {
            esc = true;
            acc.push(c);
        } else {
            if c == '"' {
                in_str = !in_str;
            }
            if !in_str && c == open {
                depth = depth + 1;
            } else if !in_str && c == close {
                depth = depth - 1;
                if depth == 0 {
                    acc.push(c);
                    return (Some(acc), i + 1);
                }
            }
            acc.push(c);
        }
        i = i + 1;
    }
    (None, s.len())
}

fn scan_to_delim_exec(s: &Vec<char>, p: usize) -> (q: usize)
    requires
        p <= s.len(),
    ensures
        q == scan_to_delim(s@, p as int),
{
    let mut q = p;
    while q < s.len() && s[q] != ',' && s[q] != '}'
        invariant
            p <= q <= s.len(),
            scan_to_delim(s@, p as int) == scan_to_delim(s@, q as int),
        decreases s.len() - q,
    {
        q = q + 1;
    }
    q
}

/// `skip_json_value`.
fn skip_value_exec(s: &Vec<char>, p: usize) -> (q: usize)
    requires
        p <= s.len(),
        s.len() < 0x7fff_fff0,
    ensures
        q == skip_value_at(s@, p as int),
{
    let q = skip_ws_exec(s, p);
    if q < s.len() && s[q] == '"' {
        read_string_exec(s, q).1
    } else if q < s.len() && s[q] == '{' {
        read_block_exec(s, q, '{', '}').1
    } else if q < s.len() && s[q] == '[' {
        read_block_exec(s, q, '[', ']').1
    } else {
        scan_to_delim_exec(s, q)
    }
}

/// `weight_to_keyword`.
fn weight_to_keyword(w: u64) -> (k: &'static str)
    ensures
        k@ == weight_keyword(w as nat),
{
    if w == 100 {
        "thin"
    } else if w == 200 {
        "extralight"
    } else if w == 300 {
        "light"
    } else if w == 400 {
        "regular"
    } else if w == 500 {
        "medium"
    } else if w == 600 {
        "semibold"
    } else if w == 700 {
        "bold"
    } else if w == 800 {
        "extrabold"
    } else if w == 900 {
        "black"
    } else {
        "regular"
    }
}

/// `extract_string_field`: the string value of `key` in an object text.
fn extract_string_field(obj: &Vec<char>, key: &str) -> (r: Option<Vec<char>>)
    ensures
        opt_chars(r) == string_field(obj@, key@),
    decreases obj@.len(), 0int,
{
    let ghost needle_spec = seq!['"'] + key@ + seq!['"'];
    let mut needle: Vec<char> = Vec::new();
    needle.push('"');
    let kc = chars_of(key);
    let mut k: usize = 0;
    while k < kc.len()
        invariant
            k <= kc.len(),
            kc@ == key@,
            needle@ == seq!['"'] + kc@.take(k as int),
        decreases kc.len() - k,
    {
        needle.push(kc[k]);
        k = k + 1;
        assert(needle@ =~= seq!['"'] + kc@.take(k as int));
    }
    needle.push('"');
    assert(kc@.take(k as int) =~= kc@);
    assert(needle@ =~= needle_spec);
    let pos = match find_in(obj, &needle, 0) {
        Some(pos) => pos,
        None => return None,
    };
    proof {
        crate::text::lemma_find_from_bounds(obj@, needle@, 0);
    }
    assert(pos + needle@.len() <= obj@.len());
    assert(needle.len() <= obj.len() && pos <= obj.len() - needle.len());
    let rest = slice_of(obj, pos + needle.len(), obj.len());
    assert(rest@ =~= obj@.skip(pos + needle@.len()));
    let mut colon_pat: Vec<char> = Vec::new();
    colon_pat.push(':');
    assert(colon_pat@ =~= seq![':']);
    let colon = match find_in(&rest, &colon_pat, 0) {
        Some(c) => c,
        None => return None,
    };
    proof {
        crate::text::lemma_find_from_bounds(rest@, colon_pat@, 0);
    }
    let start = crate::text::skip_ws(&rest, colon + 1, rest.len());
    let after = slice_of(&rest, start, rest.len());
    assert(rest@.subrange(colon + 1, rest.len() as int) =~= rest@.skip(colon + 1));
    assert(after@ == crate::text::trim_start_seq(rest@.skip(colon + 1)));
    if after.len() > 0 && after[0] == '"' {
        read_string_exec(&after, 0).0
    } else if after.len() > 0 && after[0] == '{' {
        proof {
            lemma_trim_start_len(rest@.skip(colon + 1));
        }
        Some(flatten_typography_value(&after))
    } else {
        None
    }
}

/// `flatten_typography_value`: a typography `$value` object as a `font:`
/// token.
fn flatten_typography_value(obj: &Vec<char>) -> (r: Vec<char>)
    ensures
        r@ == typography_token(obj@),
    decreases obj@.len(), 1int,
{
    let family = match extract_string_field(obj, "fontFamily") {
        Some(f) => f,
        None => chars_of("sans-serif"),
    };
    let size = match extract_string_field(obj, "fontSize") {
        Some(f) => f,
        None => chars_of("16px"),
    };
    let wstr = match extract_string_field(obj, "fontWeight") {
        Some(f) => f,
        None => chars_of("400"),
    };
    let weight = match crate::token::parse_unsigned_exec(&wstr, 0xffff_ffff_ffff_ffff) {
        Some(w) => w,
        None => 400,
    };
    let lh = extract_string_field(obj, "lineHeight");
    let mut spec = String::new();
    push_str(&mut spec, "font: ");
    push_chars(&mut spec, &family);
    push_str(&mut spec, " ");
    push_str(&mut spec, weight_to_keyword(weight));
    push_str(&mut spec, " ");
    push_chars(&mut spec, &size);
    match &lh {
        Some(l) => {
            push_str(&mut spec, "/");
            push_chars(&mut spec, l);
        },
        None => {},
    }
    assert(spec@ =~= typography_token(obj@));
    chars_of(spec.as_str())
}

/// A kebab- or snake-case key as title-case words: `font-body-base` becomes
/// `Font Body Base`. Each word's first character is uppercased as
/// `char::to_uppercase` does it.
pub fn kebab_to_title(s: &Vec<char>) -> (r: Vec<char>)
    ensures
        r@ == kebab_title(s@),
{
    let mut seps: Vec<char> = Vec::new();
    seps.push('-');
    seps.push('_');
    assert(seps@ =~= seq!['-', '_']);
    let words = split_on(s, &seps);
    let ghost ws = views(words@);
    let mut titled: Vec<Vec<char>> = Vec::new();
    let mut i: usize = 0;
    while i < words.len()
        invariant
            i <= words.len(),
            ws == views(words@),
            views(titled@) =~= ws.take(i as int).map_values(|w: Seq<char>| title_word(w)),
        decreases words.len() - i,
    {
        let w = &words[i];
        let ghost before = views(titled@);
        if w.len() == 0 {
            titled.push(Vec::new());
        } else {
            let mut t = String::new();
            let up = to_uppercase(w[0]);
            push_str(&mut t, up.as_str());
            let tail = slice_of(w, 1, w.len());
            push_chars(&mut t, &tail);
            assert(tail@ =~= w@.drop_first());
            titled.push(chars_of(t.as_str()));
        }
        assert(ws[i as int] == w@);
        assert(views(titled@) =~= before.push(title_word(w@)));
        assert(ws.take(i + 1).map_values(|w: Seq<char>| title_word(w)) =~= ws.take(
            i as int,
        ).map_values(|w: Seq<char>| title_word(w)).push(title_word(ws[i as int])));
        i = i + 1;
    }
    assert(ws.take(i as int) =~= ws);
    crate::renderer::join_with(&titled, ' ')
}

/// One `(key, $type, $value)` triple.
struct JsonToken {
    key: Vec<char>,
    kind: Vec<char>,
    value: Vec<char>,
}

spec fn token_views(v: Seq<JsonToken>) -> Seq<(Seq<char>, Seq<char>, Seq<char>)> {
    v.map_values(|t: JsonToken| (t.key@, t.kind@, t.value@))
}

/// `parse_json_object`: the token triples of the inner text of a top-level
/// object.
fn parse_tokens(s: &Vec<char>) -> (r: Option<Vec<JsonToken>>)
    requires
        s.len() < 0x7fff_fff0,
    ensures
        match r {
            Some(v) => token_entries(s@, 0, seq![]) == Some(token_views(v@)),
            None => token_entries(s@, 0, seq![]) is None,
        },
{
    let mut results: Vec<JsonToken> = Vec::new();
    let mut p: usize = 0;
    assert(token_views(results@) =~= Seq::<(Seq<char>, Seq<char>, Seq<char>)>::empty());
    while p < s.len()
        invariant
            p <= s.len(),
            s.len() < 0x7fff_fff0,
            token_entries(s@, 0, seq![]) == token_entries(s@, p as int, token_views(results@)),
        decreases s.len() - p,
    {
        proof {
            lemma_positions(s@, p as int);
        }
        let q = skip_ws_exec(s, p);
        if q < s.len() && s[q] == '"' {
            proof {
                lemma_positions(s@, q as int);
            }
            let (k, q1) = read_string_exec(s, q);
            let key = match k {
                Some(key) => key,
                None => return None,
            };
            proof {
                lemma_positions(s@, q1 as int);
            }
            let q2 = skip_ws_exec(s, q1);
            if q2 >= s.len() {
                return Some(results);
            } else if s[q2] != ':' {
                p = q2 + 1;
            } else {
                let q3 = skip_ws_exec(s, q2 + 1);
                proof {
                    lemma_positions(s@, q3 as int);
                }
                if q3 < s.len() && s[q3] == '{' {
                    let (obj, q4) = read_block_exec(s, q3, '{', '}');
                    let o = match obj {
                        Some(o) => o,
                        None => return None,
                    };
                    let t = extract_string_field(&o, "$type");
                    let v = extract_string_field(&o, "$value");
                    match (t, v) {
                        (Some(t), Some(v)) => {
                            let ghost before = token_views(results@);
                            let tok = JsonToken { key, kind: t, value: v };
                            results.push(tok);
                            assert(token_views(results@) =~= before.push((key@, t@, v@)));
                        },
                        _ => {},
                    }
                    p = q4;
                } else {
                    p = skip_value_exec(s, q3);
                }
            }
        } else if q < s.len() {
            p = q + 1;
        } else {
            return Some(results);
        }
    }
    Some(results)
}

/// The list items of the tokens of one `$type`.
fn items_of_kind(toks: &Vec<JsonToken>, kind: &str, prefix: &str) -> (r: Vec<Vec<char>>)
    ensures
        views(r@) == token_items(token_views(toks@), kind@, prefix@),
{
    let kind_chars = chars_of(kind);
    let ghost tv = token_views(toks@);
    let mut out: Vec<Vec<char>> = Vec::new();
    let mut i: usize = 0;
    assert(tv.take(0) =~= Seq::<(Seq<char>, Seq<char>, Seq<char>)>::empty());
    while i < toks.len()
        invariant
            i <= toks.len(),
            tv == token_views(toks@),
            kind_chars@ == kind@,
            views(out@) == token_items(tv.take(i as int), kind@, prefix@),
        decreases toks.len() - i,
    {
        let t = &toks[i];
        assert(tv.take(i + 1).drop_last() =~= tv.take(i as int));
        assert(tv[i as int] == (t.key@, t.kind@, t.value@));
        if crate::renderer::same_text(&t.kind, &kind_chars) {
            let mut line = String::new();
            push_str(&mut line, "- **");
            push_chars(&mut line, &kebab_to_title(&t.key));
            push_str(&mut line, "** — `");
            push_str(&mut line, prefix);
            push_chars(&mut line, &t.value);
            push_str(&mut line, "`");
            let ghost before = views(out@);
            let lv = chars_of(line.as_str());
            out.push(lv);
            assert(views(out@) =~= before.push(lv@));
        }
        i = i + 1;
    }
    assert(tv.take(i as int) =~= tv);
    out
}

/// Appends a `## heading` section when `items` is not empty.
fn push_section(md: &mut String, heading: &str, items: &Vec<Vec<char>>)
    ensures
        final(md)@ == old(md)@ + md_section(heading@, views(items@)),
{
    if items.len() > 0 {
        push_str(md, "## ");
        push_str(md, heading);
        push_str(md, "\n\n");
        let body = crate::renderer::join_with(items, '\n');
        proof {
            reveal_strlit("\n");
            assert("\n"@ =~= seq!['\n']);
        }
        push_chars(md, &body);
        push_str(md, "\n\n");
    } else {
        assert(md_section(heading@, views(items@)) =~= Seq::<char>::empty());
    }
}

/// The binder a Design Tokens file imports to: `None` when the text is not
/// JSON, otherwise what `tokens_markdown` reads from it.
pub open spec fn design_tokens_markdown(content: Seq<char>) -> Option<Seq<char>> {
    if is_json_text(content) {
        tokens_markdown(content)
    } else {
        None
    }
}

/// Parses a W3C Design Tokens JSON file into a Markdown binder document.
///
/// Supports the five token types Swatchbook knows: color, typography,
/// dimension (spacing), borderRadius, and shadow. Unknown types are ignored.
/// Returns `None` if the input is not valid JSON or has no recognised tokens.
pub fn design_tokens_json_to_markdown(content: &str) -> (md: Option<String>)
    requires
        content@.len() < 0x7fff_fff0,
    ensures
        match md {
            Some(m) => design_tokens_markdown(content@) == Some(m@),
            None => design_tokens_markdown(content@) is None,
        },
{
    if !is_json(content) {
        return None;
    }
    let v = chars_of(content);
    let t = trim(&v);
    proof {
        crate::text::lemma_trim_len(v@);
    }
    if !(t.len() > 0 && t[0] == '{') || !(t.len() > 0 && t[t.len() - 1] == '}') {
        return None;
    }
    let inner = slice_of(&t, 1, t.len() - 1);
    let toks = match parse_tokens(&inner) {
        Some(toks) => toks,
        None => return None,
    };
    let colors = items_of_kind(&toks, "color", "");
    let fonts = items_of_kind(&toks, "typography", "");
    let spaces = items_of_kind(&toks, "dimension", "");
    let radii = items_of_kind(&toks, "borderRadius", "radius: ");
    let shadows = items_of_kind(&toks, "shadow", "shadow: ");
    proof {
        reveal_strlit("");
        assert(""@ =~= Seq::<char>::empty());
        assert(t@.subrange(1, t.len() - 1) == inner@);
        assert(json_tokens(content@) == Some(token_views(toks@)));
    }
    if colors.len() == 0 && fonts.len() == 0 && spaces.len() == 0 && radii.len() == 0
        && shadows.len() == 0 {
        return None;
    }
    let mut md = String::new();
    push_str(&mut md, "# Imported Design Tokens\n\n");
    push_section(&mut md, "Colors", &colors);
    push_section(&mut md, "Typography", &fonts);
    push_section(&mut md, "Spacing", &spaces);
    push_section(&mut md, "Radius", &radii);
    push_section(&mut md, "Shadows", &shadows);
    let mv = chars_of(md.as_str());
    let end = crate::text::skip_ws_back(&mv, 0, mv.len());
    assert(mv@.subrange(0, mv.len() as int) =~= mv@);
    let kept = slice_of(&mv, 0, end);
    let mut out = string_of(&kept);
    push_str(&mut out, "\n");
    assert(kept@ == crate::text::trim_end_seq(md@));
    Some(out)
}

/// The CSS weight keywords: each multiple of 100 from 100 to 900 has its own
/// keyword (`thin`, `extralight`, `light`, `regular`, `medium`, `semibold`,
/// `bold`, `extrabold`, `black`), no two of these weights share one, and any
/// other weight reads as `regular`.
pub proof fn lemma_weight_keywords(w1: nat, w2: nat)
    ensures
        weight_keyword(100) == "thin"@,
        weight_keyword(200) == "extralight"@,
        weight_keyword(300) == "light"@,
        weight_keyword(400) == "regular"@,
        weight_keyword(500) == "medium"@,
        weight_keyword(600) == "semibold"@,
        weight_keyword(700) == "bold"@,
        weight_keyword(800) == "extrabold"@,
        weight_keyword(900) == "black"@,
        !(w1 % 100 == 0 && 100 <= w1 <= 900) ==> weight_keyword(w1) == "regular"@,
        w1 % 100 == 0 && 100 <= w1 <= 900 && w2 % 100 == 0 && 100 <= w2 <= 900 && w1 != w2
            ==> weight_keyword(w1) != weight_keyword(w2),
{
    reveal_strlit("thin");
    reveal_strlit("extralight");
    reveal_strlit("light");
    reveal_strlit("regular");
    reveal_strlit("medium");
    reveal_strlit("semibold");
    reveal_strlit("bold");
    reveal_strlit("extrabold");
    reveal_strlit("black");
    if w1 % 100 == 0 && 100 <= w1 <= 900 && w2 % 100 == 0 && 100 <= w2 <= 900 && w1 != w2 {
        let a = weight_keyword(w1);
        let b = weight_keyword(w2);
        if a == b {
            assert(a.len() == b.len());
            if a.len() == 4 || a.len() == 5 {
                assert(a[0] == b[0]);
            }
        }
    }
}

} // verus!

