//! Editor syntax highlighting: which lines are headings and where the inline
//! code spans lie, in character offsets per line.
use vstd::prelude::*;
use crate::text::{chars_of, lines, views};

verus! {

/// A highlighted region of the editor text.
#[derive(Debug, Clone, Copy, PartialEq, Eq, Structural)]
pub enum Highlight {
    /// A whole line starting with `#`.
    Heading { line: usize },
    /// The characters `start..end` of a line, backticks included.
    Code { line: usize, start: usize, end: usize },
}

/// The first backtick at or after `from`.
pub open spec fn next_tick(chars: Seq<char>, from: int) -> Option<int>
    decreases chars.len() - from,
{
    if from < 0 || from >= chars.len() {
        None
    } else if chars[from] == '`' {
        Some(from)
    } else {
        next_tick(chars, from + 1)
    }
}

/// A backtick `next_tick` reports lies at or after `from`, inside the line.
pub proof fn lemma_next_tick(chars: Seq<char>, from: int)
    ensures
        next_tick(chars, from) matches Some(j) ==> from <= j < chars.len() && chars[j] == '`',
    decreases chars.len() - from,
{
    if from >= 0 && from < chars.len() && chars[from] != '`' {
        lemma_next_tick(chars, from + 1);
    }
}

/// The code spans of a line from position `ci`: a backtick followed, later on
/// the line, by another backtick spans both; scanning resumes after the
/// closing one.
pub open spec fn code_spans(chars: Seq<char>, ci: int) -> Seq<(int, int)>
    decreases chars.len() - ci,
{
    if ci < 0 || ci >= chars.len() {
        seq![]
    } else if chars[ci] == '`' && ci + 1 < chars.len() && next_tick(chars, ci + 1) is Some {
        let j = next_tick(chars, ci + 1)->0;
        proof {
            lemma_next_tick(chars, ci + 1);
        }
        seq![(ci, j + 1)] + code_spans(chars, j + 1)
    } else {
        code_spans(chars, ci + 1)
    }
}

/// The highlights of line `i`.
pub open spec fn line_highlights(i: int, line: Seq<char>) -> Seq<Highlight> {
    (if line.len() > 0 && line[0] == '#' {
        seq![Highlight::Heading { line: i as usize }]
    } else {
        Seq::<Highlight>::empty()
    }) + code_spans(line, 0).map_values(
        |sp: (int, int)| Highlight::Code { line: i as usize, start: sp.0 as usize, end: sp.1 as usize },
    )
}

/// The highlights of the first `n` lines.
pub open spec fn highlights_upto(ls: Seq<Seq<char>>, n: int) -> Seq<Highlight>
    decreases n,
{
    if n <= 0 {
        seq![]
    } else {
        highlights_upto(ls, n - 1) + line_highlights(n - 1, ls[n - 1])
    }
}

/// The highlights of a whole text, line by line.
pub open spec fn highlights(text: Seq<char>) -> Seq<Highlight> {
    highlights_upto(lines(text), lines(text).len() as int)
}

fn line_spans(line: &Vec<char>, i: usize, out: &mut Vec<Highlight>)
    ensures
        final(out)@ == old(out)@ + code_spans(line@, 0).map_values(
            |sp: (int, int)| Highlight::Code { line: i, start: sp.0 as usize, end: sp.1 as usize },
        ),
{
    let ghost o0 = out@;
    let ghost f = |sp: (int, int)| Highlight::Code { line: i, start: sp.0 as usize, end: sp.1 as usize };
    let n = line.len();
    let mut ci: usize = 0;
    let ghost mut found: Seq<(int, int)> = seq![];
    while ci < n
        invariant
            ci <= n == line.len(),
            code_spans(line@, 0) == found + code_spans(line@, ci as int),
            out@ == o0 + found.map_values(f),
            f == (|sp: (int, int)| Highlight::Code { line: i, start: sp.0 as usize, end: sp.1 as usize }),
        decreases n - ci,
    {
        if line[ci] == '`' && ci + 1 < n {
            let mut j = ci + 1;
            while j < n && line[j] != '`'
                invariant
                    ci + 1 <= j <= n == line.len(),
                    next_tick(line@, ci + 1) == next_tick(line@, j as int),
                decreases n - j,
            {
                j = j + 1;
            }
            if j < n {
                proof {
                    found = found + seq![(ci as int, j + 1)];
                }
                out.push(Highlight::Code { line: i, start: ci, end: j + 1 });
                assert(found.map_values(f) =~= (found.drop_last()).map_values(f).push(
                    f((ci as int, j + 1)),
                ));
                ci = j + 1;
                continue;
            }
        }
        ci = ci + 1;
    }
    assert(found =~= found + Seq::<(int, int)>::empty());
}

/// The heading lines and inline code spans of `text`, in order.
pub fn highlight_spans(text: &str) -> (r: Vec<Highlight>)
    ensures
        r@ == highlights(text@),
{
    let ls = crate::renderer::import::lines_of(&chars_of(text));
    let ghost lv = views(ls@);
    let mut out: Vec<Highlight> = Vec::new();
    let mut i: usize = 0;
    while i < ls.len()
        invariant
            i <= ls.len(),
            lv == views(ls@),
            lv == lines(text@),
            out@ == highlights_upto(lv, i as int),
        decreases ls.len() - i,
    {
        let line = &ls[i];
        assert(lv[i as int] == line@);
        let ghost o0 = out@;
        if line.len() > 0 && line[0] == '#' {
            out.push(Highlight::Heading { line: i });
        }
        line_spans(line, i, &mut out);
        assert(out@ =~= o0 + line_highlights(i as int, line@));
        i = i + 1;
    }
    out
}

proof fn lemma_code_spans_inside(chars: Seq<char>, ci: int, k: int)
    requires
        ci >= 0,
        0 <= k < code_spans(chars, ci).len(),
    ensures
        ci <= code_spans(chars, ci)[k].0,
        code_spans(chars, ci)[k].0 + 2 <= code_spans(chars, ci)[k].1 <= chars.len(),
        chars[code_spans(chars, ci)[k].0] == '`',
        chars[code_spans(chars, ci)[k].1 - 1] == '`',
    decreases chars.len() - ci,
{
    if ci < chars.len() {
        if chars[ci] == '`' && ci + 1 < chars.len() && next_tick(chars, ci + 1) is Some {
            let j = next_tick(chars, ci + 1)->0;
            lemma_next_tick(chars, ci + 1);
            if k > 0 {
                lemma_code_spans_inside(chars, j + 1, k - 1);
            }
        } else {
            lemma_code_spans_inside(chars, ci + 1, k);
        }
    }
}

/// Every code span lies inside its line, opens and closes with a backtick,
/// and covers at least the two backticks.
pub proof fn lemma_code_spans_are_backtick_pairs(line: Seq<char>, k: int)
    requires
        0 <= k < code_spans(line, 0).len(),
    ensures
        0 <= code_spans(line, 0)[k].0,
        code_spans(line, 0)[k].0 + 2 <= code_spans(line, 0)[k].1 <= line.len(),
        line[code_spans(line, 0)[k].0] == '`',
        line[code_spans(line, 0)[k].1 - 1] == '`',
{
    lemma_code_spans_inside(line, 0, k);
}

} // verus!
