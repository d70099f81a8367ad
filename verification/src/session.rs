//! The decisions the editor window takes between user events: keyboard focus
//! on the canvas, the unsaved-changes prompt, the language preference and the
//! feedback messages.
use vstd::prelude::*;
use crate::text::{decimal, push_decimal, push_str};

verus! {

// ── Canvas focus ─────────────────────────────────────────────────────────────

/// The card after `focused` among `count`, wrapping around.
pub open spec fn next_focus(focused: Option<usize>, count: int) -> int {
    match focused {
        Some(i) => (i + 1) % count,
        None => 0,
    }
}

/// The card before `focused` among `count`, wrapping around.
pub open spec fn prev_focus(focused: Option<usize>, count: int) -> int {
    match focused {
        Some(i) => if i == 0 {
            count - 1
        } else {
            i - 1
        },
        None => count - 1,
    }
}

/// Moving the focus forward and then back returns to the same card, and
/// moving it back then forward does too.
pub proof fn lemma_focus_moves_undo(i: usize, count: usize)
    requires
        i < count,
    ensures
        prev_focus(Some(next_focus(Some(i), count as int) as usize), count as int) == i,
        next_focus(Some(prev_focus(Some(i), count as int) as usize), count as int) == i,
{
    lemma_mod_succ(i as int, count as int);
    vstd::arithmetic::div_mod::lemma_small_mod(i as nat, count as nat);
    let p = prev_focus(Some(i), count as int);
    lemma_mod_succ(p, count as int);
    vstd::arithmetic::div_mod::lemma_small_mod(p as nat, count as nat);
}

/// The card focused after Right/Down: the next one, wrapping around, or the
/// first when none is focused.
pub fn focus_next(focused: Option<usize>, count: usize) -> (next: usize)
    requires
        count > 0,
    ensures
        next == next_focus(focused, count as int),
        next < count,
{
    match focused {
        Some(i) => {
            let r = i % count;
            proof {
                lemma_mod_succ(i as int, count as int);
            }
            if r == count - 1 {
                0
            } else {
                r + 1
            }
        },
        None => 0,
    }
}

proof fn lemma_mod_succ(i: int, n: int)
    requires
        n > 0,
        i >= 0,
    ensures
        (i + 1) % n == if i % n == n - 1 {
            0
        } else {
            i % n + 1
        },
{
    vstd::arithmetic::div_mod::lemma_fundamental_div_mod(i, n);
    vstd::arithmetic::div_mod::lemma_fundamental_div_mod(i + 1, n);
    vstd::arithmetic::div_mod::lemma_mod_bound(i, n);
    vstd::arithmetic::div_mod::lemma_mod_bound(i + 1, n);
    if i % n == n - 1 {
        vstd::arithmetic::div_mod::lemma_mod_multiples_vanish(i / n + 1, 0, n);
        assert(i + 1 == n * (i / n + 1)) by (nonlinear_arith)
            requires
                i == n * (i / n) + i % n,
                i % n == n - 1,
        ;
        vstd::arithmetic::div_mod::lemma_mod_multiples_basic(i / n + 1, n);
    } else {
        assert(i + 1 == n * (i / n) + (i % n + 1)) by (nonlinear_arith)
            requires
                i == n * (i / n) + i % n,
        ;
        vstd::arithmetic::div_mod::lemma_mod_multiples_vanish(i / n, i % n + 1, n);
        vstd::arithmetic::div_mod::lemma_small_mod((i % n + 1) as nat, n as nat);
    }
}

/// The card focused after Left/Up: the previous one, wrapping around, or the
/// last when none is focused.
pub fn focus_prev(focused: Option<usize>, count: usize) -> (prev: usize)
    requires
        count > 0,
    ensures
        prev == prev_focus(focused, count as int),
{
    match focused {
        Some(i) => if i == 0 {
            count - 1
        } else {
            i - 1
        },
        None => count - 1,
    }
}

/// The focused card after the cards are rebuilt with `count` entries: an index
/// past the end moves to the last card, or to none when there are no cards.
pub fn clamp_focus(focused: Option<usize>, count: usize) -> (r: Option<usize>)
    ensures
        r == match focused {
            Some(i) => if i >= count {
                if count == 0 {
                    None
                } else {
                    Some((count - 1) as usize)
                }
            } else {
                Some(i)
            },
            None => None,
        },
        r matches Some(i) ==> i < count,
{
    match focused {
        Some(i) => if i >= count {
            if count == 0 {
                None
            } else {
                Some(count - 1)
            }
        } else {
            Some(i)
        },
        None => None,
    }
}

// ── Closing with unsaved changes ─────────────────────────────────────────────

/// The answer to the unsaved-changes prompt.
#[derive(Debug, Clone, Copy, PartialEq, Eq, Structural)]
pub enum CloseResponse {
    /// Stay open.
    Cancel,
    /// Close and lose the edits.
    Discard,
    /// Save, then close.
    Save,
}

/// A close request is intercepted with the prompt while there are unsaved
/// changes, unless the prompt has already been answered.
pub fn close_needs_prompt(force_close: bool, is_modified: bool) -> (b: bool)
    ensures
        b == (!force_close && is_modified),
{
    !force_close && is_modified
}

/// The prompt response named by the dialog's response id (`discard`, `save`;
/// anything else, including closing the dialog, cancels).
pub fn close_response(id: &str) -> (r: CloseResponse)
    ensures
        r == (if id@ == "discard"@ {
            CloseResponse::Discard
        } else if id@ == "save"@ {
            CloseResponse::Save
        } else {
            CloseResponse::Cancel
        }),
{
    let v = crate::text::chars_of(id);
    let discard = crate::text::chars_of("discard");
    let save = crate::text::chars_of("save");
    if crate::renderer::same_text(&v, &discard) {
        CloseResponse::Discard
    } else if crate::renderer::same_text(&v, &save) {
        CloseResponse::Save
    } else {
        CloseResponse::Cancel
    }
}

/// After answering `Save`, the window closes at once only when the document
/// already had a path (the save was immediate) and the save left it
/// unmodified; otherwise a save-as dialog is pending and the window stays.
pub fn close_after_save(had_path: bool, is_modified: bool) -> (b: bool)
    ensures
        b == (had_path && !is_modified),
{
    had_path && !is_modified
}

// ── Language preference ──────────────────────────────────────────────────────

/// The language codes offered in the preferences, in menu order; the empty
/// code is the system default.
pub open spec fn language_codes() -> Seq<Seq<char>> {
    seq![""@, "en"@, "es"@, "fr"@, "de"@]
}

/// The language code at menu position `i`.
fn language_code_at(i: usize) -> (c: &'static str)
    requires
        i < 5,
    ensures
        c@ == language_codes()[i as int],
{
    if i == 0 {
        ""
    } else if i == 1 {
        "en"
    } else if i == 2 {
        "es"
    } else if i == 3 {
        "fr"
    } else {
        "de"
    }
}

/// The menu position of the stored language code, or 0 (system default) when
/// it is not one of the offered codes.
pub fn language_index(current: &str) -> (i: u32)
    ensures
        i < 5,
        (exists|k: int| 0 <= k < 5 && language_codes()[k] == current@) ==> language_codes()[i as int]
            == current@ && forall|k: int| 0 <= k < i ==> language_codes()[k] != current@,
        !(exists|k: int| 0 <= k < 5 && language_codes()[k] == current@) ==> i == 0,
{
    let cur = crate::text::chars_of(current);
    let mut i: usize = 0;
    while i < 5
        invariant
            i <= 5,
            cur@ == current@,
            forall|k: int| 0 <= k < i ==> language_codes()[k] != current@,
        decreases 5 - i,
    {
        let code = crate::text::chars_of(language_code_at(i));
        if crate::renderer::same_text(&code, &cur) {
            return i as u32;
        }
        i = i + 1;
    }
    0
}

/// The language code stored for menu position `selected` (the system default
/// for an out-of-range position).
pub fn language_code(selected: u32) -> (c: &'static str)
    ensures
        c@ == (if selected < 5 {
            language_codes()[selected as int]
        } else {
            ""@
        }),
{
    if selected < 5 {
        language_code_at(selected as usize)
    } else {
        ""
    }
}

// ── Feedback ─────────────────────────────────────────────────────────────────

/// The plural suffix for a count.
pub open spec fn plural(n: nat) -> Seq<char> {
    if n == 1 {
        Seq::<char>::empty()
    } else {
        "s"@
    }
}

/// `"{n} CSS variable{s} copied."`
pub fn css_copied_message(n: usize) -> (s: String)
    ensures
        s@ == decimal(n as nat) + " CSS variable"@ + plural(n as nat) + " copied."@,
{
    let mut s = String::new();
    push_decimal(&mut s, n as u64);
    push_str(&mut s, " CSS variable");
    if n != 1 {
        push_str(&mut s, "s");
    } else {
        proof {
            reveal_strlit("");
        }
    }
    push_str(&mut s, " copied.");
    assert(s@ =~= decimal(n as nat) + " CSS variable"@ + plural(n as nat) + " copied."@);
    s
}

/// `"Tailwind config with {n} colour{s} copied."`
pub fn tailwind_copied_message(n: usize) -> (s: String)
    ensures
        s@ == "Tailwind config with "@ + decimal(n as nat) + " colour"@ + plural(n as nat)
            + " copied."@,
{
    let mut s = String::new();
    push_str(&mut s, "Tailwind config with ");
    push_decimal(&mut s, n as u64);
    push_str(&mut s, " colour");
    if n != 1 {
        push_str(&mut s, "s");
    }
    push_str(&mut s, " copied.");
    assert(s@ =~= "Tailwind config with "@ + decimal(n as nat) + " colour"@ + plural(n as nat)
        + " copied."@);
    s
}

/// `"Copied {value}"`, the toast shown when a card's value is copied.
pub fn copied_message(value: &str) -> (s: String)
    ensures
        s@ == "Copied "@ + value@,
{
    let mut s = String::new();
    push_str(&mut s, "Copied ");
    push_str(&mut s, value);
    s
}

} // verus!
