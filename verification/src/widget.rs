//! Terminal UI segments: visible width and progress bars.

use vstd::prelude::*;
use crate::text::{chars_of, is_ascii_alpha, push_char, push_str};

verus! {

/// The number of visible characters from index `i` on, where `in_ansi` says
/// whether an escape sequence (`ESC [` ... up to an ASCII letter) is open.
pub open spec fn visible_from(s: Seq<char>, i: int, in_ansi: bool) -> nat
    decreases s.len() - i,
{
    if i < 0 || i >= s.len() {
        0
    } else if s[i] == '\x1b' && i + 1 < s.len() && s[i + 1] == '[' {
        visible_from(s, i + 2, true)
    } else if in_ansi {
        visible_from(s, i + 1, !is_ascii_alpha(s[i]))
    } else {
        1 + visible_from(s, i + 1, false)
    }
}

/// The width of a text on the terminal: its characters, less the
/// `ESC [ ... letter` escape sequences.
pub open spec fn visual_width(s: Seq<char>) -> nat {
    visible_from(s, 0, false)
}

proof fn lemma_visible_bound(s: Seq<char>, i: int, in_ansi: bool)
    requires
        0 <= i <= s.len(),
    ensures
        visible_from(s, i, in_ansi) <= s.len() - i,
    decreases s.len() - i,
{
    if i < s.len() {
        if s[i] == '\x1b' && i + 1 < s.len() && s[i + 1] == '[' {
            lemma_visible_bound(s, i + 2, true);
        } else if in_ansi {
            lemma_visible_bound(s, i + 1, !is_ascii_alpha(s[i]));
        } else {
            lemma_visible_bound(s, i + 1, false);
        }
    }
}

/// The visible width of a text, skipping ANSI escape sequences.
pub fn get_visual_length(s: &str) -> (r: usize)
    ensures
        r == visual_width(s@),
{
    let v = chars_of(s);
    let n = v.len();
    let mut len: usize = 0;
    let mut in_ansi = false;
    let mut i: usize = 0;
    while i < n
        invariant
            n == v.len(),
            i <= n,
            len <= i,
            visual_width(v@) == len + visible_from(v@, i as int, in_ansi),
        decreases n - i,
    {
        let ch = v[i];
        if ch == '\x1b' && i + 1 < n && v[i + 1] == '[' {
            in_ansi = true;
            i = i + 2;
        } else if in_ansi {
            if ('a' <= ch && ch <= 'z') || ('A' <= ch && ch <= 'Z') {
                in_ansi = false;
            }
            i = i + 1;
        } else {
            len = len + 1;
            i = i + 1;
        }
    }
    len
}

/// A piece of the status line with its visible width.
pub struct Widget {
    pub text: String,
    pub visual_width: usize,
}

impl Widget {
    /// A widget for the given text.
    pub fn new(text: String) -> (w: Widget)
        ensures
            w.text@ == text@,
            w.visual_width == visual_width(text@),
    {
        let visual_width = get_visual_length(text.as_str());
        Widget { text, visual_width }
    }
}

/// The dim grey used for the frame and the empty part of a bar.
pub open spec fn dim() -> Seq<char> {
    "\x1b[38;2;80;80;80m"@
}

/// `n` copies of `c`.
pub open spec fn repeat(c: char, n: nat) -> Seq<char> {
    Seq::new(n, |_i: int| c)
}

/// The inside of a bar with `filled` of `len` cells filled.
pub open spec fn bar_body(filled: nat, len: nat, color: Seq<char>, is_quota: bool) -> Seq<char> {
    if is_quota {
        color + repeat('-', filled) + dim() + repeat('-', (len - filled) as nat)
    } else {
        color + (if filled > 0 {
            repeat('=', (filled - 1) as nat).push('>')
        } else {
            seq![]
        }) + (if filled < len {
            dim() + repeat('-', (len - filled) as nat)
        } else {
            seq![]
        })
    }
}

/// A bar of `len` cells, `filled` of them in `color`: quota bars draw every
/// cell as `-`, other bars draw `=` cells ending in `>`. Empty when `len` is 0.
pub open spec fn progress_bar_text(filled: nat, len: nat, color: Seq<char>, is_quota: bool) -> Seq<
    char,
> {
    if len == 0 {
        seq![]
    } else {
        dim() + seq!['['] + bar_body(filled, len, color, is_quota) + dim() + seq![']'] + "\x1b[0m"@
    }
}

fn push_repeat(s: &mut String, c: char, n: usize)
    ensures
        final(s)@ == old(s)@ + repeat(c, n as nat),
{
    let mut i: usize = 0;
    while i < n
        invariant
            i <= n,
            s@ == old(s)@ + repeat(c, i as nat),
        decreases n - i,
    {
        push_char(s, c);
        i = i + 1;
        assert(s@ =~= old(s)@ + repeat(c, i as nat));
    }
}

/// The filled cells of a bar: the rounded share, at most the bar's length.
pub open spec fn filled_cells(cells: nat, bar_len: nat) -> nat {
    if cells < bar_len {
        cells
    } else {
        bar_len
    }
}

/// Draws a bar of `bar_len` cells with `cells` of them coloured, or all of
/// them when `cells` is larger. `cells` is the rounded share of the bar,
/// `round(pct / 100 * bar_len)`.
pub fn render_progress_bar(cells: usize, bar_len: usize, color: &str, is_quota: bool) -> (r: String)
    ensures
        r@ == progress_bar_text(filled_cells(cells as nat, bar_len as nat), bar_len as nat, color@, is_quota),
{
    let filled: usize = if cells < bar_len {
        cells
    } else {
        bar_len
    };
    let mut bar = String::new();
    if bar_len == 0 {
        return bar;
    }
    push_str(&mut bar, "\x1b[38;2;80;80;80m");
    push_char(&mut bar, '[');
    let ghost head = bar@;
    push_str(&mut bar, color);
    if is_quota {
        push_repeat(&mut bar, '-', filled);
        push_str(&mut bar, "\x1b[38;2;80;80;80m");
        push_repeat(&mut bar, '-', bar_len - filled);
    } else {
        if filled > 0 {
            push_repeat(&mut bar, '=', filled - 1);
            push_char(&mut bar, '>');
        }
        if filled < bar_len {
            push_str(&mut bar, "\x1b[38;2;80;80;80m");
            push_repeat(&mut bar, '-', bar_len - filled);
        }
    }
    assert(bar@ =~= head + bar_body(filled as nat, bar_len as nat, color@, is_quota));
    let ghost body = bar@;
    push_str(&mut bar, "\x1b[38;2;80;80;80m");
    push_char(&mut bar, ']');
    push_str(&mut bar, "\x1b[0m");
    assert(bar@ =~= progress_bar_text(filled as nat, bar_len as nat, color@, is_quota));
    bar
}


// ---------------------------------------------------------------------------
// Laws
// ---------------------------------------------------------------------------

/// A text is never wider than its number of characters.
pub proof fn law_width_at_most_length(s: Seq<char>)
    ensures
        visual_width(s) <= s.len(),
{
    lemma_visible_bound(s, 0, false);
}

proof fn lemma_plain_width(s: Seq<char>, i: int)
    requires
        0 <= i <= s.len(),
        forall|k: int| 0 <= k < s.len() ==> s[k] != '\x1b',
    ensures
        visible_from(s, i, false) == s.len() - i,
    decreases s.len() - i,
{
    if i < s.len() {
        lemma_plain_width(s, i + 1);
    }
}

/// A text without escape characters is as wide as its number of characters.
pub proof fn law_plain_text_width(s: Seq<char>)
    requires
        forall|k: int| 0 <= k < s.len() ==> s[k] != '\x1b',
    ensures
        visual_width(s) == s.len(),
{
    lemma_plain_width(s, 0);
}

proof fn lemma_escape_prefix(e: Seq<char>, s: Seq<char>, i: int)
    requires
        e.len() >= 3,
        e[0] == '\x1b',
        e[1] == '[',
        is_ascii_alpha(e.last()),
        forall|k: int| 2 <= k < e.len() - 1 ==> !is_ascii_alpha(e[k]) && e[k] != '\x1b',
        2 <= i < e.len(),
    ensures
        visible_from(e + s, i, true) == visible_from(e + s, e.len() as int, false),
    decreases e.len() - i,
{
    let t = e + s;
    assert(t[i] == e[i]);
    if i < e.len() - 1 {
        lemma_escape_prefix(e, s, i + 1);
    } else {
        assert(t[i] == e.last());
    }
}

proof fn lemma_shift(e: Seq<char>, s: Seq<char>, j: int, a: bool)
    requires
        0 <= j <= s.len(),
    ensures
        visible_from(e + s, e.len() + j, a) == visible_from(s, j, a),
    decreases s.len() - j,
{
    let t = e + s;
    if j < s.len() {
        assert(t[e.len() + j] == s[j]);
        if j + 1 < s.len() {
            assert(t[e.len() + j + 1] == s[j + 1]);
        }
        if s[j] == '\x1b' && j + 1 < s.len() && s[j + 1] == '[' {
            lemma_shift(e, s, j + 2, true);
        } else {
            lemma_shift(e, s, j + 1, if a {
                !is_ascii_alpha(s[j])
            } else {
                false
            });
        }
    }
}

/// An escape sequence (`ESC [`, parameters, a final letter) in front of a
/// text adds nothing to its width.
pub proof fn law_escape_sequence_has_no_width(e: Seq<char>, s: Seq<char>)
    requires
        e.len() >= 3,
        e[0] == '\x1b',
        e[1] == '[',
        is_ascii_alpha(e.last()),
        forall|k: int| 2 <= k < e.len() - 1 ==> !is_ascii_alpha(e[k]) && e[k] != '\x1b',
    ensures
        visual_width(e + s) == visual_width(s),
{
    let t = e + s;
    assert(t[0] == '\x1b' && t[1] == '[');
    lemma_escape_prefix(e, s, 2);
    lemma_shift(e, s, 0, false);
    assert(e.len() + 0 == e.len());
}

} // verus!
