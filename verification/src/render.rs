//! The status line: its widgets, and how they are fitted to the terminal.

use vstd::prelude::*;
use vstd::string::*;
use vstd::utf8::encode_utf8;
use crate::path::{
    boundary, byte_prefix, eval_rfc3339, get_human_format, get_shorten_path, human_format,
    rfc3339_panics, rfc3339_value, shorten_path, truncate_bytes,
};
use crate::text::{
    alphanumeric, chars_of, contains, contains_chars, decimal, find, find_chars, decimal_signed, is_alphanumeric,
    last_segment, last_segment_chars, lowercase, owned, push_char, push_chars, push_decimal,
    push_decimal_signed, push_str, replace_char, replace_char_chars, starts_with_chars, str_eq,
    string_of, to_lowercase, to_uppercase, uppercase,
};
use crate::theme::Theme;
use crate::types::{
    input_cwd, resolve_cwd, CacheData, ContextWindow, CurrentUsage, InputJson, QuotaItem,
    SandboxInfo,
};
use crate::widget::{progress_bar_text, render_progress_bar, visual_width, Widget};

verus! {

// ---------------------------------------------------------------------------
// Pieces of text
// ---------------------------------------------------------------------------

/// Bold on.
pub open spec fn bold() -> Seq<char> {
    "\x1b[1m"@
}

/// All attributes off.
pub open spec fn reset() -> Seq<char> {
    "\x1b[0m"@
}

/// The glyph (with its trailing space) in front of a status line widget.
pub open spec fn widget_icon(name: Seq<char>) -> Seq<char> {
    if name == "vcs"@ {
        "\u{e0a0} "@
    } else if name == "path"@ {
        "\u{f07c} "@
    } else if name == "quota"@ {
        "\u{26a1}"@
    } else if name == "context"@ {
        "\u{f061a} "@
    } else if name == "cache"@ {
        "\u{f0a0} "@
    } else if name == "artifacts"@ {
        "\u{f09d1} "@
    } else if name == "subagents"@ {
        "\u{f06a9} "@
    } else if name == "tasks"@ {
        "\u{f051b} "@
    } else if name == "sandbox"@ {
        "\u{f132} "@
    } else {
        ""@
    }
}

/// The glyph of a status line widget (see `widget_icon`).
pub fn get_widget_icon(name: &str) -> (r: &'static str)
    ensures
        r@ == widget_icon(name@),
{
    if str_eq(name, "vcs") {
        "\u{e0a0} "
    } else if str_eq(name, "path") {
        "\u{f07c} "
    } else if str_eq(name, "quota") {
        "\u{26a1}"
    } else if str_eq(name, "context") {
        "\u{f061a} "
    } else if str_eq(name, "cache") {
        "\u{f0a0} "
    } else if str_eq(name, "artifacts") {
        "\u{f09d1} "
    } else if str_eq(name, "subagents") {
        "\u{f06a9} "
    } else if str_eq(name, "tasks") {
        "\u{f051b} "
    } else if str_eq(name, "sandbox") {
        "\u{f132} "
    } else {
        ""
    }
}

/// The texts of a list of widgets.
pub open spec fn texts_of(ws: Seq<Widget>) -> Seq<Seq<char>> {
    ws.map_values(|w: Widget| w.text@)
}

/// Whether every widget carries the visible width of its text.
pub open spec fn widths_ok(ws: Seq<Widget>) -> bool {
    forall|i: int| 0 <= i < ws.len() ==> #[trigger] ws[i].visual_width == visual_width(ws[i].text@)
}

fn push_widget(list: &mut Vec<Widget>, text: String)
    requires
        widths_ok(old(list)@),
    ensures
        widths_ok(final(list)@),
        texts_of(final(list)@) == texts_of(old(list)@).push(text@),
{
    let w = Widget::new(text);
    list.push(w);
    assert(texts_of(list@) =~= texts_of(old(list)@).push(w.text@));
}

/// A one-element list when `c` holds, else the empty list.
pub open spec fn when(c: bool, t: Seq<char>) -> Seq<Seq<char>> {
    if c {
        seq![t]
    } else {
        seq![]
    }
}

// ---------------------------------------------------------------------------
// Quota
// ---------------------------------------------------------------------------

/// Keeps the alphanumeric characters.
pub open spec fn keep_alphanumeric(s: Seq<char>) -> Seq<char>
    decreases s.len(),
{
    if s.len() == 0 {
        s
    } else if alphanumeric(s.last()) {
        keep_alphanumeric(s.drop_last()).push(s.last())
    } else {
        keep_alphanumeric(s.drop_last())
    }
}

/// A model name reduced for matching: lower-cased, alphanumerics only.
pub open spec fn clean_name(n: Seq<char>) -> Seq<char> {
    keep_alphanumeric(lowercase(n))
}

/// Reduces a model name for matching (see `clean_name`).
pub fn get_clean_name(n: &str) -> (r: Vec<char>)
    ensures
        r@ == clean_name(n@),
{
    let lower = to_lowercase(n);
    let v = chars_of(lower.as_str());
    let mut r: Vec<char> = Vec::new();
    let mut i: usize = 0;
    while i < v.len()
        invariant
            i <= v@.len(),
            r@ == keep_alphanumeric(v@.take(i as int)),
        decreases v.len() - i,
    {
        assert(v@.take(i + 1).drop_last() == v@.take(i as int));
        if is_alphanumeric(v[i]) {
            r.push(v[i]);
        }
        i = i + 1;
    }
    assert(v@.take(v@.len() as int) == v@);
    r
}

/// Whether an entry's display name or id, reduced, is the reduced model.
pub open spec fn exact_match(q: QuotaItem, target: Seq<char>) -> bool {
    clean_name(q.display_name@) == target || clean_name(q.id@) == target
}

/// Whether an entry's reduced display name and the reduced model contain
/// one another.
pub open spec fn loose_match(q: QuotaItem, target: Seq<char>) -> bool {
    contains(target, clean_name(q.display_name@)) || contains(clean_name(q.display_name@), target)
}

/// The first index at or after `i` whose entry matches exactly.
pub open spec fn first_exact(qs: Seq<QuotaItem>, target: Seq<char>, i: int) -> Option<int>
    decreases qs.len() - i,
{
    if i < 0 || i >= qs.len() {
        None
    } else if exact_match(qs[i], target) {
        Some(i)
    } else {
        first_exact(qs, target, i + 1)
    }
}

/// The first index at or after `i` whose entry matches loosely.
pub open spec fn first_loose(qs: Seq<QuotaItem>, target: Seq<char>, i: int) -> Option<int>
    decreases qs.len() - i,
{
    if i < 0 || i >= qs.len() {
        None
    } else if loose_match(qs[i], target) {
        Some(i)
    } else {
        first_loose(qs, target, i + 1)
    }
}

/// The quota entry of a model: the first exact match, else the first loose one.
pub open spec fn matched_quota(qs: Seq<QuotaItem>, model: Seq<char>) -> Option<int> {
    let t = clean_name(model);
    match first_exact(qs, t, 0) {
        Some(i) => Some(i),
        None => first_loose(qs, t, 0),
    }
}

proof fn lemma_first_exact_bounds(qs: Seq<QuotaItem>, t: Seq<char>, i: int)
    requires
        0 <= i,
    ensures
        first_exact(qs, t, i) matches Some(k) ==> i <= k < qs.len(),
    decreases qs.len() - i,
{
    if i < qs.len() && !exact_match(qs[i], t) {
        lemma_first_exact_bounds(qs, t, i + 1);
    }
}

proof fn lemma_first_loose_bounds(qs: Seq<QuotaItem>, t: Seq<char>, i: int)
    requires
        0 <= i,
    ensures
        first_loose(qs, t, i) matches Some(k) ==> i <= k < qs.len(),
    decreases qs.len() - i,
{
    if i < qs.len() && !loose_match(qs[i], t) {
        lemma_first_loose_bounds(qs, t, i + 1);
    }
}

/// Finds the quota entry of a model (see `matched_quota`).
pub fn find_quota(qs: &Vec<QuotaItem>, model: &str) -> (r: Option<usize>)
    ensures
        r matches Some(k) ==> matched_quota(qs@, model@) == Some(k as int) && k < qs@.len(),
        r is None ==> matched_quota(qs@, model@) is None,
{
    let target = get_clean_name(model);
    proof {
        lemma_first_exact_bounds(qs@, target@, 0);
        lemma_first_loose_bounds(qs@, target@, 0);
    }
    let mut i: usize = 0;
    while i < qs.len()
        invariant
            i <= qs@.len(),
            target@ == clean_name(model@),
            first_exact(qs@, target@, 0) == first_exact(qs@, target@, i as int),
        decreases qs.len() - i,
    {
        let d = get_clean_name(qs[i].display_name.as_str());
        let id = get_clean_name(qs[i].id.as_str());
        if crate::text::chars_eq(&d, &target) || crate::text::chars_eq(&id, &target) {
            return Some(i);
        }
        i = i + 1;
    }
    let mut j: usize = 0;
    while j < qs.len()
        invariant
            j <= qs@.len(),
            target@ == clean_name(model@),
            first_exact(qs@, target@, 0) is None,
            first_loose(qs@, target@, 0) == first_loose(qs@, target@, j as int),
        decreases qs.len() - j,
    {
        let d = get_clean_name(qs[j].display_name.as_str());
        if contains_chars(&target, &d) || contains_chars(&d, &target) {
            return Some(j);
        }
        j = j + 1;
    }
    None
}

/// The time left until a reset, to the minute: `~Nd Mh`, `~Nh Mm` or `~Nm`
/// (written without spaces).
pub open spec fn countdown(secs: nat) -> Seq<char> {
    let mins = secs / 60;
    let hours = mins / 60;
    let days = hours / 24;
    if days >= 1 {
        seq!['~'] + decimal(days) + seq!['d'] + decimal(hours % 24) + seq!['h']
    } else if hours >= 1 {
        seq!['~'] + decimal(hours) + seq!['h'] + decimal(mins % 60) + seq!['m']
    } else {
        seq!['~'] + decimal(mins) + seq!['m']
    }
}

/// The reset suffix of a quota entry: shown when the time is wanted and the
/// reset time parses to a moment after `now`.
pub open spec fn reset_suffix(t: Theme, q: QuotaItem, hide_time: bool, now: u64) -> Seq<char> {
    if hide_time {
        seq![]
    } else {
        match q.reset_time {
            Some(r) => match rfc3339_value(encode_utf8(r@)) {
                Some(p) => if p > now {
                    seq![' '] + t.palette.label@ + seq!['('] + countdown((p - now) as nat) + seq![
                        ')',
                    ] + reset()
                } else {
                    seq![]
                },
                None => seq![],
            },
            None => seq![],
        }
    }
}

/// Whether the quota text reads a reset time that would fail to parse.
pub open spec fn quota_panics(cache: CacheData, model: Seq<char>, hide_time: bool) -> bool {
    cache.needs_login != Some(true) && !hide_time && match matched_quota(cache.quota@, model) {
        Some(i) => match cache.quota@[i].reset_time {
            Some(r) => rfc3339_panics(encode_utf8(r@)),
            None => false,
        },
        None => false,
    }
}

/// The quota text of a model: a login request, a five-cell bar with the time
/// to the reset, or (when the time is hidden) the percent left; coloured
/// critical up to 20%, warning up to 50%, success above. Empty when no entry
/// matches.
pub open spec fn quota_text(
    t: Theme,
    cache: CacheData,
    model: Seq<char>,
    hide_time: bool,
    now: u64,
) -> Seq<char> {
    let label = t.palette.label@;
    let icon = widget_icon("quota"@);
    if cache.needs_login == Some(true) {
        label + icon + t.palette.warning@ + "\x1b[1m[LOGIN]\x1b[0m"@
    } else {
        match matched_quota(cache.quota@, model) {
            None => seq![],
            Some(i) => {
                let q = cache.quota@[i];
                let pct = q.remaining_percent;
                let active = if pct <= 20 {
                    t.palette.critical@
                } else if pct <= 50 {
                    t.palette.warning@
                } else {
                    t.palette.success@
                };
                let color = if pct <= 20 {
                    t.palette.critical@ + bold()
                } else {
                    active
                };
                if !hide_time {
                    let cells = if q.bar_cells < 5 {
                        q.bar_cells
                    } else {
                        5
                    };
                    label + icon + progress_bar_text(cells as nat, 5, active, true) + reset_suffix(
                        t,
                        q,
                        hide_time,
                        now,
                    )
                } else {
                    label + icon + color + decimal_signed(pct as int) + "%\x1b[0m"@
                }
            },
        }
    }
}

fn push_countdown(out: &mut String, secs: u64)
    ensures
        final(out)@ == old(out)@ + countdown(secs as nat),
{
    let diff_mins = secs / 60;
    let diff_hours = diff_mins / 60;
    let diff_days = diff_hours / 24;
    push_char(out, '~');
    if diff_days >= 1 {
        push_decimal(out, diff_days);
        push_char(out, 'd');
        push_decimal(out, diff_hours % 24);
        push_char(out, 'h');
    } else if diff_hours >= 1 {
        push_decimal(out, diff_hours);
        push_char(out, 'h');
        push_decimal(out, diff_mins % 60);
        push_char(out, 'm');
    } else {
        push_decimal(out, diff_mins);
        push_char(out, 'm');
    }
    assert(final(out)@ =~= old(out)@ + countdown(secs as nat));
}

/// The quota text of a model (see `quota_text`), with the current Unix time.
pub fn get_model_quota_string(
    t: &Theme,
    cache: &CacheData,
    current_model: &str,
    hide_time: bool,
    now: u64,
) -> (r: String)
    requires
        !quota_panics(*cache, current_model@, hide_time),
    ensures
        r@ == quota_text(*t, *cache, current_model@, hide_time, now),
{
    let icon = get_widget_icon("quota");
    if cache.needs_login == Some(true) {
        let mut s = owned(t.palette.label);
        push_str(&mut s, icon);
        push_str(&mut s, t.palette.warning);
        push_str(&mut s, "\x1b[1m[LOGIN]\x1b[0m");
        return s;
    }
    let idx = match find_quota(&cache.quota, current_model) {
        Some(i) => i,
        None => return String::new(),
    };
    let item = &cache.quota[idx];
    let pct = item.remaining_percent;
    let active: &str = if pct <= 20 {
        t.palette.critical
    } else if pct <= 50 {
        t.palette.warning
    } else {
        t.palette.success
    };
    let mut s = owned(t.palette.label);
    push_str(&mut s, icon);
    if !hide_time {
        let cells = if item.bar_cells < 5 {
            item.bar_cells
        } else {
            5
        };
        let bar = render_progress_bar(cells, 5, active, true);
        push_str(&mut s, bar.as_str());
        let ghost before = s@;
        if let Some(r_time) = &item.reset_time {
            if let Some(parsed) = match eval_rfc3339(r_time.as_str()) {
                Some(v) => v,
                None => None,
            } {
                if parsed > now {
                    push_char(&mut s, ' ');
                    push_str(&mut s, t.palette.label);
                    push_char(&mut s, '(');
                    push_countdown(&mut s, parsed - now);
                    push_char(&mut s, ')');
                    push_str(&mut s, "\x1b[0m");
                }
            }
        }
        assert(s@ =~= before + reset_suffix(*t, *item, hide_time, now));
    } else {
        if pct <= 20 {
            push_str(&mut s, t.palette.critical);
            push_str(&mut s, "\x1b[1m");
        } else {
            push_str(&mut s, active);
        }
        push_decimal_signed(&mut s, pct);
        push_str(&mut s, "%\x1b[0m");
    }
    assert(s@ =~= quota_text(*t, *cache, current_model@, hide_time, now));
    s
}

// ---------------------------------------------------------------------------
// The information row
// ---------------------------------------------------------------------------

/// The agent state of an input ("idle" when absent).
pub open spec fn state_name(json: InputJson) -> Seq<char> {
    match json.agent_state {
        Some(s) => s@,
        None => "idle"@,
    }
}

/// The label of the agent state.
pub open spec fn state_text(t: Theme, json: InputJson) -> Seq<char> {
    let s = state_name(json);
    if s == "idle"@ {
        t.states.ready@
    } else if s == "thinking"@ {
        t.states.thinking@
    } else if s == "working"@ {
        t.states.working@
    } else if s == "tool_use"@ {
        t.states.tool_use@
    } else {
        t.states.default_state@
    }
}

/// The mode widget of an agent name: `[GRILLME]`, `[PLAN]`, `[GOAL]` when
/// the lower-cased name contains that word, the upper-cased name for any
/// other name but "default" and "main".
pub open spec fn mode_widgets(t: Theme, name: Seq<char>) -> Seq<Seq<char>> {
    let lower = lowercase(name);
    if contains(lower, "grill"@) {
        seq![t.palette.critical@ + bold() + "[GRILLME]\x1b[0m"@]
    } else if contains(lower, "plan"@) {
        seq![t.palette.accent@ + bold() + "[PLAN]\x1b[0m"@]
    } else if contains(lower, "goal"@) {
        seq![t.palette.success@ + bold() + "[GOAL]\x1b[0m"@]
    } else if lower != "default"@ && lower != "main"@ && lower.len() > 0 {
        seq![t.palette.accent@ + bold() + seq!['['] + uppercase(name) + "]\x1b[0m"@]
    } else {
        seq![]
    }
}

/// The widgets of the agent: its mode and a status other than "idle".
pub open spec fn agent_widgets(t: Theme, json: InputJson) -> Seq<Seq<char>> {
    match json.agent {
        Some(a) => (match a.name {
            Some(n) => mode_widgets(t, n@),
            None => seq![],
        }) + (match a.status {
            Some(st) => when(st@.len() > 0 && st@ != "idle"@, t.palette.accent@ + st@ + reset()),
            None => seq![],
        }),
        None => seq![],
    }
}

/// The approval alert and the count of pending inputs.
pub open spec fn alert_widgets(t: Theme, json: InputJson) -> Seq<Seq<char>> {
    let n: u32 = match json.pending_input_count {
        Some(c) => c,
        None => 0,
    };
    when(
        json.tool_confirmation_pending == Some(true),
        t.palette.critical@ + bold() + "[! PENDING APPROVAL]\x1b[0m"@,
    ) + when(n > 0, t.palette.warning@ + "> "@ + decimal(n as nat) + reset())
}

/// The display name of the model, empty when absent.
pub open spec fn model_name(json: InputJson) -> Seq<char> {
    match json.model {
        Some(m) => match m.display_name {
            Some(d) => d@,
            None => seq![],
        },
        None => seq![],
    }
}

/// The short form of a model name: the name without its first word (the
/// vendor), or the name itself when it is a single word.
pub open spec fn short_model_name(name: Seq<char>) -> Seq<char> {
    match find(name, seq![' ']) {
        Some(k) => name.skip(k + 1),
        None => name,
    }
}

/// Shortens a model name (see `short_model_name`).
pub fn get_short_model_name(name: &str) -> (r: String)
    ensures
        r@ == short_model_name(name@),
{
    let v = chars_of(name);
    let space = vec![' '];
    assert(space@ =~= seq![' ']);
    match find_chars(&v, &space) {
        Some(k) => {
            let n = v.len();
            assert(k + 1 <= n);
            let mut out = String::new();
            let mut i: usize = k + 1;
            while i < v.len()
                invariant
                    k + 1 <= i <= v@.len(),
                    out@ == v@.subrange(k + 1, i as int),
                decreases v.len() - i,
            {
                push_char(&mut out, v[i]);
                i = i + 1;
                assert(out@ =~= v@.subrange(k + 1, i as int));
            }
            assert(out@ =~= v@.skip(k + 1));
            out
        },
        None => owned(name),
    }
}

/// Whether the quota time is hidden at this step and width.
pub open spec fn hides_time(step: nat, cols: nat) -> bool {
    step >= 6 || cols < 80
}

/// The model widget: the (at step 4 and above, shortened) model name with
/// its plan tier, and the quota text after a separator when there is one.
pub open spec fn model_widgets(
    t: Theme,
    json: InputJson,
    cache: CacheData,
    step: nat,
    cols: nat,
    now: u64,
) -> Seq<Seq<char>> {
    let raw = model_name(json);
    if raw.len() == 0 {
        seq![]
    } else {
        let q = quota_text(t, cache, raw, hides_time(step, cols), now);
        let base = if step >= 4 {
            short_model_name(raw)
        } else {
            raw
        };
        let part = match json.plan_tier {
            Some(tier) => if tier@.len() > 0 {
                base + " ["@ + tier@ + seq![']']
            } else {
                base
            },
            None => base,
        };
        if q.len() > 0 {
            seq![
                t.palette.accent@ + part + "\x1b[0m "@ + t.palette.border@ + seq!['|']
                    + t.palette.border@ + "\x1b[0m "@ + q,
            ]
        } else {
            seq![t.palette.accent@ + part + reset()]
        }
    }
}

/// The path widget, shown below step 5: the last component from step 3
/// on, the shortened path before.
pub open spec fn path_widgets(t: Theme, json: InputJson, step: nat, home: Seq<char>) -> Seq<
    Seq<char>,
> {
    let cwd = input_cwd(json);
    when(
        cwd.len() > 0 && step < 5,
        t.palette.label@ + widget_icon("path"@) + (if step >= 3 {
            last_segment(replace_char(cwd, '\\', '/'), '/')
        } else {
            shorten_path(cwd, home)
        }) + reset(),
    )
}

/// The branch as shown: from step 4 on cut to 8 bytes and `..` when longer
/// than 10 bytes, before that cut to 12 bytes when longer than 15.
pub open spec fn branch_label(b: Seq<char>, step: nat) -> Seq<char> {
    let n = encode_utf8(b).len();
    if step >= 4 {
        if n > 10 {
            byte_prefix(b, 8) + ".."@
        } else {
            b
        }
    } else if n > 15 {
        byte_prefix(b, 12) + ".."@
    } else {
        b
    }
}

/// Whether cutting the branch falls inside a character.
pub open spec fn branch_panics(b: Seq<char>, step: nat) -> bool {
    let bytes = encode_utf8(b);
    if step >= 4 {
        bytes.len() > 10 && !boundary(bytes, 8)
    } else {
        bytes.len() > 15 && !boundary(bytes, 12)
    }
}

/// The dirty mark (with the number of changed files below step 4) and,
/// below step 4, the commits ahead and behind.
pub open spec fn git_extra(dirty: bool, modified: u32, ahead: u32, behind: u32, step: nat) -> Seq<
    char,
> {
    (if dirty {
        if modified > 0 && step < 4 {
            seq!['*'] + decimal(modified as nat)
        } else {
            seq!['*']
        }
    } else {
        seq![]
    }) + (if step < 4 {
        if ahead > 0 && behind > 0 {
            " \u{2191}"@ + decimal(ahead as nat) + "\u{2193}"@ + decimal(behind as nat)
        } else if ahead > 0 {
            " \u{2191}"@ + decimal(ahead as nat)
        } else if behind > 0 {
            " \u{2193}"@ + decimal(behind as nat)
        } else {
            seq![]
        }
    } else {
        seq![]
    })
}

/// Whether the cached repository state is shown: for the input's directory,
/// with a branch, below step 6.
pub open spec fn shows_vcs(json: InputJson, cache: CacheData, step: nat) -> bool {
    match cache.vcs {
        Some(v) => v.cwd@ == input_cwd(json) && v.branch@.len() > 0 && step < 6,
        None => false,
    }
}

/// The git widget.
pub open spec fn vcs_widgets(t: Theme, json: InputJson, cache: CacheData, step: nat) -> Seq<
    Seq<char>,
> {
    if shows_vcs(json, cache, step) {
        let v = cache.vcs->0;
        let label = widget_icon("vcs"@) + branch_label(v.branch@, step);
        let extra = git_extra(v.dirty, v.modified, v.ahead, v.behind, step);
        seq![
            if extra.len() > 0 {
                if v.dirty {
                    t.palette.label@ + label + t.palette.warning@ + extra + reset()
                } else {
                    t.palette.label@ + label + t.palette.border@ + extra + reset()
                }
            } else {
                t.palette.label@ + label + reset()
            },
        ]
    } else {
        seq![]
    }
}

/// The e-mail, version and conversation id (first 8 bytes), below step 2.
pub open spec fn account_widgets(json: InputJson, step: nat) -> Seq<Seq<char>> {
    if step < 2 {
        (match json.email {
            Some(e) => when(e@.len() > 0, e@),
            None => seq![],
        }) + (match json.version {
            Some(v) => when(v@.len() > 0, seq!['v'] + v@),
            None => seq![],
        }) + (match json.conversation_id {
            Some(c) => when(c@.len() > 0, "id:"@ + byte_prefix(c@, 8)),
            None => seq![],
        })
    } else {
        seq![]
    }
}

/// Whether building the information row at this step reads a reset time
/// that fails to parse or cuts a text inside a character.
pub open spec fn info_panics(json: InputJson, cache: CacheData, step: nat, cols: nat) -> bool {
    ||| (model_name(json).len() > 0 && quota_panics(cache, model_name(json), hides_time(step, cols)))
    ||| (shows_vcs(json, cache, step) && branch_panics(cache.vcs->0.branch@, step))
    ||| (step < 2 && match json.conversation_id {
        Some(c) => c@.len() > 0 && encode_utf8(c@).len() > 8 && !boundary(encode_utf8(c@), 8),
        None => false,
    })
}

/// The texts of the information row at a step (0 is the widest).
pub open spec fn info_texts(
    t: Theme,
    json: InputJson,
    cache: CacheData,
    step: nat,
    cols: nat,
    now: u64,
    home: Seq<char>,
) -> Seq<Seq<char>> {
    seq![state_text(t, json)] + agent_widgets(t, json) + alert_widgets(t, json) + model_widgets(
        t,
        json,
        cache,
        step,
        cols,
        now,
    ) + path_widgets(t, json, step, home) + vcs_widgets(t, json, cache, step) + account_widgets(
        json,
        step,
    )
}

fn chars_len(s: &str) -> (n: usize)
    ensures
        n == s@.len(),
{
    chars_of(s).len()
}

fn push_mode_widget(list: &mut Vec<Widget>, t: &Theme, name: &String)
    requires
        widths_ok(old(list)@),
    ensures
        widths_ok(final(list)@),
        texts_of(final(list)@) == texts_of(old(list)@) + mode_widgets(*t, name@),
{
    let ghost start = texts_of(list@);
    let lower = to_lowercase(name.as_str());
    if crate::text::contains_str(lower.as_str(), "grill") {
        let mut text = owned(t.palette.critical);
        push_str(&mut text, "\x1b[1m");
        push_str(&mut text, "[GRILLME]\x1b[0m");
        push_widget(list, text);
    } else if crate::text::contains_str(lower.as_str(), "plan") {
        let mut text = owned(t.palette.accent);
        push_str(&mut text, "\x1b[1m");
        push_str(&mut text, "[PLAN]\x1b[0m");
        push_widget(list, text);
    } else if crate::text::contains_str(lower.as_str(), "goal") {
        let mut text = owned(t.palette.success);
        push_str(&mut text, "\x1b[1m");
        push_str(&mut text, "[GOAL]\x1b[0m");
        push_widget(list, text);
    } else if !str_eq(lower.as_str(), "default") && !str_eq(lower.as_str(), "main") && chars_len(
        lower.as_str(),
    ) > 0 {
        let mut text = owned(t.palette.accent);
        push_str(&mut text, "\x1b[1m");
        push_char(&mut text, '[');
        let upper = to_uppercase(name.as_str());
        push_str(&mut text, upper.as_str());
        push_str(&mut text, "]\x1b[0m");
        assert(text@ =~= t.palette.accent@ + bold() + seq!['['] + uppercase(name@) + "]\x1b[0m"@);
        push_widget(list, text);
    }
    assert(texts_of(list@) =~= start + mode_widgets(*t, name@));
}

fn push_agent_widgets(list: &mut Vec<Widget>, t: &Theme, json: &InputJson)
    requires
        widths_ok(old(list)@),
    ensures
        widths_ok(final(list)@),
        texts_of(final(list)@) == texts_of(old(list)@) + agent_widgets(*t, *json),
{
    let ghost start = texts_of(list@);
    if let Some(agent) = &json.agent {
        if let Some(name) = &agent.name {
            push_mode_widget(list, t, name);
        }
        let ghost mid = texts_of(list@);
        assert(mid =~= start + match agent.name {
            Some(n) => mode_widgets(*t, n@),
            None => seq![],
        });
        if let Some(status) = &agent.status {
            if chars_len(status.as_str()) > 0 && !str_eq(status.as_str(), "idle") {
                let mut text = owned(t.palette.accent);
                push_str(&mut text, status.as_str());
                push_str(&mut text, "\x1b[0m");
                push_widget(list, text);
            }
        }
        assert(texts_of(list@) =~= mid + match agent.status {
            Some(st) => when(st@.len() > 0 && st@ != "idle"@, t.palette.accent@ + st@ + reset()),
            None => seq![],
        });
        assert(texts_of(list@) =~= start + agent_widgets(*t, *json));
    } else {
        assert(texts_of(list@) =~= start + agent_widgets(*t, *json));
    }
}

fn push_alert_widgets(list: &mut Vec<Widget>, t: &Theme, json: &InputJson)
    requires
        widths_ok(old(list)@),
    ensures
        widths_ok(final(list)@),
        texts_of(final(list)@) == texts_of(old(list)@) + alert_widgets(*t, *json),
{
    let ghost start = texts_of(list@);
    if json.tool_confirmation_pending == Some(true) {
        let mut text = owned(t.palette.critical);
        push_str(&mut text, "\x1b[1m");
        push_str(&mut text, "[! PENDING APPROVAL]\x1b[0m");
        push_widget(list, text);
    }
    let p_input: u32 = match json.pending_input_count {
        Some(c) => c,
        None => 0,
    };
    if p_input > 0 {
        let mut text = owned(t.palette.warning);
        push_str(&mut text, "> ");
        push_decimal(&mut text, p_input as u64);
        push_str(&mut text, "\x1b[0m");
        push_widget(list, text);
    }
    assert(texts_of(list@) =~= start + alert_widgets(*t, *json));
}

fn push_model_widgets(
    list: &mut Vec<Widget>,
    t: &Theme,
    json: &InputJson,
    cache: &CacheData,
    step: usize,
    cols: usize,
    now: u64,
)
    requires
        widths_ok(old(list)@),
        !(model_name(*json).len() > 0 && quota_panics(
            *cache,
            model_name(*json),
            hides_time(step as nat, cols as nat),
        )),
    ensures
        widths_ok(final(list)@),
        texts_of(final(list)@) == texts_of(old(list)@) + model_widgets(
            *t,
            *json,
            *cache,
            step as nat,
            cols as nat,
            now,
        ),
{
    let ghost start = texts_of(list@);
    let raw_model: String = match &json.model {
        Some(m) => match &m.display_name {
            Some(d) => d.clone(),
            None => String::new(),
        },
        None => String::new(),
    };
    if chars_len(raw_model.as_str()) == 0 {
        assert(texts_of(list@) =~= start + model_widgets(
            *t,
            *json,
            *cache,
            step as nat,
            cols as nat,
            now,
        ));
        return;
    }
    assert(raw_model@ == model_name(*json));
    let q_info = get_model_quota_string(t, cache, raw_model.as_str(), step >= 6 || cols < 80, now);
    let mut model_part = if step >= 4 {
        get_short_model_name(raw_model.as_str())
    } else {
        raw_model.clone()
    };
    let ghost base = model_part@;
    if let Some(tier) = &json.plan_tier {
        if chars_len(tier.as_str()) > 0 {
            push_str(&mut model_part, " [");
            push_str(&mut model_part, tier.as_str());
            push_char(&mut model_part, ']');
        }
    }
    assert(model_part@ =~= match json.plan_tier {
        Some(tier) => if tier@.len() > 0 {
            base + " ["@ + tier@ + seq![']']
        } else {
            base
        },
        None => base,
    });
    let mut text = owned(t.palette.accent);
    push_str(&mut text, model_part.as_str());
    if chars_len(q_info.as_str()) > 0 {
        push_str(&mut text, "\x1b[0m ");
        push_str(&mut text, t.palette.border);
        push_char(&mut text, '|');
        push_str(&mut text, t.palette.border);
        push_str(&mut text, "\x1b[0m ");
        push_str(&mut text, q_info.as_str());
        assert(text@ =~= t.palette.accent@ + model_part@ + "\x1b[0m "@ + t.palette.border@
            + seq!['|'] + t.palette.border@ + "\x1b[0m "@ + q_info@);
    } else {
        push_str(&mut text, "\x1b[0m");
        assert(text@ =~= t.palette.accent@ + model_part@ + reset());
    }
    assert(q_info@ == quota_text(*t, *cache, model_name(*json), hides_time(step as nat, cols as nat), now));
    push_widget(list, text);
    assert(texts_of(list@) =~= start + model_widgets(
        *t,
        *json,
        *cache,
        step as nat,
        cols as nat,
        now,
    ));
}

fn push_path_widgets(
    list: &mut Vec<Widget>,
    t: &Theme,
    json: &InputJson,
    step: usize,
    home: &str,
)
    requires
        widths_ok(old(list)@),
    ensures
        widths_ok(final(list)@),
        texts_of(final(list)@) == texts_of(old(list)@) + path_widgets(
            *t,
            *json,
            step as nat,
            home@,
        ),
{
    let ghost start = texts_of(list@);
    let raw_cwd = resolve_cwd(json);
    if chars_len(raw_cwd.as_str()) > 0 && step < 5 {
        let path_text = if step >= 3 {
            let n = replace_char_chars(&chars_of(raw_cwd.as_str()), '\\', '/');
            string_of(&last_segment_chars(&n, '/'))
        } else {
            get_shorten_path(raw_cwd.as_str(), home)
        };
        let mut text = owned(t.palette.label);
        push_str(&mut text, get_widget_icon("path"));
        push_str(&mut text, path_text.as_str());
        push_str(&mut text, "\x1b[0m");
        push_widget(list, text);
    }
    assert(texts_of(list@) =~= start + path_widgets(*t, *json, step as nat, home@));
}

fn branch_text(branch: &String, step: usize) -> (r: String)
    requires
        !branch_panics(branch@, step as nat),
    ensures
        r@ == branch_label(branch@, step as nat),
{
    let n = branch.as_str().as_bytes().len();
    if step >= 4 {
        if n > 10 {
            let mut s = truncate_bytes(branch.as_str(), 8);
            push_str(&mut s, "..");
            s
        } else {
            branch.clone()
        }
    } else if n > 15 {
        let mut s = truncate_bytes(branch.as_str(), 12);
        push_str(&mut s, "..");
        s
    } else {
        branch.clone()
    }
}

fn git_extra_text(dirty: bool, modified: u32, ahead: u32, behind: u32, step: usize) -> (r: String)
    ensures
        r@ == git_extra(dirty, modified, ahead, behind, step as nat),
{
    let mut s = String::new();
    if dirty {
        push_char(&mut s, '*');
        if modified > 0 && step < 4 {
            push_decimal(&mut s, modified as u64);
        }
    }
    if step < 4 {
        if ahead > 0 && behind > 0 {
            push_str(&mut s, " \u{2191}");
            push_decimal(&mut s, ahead as u64);
            push_str(&mut s, "\u{2193}");
            push_decimal(&mut s, behind as u64);
        } else if ahead > 0 {
            push_str(&mut s, " \u{2191}");
            push_decimal(&mut s, ahead as u64);
        } else if behind > 0 {
            push_str(&mut s, " \u{2193}");
            push_decimal(&mut s, behind as u64);
        }
    }
    assert(s@ =~= git_extra(dirty, modified, ahead, behind, step as nat));
    s
}

fn push_vcs_widgets(
    list: &mut Vec<Widget>,
    t: &Theme,
    json: &InputJson,
    cache: &CacheData,
    step: usize,
)
    requires
        widths_ok(old(list)@),
        !(shows_vcs(*json, *cache, step as nat) && branch_panics(cache.vcs->0.branch@, step as nat)),
    ensures
        widths_ok(final(list)@),
        texts_of(final(list)@) == texts_of(old(list)@) + vcs_widgets(
            *t,
            *json,
            *cache,
            step as nat,
        ),
{
    let ghost start = texts_of(list@);
    let raw_cwd = resolve_cwd(json);
    if let Some(vcs) = &cache.vcs {
        if str_eq(vcs.cwd.as_str(), raw_cwd.as_str()) && chars_len(vcs.branch.as_str()) > 0 && step
            < 6 {
            let mut label = owned(get_widget_icon("vcs"));
            let b = branch_text(&vcs.branch, step);
            push_str(&mut label, b.as_str());
            let extra = git_extra_text(vcs.dirty, vcs.modified, vcs.ahead, vcs.behind, step);
            let mut text = owned(t.palette.label);
            push_str(&mut text, label.as_str());
            if chars_len(extra.as_str()) > 0 {
                if vcs.dirty {
                    push_str(&mut text, t.palette.warning);
                } else {
                    push_str(&mut text, t.palette.border);
                }
                push_str(&mut text, extra.as_str());
            }
            push_str(&mut text, "\x1b[0m");
            push_widget(list, text);
        }
    }
    assert(texts_of(list@) =~= start + vcs_widgets(*t, *json, *cache, step as nat));
}

fn push_account_widgets(list: &mut Vec<Widget>, json: &InputJson, step: usize)
    requires
        widths_ok(old(list)@),
        !(step < 2 && match json.conversation_id {
            Some(c) => c@.len() > 0 && encode_utf8(c@).len() > 8 && !boundary(
                encode_utf8(c@),
                8,
            ),
            None => false,
        }),
    ensures
        widths_ok(final(list)@),
        texts_of(final(list)@) == texts_of(old(list)@) + account_widgets(*json, step as nat),
{
    let ghost start = texts_of(list@);
    if step < 2 {
        if let Some(email) = &json.email {
            if chars_len(email.as_str()) > 0 {
                push_widget(list, email.clone());
            }
        }
        let ghost a = texts_of(list@);
        assert(a =~= start + match json.email {
            Some(e) => when(e@.len() > 0, e@),
            None => seq![],
        });
        if let Some(ver) = &json.version {
            if chars_len(ver.as_str()) > 0 {
                let mut text = owned("v");
                proof {
                    reveal_strlit("v");
                    assert("v"@ =~= seq!['v']);
                }
                push_str(&mut text, ver.as_str());
                push_widget(list, text);
            }
        }
        let ghost b = texts_of(list@);
        assert(b =~= a + match json.version {
            Some(v) => when(v@.len() > 0, seq!['v'] + v@),
            None => seq![],
        });
        if let Some(cid) = &json.conversation_id {
            if chars_len(cid.as_str()) > 0 {
                let mut text = owned("id:");
                let p = truncate_bytes(cid.as_str(), 8);
                push_str(&mut text, p.as_str());
                push_widget(list, text);
            }
        }
        assert(texts_of(list@) =~= b + match json.conversation_id {
            Some(c) => when(c@.len() > 0, "id:"@ + byte_prefix(c@, 8)),
            None => seq![],
        });
    }
    assert(texts_of(list@) =~= start + account_widgets(*json, step as nat));
}

/// The widgets of the information row at a step (see `info_texts`); `home`
/// is the user's home directory and `now` the current Unix time.
pub fn get_info_widgets(
    t: &Theme,
    json: &InputJson,
    cache: &CacheData,
    step: usize,
    cols: usize,
    now: u64,
    home: &str,
) -> (r: Vec<Widget>)
    requires
        !info_panics(*json, *cache, step as nat, cols as nat),
    ensures
        widths_ok(r@),
        texts_of(r@) == info_texts(*t, *json, *cache, step as nat, cols as nat, now, home@),
{
    let mut list: Vec<Widget> = Vec::new();
    let state: String = match &json.agent_state {
        Some(s) => s.clone(),
        None => owned("idle"),
    };
    let label: &str = if str_eq(state.as_str(), "idle") {
        t.states.ready
    } else if str_eq(state.as_str(), "thinking") {
        t.states.thinking
    } else if str_eq(state.as_str(), "working") {
        t.states.working
    } else if str_eq(state.as_str(), "tool_use") {
        t.states.tool_use
    } else {
        t.states.default_state
    };
    assert(texts_of(list@) =~= Seq::<Seq<char>>::empty());
    push_widget(&mut list, owned(label));
    push_agent_widgets(&mut list, t, json);
    push_alert_widgets(&mut list, t, json);
    push_model_widgets(&mut list, t, json, cache, step, cols, now);
    push_path_widgets(&mut list, t, json, step, home);
    push_vcs_widgets(&mut list, t, json, cache, step);
    push_account_widgets(&mut list, json, step);
    assert(texts_of(list@) =~= info_texts(*t, *json, *cache, step as nat, cols as nat, now, home@));
    list
}

// ---------------------------------------------------------------------------
// The metrics row
// ---------------------------------------------------------------------------

/// How full the context window is: below 60%, from 60%, from 90%.
pub enum UsageLevel {
    Normal,
    High,
    Critical,
}

/// What the context widget draws from the floating-point percentage of the
/// window in use: its level, its text and that of the free rest (one
/// decimal each), and for each bar length `n` up to 10 the rounded number of
/// cells it fills (`bar_cells[n]`, at most `n` of which are drawn).
pub struct ContextFigures {
    pub level: UsageLevel,
    pub percent_text: String,
    pub free_percent_text: String,
    pub bar_cells: Vec<usize>,
}

/// A count, 0 when absent.
pub open spec fn count_or_zero(o: Option<u64>) -> nat {
    match o {
        Some(v) => v as nat,
        None => 0,
    }
}

/// Input plus output tokens.
pub open spec fn used_tokens(json: InputJson) -> nat {
    match json.context_window {
        Some(c) => count_or_zero(c.total_input_tokens) + count_or_zero(c.total_output_tokens),
        None => 0,
    }
}

/// The size of the window.
pub open spec fn limit_tokens(json: InputJson) -> nat {
    match json.context_window {
        Some(c) => count_or_zero(c.context_window_size),
        None => 0,
    }
}

/// The cache reads (`.0`) and writes (`.1`) of the last request.
pub open spec fn cache_tokens(json: InputJson) -> (nat, nat) {
    match json.context_window {
        Some(c) => match c.current_usage {
            Some(u) => (
                count_or_zero(u.cache_read_input_tokens),
                count_or_zero(u.cache_creation_input_tokens),
            ),
            None => (0, 0),
        },
        None => (0, 0),
    }
}

/// The bar length (`.0`) and detail mode (`.1`) of a step.
pub open spec fn bar_setup(step: nat) -> (nat, nat) {
    if step >= 10 {
        (0, 3)
    } else if step >= 9 {
        (3, 3)
    } else if step >= 7 {
        (5, 3)
    } else if step >= 6 {
        (6, 2)
    } else if step >= 5 {
        (8, 1)
    } else {
        (10, 0)
    }
}

/// The colour of a usage level.
pub open spec fn level_color(t: Theme, l: UsageLevel) -> Seq<char> {
    match l {
        UsageLevel::Critical => t.palette.critical@,
        UsageLevel::High => t.palette.warning@,
        UsageLevel::Normal => t.palette.accent@,
    }
}

/// The token detail after the percentage: used/size (mode 0, and mode 2
/// when both are known), the free percentage and tokens (mode 1, when the
/// size is known), nothing otherwise.
pub open spec fn detail_text(mode: nat, used: nat, limit: nat, free_text: Seq<char>) -> Seq<char> {
    if mode == 0 {
        " ("@ + human_format(used) + seq!['/'] + human_format(limit) + seq![')']
    } else if mode == 1 {
        if limit > 0 {
            " (free:"@ + free_text + "%/"@ + human_format(
                if limit >= used {
                    (limit - used) as nat
                } else {
                    0
                },
            ) + seq![')']
        } else {
            seq![]
        }
    } else if mode == 2 && used > 0 && limit > 0 {
        " ("@ + human_format(used) + seq!['/'] + human_format(limit) + seq![')']
    } else {
        seq![]
    }
}

/// The context widget of a step.
pub open spec fn context_text(t: Theme, json: InputJson, step: nat, fig: ContextFigures) -> Seq<
    char,
> {
    let (bar_len, mode) = bar_setup(step);
    let cells = fig.bar_cells@[bar_len as int];
    let filled = if cells < bar_len {
        cells as nat
    } else {
        bar_len
    };
    let head = t.palette.label@ + widget_icon("context"@) + t.palette.label@ + "ctx\x1b[0m "@;
    if bar_len > 0 {
        head + progress_bar_text(filled, bar_len, level_color(t, fig.level), false) + seq![' ']
            + t.palette.accent@ + bold() + fig.percent_text@ + "%\x1b[0m"@ + t.palette.label@
            + detail_text(mode, used_tokens(json), limit_tokens(json), fig.free_percent_text@)
            + reset()
    } else {
        head + t.palette.accent@ + bold() + fig.percent_text@ + "%\x1b[0m"@
    }
}

/// The cache widget, below step 3, when the last request read or wrote the
/// cache.
pub open spec fn cache_widgets(t: Theme, json: InputJson, step: nat) -> Seq<Seq<char>> {
    let (rd, wr) = cache_tokens(json);
    let head = t.palette.label@ + widget_icon("cache"@) + t.palette.label@ + "cache\x1b[0m "@
        + t.palette.accent@ + bold() + "rd:"@ + human_format(rd);
    when(
        step < 3 && (rd > 0 || wr > 0),
        if wr > 0 {
            head + "/wr:"@ + human_format(wr) + reset()
        } else {
            head + reset()
        },
    )
}

/// A counter widget: `icon name count`.
pub open spec fn counter_text(t: Theme, name: Seq<char>, n: nat) -> Seq<char> {
    t.palette.label@ + widget_icon(name) + t.palette.label@ + name + "\x1b[0m "@ + t.palette.accent@
        + bold() + decimal(n) + reset()
}

/// The number of artifacts: the list's length, else the count, else 0.
pub open spec fn artifact_total(json: InputJson) -> nat {
    match json.artifacts {
        Some(n) => n as nat,
        None => match json.artifact_count {
            Some(c) => c as nat,
            None => 0,
        },
    }
}

/// The number of background tasks: the list's length, else the count, else 0.
pub open spec fn task_total(json: InputJson) -> nat {
    match json.background_tasks {
        Some(n) => n as nat,
        None => match json.task_count {
            Some(c) => c as nat,
            None => 0,
        },
    }
}

/// The number of subagents.
pub open spec fn subagent_total(json: InputJson) -> nat {
    match json.subagents {
        Some(n) => n as nat,
        None => 0,
    }
}

/// The sandbox widget, below step 4, when the sandbox is on.
pub open spec fn sandbox_widgets(t: Theme, json: InputJson, step: nat) -> Seq<Seq<char>> {
    match json.sandbox {
        Some(sb) => when(
            sb.enabled == Some(true) && step < 4,
            t.palette.label@ + widget_icon("sandbox"@) + t.palette.label@ + "sandbox\x1b[0m "@
                + t.palette.success@ + bold() + if sb.allow_network == Some(true) {
                "ON(net)\x1b[0m"@
            } else {
                "ON(no-net)\x1b[0m"@
            },
        ),
        None => seq![],
    }
}

/// Whether the metrics row at this step adds up more tokens than a `u64`
/// holds.
pub open spec fn metric_panics(json: InputJson, step: nat) -> bool {
    step < 11 && used_tokens(json) > u64::MAX
}

/// The texts of the metrics row at a step (0 is the widest).
pub open spec fn metric_texts(t: Theme, json: InputJson, step: nat, fig: ContextFigures) -> Seq<
    Seq<char>,
> {
    (if step < 11 {
        seq![context_text(t, json, step, fig)] + cache_widgets(t, json, step)
    } else {
        seq![]
    }) + when(
        artifact_total(json) > 0 && step < 6,
        counter_text(t, "artifacts"@, artifact_total(json)),
    ) + when(
        subagent_total(json) > 0 && step < 8,
        counter_text(t, "subagents"@, subagent_total(json)),
    ) + when(task_total(json) > 0 && step < 8, counter_text(t, "tasks"@, task_total(json)))
        + sandbox_widgets(t, json, step)
}

fn opt_count(o: Option<u64>) -> (r: u64)
    ensures
        r as nat == count_or_zero(o),
{
    match o {
        Some(v) => v,
        None => 0,
    }
}

fn push_detail(out: &mut String, mode: usize, used: u64, limit: u64, free_text: &String)
    ensures
        final(out)@ == old(out)@ + detail_text(mode as nat, used as nat, limit as nat, free_text@),
{
    let ghost start = out@;
    if mode == 0 || (mode == 2 && used > 0 && limit > 0) {
        push_str(out, " (");
        push_str(out, get_human_format(used).as_str());
        push_char(out, '/');
        push_str(out, get_human_format(limit).as_str());
        push_char(out, ')');
    } else if mode == 1 {
        if limit > 0 {
            push_str(out, " (free:");
            push_str(out, free_text.as_str());
            push_str(out, "%/");
            let free_tok = if limit >= used {
                limit - used
            } else {
                0
            };
            push_str(out, get_human_format(free_tok).as_str());
            push_char(out, ')');
        }
    }
    assert(out@ =~= start + detail_text(mode as nat, used as nat, limit as nat, free_text@));
}

fn push_counter(list: &mut Vec<Widget>, t: &Theme, name: &str, n: usize)
    requires
        widths_ok(old(list)@),
    ensures
        widths_ok(final(list)@),
        texts_of(final(list)@) == texts_of(old(list)@).push(counter_text(*t, name@, n as nat)),
{
    let mut text = owned(t.palette.label);
    push_str(&mut text, get_widget_icon(name));
    push_str(&mut text, t.palette.label);
    push_str(&mut text, name);
    push_str(&mut text, "\x1b[0m ");
    push_str(&mut text, t.palette.accent);
    push_str(&mut text, "\x1b[1m");
    push_decimal(&mut text, n as u64);
    push_str(&mut text, "\x1b[0m");
    assert(text@ =~= counter_text(*t, name@, n as nat));
    push_widget(list, text);
}

fn token_counts(json: &InputJson) -> (r: (u64, u64, u64, u64))
    requires
        used_tokens(*json) <= u64::MAX,
    ensures
        r.0 as nat == used_tokens(*json),
        r.1 as nat == limit_tokens(*json),
        r.2 as nat == cache_tokens(*json).0,
        r.3 as nat == cache_tokens(*json).1,
{
    match &json.context_window {
        Some(c) => {
            let (rd, wr): (u64, u64) = match &c.current_usage {
                Some(u) => (
                    opt_count(u.cache_read_input_tokens),
                    opt_count(u.cache_creation_input_tokens),
                ),
                None => (0, 0),
            };
            let input_tok = opt_count(c.total_input_tokens);
            let output_tok = opt_count(c.total_output_tokens);
            (input_tok + output_tok, opt_count(c.context_window_size), rd, wr)
        },
        None => (0, 0, 0, 0),
    }
}

fn bar_setup_exec(step: usize) -> (r: (usize, usize))
    ensures
        r.0 as nat == bar_setup(step as nat).0,
        r.1 as nat == bar_setup(step as nat).1,
        r.0 <= 10,
{
    if step >= 10 {
        (0, 3)
    } else if step >= 9 {
        (3, 3)
    } else if step >= 7 {
        (5, 3)
    } else if step >= 6 {
        (6, 2)
    } else if step >= 5 {
        (8, 1)
    } else {
        (10, 0)
    }
}

fn context_widget_text(t: &Theme, json: &InputJson, step: usize, fig: &ContextFigures) -> (r:
    String)
    requires
        used_tokens(*json) <= u64::MAX,
        fig.bar_cells@.len() > 10,
    ensures
        r@ == context_text(*t, *json, step as nat, *fig),
{
    let (bar_len, detail_mode) = bar_setup_exec(step);
    let (total_used, limit_tok, _rd, _wr) = token_counts(json);
    let bar_color: &str = match fig.level {
        UsageLevel::Critical => t.palette.critical,
        UsageLevel::High => t.palette.warning,
        UsageLevel::Normal => t.palette.accent,
    };
    let cells = fig.bar_cells[bar_len];
    let filled = if cells < bar_len {
        cells
    } else {
        bar_len
    };
    let mut text = owned(t.palette.label);
    push_str(&mut text, get_widget_icon("context"));
    push_str(&mut text, t.palette.label);
    push_str(&mut text, "ctx\x1b[0m ");
    let ghost head = text@;
    if bar_len > 0 {
        let bar = render_progress_bar(filled, bar_len, bar_color, false);
        push_str(&mut text, bar.as_str());
        push_char(&mut text, ' ');
        push_str(&mut text, t.palette.accent);
        push_str(&mut text, "\x1b[1m");
        push_str(&mut text, fig.percent_text.as_str());
        push_str(&mut text, "%\x1b[0m");
        push_str(&mut text, t.palette.label);
        push_detail(&mut text, detail_mode, total_used, limit_tok, &fig.free_percent_text);
        push_str(&mut text, "\x1b[0m");
        assert(text@ =~= head + progress_bar_text(
            filled as nat,
            bar_len as nat,
            level_color(*t, fig.level),
            false,
        ) + seq![' '] + t.palette.accent@ + bold() + fig.percent_text@ + "%\x1b[0m"@
            + t.palette.label@ + detail_text(
            detail_mode as nat,
            used_tokens(*json),
            limit_tokens(*json),
            fig.free_percent_text@,
        ) + reset());
    } else {
        push_str(&mut text, t.palette.accent);
        push_str(&mut text, "\x1b[1m");
        push_str(&mut text, fig.percent_text.as_str());
        push_str(&mut text, "%\x1b[0m");
        assert(text@ =~= head + t.palette.accent@ + bold() + fig.percent_text@ + "%\x1b[0m"@);
    }
    text
}

fn push_context_widgets(
    list: &mut Vec<Widget>,
    t: &Theme,
    json: &InputJson,
    step: usize,
    fig: &ContextFigures,
)
    requires
        widths_ok(old(list)@),
        step < 11,
        used_tokens(*json) <= u64::MAX,
        fig.bar_cells@.len() > 10,
    ensures
        widths_ok(final(list)@),
        texts_of(final(list)@) == texts_of(old(list)@) + (seq![
            context_text(*t, *json, step as nat, *fig),
        ] + cache_widgets(*t, *json, step as nat)),
{
    let ghost start = texts_of(list@);
    let (_used, _limit, cache_read, cache_create) = token_counts(json);
    let text = context_widget_text(t, json, step, fig);
    push_widget(list, text);
    let ghost mid = texts_of(list@);
    if step < 3 && (cache_read > 0 || cache_create > 0) {
        let mut c = owned(t.palette.label);
        push_str(&mut c, get_widget_icon("cache"));
        push_str(&mut c, t.palette.label);
        push_str(&mut c, "cache\x1b[0m ");
        push_str(&mut c, t.palette.accent);
        push_str(&mut c, "\x1b[1m");
        push_str(&mut c, "rd:");
        push_str(&mut c, get_human_format(cache_read).as_str());
        if cache_create > 0 {
            push_str(&mut c, "/wr:");
            push_str(&mut c, get_human_format(cache_create).as_str());
        }
        push_str(&mut c, "\x1b[0m");
        push_widget(list, c);
    }
    assert(texts_of(list@) =~= mid + cache_widgets(*t, *json, step as nat));
    assert(texts_of(list@) =~= start + (seq![context_text(*t, *json, step as nat, *fig)]
        + cache_widgets(*t, *json, step as nat)));
}

/// The widgets of the metrics row at a step (see `metric_texts`).
pub fn get_metric_widgets(t: &Theme, json: &InputJson, step: usize, fig: &ContextFigures) -> (r:
    Vec<Widget>)
    requires
        !metric_panics(*json, step as nat),
        fig.bar_cells@.len() > 10,
    ensures
        widths_ok(r@),
        texts_of(r@) == metric_texts(*t, *json, step as nat, *fig),
{
    let mut list: Vec<Widget> = Vec::new();
    assert(texts_of(list@) =~= Seq::<Seq<char>>::empty());
    if step < 11 {
        push_context_widgets(&mut list, t, json, step, fig);
    }
    let ghost a = texts_of(list@);
    assert(a =~= (if step < 11 {
        seq![context_text(*t, *json, step as nat, *fig)] + cache_widgets(*t, *json, step as nat)
    } else {
        seq![]
    }));
    let artifacts: usize = match json.artifacts {
        Some(n) => n,
        None => match json.artifact_count {
            Some(c) => c as usize,
            None => 0,
        },
    };
    if artifacts > 0 && step < 6 {
        push_counter(&mut list, t, "artifacts", artifacts);
    }
    let subs: usize = match json.subagents {
        Some(n) => n,
        None => 0,
    };
    if subs > 0 && step < 8 {
        push_counter(&mut list, t, "subagents", subs);
    }
    let tasks: usize = match json.background_tasks {
        Some(n) => n,
        None => match json.task_count {
            Some(c) => c as usize,
            None => 0,
        },
    };
    if tasks > 0 && step < 8 {
        push_counter(&mut list, t, "tasks", tasks);
    }
    let ghost b = texts_of(list@);
    if let Some(sb) = &json.sandbox {
        if sb.enabled == Some(true) && step < 4 {
            let mut text = owned(t.palette.label);
            push_str(&mut text, get_widget_icon("sandbox"));
            push_str(&mut text, t.palette.label);
            push_str(&mut text, "sandbox\x1b[0m ");
            push_str(&mut text, t.palette.success);
            push_str(&mut text, "\x1b[1m");
            if sb.allow_network == Some(true) {
                push_str(&mut text, "ON(net)\x1b[0m");
            } else {
                push_str(&mut text, "ON(no-net)\x1b[0m");
            }
            push_widget(&mut list, text);
        }
    }
    assert(texts_of(list@) =~= b + sandbox_widgets(*t, *json, step as nat));
    assert(texts_of(list@) =~= metric_texts(*t, *json, step as nat, *fig));
    list
}

// ---------------------------------------------------------------------------
// Fitting the rows to the terminal
// ---------------------------------------------------------------------------

/// The summed visible widths of some texts.
pub open spec fn width_sum(ts: Seq<Seq<char>>) -> nat
    decreases ts.len(),
{
    if ts.len() == 0 {
        0
    } else {
        width_sum(ts.drop_last()) + visual_width(ts.last())
    }
}

/// The width of a row: the widgets and a three-column separator between
/// each two.
pub open spec fn row_width(ts: Seq<Seq<char>>) -> nat {
    if ts.len() == 0 {
        0
    } else {
        width_sum(ts) + 3 * (ts.len() - 1) as nat
    }
}

/// The texts joined by a separator.
pub open spec fn join(ts: Seq<Seq<char>>, sep: Seq<char>) -> Seq<char>
    decreases ts.len(),
{
    if ts.len() == 0 {
        seq![]
    } else if ts.len() == 1 {
        ts[0]
    } else {
        join(ts.drop_last(), sep) + sep + ts.last()
    }
}

/// The separator between widgets.
pub open spec fn separator(t: Theme) -> Seq<char> {
    seq![' '] + t.palette.border@ + seq!['|'] + t.palette.border@ + seq![' ']
}

proof fn lemma_width_sum_prefix(ts: Seq<Seq<char>>, i: int)
    requires
        0 <= i <= ts.len(),
    ensures
        width_sum(ts.take(i)) <= width_sum(ts),
    decreases ts.len() - i,
{
    if i < ts.len() {
        lemma_width_sum_prefix(ts, i + 1);
        assert(ts.take(i + 1).drop_last() == ts.take(i));
    } else {
        assert(ts.take(i) == ts);
    }
}

/// Whether a row of widgets fits in `max` columns.
pub fn row_fits(ws: &Vec<Widget>, max: usize) -> (r: bool)
    requires
        widths_ok(ws@),
    ensures
        r == (row_width(texts_of(ws@)) <= max),
{
    let ghost ts = texts_of(ws@);
    let n = ws.len();
    if n == 0 {
        return true;
    }
    let mut total: usize = 0;
    let mut i: usize = 0;
    while i < n
        invariant
            n == ws@.len(),
            n > 0,
            ts == texts_of(ws@),
            widths_ok(ws@),
            i <= n,
            total as nat == width_sum(ts.take(i as int)) + if i > 0 {
                3 * (i - 1) as nat
            } else {
                0
            },
            total <= max,
        decreases n - i,
    {
        assert(ts.take(i + 1).drop_last() == ts.take(i as int));
        assert(ts[i as int] == ws@[i as int].text@);
        let w = ws[i].visual_width;
        let sep: usize = if i > 0 {
            3
        } else {
            0
        };
        if sep > max - total || w > max - total - sep {
            proof {
                lemma_width_sum_prefix(ts, i + 1);
            }
            return false;
        }
        total = total + sep + w;
        i = i + 1;
    }
    assert(ts.take(n as int) == ts);
    true
}

/// Joins the widgets' texts with the separator.
pub fn join_widgets(ws: &Vec<Widget>, sep: &str) -> (r: String)
    ensures
        r@ == join(texts_of(ws@), sep@),
{
    let ghost ts = texts_of(ws@);
    let mut out = String::new();
    let mut i: usize = 0;
    while i < ws.len()
        invariant
            i <= ws@.len(),
            ts == texts_of(ws@),
            out@ == join(ts.take(i as int), sep@),
        decreases ws.len() - i,
    {
        assert(ts.take(i + 1).drop_last() == ts.take(i as int));
        if i > 0 {
            push_str(&mut out, sep);
        }
        push_str(&mut out, ws[i].text.as_str());
        i = i + 1;
        assert(out@ =~= join(ts.take(i as int), sep@));
    }
    assert(ts.take(ws@.len() as int) == ts);
    out
}

/// The terminal width, 80 when the input does not say.
pub open spec fn cols_of(json: InputJson) -> nat {
    match json.terminal_width {
        Some(c) => c as nat,
        None => 80,
    }
}

/// The columns left for the information row.
pub open spec fn max_info_width(cols: nat) -> nat {
    if cols >= 80 {
        (cols - 4) as nat
    } else {
        (cols - 2) as nat
    }
}

/// The columns left for the metrics row.
pub open spec fn max_metric_width(cols: nat) -> nat {
    if cols >= 80 {
        (cols - 5) as nat
    } else {
        (cols - 2) as nat
    }
}

/// The first steps worth trying for the information row (`.0`) and the
/// metrics row (`.1`) at a width.
pub open spec fn min_steps(cols: nat) -> (nat, nat) {
    if cols >= 160 {
        (0, 0)
    } else if cols >= 120 {
        (3, 0)
    } else if cols >= 80 {
        (3, 5)
    } else if cols >= 60 {
        (5, 6)
    } else {
        (6, 6)
    }
}

/// The smaller of two numbers.
pub open spec fn min_nat(a: nat, b: nat) -> nat {
    if a < b {
        a
    } else {
        b
    }
}

/// The one-line layout: the first step up to 2 at which both rows fit
/// together. `None` where building a row fails; `Some(None)` when no step
/// fits (every step to 11 is still built).
pub open spec fn single_choice(
    t: Theme,
    json: InputJson,
    cache: CacheData,
    now: u64,
    home: Seq<char>,
    fig: ContextFigures,
    s: nat,
) -> Option<Option<Seq<char>>>
    decreases 12 - s,
{
    if s > 11 {
        Some(None)
    } else {
        let cols = cols_of(json);
        let si = min_nat(s, 6);
        let sm = min_nat(s, 11);
        if info_panics(json, cache, si, cols) || metric_panics(json, sm) {
            None
        } else {
            let c = info_texts(t, json, cache, si, cols, now, home) + metric_texts(
                t,
                json,
                sm,
                fig,
            );
            if row_width(c) <= max_info_width(cols) && s <= 2 {
                Some(Some(join(c, separator(t))))
            } else {
                single_choice(t, json, cache, now, home, fig, s + 1)
            }
        }
    }
}

/// The information row: the first step from `s` on at which it fits, or
/// step 6. `None` where building it fails.
pub open spec fn info_choice(
    t: Theme,
    json: InputJson,
    cache: CacheData,
    now: u64,
    home: Seq<char>,
    s: nat,
) -> Option<Seq<Seq<char>>>
    decreases 6 - s,
{
    let cols = cols_of(json);
    if info_panics(json, cache, s, cols) {
        None
    } else {
        let ws = info_texts(t, json, cache, s, cols, now, home);
        if row_width(ws) <= max_info_width(cols) || s >= 6 {
            Some(ws)
        } else {
            info_choice(t, json, cache, now, home, s + 1)
        }
    }
}

/// The metrics row: the first step from `s` on at which it fits, or step
/// 11. `None` where building it fails.
pub open spec fn metric_choice(t: Theme, json: InputJson, fig: ContextFigures, s: nat) -> Option<
    Seq<Seq<char>>,
>
    decreases 11 - s,
{
    if metric_panics(json, s) {
        None
    } else {
        let ws = metric_texts(t, json, s, fig);
        if row_width(ws) <= max_metric_width(cols_of(json)) || s >= 11 {
            Some(ws)
        } else {
            metric_choice(t, json, fig, s + 1)
        }
    }
}

/// The rows with their frame: `╭─` before the first and `╰─` before the
/// second, from 80 columns on.
pub open spec fn framed(t: Theme, rows: Seq<Seq<char>>, cols: nat) -> Seq<Seq<char>> {
    if cols >= 80 && rows.len() == 1 {
        seq![t.palette.border@ + "\u{256d}\u{2500}\x1b[0m "@ + rows[0]]
    } else if cols >= 80 && rows.len() == 2 {
        seq![
            t.palette.border@ + "\u{256d}\u{2500}\x1b[0m "@ + rows[0],
            t.palette.border@ + "\u{2570}\u{2500}\x1b[0m "@ + rows[1],
        ]
    } else {
        rows
    }
}

/// The rows of the status line, before the frame: one line when both rows
/// fit together at step 2 or below from 160 columns, else an information
/// row and, when it has widgets, a metrics row, each at its first fitting
/// step. `None` where building a row fails.
pub open spec fn status_rows(
    t: Theme,
    json: InputJson,
    cache: CacheData,
    now: u64,
    home: Seq<char>,
    fig: ContextFigures,
) -> Option<Seq<Seq<char>>> {
    let cols = cols_of(json);
    let single = if cols >= 160 {
        single_choice(t, json, cache, now, home, fig, 0)
    } else {
        Some(None)
    };
    let sep = separator(t);
    match single {
        None => None,
        Some(Some(line)) => Some(seq![line]),
        Some(None) => match info_choice(t, json, cache, now, home, min_steps(cols).0) {
            None => None,
            Some(iw) => match metric_choice(t, json, fig, min_steps(cols).1) {
                None => None,
                Some(mw) => Some(seq![join(iw, sep)] + when(mw.len() > 0, join(mw, sep))),
            },
        },
    }
}

/// The lines of the status line: the framed rows (see `status_rows`).
/// `None` where the layout fails: a terminal narrower than 2 columns, a
/// reset time that does not parse, a text cut inside a character, or a token
/// sum beyond `u64`.
pub open spec fn status_lines(
    t: Theme,
    json: InputJson,
    cache: CacheData,
    now: u64,
    home: Seq<char>,
    fig: ContextFigures,
) -> Option<Seq<Seq<char>>> {
    let cols = cols_of(json);
    if cols < 2 {
        None
    } else {
        match status_rows(t, json, cache, now, home, fig) {
            None => None,
            Some(rs) => Some(framed(t, rs, cols)),
        }
    }
}

/// Whether the quota text would read a reset time that fails to parse.
pub fn quota_would_panic(cache: &CacheData, model: &str, hide_time: bool) -> (r: bool)
    ensures
        r == quota_panics(*cache, model@, hide_time),
{
    if cache.needs_login == Some(true) || hide_time {
        return false;
    }
    match find_quota(&cache.quota, model) {
        Some(i) => match &cache.quota[i].reset_time {
            Some(r) => eval_rfc3339(r.as_str()).is_none(),
            None => false,
        },
        None => false,
    }
}

fn cut_would_panic(s: &String, k: usize) -> (r: bool)
    ensures
        r == (encode_utf8(s@).len() > k && !boundary(encode_utf8(s@), k as int)),
{
    let b = s.as_str().as_bytes();
    if b.len() <= k {
        return false;
    }
    !(k == 0 || !(0x80 <= b[k] && b[k] < 0xc0))
}

/// Whether the information row at a step fails to build (see `info_panics`).
pub fn info_would_panic(json: &InputJson, cache: &CacheData, step: usize, cols: usize) -> (r: bool)
    ensures
        r == info_panics(*json, *cache, step as nat, cols as nat),
{
    let raw_model: String = match &json.model {
        Some(m) => match &m.display_name {
            Some(d) => d.clone(),
            None => String::new(),
        },
        None => String::new(),
    };
    assert(raw_model@ == model_name(*json));
    if chars_len(raw_model.as_str()) > 0 && quota_would_panic(
        cache,
        raw_model.as_str(),
        step >= 6 || cols < 80,
    ) {
        return true;
    }
    let raw_cwd = resolve_cwd(json);
    if let Some(vcs) = &cache.vcs {
        if str_eq(vcs.cwd.as_str(), raw_cwd.as_str()) && chars_len(vcs.branch.as_str()) > 0 && step
            < 6 {
            let cut = if step >= 4 {
                cut_would_panic(&vcs.branch, 8) && vcs.branch.as_str().as_bytes().len() > 10
            } else {
                cut_would_panic(&vcs.branch, 12) && vcs.branch.as_str().as_bytes().len() > 15
            };
            if cut {
                return true;
            }
        }
    }
    if step < 2 {
        if let Some(c) = &json.conversation_id {
            if chars_len(c.as_str()) > 0 && cut_would_panic(c, 8) {
                return true;
            }
        }
    }
    false
}

/// Whether the metrics row at a step fails to build (see `metric_panics`).
pub fn metric_would_panic(json: &InputJson, step: usize) -> (r: bool)
    ensures
        r == metric_panics(*json, step as nat),
{
    if step >= 11 {
        return false;
    }
    match &json.context_window {
        Some(c) => opt_count(c.total_input_tokens).checked_add(opt_count(c.total_output_tokens)).is_none(),
        None => false,
    }
}

fn choose_info(
    t: &Theme,
    json: &InputJson,
    cache: &CacheData,
    now: u64,
    home: &str,
    start: usize,
    cols: usize,
    max_w: usize,
) -> (r: Option<Vec<Widget>>)
    requires
        start <= 6,
        cols as nat == cols_of(*json),
        max_w as nat == max_info_width(cols as nat),
    ensures
        match r {
            None => info_choice(*t, *json, *cache, now, home@, start as nat) is None,
            Some(ws) => widths_ok(ws@) && info_choice(*t, *json, *cache, now, home@, start as nat)
                == Some(texts_of(ws@)),
        },
{
    let mut s: usize = start;
    loop
        invariant
            start <= s <= 6,
            cols as nat == cols_of(*json),
            max_w as nat == max_info_width(cols as nat),
            info_choice(*t, *json, *cache, now, home@, start as nat) == info_choice(
                *t,
                *json,
                *cache,
                now,
                home@,
                s as nat,
            ),
        decreases 6 - s,
    {
        if info_would_panic(json, cache, s, cols) {
            return None;
        }
        let ws = get_info_widgets(t, json, cache, s, cols, now, home);
        if row_fits(&ws, max_w) || s >= 6 {
            return Some(ws);
        }
        s = s + 1;
    }
}

fn choose_metric(
    t: &Theme,
    json: &InputJson,
    fig: &ContextFigures,
    start: usize,
    max_w: usize,
) -> (r: Option<Vec<Widget>>)
    requires
        start <= 11,
        max_w as nat == max_metric_width(cols_of(*json)),
        fig.bar_cells@.len() > 10,
    ensures
        match r {
            None => metric_choice(*t, *json, *fig, start as nat) is None,
            Some(ws) => widths_ok(ws@) && metric_choice(*t, *json, *fig, start as nat) == Some(
                texts_of(ws@),
            ),
        },
{
    let mut s: usize = start;
    loop
        invariant
            start <= s <= 11,
            max_w as nat == max_metric_width(cols_of(*json)),
            fig.bar_cells@.len() > 10,
            metric_choice(*t, *json, *fig, start as nat) == metric_choice(
                *t,
                *json,
                *fig,
                s as nat,
            ),
        decreases 11 - s,
    {
        if metric_would_panic(json, s) {
            return None;
        }
        let ws = get_metric_widgets(t, json, s, fig);
        if row_fits(&ws, max_w) || s >= 11 {
            return Some(ws);
        }
        s = s + 1;
    }
}

fn choose_single(
    t: &Theme,
    json: &InputJson,
    cache: &CacheData,
    now: u64,
    home: &str,
    fig: &ContextFigures,
    cols: usize,
    max_w: usize,
    sep: &str,
) -> (r: Option<Option<String>>)
    requires
        cols as nat == cols_of(*json),
        max_w as nat == max_info_width(cols as nat),
        fig.bar_cells@.len() > 10,
        sep@ == separator(*t),
    ensures
        match r {
            None => single_choice(*t, *json, *cache, now, home@, *fig, 0) is None,
            Some(None) => single_choice(*t, *json, *cache, now, home@, *fig, 0) == Some(
                None::<Seq<char>>,
            ),
            Some(Some(line)) => single_choice(*t, *json, *cache, now, home@, *fig, 0) == Some(
                Some(line@),
            ),
        },
{
    let mut s: usize = 0;
    while s <= 11
        invariant
            s <= 12,
            cols as nat == cols_of(*json),
            max_w as nat == max_info_width(cols as nat),
            fig.bar_cells@.len() > 10,
            sep@ == separator(*t),
            single_choice(*t, *json, *cache, now, home@, *fig, 0) == single_choice(
                *t,
                *json,
                *cache,
                now,
                home@,
                *fig,
                s as nat,
            ),
        decreases 12 - s,
    {
        let si = if s < 6 {
            s
        } else {
            6
        };
        if info_would_panic(json, cache, si, cols) || metric_would_panic(json, s) {
            return None;
        }
        let mut combined = get_info_widgets(t, json, cache, si, cols, now, home);
        let mut metrics = get_metric_widgets(t, json, s, fig);
        let ghost a = combined@;
        let ghost b = metrics@;
        combined.append(&mut metrics);
        assert(texts_of(combined@) =~= texts_of(a) + texts_of(b));
        assert(widths_ok(combined@)) by {
            assert forall|i: int| 0 <= i < combined@.len() implies #[trigger] combined@[i].visual_width
                == visual_width(combined@[i].text@) by {
                if i < a.len() {
                    assert(combined@[i] == a[i]);
                } else {
                    assert(combined@[i] == b[i - a.len()]);
                }
            }
        }
        if row_fits(&combined, max_w) && s <= 2 {
            return Some(Some(join_widgets(&combined, sep)));
        }
        s = s + 1;
    }
    Some(None)
}

/// The characters of each line.
pub open spec fn lines_of(v: Seq<String>) -> Seq<Seq<char>> {
    v.map_values(|s: String| s@)
}

fn frame_line(border: &str, corner: &str, row: &String) -> (r: String)
    ensures
        r@ == border@ + corner@ + row@,
{
    let mut s = owned(border);
    push_str(&mut s, corner);
    push_str(&mut s, row.as_str());
    s
}

fn layout_rows(
    t: &Theme,
    json: &InputJson,
    cache: &CacheData,
    now: u64,
    home: &str,
    fig: &ContextFigures,
    cols: usize,
) -> (r: Option<Vec<String>>)
    requires
        fig.bar_cells@.len() > 10,
        cols as nat == cols_of(*json),
        cols >= 2,
    ensures
        match r {
            None => status_rows(*t, *json, *cache, now, home@, *fig) is None,
            Some(v) => status_rows(*t, *json, *cache, now, home@, *fig) == Some(lines_of(v@)),
        },
{
    let max_w = if cols >= 80 {
        cols - 4
    } else {
        cols - 2
    };
    let max_metric_w = if cols >= 80 {
        cols - 5
    } else {
        cols - 2
    };
    let (min_info_step, min_metric_step): (usize, usize) = if cols >= 160 {
        (0, 0)
    } else if cols >= 120 {
        (3, 0)
    } else if cols >= 80 {
        (3, 5)
    } else if cols >= 60 {
        (5, 6)
    } else {
        (6, 6)
    };
    let mut sep = owned(" ");
    proof {
        reveal_strlit(" ");
        reveal_strlit("|");
    }
    push_str(&mut sep, t.palette.border);
    push_str(&mut sep, "|");
    push_str(&mut sep, t.palette.border);
    push_str(&mut sep, " ");
    assert(sep@ =~= separator(*t));
    let single = if cols >= 160 {
        choose_single(t, json, cache, now, home, fig, cols, max_w, sep.as_str())
    } else {
        Some(None)
    };
    match single {
        None => None,
        Some(Some(line)) => {
            let mut v: Vec<String> = Vec::new();
            v.push(line);
            assert(lines_of(v@) =~= seq![line@]);
            Some(v)
        },
        Some(None) => {
            let info = match choose_info(t, json, cache, now, home, min_info_step, cols, max_w) {
                Some(w) => w,
                None => return None,
            };
            let metric = match choose_metric(t, json, fig, min_metric_step, max_metric_w) {
                Some(w) => w,
                None => return None,
            };
            let mut v: Vec<String> = Vec::new();
            let first = join_widgets(&info, sep.as_str());
            v.push(first);
            let ghost one = lines_of(v@);
            assert(one =~= seq![join(texts_of(info@), separator(*t))]);
            if metric.len() > 0 {
                let second = join_widgets(&metric, sep.as_str());
                v.push(second);
            }
            assert(lines_of(v@) =~= one + when(
                texts_of(metric@).len() > 0,
                join(texts_of(metric@), separator(*t)),
            ));
            Some(v)
        },
    }
}

/// Lays the status line out for the terminal (see `status_lines`): `None`
/// exactly where the layout fails. `home` is the user's home directory,
/// `now` the current Unix time, and `fig` the figures of the context
/// window's percentage.
pub fn render_tui_checked(
    config: &crate::types::UserConfig,
    json: &InputJson,
    cache: &CacheData,
    now: u64,
    home: &str,
    fig: &ContextFigures,
) -> (r: Option<Vec<String>>)
    requires
        fig.bar_cells@.len() > 10,
    ensures
        match r {
            None => status_lines(
                crate::theme::theme_named(config.theme@),
                *json,
                *cache,
                now,
                home@,
                *fig,
            ) is None,
            Some(v) => status_lines(
                crate::theme::theme_named(config.theme@),
                *json,
                *cache,
                now,
                home@,
                *fig,
            ) == Some(lines_of(v@)),
        },
{
    let t = crate::theme::resolve(config.theme.as_str());
    let cols: usize = match json.terminal_width {
        Some(c) => c,
        None => 80,
    };
    if cols < 2 {
        return None;
    }
    let rows = match layout_rows(&t, json, cache, now, home, fig, cols) {
        Some(v) => v,
        None => return None,
    };
    let ghost rs = lines_of(rows@);
    let mut out: Vec<String> = Vec::new();
    if cols >= 80 && rows.len() == 1 {
        out.push(frame_line(t.palette.border, "\u{256d}\u{2500}\x1b[0m ", &rows[0]));
    } else if cols >= 80 && rows.len() == 2 {
        out.push(frame_line(t.palette.border, "\u{256d}\u{2500}\x1b[0m ", &rows[0]));
        out.push(frame_line(t.palette.border, "\u{2570}\u{2500}\x1b[0m ", &rows[1]));
    } else {
        out = rows;
    }
    assert(lines_of(out@) =~= framed(t, rs, cols as nat));
    Some(out)
}

/// Lays the status line out for the terminal (see `status_lines`).
pub fn render_tui(
    config: &crate::types::UserConfig,
    json: &InputJson,
    cache: &CacheData,
    now: u64,
    home: &str,
    fig: &ContextFigures,
) -> (r: Vec<String>)
    requires
        fig.bar_cells@.len() > 10,
        status_lines(
            crate::theme::theme_named(config.theme@),
            *json,
            *cache,
            now,
            home@,
            *fig,
        ) is Some,
    ensures
        status_lines(crate::theme::theme_named(config.theme@), *json, *cache, now, home@, *fig)
            == Some(lines_of(r@)),
{
    match render_tui_checked(config, json, cache, now, home, fig) {
        Some(v) => v,
        None => Vec::new(),
    }
}


// ---------------------------------------------------------------------------
// Laws
// ---------------------------------------------------------------------------

/// The status line has one or two lines. From 80 columns on, the first
/// starts with the border colour and `╭─`, a second one with `╰─`; below
/// 80 columns the lines carry no frame.
pub proof fn law_status_line_frame(
    t: Theme,
    json: InputJson,
    cache: CacheData,
    now: u64,
    home: Seq<char>,
    fig: ContextFigures,
)
    ensures
        status_lines(t, json, cache, now, home, fig) matches Some(ls) ==> {
            &&& 1 <= ls.len() <= 2
            &&& status_rows(t, json, cache, now, home, fig) matches Some(rs)
            &&& rs.len() == ls.len()
            &&& cols_of(json) >= 80 ==> ls[0] == t.palette.border@ + "\u{256d}\u{2500}\x1b[0m "@
                + rs[0]
            &&& (cols_of(json) >= 80 && ls.len() == 2) ==> ls[1] == t.palette.border@
                + "\u{2570}\u{2500}\x1b[0m "@ + rs[1]
            &&& cols_of(json) < 80 ==> ls == rs
        },
{
}

/// When the cache says that a login is needed, the quota text asks for it,
/// whatever the model, the width and the time.
pub proof fn law_login_request(
    t: Theme,
    cache: CacheData,
    model: Seq<char>,
    hide_time: bool,
    now: u64,
)
    requires
        cache.needs_login == Some(true),
    ensures
        quota_text(t, cache, model, hide_time, now) == t.palette.label@ + widget_icon("quota"@)
            + t.palette.warning@ + "\x1b[1m[LOGIN]\x1b[0m"@,
{
}

/// Without a matching quota entry (and no login request) the model widget
/// shows the model alone.
pub proof fn law_unmatched_model_has_no_quota(
    t: Theme,
    cache: CacheData,
    model: Seq<char>,
    hide_time: bool,
    now: u64,
)
    requires
        cache.needs_login != Some(true),
        matched_quota(cache.quota@, model) is None,
    ensures
        quota_text(t, cache, model, hide_time, now).len() == 0,
{
}

/// The information row is shown at the first step from `s` on at which it
/// fits the terminal, or, when none up to step 6 does, at the last step
/// tried: every step before the chosen one overflows.
#[verifier::spinoff_prover]
#[verifier::rlimit(40)]
pub proof fn law_info_row_first_fit(
    t: Theme,
    json: InputJson,
    cache: CacheData,
    now: u64,
    home: Seq<char>,
    s: nat,
)
    ensures
        info_choice(t, json, cache, now, home, s) matches Some(ws) ==> exists|k: nat|
            #![trigger info_texts(t, json, cache, k, cols_of(json), now, home)]
            {
                &&& s <= k
                &&& ws == info_texts(t, json, cache, k, cols_of(json), now, home)
                &&& (row_width(ws) <= max_info_width(cols_of(json)) || k >= 6)
                &&& forall|j: nat|
                    s <= j < k ==> row_width(
                        #[trigger] info_texts(t, json, cache, j, cols_of(json), now, home),
                    ) > max_info_width(cols_of(json))
            },
    decreases 6 - s,
{
    let cols = cols_of(json);
    if !info_panics(json, cache, s, cols) {
        let ws = info_texts(t, json, cache, s, cols, now, home);
        if row_width(ws) <= max_info_width(cols) || s >= 6 {
            assert(ws == info_texts(t, json, cache, s, cols_of(json), now, home));
        } else {
            law_info_row_first_fit(t, json, cache, now, home, s + 1);
            if let Some(w2) = info_choice(t, json, cache, now, home, s + 1) {
                let k = choose|k: nat|
                    #![trigger info_texts(t, json, cache, k, cols_of(json), now, home)]
                    {
                        &&& s + 1 <= k
                        &&& w2 == info_texts(t, json, cache, k, cols_of(json), now, home)
                        &&& (row_width(w2) <= max_info_width(cols_of(json)) || k >= 6)
                        &&& forall|j: nat|
                            s + 1 <= j < k ==> row_width(
                                #[trigger] info_texts(t, json, cache, j, cols_of(json), now, home),
                            ) > max_info_width(cols_of(json))
                    };
                assert(info_texts(t, json, cache, k, cols_of(json), now, home) == w2);
            }
        }
    }
}

/// The metrics row is shown at the first step from `s` on at which it fits
/// the terminal, or, when none up to step 11 does, at the last step tried:
/// every step before the chosen one overflows.
#[verifier::spinoff_prover]
#[verifier::rlimit(40)]
pub proof fn law_metric_row_first_fit(t: Theme, json: InputJson, fig: ContextFigures, s: nat)
    ensures
        metric_choice(t, json, fig, s) matches Some(ws) ==> exists|k: nat|
            #![trigger metric_texts(t, json, k, fig)]
            {
                &&& s <= k
                &&& ws == metric_texts(t, json, k, fig)
                &&& (row_width(ws) <= max_metric_width(cols_of(json)) || k >= 11)
                &&& forall|j: nat|
                    s <= j < k ==> row_width(#[trigger] metric_texts(t, json, j, fig))
                        > max_metric_width(cols_of(json))
            },
    decreases 11 - s,
{
    if !metric_panics(json, s) {
        let ws = metric_texts(t, json, s, fig);
        if row_width(ws) <= max_metric_width(cols_of(json)) || s >= 11 {
            assert(ws == metric_texts(t, json, s, fig));
        } else {
            law_metric_row_first_fit(t, json, fig, s + 1);
            if let Some(w2) = metric_choice(t, json, fig, s + 1) {
                let k = choose|k: nat|
                    #![trigger metric_texts(t, json, k, fig)]
                    {
                        &&& s + 1 <= k
                        &&& w2 == metric_texts(t, json, k, fig)
                        &&& (row_width(w2) <= max_metric_width(cols_of(json)) || k >= 11)
                        &&& forall|j: nat|
                            s + 1 <= j < k ==> row_width(#[trigger] metric_texts(t, json, j, fig))
                                > max_metric_width(cols_of(json))
                    };
                assert(metric_texts(t, json, k, fig) == w2);
            }
        }
    }
}

/// Below 160 columns the information and the metrics never share a line:
/// the first row is the information row and a second one, when there is
/// one, the metrics row.
pub proof fn law_narrow_terminal_splits_rows(
    t: Theme,
    json: InputJson,
    cache: CacheData,
    now: u64,
    home: Seq<char>,
    fig: ContextFigures,
)
    requires
        cols_of(json) < 160,
    ensures
        status_rows(t, json, cache, now, home, fig) matches Some(rs) ==> {
            &&& info_choice(t, json, cache, now, home, min_steps(cols_of(json)).0) matches Some(
                iw,
            )
            &&& metric_choice(t, json, fig, min_steps(cols_of(json)).1) matches Some(mw)
            &&& rs[0] == join(iw, separator(t))
            &&& rs.len() == if mw.len() > 0 {
                2nat
            } else {
                1nat
            }
            &&& mw.len() > 0 ==> rs[1] == join(mw, separator(t))
        },
{
}

/// A later, more compact step never adds a widget to the information row:
/// the path goes from step 5 on, the git widget from step 6, the e-mail,
/// version and conversation id from step 2, and nothing else depends on the
/// step.
pub proof fn law_info_widgets_shrink(
    t: Theme,
    json: InputJson,
    cache: CacheData,
    s1: nat,
    s2: nat,
    cols: nat,
    now: u64,
    home: Seq<char>,
)
    requires
        s1 <= s2,
    ensures
        info_texts(t, json, cache, s2, cols, now, home).len() <= info_texts(
            t,
            json,
            cache,
            s1,
            cols,
            now,
            home,
        ).len(),
{
    assert(model_widgets(t, json, cache, s1, cols, now).len() == model_widgets(
        t,
        json,
        cache,
        s2,
        cols,
        now,
    ).len());
    assert(path_widgets(t, json, s2, home).len() <= path_widgets(t, json, s1, home).len());
    assert(vcs_widgets(t, json, cache, s2).len() <= vcs_widgets(t, json, cache, s1).len());
    assert(account_widgets(json, s2).len() <= account_widgets(json, s1).len());
}

/// A later, more compact step never adds a widget to the metrics row: the
/// context widget goes from step 11 on, the cache widget from step 3, the
/// artifacts from step 6, subagents and tasks from step 8, the sandbox from
/// step 4.
pub proof fn law_metric_widgets_shrink(
    t: Theme,
    json: InputJson,
    s1: nat,
    s2: nat,
    fig: ContextFigures,
)
    requires
        s1 <= s2,
    ensures
        metric_texts(t, json, s2, fig).len() <= metric_texts(t, json, s1, fig).len(),
{
    assert(cache_widgets(t, json, s2).len() <= cache_widgets(t, json, s1).len());
    assert(sandbox_widgets(t, json, s2).len() <= sandbox_widgets(t, json, s1).len());
}

/// Whether `s` ends with `suffix`.
pub open spec fn ends_with(s: Seq<char>, suffix: Seq<char>) -> bool {
    suffix.len() <= s.len() && s.subrange(s.len() - suffix.len(), s.len() as int) == suffix
}

proof fn lemma_ends_with_concat(p: Seq<char>, x: Seq<char>)
    ensures
        ends_with(p + x, x),
{
    assert((p + x).subrange(p.len() as int, (p + x).len() as int) =~= x);
}

/// Whether a quota entry matches a reduced model name exactly: its reduced
/// display name or its reduced id is that name.
pub open spec fn matches_exactly(q: QuotaItem, target: Seq<char>) -> bool {
    clean_name(q.display_name@) == target || clean_name(q.id@) == target
}

/// Whether a quota entry matches a reduced model name loosely: one of its
/// reduced display name and the name contains the other.
pub open spec fn matches_loosely(q: QuotaItem, target: Seq<char>) -> bool {
    contains(target, clean_name(q.display_name@)) || contains(clean_name(q.display_name@), target)
}

proof fn lemma_first_exact_is_first(qs: Seq<QuotaItem>, t: Seq<char>, i: int)
    requires
        0 <= i,
    ensures
        first_exact(qs, t, i) matches Some(k) ==> i <= k < qs.len() && matches_exactly(qs[k], t)
            && forall|j: int| i <= j < k ==> !matches_exactly(#[trigger] qs[j], t),
        first_exact(qs, t, i) is None ==> forall|j: int|
            i <= j < qs.len() ==> !matches_exactly(#[trigger] qs[j], t),
    decreases qs.len() - i,
{
    if i < qs.len() && !exact_match(qs[i], t) {
        lemma_first_exact_is_first(qs, t, i + 1);
    }
}

proof fn lemma_first_loose_is_first(qs: Seq<QuotaItem>, t: Seq<char>, i: int)
    requires
        0 <= i,
    ensures
        first_loose(qs, t, i) matches Some(k) ==> i <= k < qs.len() && matches_loosely(qs[k], t)
            && forall|j: int| i <= j < k ==> !matches_loosely(#[trigger] qs[j], t),
        first_loose(qs, t, i) is None ==> forall|j: int|
            i <= j < qs.len() ==> !matches_loosely(#[trigger] qs[j], t),
    decreases qs.len() - i,
{
    if i < qs.len() && !loose_match(qs[i], t) {
        lemma_first_loose_is_first(qs, t, i + 1);
    }
}

/// The quota entry of a model is the first one whose reduced display name
/// or id equals the reduced model name; only when no entry matches that
/// way is it the first whose reduced display name and the reduced model name
/// contain one another; and there is none when neither kind of match exists.
pub proof fn law_quota_entry_prefers_exact_match(qs: Seq<QuotaItem>, model: Seq<char>)
    ensures
        ({
            let t = clean_name(model);
            &&& (exists|i: int| 0 <= i < qs.len() && matches_exactly(#[trigger] qs[i], t))
                ==> (matched_quota(qs, model) matches Some(k) && 0 <= k < qs.len()
                && matches_exactly(qs[k], t) && forall|j: int|
                0 <= j < k ==> !matches_exactly(#[trigger] qs[j], t))
            &&& (forall|i: int| 0 <= i < qs.len() ==> !matches_exactly(#[trigger] qs[i], t))
                ==> match matched_quota(qs, model) {
                Some(k) => 0 <= k < qs.len() && matches_loosely(qs[k], t) && forall|j: int|
                    0 <= j < k ==> !matches_loosely(#[trigger] qs[j], t),
                None => forall|j: int| 0 <= j < qs.len() ==> !matches_loosely(#[trigger] qs[j], t),
            }
        }),
{
    let t = clean_name(model);
    lemma_first_exact_is_first(qs, t, 0);
    lemma_first_loose_is_first(qs, t, 0);
}

/// With the time hidden and no login request, the quota text of a model
/// shows the percent left of the first exactly matching entry, in the
/// critical colour and bold up to 20, the warning colour up to 50, the
/// success colour above.
#[verifier::spinoff_prover]
#[verifier::rlimit(40)]
pub proof fn law_quota_text_shows_exact_entry(
    t: Theme,
    cache: CacheData,
    model: Seq<char>,
    now: u64,
    k: int,
)
    requires
        cache.needs_login != Some(true),
        0 <= k < cache.quota@.len(),
        matches_exactly(cache.quota@[k], clean_name(model)),
        forall|j: int| 0 <= j < k ==> !matches_exactly(#[trigger] cache.quota@[j], clean_name(model)),
    ensures
        ({
            let pct = cache.quota@[k].remaining_percent;
            quota_text(t, cache, model, true, now) == t.palette.label@ + "\u{26a1}"@ + (if pct
                <= 20 {
                t.palette.critical@ + "\x1b[1m"@
            } else if pct <= 50 {
                t.palette.warning@
            } else {
                t.palette.success@
            }) + decimal_signed(pct as int) + "%\x1b[0m"@
        }),
{
    let qs = cache.quota@;
    let tg = clean_name(model);
    lemma_first_exact_is_first(qs, tg, 0);
    if let Some(m) = first_exact(qs, tg, 0) {
        if m < k {
            assert(!matches_exactly(qs[m], tg));
        } else if m > k {
            assert(!matches_exactly(qs[k], tg));
        }
    } else {
        assert(!matches_exactly(qs[k], tg));
    }
    reveal_strlit("quota");
    reveal_strlit("vcs");
    reveal_strlit("path");
    assert(matched_quota(qs, model) == Some(k));
    assert("quota"@.len() == 5);
    assert("vcs"@.len() == 3);
    assert("path"@.len() == 4);
    assert("quota"@ != "vcs"@);
    assert("quota"@ != "path"@);
    assert(widget_icon("quota"@) == "\u{26a1}"@);
}

/// Below step 4 the git widget marks commits ahead of the upstream with `↑`
/// and commits behind it with `↓`: it ends with ` ↑a↓b`, ` ↑a` or ` ↓b` and
/// the reset code, as both, only ahead or only behind are non-zero.
#[verifier::spinoff_prover]
#[verifier::rlimit(40)]
pub proof fn law_git_widget_arrows(t: Theme, json: InputJson, cache: CacheData, step: nat)
    requires
        shows_vcs(json, cache, step),
        step < 4,
    ensures
        ({
            let v = cache.vcs->0;
            let w = vcs_widgets(t, json, cache, step);
            &&& w.len() == 1
            &&& (v.ahead > 0 && v.behind > 0) ==> ends_with(
                w[0],
                " \u{2191}"@ + decimal(v.ahead as nat) + "\u{2193}"@ + decimal(v.behind as nat)
                    + "\x1b[0m"@,
            )
            &&& (v.ahead > 0 && v.behind == 0) ==> ends_with(
                w[0],
                " \u{2191}"@ + decimal(v.ahead as nat) + "\x1b[0m"@,
            )
            &&& (v.ahead == 0 && v.behind > 0) ==> ends_with(
                w[0],
                " \u{2193}"@ + decimal(v.behind as nat) + "\x1b[0m"@,
            )
        }),
{
    let v = cache.vcs->0;
    let w = vcs_widgets(t, json, cache, step);
    let label = widget_icon("vcs"@) + branch_label(v.branch@, step);
    let dirty_part = if v.dirty {
        if v.modified > 0 && step < 4 {
            seq!['*'] + decimal(v.modified as nat)
        } else {
            seq!['*']
        }
    } else {
        seq![]
    };
    if v.ahead > 0 || v.behind > 0 {
        let extra = git_extra(v.dirty, v.modified, v.ahead, v.behind, step);
        let tail = if v.ahead > 0 && v.behind > 0 {
            " \u{2191}"@ + decimal(v.ahead as nat) + "\u{2193}"@ + decimal(v.behind as nat)
        } else if v.ahead > 0 {
            " \u{2191}"@ + decimal(v.ahead as nat)
        } else {
            " \u{2193}"@ + decimal(v.behind as nat)
        };
        assert(extra == dirty_part + tail);
        reveal_strlit(" \u{2191}");
        reveal_strlit(" \u{2193}");
        assert(extra.len() > 0);
        let head = if v.dirty {
            t.palette.label@ + label + t.palette.warning@
        } else {
            t.palette.label@ + label + t.palette.border@
        };
        assert(w[0] == head + extra + reset());
        assert(w[0] =~= (head + dirty_part) + (tail + "\x1b[0m"@));
        lemma_ends_with_concat(head + dirty_part, tail + "\x1b[0m"@);
        assert(tail + "\x1b[0m"@ =~= if v.ahead > 0 && v.behind > 0 {
            " \u{2191}"@ + decimal(v.ahead as nat) + "\u{2193}"@ + decimal(v.behind as nat)
                + "\x1b[0m"@
        } else if v.ahead > 0 {
            " \u{2191}"@ + decimal(v.ahead as nat) + "\x1b[0m"@
        } else {
            " \u{2193}"@ + decimal(v.behind as nat) + "\x1b[0m"@
        });
    }
}

/// Below step 3, when the last request read or wrote cached tokens, the
/// metrics row's second widget is the cache widget: it ends with `rd:` and
/// the tokens read from the cache (`cache_read_input_tokens`), then, when
/// tokens were written to it (`cache_creation_input_tokens`), `/wr:` and
/// that count, then the reset code.
#[verifier::spinoff_prover]
#[verifier::rlimit(40)]
pub proof fn law_cache_widget_read_and_write(
    t: Theme,
    json: InputJson,
    step: nat,
    fig: ContextFigures,
    u: CurrentUsage,
)
    requires
        step < 3,
        json.context_window matches Some(c) && c.current_usage == Some(u),
        (u.cache_read_input_tokens matches Some(r) && r > 0) || (u.cache_creation_input_tokens
            matches Some(w) && w > 0),
    ensures
        ({
            let read: nat = match u.cache_read_input_tokens {
                Some(r) => r as nat,
                None => 0,
            };
            let written: nat = match u.cache_creation_input_tokens {
                Some(w) => w as nat,
                None => 0,
            };
            let ms = metric_texts(t, json, step, fig);
            &&& ms.len() >= 2
            &&& written > 0 ==> ends_with(
                ms[1],
                "rd:"@ + human_format(read) + "/wr:"@ + human_format(written) + "\x1b[0m"@,
            )
            &&& written == 0 ==> ends_with(ms[1], "rd:"@ + human_format(read) + "\x1b[0m"@)
        }),
{
    let read: nat = match u.cache_read_input_tokens {
        Some(r) => r as nat,
        None => 0,
    };
    let written: nat = match u.cache_creation_input_tokens {
        Some(w) => w as nat,
        None => 0,
    };
    assert(cache_tokens(json) == (read, written));
    let cw = cache_widgets(t, json, step);
    assert(cw.len() == 1);
    let ms = metric_texts(t, json, step, fig);
    assert(ms[1] == cw[0]);
    let pre = t.palette.label@ + widget_icon("cache"@) + t.palette.label@ + "cache\x1b[0m "@
        + t.palette.accent@ + bold();
    if written > 0 {
        assert(cw[0] =~= pre + ("rd:"@ + human_format(read) + "/wr:"@ + human_format(written)
            + "\x1b[0m"@));
        lemma_ends_with_concat(pre, "rd:"@ + human_format(read) + "/wr:"@ + human_format(written)
            + "\x1b[0m"@);
    } else {
        assert(cw[0] =~= pre + ("rd:"@ + human_format(read) + "\x1b[0m"@));
        lemma_ends_with_concat(pre, "rd:"@ + human_format(read) + "\x1b[0m"@);
    }
}

/// The information row starts with the label of the agent's state: the
/// theme's ready label when idle (or when no state is given), its thinking,
/// working and tool labels for those states, its default label otherwise.
#[verifier::spinoff_prover]
#[verifier::rlimit(40)]
pub proof fn law_info_row_starts_with_state_label(
    t: Theme,
    json: InputJson,
    cache: CacheData,
    step: nat,
    cols: nat,
    now: u64,
    home: Seq<char>,
)
    ensures
        ({
            let first = info_texts(t, json, cache, step, cols, now, home)[0];
            let state = match json.agent_state {
                Some(s) => s@,
                None => "idle"@,
            };
            &&& state == "idle"@ ==> first == t.states.ready@
            &&& state == "thinking"@ ==> first == t.states.thinking@
            &&& state == "working"@ ==> first == t.states.working@
            &&& state == "tool_use"@ ==> first == t.states.tool_use@
            &&& (state != "idle"@ && state != "thinking"@ && state != "working"@ && state
                != "tool_use"@) ==> first == t.states.default_state@
        }),
{
    reveal_strlit("idle");
    reveal_strlit("thinking");
    reveal_strlit("working");
    reveal_strlit("tool_use");
    assert("idle"@.len() == 4 && "thinking"@.len() == 8 && "working"@.len() == 7
        && "tool_use"@.len() == 8);
    assert("thinking"@[1] != "tool_use"@[1]);
    assert("idle"@ != "thinking"@ && "idle"@ != "working"@ && "idle"@ != "tool_use"@);
    assert("thinking"@ != "working"@ && "thinking"@ != "tool_use"@ && "working"@ != "tool_use"@);
}

proof fn lemma_counter_tail(t: Theme, name: Seq<char>, n: nat)
    ensures
        ends_with(
            counter_text(t, name, n),
            name + "\x1b[0m "@ + t.palette.accent@ + "\x1b[1m"@ + decimal(n) + "\x1b[0m"@,
        ),
{
    let pre = t.palette.label@ + widget_icon(name) + t.palette.label@;
    let tail = name + "\x1b[0m "@ + t.palette.accent@ + "\x1b[1m"@ + decimal(n) + "\x1b[0m"@;
    assert(counter_text(t, name, n) =~= pre + tail);
    lemma_ends_with_concat(pre, tail);
}

/// At step 5 the metrics row holds the context widget and then, each when
/// its count is not zero, the artifacts (the list's length, else the given
/// count), the subagents and the background tasks (the list's length, else
/// the given count), each ending with its name, the count and the reset
/// code.
pub proof fn law_metric_counters(t: Theme, json: InputJson, fig: ContextFigures)
    ensures
        ({
            let artifacts: nat = match json.artifacts {
                Some(n) => n as nat,
                None => match json.artifact_count {
                    Some(c) => c as nat,
                    None => 0,
                },
            };
            let subagents: nat = match json.subagents {
                Some(n) => n as nat,
                None => 0,
            };
            let tasks: nat = match json.background_tasks {
                Some(n) => n as nat,
                None => match json.task_count {
                    Some(c) => c as nat,
                    None => 0,
                },
            };
            let ms = metric_texts(t, json, 5, fig);
            let tail = |name: Seq<char>, n: nat|
                name + "\x1b[0m "@ + t.palette.accent@ + "\x1b[1m"@ + decimal(n) + "\x1b[0m"@;
            (artifacts > 0 && subagents > 0 && tasks > 0) ==> {
                &&& ms.len() == 4
                &&& ends_with(ms[1], tail("artifacts"@, artifacts))
                &&& ends_with(ms[2], tail("subagents"@, subagents))
                &&& ends_with(ms[3], tail("tasks"@, tasks))
            }
        }),
{
    let ms = metric_texts(t, json, 5, fig);
    assert(cache_widgets(t, json, 5).len() == 0);
    assert(sandbox_widgets(t, json, 5).len() == 0);
    let an = artifact_total(json);
    let sn = subagent_total(json);
    let tn = task_total(json);
    if an > 0 && sn > 0 && tn > 0 {
        let ca = counter_text(t, "artifacts"@, an);
        let cs = counter_text(t, "subagents"@, sn);
        let ct = counter_text(t, "tasks"@, tn);
        assert(ms =~= seq![context_text(t, json, 5, fig), ca, cs, ct]);
        lemma_counter_tail(t, "artifacts"@, an);
        lemma_counter_tail(t, "subagents"@, sn);
        lemma_counter_tail(t, "tasks"@, tn);
    }
}

/// Below step 4, when the sandbox is on, the metrics row ends with the
/// sandbox widget: `ON(net)` when the network is allowed, `ON(no-net)`
/// otherwise.
#[verifier::spinoff_prover]
#[verifier::rlimit(40)]
pub proof fn law_sandbox_widget(t: Theme, json: InputJson, step: nat, fig: ContextFigures, sb: SandboxInfo)
    requires
        step < 4,
        json.sandbox == Some(sb),
        sb.enabled == Some(true),
    ensures
        ({
            let ms = metric_texts(t, json, step, fig);
            &&& ms.len() > 0
            &&& sb.allow_network == Some(true) ==> ends_with(ms.last(), "ON(net)\x1b[0m"@)
            &&& sb.allow_network != Some(true) ==> ends_with(ms.last(), "ON(no-net)\x1b[0m"@)
        }),
{
    let ms = metric_texts(t, json, step, fig);
    let sw = sandbox_widgets(t, json, step);
    assert(sw.len() == 1);
    assert(ms.last() == sw[0]);
    let pre = t.palette.label@ + widget_icon("sandbox"@) + t.palette.label@ + "sandbox\x1b[0m "@
        + t.palette.success@ + bold();
    if sb.allow_network == Some(true) {
        lemma_ends_with_concat(pre, "ON(net)\x1b[0m"@);
    } else {
        lemma_ends_with_concat(pre, "ON(no-net)\x1b[0m"@);
    }
}

/// At the widest step the metrics row starts with the context widget, which
/// ends with the percentage text, `%`, and in parentheses the tokens used
/// (input plus output) over the window's size, then the reset code; from
/// step 5 to 9 it shows the free percentage and free tokens instead when
/// the size is known.
#[verifier::spinoff_prover]
#[verifier::rlimit(40)]
pub proof fn law_context_widget_detail(t: Theme, json: InputJson, fig: ContextFigures, c: ContextWindow)
    requires
        json.context_window == Some(c),
    ensures
        ({
            let input: nat = match c.total_input_tokens {
                Some(v) => v as nat,
                None => 0,
            };
            let output: nat = match c.total_output_tokens {
                Some(v) => v as nat,
                None => 0,
            };
            let size: nat = match c.context_window_size {
                Some(v) => v as nat,
                None => 0,
            };
            let used = input + output;
            &&& ends_with(
                metric_texts(t, json, 0, fig)[0],
                fig.percent_text@ + "%\x1b[0m"@ + t.palette.label@ + " ("@ + human_format(used)
                    + "/"@ + human_format(size) + ")\x1b[0m"@,
            )
            &&& size > 0 ==> ends_with(
                metric_texts(t, json, 5, fig)[0],
                fig.percent_text@ + "%\x1b[0m"@ + t.palette.label@ + " (free:"@
                    + fig.free_percent_text@ + "%/"@ + human_format(
                    if size >= used {
                        (size - used) as nat
                    } else {
                        0
                    },
                ) + ")\x1b[0m"@,
            )
        }),
{
    reveal_strlit(" (");
    reveal_strlit("/");
    reveal_strlit(")\x1b[0m");
    reveal_strlit("\x1b[0m");
    let c0 = context_text(t, json, 0, fig);
    assert(metric_texts(t, json, 0, fig)[0] == c0);
    let cells = fig.bar_cells@[10];
    let filled: nat = if cells < 10 {
        cells as nat
    } else {
        10
    };
    let head = t.palette.label@ + widget_icon("context"@) + t.palette.label@ + "ctx\x1b[0m "@;
    let pre0 = head + progress_bar_text(filled, 10, level_color(t, fig.level), false) + seq![' ']
        + t.palette.accent@ + bold();
    let tail0 = fig.percent_text@ + "%\x1b[0m"@ + t.palette.label@ + " ("@ + human_format(
        used_tokens(json),
    ) + "/"@ + human_format(limit_tokens(json)) + ")\x1b[0m"@;
    assert(c0 =~= pre0 + tail0);
    lemma_ends_with_concat(pre0, tail0);
    let size = limit_tokens(json);
    if size > 0 {
        let c5 = context_text(t, json, 5, fig);
        assert(metric_texts(t, json, 5, fig)[0] == c5);
        let cells5 = fig.bar_cells@[8];
        let filled5: nat = if cells5 < 8 {
            cells5 as nat
        } else {
            8
        };
        let pre5 = head + progress_bar_text(filled5, 8, level_color(t, fig.level), false) + seq![
            ' ',
        ] + t.palette.accent@ + bold();
        let used = used_tokens(json);
        let tail5 = fig.percent_text@ + "%\x1b[0m"@ + t.palette.label@ + " (free:"@
            + fig.free_percent_text@ + "%/"@ + human_format(
            if size >= used {
                (size - used) as nat
            } else {
                0
            },
        ) + ")\x1b[0m"@;
        reveal_strlit(" (free:");
        reveal_strlit("%/");
        assert(c5 =~= pre5 + tail5);
        lemma_ends_with_concat(pre5, tail5);
    }
}

} // verus!
