//! Carrying context-window figures over from the previous input of the same
//! session, so that an update that lacks them does not blank the status line.

use vstd::prelude::*;
use crate::text::{chars_eq, chars_of, str_eq, trim, trim_chars};
use crate::types::{ContextWindow, CurrentUsage, InputJson};

verus! {

/// The characters of an optional string, empty when absent.
pub open spec fn text_or_empty(s: Option<String>) -> Seq<char> {
    match s {
        Some(t) => t@,
        None => seq![],
    }
}

/// The model id of an input, empty when absent.
pub open spec fn model_id(j: InputJson) -> Seq<char> {
    match j.model {
        Some(m) => text_or_empty(m.id),
        None => seq![],
    }
}

/// Two inputs belong to one session when their trimmed conversation ids are
/// equal and their trimmed model ids do not differ (an empty one differs
/// from none).
pub open spec fn same_session(c: InputJson, l: InputJson) -> bool {
    let cc = trim(text_or_empty(c.conversation_id));
    let lc = trim(text_or_empty(l.conversation_id));
    let cm = trim(model_id(c));
    let lm = trim(model_id(l));
    cc == lc && !(cm.len() > 0 && lm.len() > 0 && cm != lm)
}

/// Whether the agent is idle (a missing state counts as idle).
pub open spec fn is_idle(j: InputJson) -> bool {
    match j.agent_state {
        Some(s) => s@ == "idle"@,
        None => true,
    }
}

/// A count after merging: the previous value when the current one is
/// missing or zero.
pub open spec fn merged_count(cur: Option<u64>, last: Option<u64>) -> Option<u64> {
    match cur {
        Some(v) => if v == 0 {
            last
        } else {
            cur
        },
        None => last,
    }
}

/// Whether an `f64` bit pattern is a zero (`0.0` or `-0.0`).
pub open spec fn is_zero_bits(b: u64) -> bool {
    b == 0 || b == 0x8000_0000_0000_0000
}

/// A percentage after merging: the previous value when the current one is
/// missing or compares equal to `0.0`.
pub open spec fn merged_percentage(cur: Option<u64>, last: Option<u64>) -> Option<u64> {
    match cur {
        Some(v) => if is_zero_bits(v) {
            last
        } else {
            cur
        },
        None => last,
    }
}

/// The token usage after merging each count.
pub open spec fn merged_usage(c: CurrentUsage, l: CurrentUsage) -> CurrentUsage {
    CurrentUsage {
        cache_read_input_tokens: merged_count(c.cache_read_input_tokens, l.cache_read_input_tokens),
        cache_creation_input_tokens: merged_count(
            c.cache_creation_input_tokens,
            l.cache_creation_input_tokens,
        ),
        input_tokens: merged_count(c.input_tokens, l.input_tokens),
        output_tokens: merged_count(c.output_tokens, l.output_tokens),
    }
}

/// The usage after merging: taken over when missing, merged count by count
/// unless the agent is idle.
pub open spec fn merged_current_usage(
    c: Option<CurrentUsage>,
    l: Option<CurrentUsage>,
    idle: bool,
) -> Option<CurrentUsage> {
    match (c, l) {
        (None, Some(lu)) => Some(lu),
        (Some(cu), Some(lu)) => if idle {
            Some(cu)
        } else {
            Some(merged_usage(cu, lu))
        },
        (c, None) => c,
    }
}

/// The context window after merging with the previous one.
pub open spec fn merged_window(c: ContextWindow, l: ContextWindow, idle: bool) -> ContextWindow {
    ContextWindow {
        used_percentage_bits: merged_percentage(c.used_percentage_bits, l.used_percentage_bits),
        remaining_percentage_bits: c.remaining_percentage_bits,
        total_input_tokens: merged_count(c.total_input_tokens, l.total_input_tokens),
        total_output_tokens: merged_count(c.total_output_tokens, l.total_output_tokens),
        context_window_size: merged_count(c.context_window_size, l.context_window_size),
        current_usage: merged_current_usage(c.current_usage, l.current_usage, idle),
    }
}

/// The input with another context window.
pub open spec fn with_window(j: InputJson, w: Option<ContextWindow>) -> InputJson {
    InputJson { context_window: w, ..j }
}

/// The input with the plan tier dropped.
pub open spec fn without_tier(j: InputJson) -> InputJson {
    InputJson { plan_tier: None, ..j }
}

/// The merged input: the plan tier is always dropped; within one session, a
/// missing window is taken over while the agent is busy, and a present one
/// has its missing or zero figures filled from the previous input.
pub open spec fn merge_spec(current: InputJson, last: Option<InputJson>) -> InputJson {
    let c = without_tier(current);
    match last {
        None => c,
        Some(l) => if !same_session(c, l) {
            c
        } else {
            match c.context_window {
                None => if is_idle(c) {
                    c
                } else {
                    with_window(c, l.context_window)
                },
                Some(cw) => match l.context_window {
                    Some(lw) => with_window(c, Some(merged_window(cw, lw, is_idle(c)))),
                    None => c,
                },
            }
        },
    }
}

fn opt_trimmed(s: &Option<String>) -> (r: Vec<char>)
    ensures
        r@ == trim(text_or_empty(*s)),
{
    match s {
        Some(t) => trim_chars(&chars_of(t.as_str())),
        None => {
            let e: Vec<char> = Vec::new();
            let r = trim_chars(&e);
            r
        },
    }
}

fn model_id_trimmed(j: &InputJson) -> (r: Vec<char>)
    ensures
        r@ == trim(model_id(*j)),
{
    match &j.model {
        Some(m) => opt_trimmed(&m.id),
        None => opt_trimmed(&None),
    }
}

/// Whether two inputs belong to one session (see `same_session`).
pub fn is_same_session(current: &InputJson, last: &InputJson) -> (r: bool)
    ensures
        r == same_session(*current, *last),
{
    let cur_cid = opt_trimmed(&current.conversation_id);
    let last_cid = opt_trimmed(&last.conversation_id);
    if !chars_eq(&cur_cid, &last_cid) {
        return false;
    }
    let cur_mid = model_id_trimmed(current);
    let last_mid = model_id_trimmed(last);
    if cur_mid.len() > 0 && last_mid.len() > 0 && !chars_eq(&cur_mid, &last_mid) {
        return false;
    }
    true
}

/// Replaces a missing or zero count by the previous one.
pub fn merge_field(cur: &mut Option<u64>, last_val: Option<u64>)
    ensures
        *final(cur) == merged_count(*old(cur), last_val),
{
    let v = match *cur {
        Some(x) => x,
        None => 0,
    };
    if v == 0 {
        *cur = last_val;
    }
}

/// Replaces a missing or zero percentage (an `f64` bit pattern) by the
/// previous one.
pub fn merge_percentage(cur: &mut Option<u64>, last_val: Option<u64>)
    ensures
        *final(cur) == merged_percentage(*old(cur), last_val),
{
    let zero = match *cur {
        Some(x) => x == 0 || x == 0x8000_0000_0000_0000u64,
        None => true,
    };
    if zero {
        *cur = last_val;
    }
}

fn merge_window(cw: ContextWindow, lw: ContextWindow, idle: bool) -> (r: ContextWindow)
    ensures
        r == merged_window(cw, lw, idle),
{
    let mut cw = cw;
    merge_field(&mut cw.context_window_size, lw.context_window_size);
    merge_field(&mut cw.total_input_tokens, lw.total_input_tokens);
    merge_field(&mut cw.total_output_tokens, lw.total_output_tokens);
    merge_percentage(&mut cw.used_percentage_bits, lw.used_percentage_bits);
    let cu = match (cw.current_usage, lw.current_usage) {
        (None, Some(l)) => Some(l),
        (Some(c), Some(l)) => {
            if idle {
                Some(c)
            } else {
                let mut c = c;
                merge_field(&mut c.cache_read_input_tokens, l.cache_read_input_tokens);
                merge_field(&mut c.cache_creation_input_tokens, l.cache_creation_input_tokens);
                merge_field(&mut c.input_tokens, l.input_tokens);
                merge_field(&mut c.output_tokens, l.output_tokens);
                Some(c)
            }
        },
        (c, None) => c,
    };
    ContextWindow {
        used_percentage_bits: cw.used_percentage_bits,
        remaining_percentage_bits: cw.remaining_percentage_bits,
        total_input_tokens: cw.total_input_tokens,
        total_output_tokens: cw.total_output_tokens,
        context_window_size: cw.context_window_size,
        current_usage: cu,
    }
}

/// Merges the current input with the previous one (see `merge_spec`).
pub fn merge_input_json(current: InputJson, last: Option<InputJson>) -> (r: InputJson)
    ensures
        r == merge_spec(current, last),
{
    let mut current = current;
    current.plan_tier = None;
    let last = match last {
        Some(l) => l,
        None => return current,
    };
    if !is_same_session(&current, &last) {
        return current;
    }
    let idle = match &current.agent_state {
        Some(s) => str_eq(s.as_str(), "idle"),
        None => true,
    };
    match current.context_window {
        None => {
            if !idle {
                current.context_window = last.context_window;
            }
            current
        },
        Some(cw) => {
            match last.context_window {
                Some(lw) => {
                    current.context_window = Some(merge_window(cw, lw, idle));
                    current
                },
                None => {
                    current.context_window = Some(cw);
                    current
                },
            }
        },
    }
}

// ---------------------------------------------------------------------------
// Laws
// ---------------------------------------------------------------------------

/// Without a previous input, merging only drops the plan tier.
pub proof fn law_merge_without_previous(current: InputJson)
    ensures
        merge_spec(current, None) == without_tier(current),
{
}

/// Merging with inputs of another session carries nothing over.
pub proof fn law_other_session_keeps_current(current: InputJson, last: InputJson)
    requires
        !same_session(current, last),
    ensures
        merge_spec(current, Some(last)) == without_tier(current),
{
    assert(same_session(without_tier(current), last) == same_session(current, last));
}

/// Merging touches nothing but the plan tier and the context window.
pub proof fn law_merge_keeps_other_fields(current: InputJson, last: Option<InputJson>)
    ensures
        ({
            let r = merge_spec(current, last);
            &&& r.plan_tier is None
            &&& r.agent_state == current.agent_state
            &&& r.model == current.model
            &&& r.workspace == current.workspace
            &&& r.cwd == current.cwd
            &&& r.sandbox == current.sandbox
            &&& r.agent == current.agent
            &&& r.vcs == current.vcs
            &&& r.conversation_id == current.conversation_id
            &&& r.terminal_width == current.terminal_width
            &&& r.email == current.email
            &&& r.version == current.version
        }),
{
}

/// A count that the current input reports as non-zero is never replaced.
pub proof fn law_nonzero_counts_kept(current: InputJson, last: Option<InputJson>)
    requires
        current.context_window is Some,
    ensures
        ({
            let cw = current.context_window->0;
            let rw = merge_spec(current, last).context_window;
            &&& rw is Some
            &&& (cw.total_input_tokens matches Some(v) && v != 0 ==> rw->0.total_input_tokens
                == cw.total_input_tokens)
            &&& (cw.total_output_tokens matches Some(v) && v != 0 ==> rw->0.total_output_tokens
                == cw.total_output_tokens)
            &&& (cw.context_window_size matches Some(v) && v != 0 ==> rw->0.context_window_size
                == cw.context_window_size)
            &&& (cw.used_percentage_bits matches Some(v) && !is_zero_bits(v)
                ==> rw->0.used_percentage_bits == cw.used_percentage_bits)
            &&& rw->0.remaining_percentage_bits == cw.remaining_percentage_bits
        }),
{
}

/// Merging twice with the same previous input gives what merging once gives.
pub proof fn law_merge_idempotent(current: InputJson, last: InputJson)
    ensures
        merge_spec(merge_spec(current, Some(last)), Some(last)) == merge_spec(
            current,
            Some(last),
        ),
{
    let m = merge_spec(current, Some(last));
    let c = without_tier(current);
    assert(without_tier(m) == m);
    assert(same_session(m, last) == same_session(c, last));
    assert(is_idle(m) == is_idle(c));
    if same_session(c, last) {
        match (c.context_window, last.context_window) {
            (Some(cw), Some(lw)) => {
                let w = merged_window(cw, lw, is_idle(c));
                assert(merged_window(w, lw, is_idle(c)) == w);
            },
            (None, Some(lw)) => {
                if !is_idle(c) {
                    assert(merged_window(lw, lw, false) == lw);
                }
            },
            _ => {},
        }
    }
}

} // verus!
