//! The terminal window title: agent state, agent mode and workspace name.

use vstd::prelude::*;
use crate::text::{
    chars_of, contains, find, find_chars, last_segment, last_segment_chars, lowercase, owned,
    pieces, push_chars, push_str, replace_char, replace_char_chars, str_eq, to_lowercase,
    to_uppercase, tokens, tokens_chars, uppercase, contains_str, Sep,
};
use crate::types::{input_cwd, resolve_cwd, AgentInfo, InputJson};

verus! {

/// The marker of a cloud workspace path.
pub open spec fn cloud_marker() -> Seq<char> {
    "/google/src/cloud/"@
}

/// The workspace name shown in the title: for a cloud workspace path the
/// second component after the marker (or the only one), otherwise the last
/// path component; "unknown" for an empty path.
pub open spec fn workspace_name(cwd: Seq<char>) -> Seq<char> {
    if cwd.len() == 0 {
        "unknown"@
    } else {
        let n = replace_char(cwd, '\\', '/');
        match find(n, cloud_marker()) {
            Some(pos) => {
                let parts = tokens(n.skip(pos + cloud_marker().len()), Sep::Char('/'));
                if parts.len() >= 2 {
                    parts[1]
                } else if parts.len() == 1 {
                    parts[0]
                } else {
                    "unknown"@
                }
            },
            None => last_segment(n, '/'),
        }
    }
}

/// The emoji for an agent state.
pub open spec fn state_emoji(state: Seq<char>) -> Seq<char> {
    if state == "initializing"@ {
        "\u{1f680}"@
    } else if state == "idle"@ {
        "\u{1f634}"@
    } else if state == "thinking"@ {
        "\u{1f914}"@
    } else if state == "working"@ {
        "\u{1f3c3}"@
    } else if state == "tool_use"@ {
        "\u{1f6e0}\u{fe0f}"@
    } else {
        "\u{1f916}"@
    }
}

/// The agent mode tag: `[GRILL]`, `[PLAN]` or `[GOAL]` when the lower-cased
/// name contains that word, the upper-cased name for any other name but
/// "default" and "main", nothing otherwise.
pub open spec fn mode_tag(name: Seq<char>) -> Seq<char> {
    let lower = lowercase(name);
    if contains(lower, "grill"@) {
        " [GRILL]"@
    } else if contains(lower, "plan"@) {
        " [PLAN]"@
    } else if contains(lower, "goal"@) {
        " [GOAL]"@
    } else if lower != "default"@ && lower != "main"@ && lower.len() > 0 {
        " ["@ + uppercase(name) + "]"@
    } else {
        seq![]
    }
}

/// The status suffix: ` - status` for a non-empty status other than "idle".
pub open spec fn status_suffix(status: Seq<char>) -> Seq<char> {
    if status.len() > 0 && status != "idle"@ {
        " - "@ + status
    } else {
        seq![]
    }
}

/// The mode tag of an agent, if it has a name.
pub open spec fn agent_mode(agent: Option<AgentInfo>) -> Seq<char> {
    match agent {
        Some(a) => match a.name {
            Some(n) => mode_tag(n@),
            None => seq![],
        },
        None => seq![],
    }
}

/// The status suffix of an agent, if it has a status.
pub open spec fn agent_status(agent: Option<AgentInfo>) -> Seq<char> {
    match agent {
        Some(a) => match a.status {
            Some(s) => status_suffix(s@),
            None => seq![],
        },
        None => seq![],
    }
}

/// The agent state of an input ("idle" when absent).
pub open spec fn state_of(json: InputJson) -> Seq<char> {
    match json.agent_state {
        Some(s) => s@,
        None => "idle"@,
    }
}

/// The window title: `emoji[ mode] state[ - status] | workspace`.
pub open spec fn title_text(json: InputJson) -> Seq<char> {
    let state = state_of(json);
    state_emoji(state) + agent_mode(json.agent) + " "@ + state + agent_status(json.agent)
        + " | "@ + workspace_name(input_cwd(json))
}

/// The workspace name for a working directory (see `workspace_name`).
pub fn get_workspace_name(cwd: &str) -> (r: String)
    ensures
        r@ == workspace_name(cwd@),
{
    let v = chars_of(cwd);
    if v.len() == 0 {
        return owned("unknown");
    }
    let n = replace_char_chars(&v, '\\', '/');
    let marker = chars_of("/google/src/cloud/");
    match find_chars(&n, &marker) {
        Some(pos) => {
            let mut sub: Vec<char> = Vec::new();
            let start = pos + marker.len();
            let mut i: usize = start;
            while i < n.len()
                invariant
                    start <= i <= n@.len(),
                    sub@ == n@.subrange(start as int, i as int),
                decreases n.len() - i,
            {
                sub.push(n[i]);
                i = i + 1;
                assert(sub@ =~= n@.subrange(start as int, i as int));
            }
            assert(sub@ == n@.skip(start as int));
            let parts = tokens_chars(&sub, Sep::Char('/'));
            assert(pieces(&parts).len() == parts@.len());
            if parts.len() >= 2 {
                let mut out = String::new();
                push_chars(&mut out, &parts[1]);
                out
            } else if parts.len() == 1 {
                let mut out = String::new();
                push_chars(&mut out, &parts[0]);
                out
            } else {
                owned("unknown")
            }
        },
        None => {
            let last = last_segment_chars(&n, '/');
            let mut out = String::new();
            push_chars(&mut out, &last);
            out
        },
    }
}

fn push_mode_tag(out: &mut String, name: &String)
    ensures
        final(out)@ == old(out)@ + mode_tag(name@),
{
    let lower = to_lowercase(name.as_str());
    let lv = chars_of(lower.as_str());
    if contains_str(lower.as_str(), "grill") {
        push_str(out, " [GRILL]");
    } else if contains_str(lower.as_str(), "plan") {
        push_str(out, " [PLAN]");
    } else if contains_str(lower.as_str(), "goal") {
        push_str(out, " [GOAL]");
    } else if !str_eq(lower.as_str(), "default") && !str_eq(lower.as_str(), "main") && lv.len()
        > 0 {
        push_str(out, " [");
        let upper = to_uppercase(name.as_str());
        push_str(out, upper.as_str());
        push_str(out, "]");
    } else {
        assert(old(out)@ + mode_tag(name@) == old(out)@ + Seq::<char>::empty());
        assert(old(out)@ + Seq::<char>::empty() =~= old(out)@);
    }
}

fn push_status_suffix(out: &mut String, status: &String)
    ensures
        final(out)@ == old(out)@ + status_suffix(status@),
{
    let sv = chars_of(status.as_str());
    if sv.len() > 0 && !str_eq(status.as_str(), "idle") {
        push_str(out, " - ");
        push_str(out, status.as_str());
    } else {
        assert(old(out)@ + Seq::<char>::empty() =~= old(out)@);
    }
}

fn state_emoji_str(state: &str) -> (r: &'static str)
    ensures
        r@ == state_emoji(state@),
{
    if str_eq(state, "initializing") {
        "\u{1f680}"
    } else if str_eq(state, "idle") {
        "\u{1f634}"
    } else if str_eq(state, "thinking") {
        "\u{1f914}"
    } else if str_eq(state, "working") {
        "\u{1f3c3}"
    } else if str_eq(state, "tool_use") {
        "\u{1f6e0}\u{fe0f}"
    } else {
        "\u{1f916}"
    }
}

/// The terminal window title for an input (see `title_text`).
pub fn get_title_string(json: &InputJson) -> (r: String)
    ensures
        r@ == title_text(*json),
{
    let state: String = match &json.agent_state {
        Some(s) => s.clone(),
        None => owned("idle"),
    };
    let raw_cwd = resolve_cwd(json);
    let workspace = get_workspace_name(raw_cwd.as_str());
    let mut out = owned(state_emoji_str(state.as_str()));
    if let Some(agent) = &json.agent {
        if let Some(name) = &agent.name {
            push_mode_tag(&mut out, name);
        }
    }
    assert(out@ == state_emoji(state@) + agent_mode(json.agent)) by {
        assert(state_emoji(state@) + Seq::<char>::empty() =~= state_emoji(state@));
    }
    push_str(&mut out, " ");
    push_str(&mut out, state.as_str());
    let ghost before = out@;
    if let Some(agent) = &json.agent {
        if let Some(status) = &agent.status {
            push_status_suffix(&mut out, status);
        }
    }
    assert(out@ == before + agent_status(json.agent)) by {
        assert(before + Seq::<char>::empty() =~= before);
    }
    push_str(&mut out, " | ");
    push_str(&mut out, workspace.as_str());
    assert(out@ =~= title_text(*json));
    out
}

/// The window title starts with the emoji of the agent's state: 🚀 while
/// initializing, 😴 when idle (also when no state is given), 🤔 while
/// thinking, 🏃 while working, 🛠️ while using a tool, 🤖 in any other state.
pub proof fn law_title_starts_with_state_emoji(json: InputJson)
    ensures
        ({
            let title = title_text(json);
            let state = match json.agent_state {
                Some(s) => s@,
                None => "idle"@,
            };
            &&& state == "initializing"@ ==> seq!['\u{1f680}'].is_prefix_of(title)
            &&& state == "idle"@ ==> seq!['\u{1f634}'].is_prefix_of(title)
            &&& state == "thinking"@ ==> seq!['\u{1f914}'].is_prefix_of(title)
            &&& state == "working"@ ==> seq!['\u{1f3c3}'].is_prefix_of(title)
            &&& state == "tool_use"@ ==> seq!['\u{1f6e0}', '\u{fe0f}'].is_prefix_of(title)
            &&& (state != "initializing"@ && state != "idle"@ && state != "thinking"@ && state
                != "working"@ && state != "tool_use"@) ==> seq!['\u{1f916}'].is_prefix_of(title)
        }),
{
    reveal_strlit("initializing");
    reveal_strlit("idle");
    reveal_strlit("thinking");
    reveal_strlit("working");
    reveal_strlit("tool_use");
    reveal_strlit("\u{1f680}");
    reveal_strlit("\u{1f634}");
    reveal_strlit("\u{1f914}");
    reveal_strlit("\u{1f3c3}");
    reveal_strlit("\u{1f6e0}\u{fe0f}");
    reveal_strlit("\u{1f916}");
    let state = state_of(json);
    let e = state_emoji(state);
    let title = title_text(json);
    assert(title == e + (agent_mode(json.agent) + " "@ + state + agent_status(json.agent) + " | "@
        + workspace_name(input_cwd(json))));
    assert(forall|k: int| 0 <= k < e.len() ==> title[k] == e[k]);
    assert("initializing"@.len() == 12 && "idle"@.len() == 4 && "thinking"@.len() == 8);
    assert("working"@.len() == 7 && "tool_use"@.len() == 8);
    assert("initializing"@ != "idle"@ && "initializing"@ != "thinking"@);
    assert("idle"@ != "thinking"@ && "idle"@ != "working"@ && "idle"@ != "tool_use"@);
    assert("thinking"@[1] != "working"@[1] && "thinking"@ != "working"@);
    assert("thinking"@[1] != "tool_use"@[1] && "thinking"@ != "tool_use"@);
    assert("working"@ != "tool_use"@);
    if state == "initializing"@ {
        assert(e == seq!['\u{1f680}']);
    } else if state == "idle"@ {
        assert(e == seq!['\u{1f634}']);
    } else if state == "thinking"@ {
        assert(e == seq!['\u{1f914}']);
    } else if state == "working"@ {
        assert(e == seq!['\u{1f3c3}']);
    } else if state == "tool_use"@ {
        assert(e == seq!['\u{1f6e0}', '\u{fe0f}']);
    } else {
        assert(e == seq!['\u{1f916}']);
    }
}

/// After the state emoji, the title names the agent's mode: ` [GRILL]`
/// when its lower-cased name contains "grill", else ` [PLAN]` for "plan",
/// else ` [GOAL]` for "goal"; then a space and the state.
pub proof fn law_title_mode_tag(json: InputJson, a: AgentInfo, name: String)
    requires
        json.agent == Some(a),
        a.name == Some(name),
    ensures
        ({
            let lower = lowercase(name@);
            let rest = title_text(json).skip(state_emoji(state_of(json)).len() as int);
            &&& contains(lower, "grill"@) ==> (" [GRILL] "@ + state_of(json)).is_prefix_of(rest)
            &&& (!contains(lower, "grill"@) && contains(lower, "plan"@)) ==> (" [PLAN] "@
                + state_of(json)).is_prefix_of(rest)
            &&& (!contains(lower, "grill"@) && !contains(lower, "plan"@) && contains(lower, "goal"@))
                ==> (" [GOAL] "@ + state_of(json)).is_prefix_of(rest)
        }),
{
    let e = state_emoji(state_of(json));
    let title = title_text(json);
    let rest = title.skip(e.len() as int);
    let after = agent_mode(json.agent) + " "@ + state_of(json) + agent_status(json.agent) + " | "@
        + workspace_name(input_cwd(json));
    assert(title =~= e + after);
    assert(rest =~= after);
    reveal_strlit(" [GRILL]");
    reveal_strlit(" [PLAN]");
    reveal_strlit(" [GOAL]");
    reveal_strlit(" [GRILL] ");
    reveal_strlit(" [PLAN] ");
    reveal_strlit(" [GOAL] ");
    reveal_strlit(" ");
    let m = agent_mode(json.agent);
    let pre = m + " "@ + state_of(json);
    assert(after =~= pre + (agent_status(json.agent) + " | "@ + workspace_name(input_cwd(json))));
    assert(pre.is_prefix_of(after));
}

} // verus!
