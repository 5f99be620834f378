//! Terminal ANSI escape sequences, colour palettes and state labels.

use vstd::prelude::*;
use crate::text::{lowercase, str_eq, to_lowercase};

verus! {

/// Resets all terminal attributes.
pub const RESET: &'static str = "\x1b[0m";

/// Turns on bold text.
pub const BOLD: &'static str = "\x1b[1m";

/// The colours of one theme.
pub struct Palette {
    pub border: &'static str,
    pub label: &'static str,
    pub accent: &'static str,
    pub success: &'static str,
    pub warning: &'static str,
    pub critical: &'static str,
}

/// The coloured labels shown for the agent states.
pub struct StateLabels {
    pub ready: &'static str,
    pub thinking: &'static str,
    pub working: &'static str,
    pub tool_use: &'static str,
    pub default_state: &'static str,
}

/// A palette together with its state labels.
pub struct Theme {
    pub palette: Palette,
    pub states: StateLabels,
}

/// The "frost" theme (the default one).
pub open spec fn frost_theme() -> Theme {
    Theme {
        palette: Palette {
            border: "\x1b[38;2;76;86;106m",
            label: "\x1b[38;2;216;222;233m",
            accent: "\x1b[38;2;136;192;208m",
            success: "\x1b[38;2;163;190;140m",
            warning: "\x1b[38;2;235;203;139m",
            critical: "\x1b[38;2;191;97;106m",
        },
        states: StateLabels {
            ready: "\x1b[38;2;163;190;140m\x1b[1m[READY]\x1b[0m",
            thinking: "\x1b[38;2;235;203;139m\x1b[1m[THINKING]\x1b[0m",
            working: "\x1b[38;2;136;192;208m\x1b[1m[WORKING]\x1b[0m",
            tool_use: "\x1b[38;2;136;192;208m\x1b[1m[TOOL]\x1b[0m",
            default_state: "\x1b[38;2;216;222;233m\x1b[1m[STATE]\x1b[0m",
        },
    }
}

/// The "pastel" theme.
pub open spec fn pastel_theme() -> Theme {
    Theme {
        palette: Palette {
            border: "\x1b[38;2;88;91;112m",
            label: "\x1b[38;2;205;214;244m",
            accent: "\x1b[38;2;203;166;247m",
            success: "\x1b[38;2;166;227;161m",
            warning: "\x1b[38;2;249;226;175m",
            critical: "\x1b[38;2;243;139;168m",
        },
        states: StateLabels {
            ready: "\x1b[38;2;166;227;161m\x1b[1m[READY]\x1b[0m",
            thinking: "\x1b[38;2;249;226;175m\x1b[1m[THINKING]\x1b[0m",
            working: "\x1b[38;2;203;166;247m\x1b[1m[WORKING]\x1b[0m",
            tool_use: "\x1b[38;2;203;166;247m\x1b[1m[TOOL]\x1b[0m",
            default_state: "\x1b[38;2;205;214;244m\x1b[1m[STATE]\x1b[0m",
        },
    }
}

/// The "neon" theme.
pub open spec fn neon_theme() -> Theme {
    Theme {
        palette: Palette {
            border: "\x1b[38;2;59;66;97m",
            label: "\x1b[38;2;169;177;214m",
            accent: "\x1b[38;2;125;207;255m",
            success: "\x1b[38;2;115;218;202m",
            warning: "\x1b[38;2;255;158;100m",
            critical: "\x1b[38;2;247;118;142m",
        },
        states: StateLabels {
            ready: "\x1b[38;2;115;218;202m\x1b[1m[READY]\x1b[0m",
            thinking: "\x1b[38;2;255;158;100m\x1b[1m[THINKING]\x1b[0m",
            working: "\x1b[38;2;125;207;255m\x1b[1m[WORKING]\x1b[0m",
            tool_use: "\x1b[38;2;125;207;255m\x1b[1m[TOOL]\x1b[0m",
            default_state: "\x1b[38;2;169;177;214m\x1b[1m[STATE]\x1b[0m",
        },
    }
}

/// The 16-colour theme used for any other name.
pub open spec fn fallback_theme() -> Theme {
    Theme {
        palette: Palette {
            border: "\x1b[90m",
            label: "\x1b[37m",
            accent: "\x1b[94m",
            success: "\x1b[96m",
            warning: "\x1b[93m",
            critical: "\x1b[91m",
        },
        states: StateLabels {
            ready: "\x1b[92m\x1b[1m[READY]\x1b[0m",
            thinking: "\x1b[93m\x1b[1m[THINKING]\x1b[0m",
            working: "\x1b[96m\x1b[1m[WORKING]\x1b[0m",
            tool_use: "\x1b[95m\x1b[1m[TOOL]\x1b[0m",
            default_state: "\x1b[97m\x1b[1m[STATE]\x1b[0m",
        },
    }
}

/// The theme for an already lower-cased name.
pub open spec fn theme_for_key(key: Seq<char>) -> Theme {
    if key == "frost"@ {
        frost_theme()
    } else if key == "pastel"@ {
        pastel_theme()
    } else if key == "neon"@ {
        neon_theme()
    } else {
        fallback_theme()
    }
}

/// The theme that a configured name selects; names are compared lower-cased.
pub open spec fn theme_named(name: Seq<char>) -> Theme {
    theme_for_key(lowercase(name))
}

fn frost() -> (t: Theme)
    ensures
        t == frost_theme(),
{
    Theme {
        palette: Palette {
            border: "\x1b[38;2;76;86;106m",
            label: "\x1b[38;2;216;222;233m",
            accent: "\x1b[38;2;136;192;208m",
            success: "\x1b[38;2;163;190;140m",
            warning: "\x1b[38;2;235;203;139m",
            critical: "\x1b[38;2;191;97;106m",
        },
        states: StateLabels {
            ready: "\x1b[38;2;163;190;140m\x1b[1m[READY]\x1b[0m",
            thinking: "\x1b[38;2;235;203;139m\x1b[1m[THINKING]\x1b[0m",
            working: "\x1b[38;2;136;192;208m\x1b[1m[WORKING]\x1b[0m",
            tool_use: "\x1b[38;2;136;192;208m\x1b[1m[TOOL]\x1b[0m",
            default_state: "\x1b[38;2;216;222;233m\x1b[1m[STATE]\x1b[0m",
        },
    }
}

fn pastel() -> (t: Theme)
    ensures
        t == pastel_theme(),
{
    Theme {
        palette: Palette {
            border: "\x1b[38;2;88;91;112m",
            label: "\x1b[38;2;205;214;244m",
            accent: "\x1b[38;2;203;166;247m",
            success: "\x1b[38;2;166;227;161m",
            warning: "\x1b[38;2;249;226;175m",
            critical: "\x1b[38;2;243;139;168m",
        },
        states: StateLabels {
            ready: "\x1b[38;2;166;227;161m\x1b[1m[READY]\x1b[0m",
            thinking: "\x1b[38;2;249;226;175m\x1b[1m[THINKING]\x1b[0m",
            working: "\x1b[38;2;203;166;247m\x1b[1m[WORKING]\x1b[0m",
            tool_use: "\x1b[38;2;203;166;247m\x1b[1m[TOOL]\x1b[0m",
            default_state: "\x1b[38;2;205;214;244m\x1b[1m[STATE]\x1b[0m",
        },
    }
}

fn neon() -> (t: Theme)
    ensures
        t == neon_theme(),
{
    Theme {
        palette: Palette {
            border: "\x1b[38;2;59;66;97m",
            label: "\x1b[38;2;169;177;214m",
            accent: "\x1b[38;2;125;207;255m",
            success: "\x1b[38;2;115;218;202m",
            warning: "\x1b[38;2;255;158;100m",
            critical: "\x1b[38;2;247;118;142m",
        },
        states: StateLabels {
            ready: "\x1b[38;2;115;218;202m\x1b[1m[READY]\x1b[0m",
            thinking: "\x1b[38;2;255;158;100m\x1b[1m[THINKING]\x1b[0m",
            working: "\x1b[38;2;125;207;255m\x1b[1m[WORKING]\x1b[0m",
            tool_use: "\x1b[38;2;125;207;255m\x1b[1m[TOOL]\x1b[0m",
            default_state: "\x1b[38;2;169;177;214m\x1b[1m[STATE]\x1b[0m",
        },
    }
}

fn fallback() -> (t: Theme)
    ensures
        t == fallback_theme(),
{
    Theme {
        palette: Palette {
            border: "\x1b[90m",
            label: "\x1b[37m",
            accent: "\x1b[94m",
            success: "\x1b[96m",
            warning: "\x1b[93m",
            critical: "\x1b[91m",
        },
        states: StateLabels {
            ready: "\x1b[92m\x1b[1m[READY]\x1b[0m",
            thinking: "\x1b[93m\x1b[1m[THINKING]\x1b[0m",
            working: "\x1b[96m\x1b[1m[WORKING]\x1b[0m",
            tool_use: "\x1b[95m\x1b[1m[TOOL]\x1b[0m",
            default_state: "\x1b[97m\x1b[1m[STATE]\x1b[0m",
        },
    }
}

/// The theme for an already lower-cased name.
pub fn theme_for_lowercase(key: &str) -> (t: Theme)
    ensures
        t == theme_for_key(key@),
{
    if str_eq(key, "frost") {
        frost()
    } else if str_eq(key, "pastel") {
        pastel()
    } else if str_eq(key, "neon") {
        neon()
    } else {
        fallback()
    }
}

/// The theme that a name selects: "frost", "pastel" or "neon" in any case,
/// and the 16-colour fallback for anything else.
pub fn resolve(name: &str) -> (t: Theme)
    ensures
        t == theme_named(name@),
{
    let key = to_lowercase(name);
    theme_for_lowercase(key.as_str())
}

/// The Nerd Font glyph of a widget.
pub open spec fn icon_for(widget: Seq<char>) -> &'static str {
    if widget == "vcs"@ {
        "\u{e0a0}"
    } else if widget == "path"@ {
        "\u{f07c}"
    } else if widget == "quota"@ {
        "\u{f0e7}"
    } else if widget == "context"@ {
        "\u{f061a}"
    } else if widget == "cache"@ {
        "\u{f0a0}"
    } else if widget == "artifacts"@ {
        "\u{f09d1}"
    } else if widget == "subagents"@ {
        "\u{f06a9}"
    } else if widget == "tasks"@ {
        "\u{f051b}"
    } else if widget == "sandbox"@ {
        "\u{f132}"
    } else if widget == "settings"@ {
        "\u{f013}"
    } else {
        ""
    }
}

/// The Nerd Font glyph of a widget; empty for an unknown widget.
pub fn get_icon(widget: &str) -> (r: &'static str)
    ensures
        r == icon_for(widget@),
{
    if str_eq(widget, "vcs") {
        "\u{e0a0}"
    } else if str_eq(widget, "path") {
        "\u{f07c}"
    } else if str_eq(widget, "quota") {
        "\u{f0e7}"
    } else if str_eq(widget, "context") {
        "\u{f061a}"
    } else if str_eq(widget, "cache") {
        "\u{f0a0}"
    } else if str_eq(widget, "artifacts") {
        "\u{f09d1}"
    } else if str_eq(widget, "subagents") {
        "\u{f06a9}"
    } else if str_eq(widget, "tasks") {
        "\u{f051b}"
    } else if str_eq(widget, "sandbox") {
        "\u{f132}"
    } else if str_eq(widget, "settings") {
        "\u{f013}"
    } else {
        ""
    }
}

} // verus!
