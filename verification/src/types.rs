//! The data the status line works on: what the CLI sends on standard input,
//! the cache written by the background refresh, and the user configuration.
//!
//! Numbers that the JSON carries as floating point are held here by what
//! stands for them: percentages by the bit pattern of their `f64`
//! (`f64::to_bits`), quota fractions by the figures that are drawn from them.

use vstd::prelude::*;
use crate::text::{owned, trim, trim_str};

verus! {

/// The workspace the agent runs in.
pub struct Workspace {
    pub current_dir: Option<String>,
    pub project_dir: Option<String>,
}

/// The model in use.
pub struct ModelInfo {
    pub id: Option<String>,
    pub display_name: Option<String>,
}

/// Token counts of the last request.
pub struct CurrentUsage {
    pub cache_read_input_tokens: Option<u64>,
    pub cache_creation_input_tokens: Option<u64>,
    pub input_tokens: Option<u64>,
    pub output_tokens: Option<u64>,
}

/// The context window; the two percentages are `f64` bit patterns.
pub struct ContextWindow {
    pub used_percentage_bits: Option<u64>,
    pub remaining_percentage_bits: Option<u64>,
    pub total_input_tokens: Option<u64>,
    pub total_output_tokens: Option<u64>,
    pub context_window_size: Option<u64>,
    pub current_usage: Option<CurrentUsage>,
}

/// The sandbox settings.
pub struct SandboxInfo {
    pub enabled: Option<bool>,
    pub allow_network: Option<bool>,
}

/// The running agent.
pub struct AgentInfo {
    pub name: Option<String>,
    pub role: Option<String>,
    pub status: Option<String>,
}

/// Version control as the CLI reports it.
pub struct InputVcsInfo {
    pub vcs_type: Option<String>,
    pub client: Option<String>,
    pub branch: Option<String>,
    pub dirty: Option<bool>,
}

/// The JSON object the CLI writes to standard input. The three lists whose
/// entries are not read are held by their lengths.
pub struct InputJson {
    pub agent_state: Option<String>,
    pub model: Option<ModelInfo>,
    pub workspace: Option<Workspace>,
    pub cwd: Option<String>,
    pub context_window: Option<ContextWindow>,
    pub sandbox: Option<SandboxInfo>,
    pub agent: Option<AgentInfo>,
    pub vcs: Option<InputVcsInfo>,
    pub product: Option<String>,
    pub artifacts: Option<usize>,
    pub artifact_count: Option<u32>,
    pub subagents: Option<usize>,
    pub background_tasks: Option<usize>,
    pub task_count: Option<u32>,
    pub tool_confirmation_pending: Option<bool>,
    pub pending_input_count: Option<u32>,
    pub plan_tier: Option<String>,
    pub email: Option<String>,
    pub version: Option<String>,
    pub conversation_id: Option<String>,
    pub terminal_width: Option<usize>,
}

/// The quota of one model. The remaining fraction is kept as the bit
/// pattern of its `f64` (`f64::to_bits`) and read through the two figures
/// drawn from it: the whole percent left (`floor(fraction * 100)`) and the
/// rounded number of cells it fills of a five-cell bar (`round(fraction *
/// 5)`, at most five of which are drawn).
pub struct QuotaItem {
    pub id: String,
    pub display_name: String,
    pub remaining_fraction_bits: u64,
    pub remaining_percent: i64,
    pub bar_cells: usize,
    pub reset_time: Option<String>,
}

/// The git state of a directory.
pub struct VcsInfo {
    pub cwd: String,
    pub branch: String,
    pub dirty: bool,
    pub ahead: u32,
    pub behind: u32,
    pub modified: u32,
    pub last_checked: u64,
    pub head_mtime: Option<u64>,
    pub index_mtime: Option<u64>,
    pub remote_web_url: Option<String>,
    pub insertions: u32,
    pub deletions: u32,
}

/// What the background refresh caches.
pub struct CacheData {
    pub quota: Vec<QuotaItem>,
    pub vcs: Option<VcsInfo>,
    pub last_refreshed: u64,
    pub token_hash: Option<String>,
    pub needs_login: Option<bool>,
}

/// The content of the refresh lock file.
pub struct LockContent {
    pub pid: u32,
    pub time: u64,
    pub cwd: String,
}

/// Which parts of the status line the user wants.
pub struct LayoutConfig {
    pub show_state: bool,
    pub show_model: bool,
    pub show_path: bool,
    pub show_vcs: bool,
    pub show_quota: bool,
    pub show_quota_bar: bool,
    pub show_pending_input: bool,
    pub show_approval_alert: bool,
    pub show_context_bar: bool,
    pub show_cache_stats: bool,
    pub show_artifacts: bool,
    pub show_subagents: bool,
    pub show_tasks: bool,
    pub show_sandbox: bool,
    pub show_conversation_id: bool,
    pub show_version: bool,
    pub show_plan_tier: bool,
    pub show_email: bool,
    pub show_settings: bool,
}

/// The default of the switches that are on unless turned off.
pub fn default_true() -> (r: bool)
    ensures
        r,
{
    true
}

/// The default of the switches that are off unless turned on.
pub fn default_false() -> (r: bool)
    ensures
        !r,
{
    false
}

/// Whether a layout is the default one: every part shown but the
/// conversation id, version, plan tier, e-mail and settings icon.
pub open spec fn is_default_layout(l: LayoutConfig) -> bool {
    &&& l.show_state && l.show_model && l.show_path && l.show_vcs && l.show_quota
    &&& l.show_quota_bar && l.show_pending_input && l.show_approval_alert
    &&& l.show_context_bar && l.show_cache_stats && l.show_artifacts && l.show_subagents
    &&& l.show_tasks && l.show_sandbox
    &&& !l.show_conversation_id && !l.show_version && !l.show_plan_tier && !l.show_email
    &&& !l.show_settings
}

impl Default for LayoutConfig {
    fn default() -> (l: LayoutConfig)
        ensures
            is_default_layout(l),
    {
        LayoutConfig {
            show_state: default_true(),
            show_model: default_true(),
            show_path: default_true(),
            show_vcs: default_true(),
            show_quota: default_true(),
            show_quota_bar: default_true(),
            show_pending_input: default_true(),
            show_approval_alert: default_true(),
            show_context_bar: default_true(),
            show_cache_stats: default_true(),
            show_artifacts: default_true(),
            show_subagents: default_true(),
            show_tasks: default_true(),
            show_sandbox: default_true(),
            show_conversation_id: default_false(),
            show_version: default_false(),
            show_plan_tier: default_false(),
            show_email: default_false(),
            show_settings: default_false(),
        }
    }
}

/// The labels shown for the agent states.
pub struct StatesConfig {
    pub ready: String,
    pub thinking: String,
    pub working: String,
    pub tool_use: String,
    pub default: String,
}

/// The default "ready" label.
pub fn default_ready() -> (r: String)
    ensures
        r@ == "\x1b[92m\x1b[1m[READY]\x1b[0m"@,
{
    owned("\x1b[92m\x1b[1m[READY]\x1b[0m")
}

/// The default "thinking" label.
pub fn default_thinking() -> (r: String)
    ensures
        r@ == "\x1b[93m\x1b[1m[THINKING]\x1b[0m"@,
{
    owned("\x1b[93m\x1b[1m[THINKING]\x1b[0m")
}

/// The default "working" label.
pub fn default_working() -> (r: String)
    ensures
        r@ == "\x1b[96m\x1b[1m[WORKING]\x1b[0m"@,
{
    owned("\x1b[96m\x1b[1m[WORKING]\x1b[0m")
}

/// The default "tool use" label.
pub fn default_tool_use() -> (r: String)
    ensures
        r@ == "\x1b[95m\x1b[1m[TOOL]\x1b[0m"@,
{
    owned("\x1b[95m\x1b[1m[TOOL]\x1b[0m")
}

/// The default label of any other state.
pub fn default_state() -> (r: String)
    ensures
        r@ == "\x1b[97m\x1b[1m[STATE]\x1b[0m"@,
{
    owned("\x1b[97m\x1b[1m[STATE]\x1b[0m")
}

impl Default for StatesConfig {
    fn default() -> (s: StatesConfig)
        ensures
            s.ready@ == "\x1b[92m\x1b[1m[READY]\x1b[0m"@,
            s.thinking@ == "\x1b[93m\x1b[1m[THINKING]\x1b[0m"@,
            s.working@ == "\x1b[96m\x1b[1m[WORKING]\x1b[0m"@,
            s.tool_use@ == "\x1b[95m\x1b[1m[TOOL]\x1b[0m"@,
            s.default@ == "\x1b[97m\x1b[1m[STATE]\x1b[0m"@,
    {
        StatesConfig {
            ready: default_ready(),
            thinking: default_thinking(),
            working: default_working(),
            tool_use: default_tool_use(),
            default: default_state(),
        }
    }
}

/// The colours of the status line parts.
pub struct ColorsConfig {
    pub vcs: String,
    pub path: String,
    pub model: String,
    pub border: String,
}

/// The default colour of the git part.
pub fn default_color_vcs() -> (r: String)
    ensures
        r@ == "\x1b[94m"@,
{
    owned("\x1b[94m")
}

/// The default colour of the path part.
pub fn default_color_path() -> (r: String)
    ensures
        r@ == "\x1b[94m"@,
{
    owned("\x1b[94m")
}

/// The default colour of the model part.
pub fn default_color_model() -> (r: String)
    ensures
        r@ == "\x1b[90m\x1b[3m"@,
{
    owned("\x1b[90m\x1b[3m")
}

/// The default colour of the frame.
pub fn default_color_border() -> (r: String)
    ensures
        r@ == "\x1b[90m"@,
{
    owned("\x1b[90m")
}

impl Default for ColorsConfig {
    fn default() -> (c: ColorsConfig)
        ensures
            c.vcs@ == "\x1b[94m"@,
            c.path@ == "\x1b[94m"@,
            c.model@ == "\x1b[90m\x1b[3m"@,
            c.border@ == "\x1b[90m"@,
    {
        ColorsConfig {
            vcs: default_color_vcs(),
            path: default_color_path(),
            model: default_color_model(),
            border: default_color_border(),
        }
    }
}

/// The user configuration (`statusline.json`).
pub struct UserConfig {
    pub layout: LayoutConfig,
    pub states: StatesConfig,
    pub colors: ColorsConfig,
    pub theme: String,
    pub saved_accounts: Vec<String>,
}

/// The theme a fresh configuration uses.
pub fn default_theme() -> (r: String)
    ensures
        r@ == "frost"@,
{
    owned("frost")
}

impl Default for UserConfig {
    fn default() -> (c: UserConfig)
        ensures
            is_default_layout(c.layout),
            c.theme@ == "frost"@,
            c.saved_accounts@.len() == 0,
            c.states.ready@ == "\x1b[92m\x1b[1m[READY]\x1b[0m"@,
            c.colors.border@ == "\x1b[90m"@,
    {
        UserConfig {
            layout: LayoutConfig::default(),
            states: StatesConfig::default(),
            colors: ColorsConfig::default(),
            theme: default_theme(),
            saved_accounts: Vec::new(),
        }
    }
}

/// The working directory of an input: the workspace's current directory,
/// else `cwd`, else empty.
pub open spec fn input_cwd(json: InputJson) -> Seq<char> {
    match json.workspace {
        Some(w) => match w.current_dir {
            Some(d) => d@,
            None => match json.cwd {
                Some(c) => c@,
                None => seq![],
            },
        },
        None => match json.cwd {
            Some(c) => c@,
            None => seq![],
        },
    }
}

/// The working directory of an input (see `input_cwd`).
pub fn resolve_cwd(json: &InputJson) -> (r: String)
    ensures
        r@ == input_cwd(*json),
{
    if let Some(w) = &json.workspace {
        if let Some(d) = &w.current_dir {
            return d.clone();
        }
    }
    match &json.cwd {
        Some(c) => c.clone(),
        None => String::new(),
    }
}

/// The input text with white space trimmed and a leading byte-order mark
/// removed, as it is handed to the JSON parser.
pub open spec fn clean_input(input: Seq<char>) -> Seq<char> {
    let t = trim(input);
    if t.len() > 0 && t[0] == '\u{feff}' {
        t.drop_first()
    } else {
        t
    }
}

/// Trims the input and removes a leading byte-order mark.
pub fn clean_input_text(input: &str) -> (r: String)
    ensures
        r@ == clean_input(input@),
{
    let t = trim_str(input);
    let v = crate::text::chars_of(t.as_str());
    if v.len() > 0 && v[0] == '\u{feff}' {
        let mut out = String::new();
        let mut i: usize = 1;
        while i < v.len()
            invariant
                1 <= i <= v@.len(),
                out@ == v@.subrange(1, i as int),
            decreases v.len() - i,
        {
            crate::text::push_char(&mut out, v[i]);
            i = i + 1;
            assert(out@ =~= v@.subrange(1, i as int));
        }
        out
    } else {
        t
    }
}

} // verus!
