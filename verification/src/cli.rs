//! The decisions of the command line: which mode the arguments select, when
//! the status line asks for a background refresh, and how it starts one.

use vstd::prelude::*;
use crate::refresh::{saturating_sub, QUOTA_REFRESH_INTERVAL_SECS};
use crate::text::{chars_eq, chars_of, owned, str_eq};
use crate::types::CacheData;

verus! {

/// The most seconds that cached git state may age before a refresh.
pub const VCS_REFRESH_INTERVAL_SECS: u64 = 10;

/// What the command line asks for.
pub enum CliCommand {
    /// `--config`: the interactive configuration panel.
    Config,
    /// `--theme <name>`: store a theme.
    SetTheme(String),
    /// `--title`: print the window title.
    Title,
    /// `--refresh [--cwd <dir>]`: refresh the cache in the background.
    Refresh(Option<String>),
    /// No flag: the status line, or the configuration panel when standard
    /// input is a terminal.
    StatusLine,
}

/// The first index at or after `i` of an argument equal to `a`.
pub open spec fn arg_index_from(args: Seq<String>, a: Seq<char>, i: int) -> Option<int>
    decreases args.len() - i,
{
    if i < 0 || i >= args.len() {
        None
    } else if args[i]@ == a {
        Some(i)
    } else {
        arg_index_from(args, a, i + 1)
    }
}

/// The first index of an argument equal to `a`.
pub open spec fn arg_index(args: Seq<String>, a: Seq<char>) -> Option<int> {
    arg_index_from(args, a, 0)
}

/// The argument after the first `a`, if there is one.
pub open spec fn arg_value(args: Seq<String>, a: Seq<char>) -> Option<String> {
    match arg_index(args, a) {
        Some(i) => if i < args.len() - 1 {
            Some(args[i + 1])
        } else {
            None
        },
        None => None,
    }
}

/// The command that the arguments select, flags taken in the order
/// `--config`, `--theme` with a value, `--title`, `--refresh`.
pub open spec fn command_for(args: Seq<String>) -> CliCommand {
    if arg_index(args, "--config"@) is Some {
        CliCommand::Config
    } else if arg_value(args, "--theme"@) is Some {
        CliCommand::SetTheme(arg_value(args, "--theme"@)->0)
    } else if arg_index(args, "--title"@) is Some {
        CliCommand::Title
    } else if arg_index(args, "--refresh"@) is Some {
        CliCommand::Refresh(arg_value(args, "--cwd"@))
    } else {
        CliCommand::StatusLine
    }
}

proof fn lemma_arg_index_bounds(args: Seq<String>, a: Seq<char>, i: int)
    requires
        0 <= i,
    ensures
        arg_index_from(args, a, i) matches Some(k) ==> i <= k < args.len(),
    decreases args.len() - i,
{
    if i < args.len() && args[i]@ != a {
        lemma_arg_index_bounds(args, a, i + 1);
    }
}

fn find_arg(args: &Vec<String>, a: &str) -> (r: Option<usize>)
    ensures
        r matches Some(k) ==> arg_index(args@, a@) == Some(k as int) && k < args@.len(),
        r is None ==> arg_index(args@, a@) is None,
{
    proof {
        lemma_arg_index_bounds(args@, a@, 0);
    }
    let mut i: usize = 0;
    while i < args.len()
        invariant
            i <= args@.len(),
            arg_index(args@, a@) == arg_index_from(args@, a@, i as int),
        decreases args.len() - i,
    {
        if str_eq(args[i].as_str(), a) {
            return Some(i);
        }
        i = i + 1;
    }
    None
}

fn find_arg_value(args: &Vec<String>, a: &str) -> (r: Option<String>)
    ensures
        r == arg_value(args@, a@),
{
    match find_arg(args, a) {
        Some(i) => if i < args.len() - 1 {
            Some(args[i + 1].clone())
        } else {
            None
        },
        None => None,
    }
}

/// The command that the arguments (the program name first) select.
pub fn parse_command(args: &Vec<String>) -> (c: CliCommand)
    ensures
        c == command_for(args@),
{
    if find_arg(args, "--config").is_some() {
        return CliCommand::Config;
    }
    if let Some(name) = find_arg_value(args, "--theme") {
        return CliCommand::SetTheme(name);
    }
    if find_arg(args, "--title").is_some() {
        return CliCommand::Title;
    }
    if find_arg(args, "--refresh").is_some() {
        return CliCommand::Refresh(find_arg_value(args, "--cwd"));
    }
    CliCommand::StatusLine
}

/// Whether the status line should start a background refresh: the cache
/// file is missing, the directory changed, the quota is older than its
/// interval, git's `HEAD` or `index` changed, or the git state is older
/// than its interval.
pub open spec fn refresh_needed(
    cache_file_exists: bool,
    cwd: Seq<char>,
    cache: CacheData,
    now: u64,
    head_mtime: Option<u64>,
    index_mtime: Option<u64>,
) -> bool {
    if !cache_file_exists {
        true
    } else {
        let cached_cwd = match cache.vcs {
            Some(v) => v.cwd@,
            None => seq![],
        };
        let checked = match cache.vcs {
            Some(v) => v.last_checked,
            None => 0,
        };
        if cwd.len() > 0 && cwd != cached_cwd {
            true
        } else {
            let mtime_changed = match cache.vcs {
                Some(v) => v.head_mtime != head_mtime || v.index_mtime != index_mtime,
                None => true,
            };
            saturating_sub(now, cache.last_refreshed) > QUOTA_REFRESH_INTERVAL_SECS
                || mtime_changed || saturating_sub(now, checked) > VCS_REFRESH_INTERVAL_SECS
        }
    }
}

/// Decides whether to start a background refresh (see `refresh_needed`).
pub fn needs_refresh(
    cache_file_exists: bool,
    cwd: &str,
    cache: &CacheData,
    now: u64,
    head_mtime: Option<u64>,
    index_mtime: Option<u64>,
) -> (r: bool)
    ensures
        r == refresh_needed(cache_file_exists, cwd@, *cache, now, head_mtime, index_mtime),
{
    if !cache_file_exists {
        return true;
    }
    let cached_cwd: Vec<char> = match &cache.vcs {
        Some(v) => chars_of(v.cwd.as_str()),
        None => Vec::new(),
    };
    let checked: u64 = match &cache.vcs {
        Some(v) => v.last_checked,
        None => 0,
    };
    let cv = chars_of(cwd);
    if cv.len() > 0 && !chars_eq(&cv, &cached_cwd) {
        return true;
    }
    let mtime_changed = match &cache.vcs {
        Some(v) => v.head_mtime != head_mtime || v.index_mtime != index_mtime,
        None => true,
    };
    let quota_age = if now >= cache.last_refreshed {
        now - cache.last_refreshed
    } else {
        0
    };
    let vcs_age = if now >= checked {
        now - checked
    } else {
        0
    };
    quota_age > QUOTA_REFRESH_INTERVAL_SECS || mtime_changed || vcs_age > VCS_REFRESH_INTERVAL_SECS
}

/// The arguments of the background refresh: `--refresh`, and `--cwd <dir>`
/// for a known directory.
pub fn refresh_args(cwd: &str) -> (r: Vec<String>)
    ensures
        r@.len() == if cwd@.len() > 0 {
            3nat
        } else {
            1nat
        },
        r@[0]@ == "--refresh"@,
        cwd@.len() > 0 ==> r@[1]@ == "--cwd"@ && r@[2]@ == cwd@,
{
    let mut v: Vec<String> = Vec::new();
    v.push(owned("--refresh"));
    if chars_of(cwd).len() > 0 {
        v.push(owned("--cwd"));
        v.push(owned(cwd));
    }
    v
}

// ---------------------------------------------------------------------------
// Laws
// ---------------------------------------------------------------------------

/// The status line does not start a refresh while the cache file exists,
/// the directory is unchanged, the quota is at most two minutes old, git's
/// `HEAD` and `index` are unchanged, and the git state is at most ten
/// seconds old.
pub proof fn law_fresh_cache_needs_no_refresh(
    cwd: Seq<char>,
    cache: CacheData,
    now: u64,
    head_mtime: Option<u64>,
    index_mtime: Option<u64>,
)
    requires
        cache.vcs is Some,
        cwd.len() == 0 || cwd == cache.vcs->0.cwd@,
        saturating_sub(now, cache.last_refreshed) <= 120,
        cache.vcs->0.head_mtime == head_mtime,
        cache.vcs->0.index_mtime == index_mtime,
        saturating_sub(now, cache.vcs->0.last_checked) <= 10,
    ensures
        !refresh_needed(true, cwd, cache, now, head_mtime, index_mtime),
{
}

/// A missing cache file always starts a refresh.
pub proof fn law_missing_cache_refreshes(
    cwd: Seq<char>,
    cache: CacheData,
    now: u64,
    head_mtime: Option<u64>,
    index_mtime: Option<u64>,
)
    ensures
        refresh_needed(false, cwd, cache, now, head_mtime, index_mtime),
{
}

/// With the cache file present and the directory unchanged, a change of
/// git's `HEAD` or `index` modification time starts a refresh.
pub proof fn law_changed_git_files_refresh(
    cwd: Seq<char>,
    cache: CacheData,
    now: u64,
    head_mtime: Option<u64>,
    index_mtime: Option<u64>,
)
    requires
        cache.vcs is Some,
        cwd.len() == 0 || cwd == cache.vcs->0.cwd@,
        cache.vcs->0.head_mtime != head_mtime || cache.vcs->0.index_mtime != index_mtime,
    ensures
        refresh_needed(true, cwd, cache, now, head_mtime, index_mtime),
{
}

/// Git state checked more than ten seconds ago starts a refresh.
pub proof fn law_stale_git_state_refreshes(
    cwd: Seq<char>,
    cache: CacheData,
    now: u64,
    head_mtime: Option<u64>,
    index_mtime: Option<u64>,
)
    requires
        cache.vcs is Some,
        saturating_sub(now, cache.vcs->0.last_checked) > VCS_REFRESH_INTERVAL_SECS,
    ensures
        refresh_needed(true, cwd, cache, now, head_mtime, index_mtime),
{
}

} // verus!
