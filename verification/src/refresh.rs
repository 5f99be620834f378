//! The decisions of the background refresh: when to ask for the quota, what
//! an answer does to the cache, and how git's output becomes the cached
//! repository state.

use vstd::prelude::*;
use crate::text::{
    chars_eq, chars_of, contains, ends_with_chars, find, find_chars, is_sep, last_segment,
    last_segment_chars, lines, lines_chars, owned, parse_u32, parse_u32_spec, pieces, push_chars,
    push_str, replace_char, replace_char_chars, starts_with_chars, string_of, tokens, tokens_chars,
    trim, trim_chars, Sep, lines_acc, strip_cr, tokens_acc,
};
use crate::types::{CacheData, QuotaItem, VcsInfo};

verus! {

/// The least number of seconds between two quota requests.
pub const QUOTA_REFRESH_INTERVAL_SECS: u64 = 120;

// ---------------------------------------------------------------------------
// Quota requests
// ---------------------------------------------------------------------------

/// `a - b`, or 0 when `b` is larger.
pub open spec fn saturating_sub(a: u64, b: u64) -> u64 {
    if a >= b {
        (a - b) as u64
    } else {
        0
    }
}

/// The characters of an optional string.
pub open spec fn opt_view(s: Option<String>) -> Option<Seq<char>> {
    match s {
        Some(t) => Some(t@),
        None => None,
    }
}

/// Whether the quota should be requested again: the list is empty, older
/// than the interval, older than the credential files, or the token changed;
/// and a token is there to ask with.
pub open spec fn quota_fetch_needed(
    cache: CacheData,
    token_hash: Option<String>,
    now: u64,
    last_config_update: u64,
    cache_modified: u64,
) -> bool {
    let token_changed = opt_view(token_hash) != opt_view(cache.token_hash);
    (cache.quota@.len() == 0 || saturating_sub(now, cache.last_refreshed)
        > QUOTA_REFRESH_INTERVAL_SECS || last_config_update > cache_modified || token_changed)
        && token_hash is Some
}

/// The cache once the token has been looked at: a changed token forgets
/// whether a login is needed; without a token the cache records that a login
/// is needed, forgets the token and the quota, and counts as refreshed now.
pub open spec fn after_token_check(cache: CacheData, token_hash: Option<String>, now: u64) -> (
    Option<String>,
    Option<bool>,
    u64,
    bool,
) {
    if token_hash is None {
        (None, Some(true), now, true)
    } else if opt_view(token_hash) != opt_view(cache.token_hash) {
        (cache.token_hash, None, cache.last_refreshed, false)
    } else {
        (cache.token_hash, cache.needs_login, cache.last_refreshed, false)
    }
}

/// Looks at the token (given by its hash) and the ages of the cache, updates
/// the cache as `after_token_check` says, and tells whether to request the
/// quota.
pub fn plan_quota_refresh(
    cache: &mut CacheData,
    token_hash: &Option<String>,
    now: u64,
    last_config_update: u64,
    cache_modified: u64,
) -> (fetch: bool)
    ensures
        fetch == quota_fetch_needed(*old(cache), *token_hash, now, last_config_update, cache_modified),
        ({
            let (h, l, t, cleared) = after_token_check(*old(cache), *token_hash, now);
            &&& final(cache).token_hash == h
            &&& final(cache).needs_login == l
            &&& final(cache).last_refreshed == t
            &&& cleared ==> final(cache).quota@.len() == 0
            &&& !cleared ==> final(cache).quota@ == old(cache).quota@
        }),
        final(cache).vcs == old(cache).vcs,
{
    let token_changed = !opt_string_eq(token_hash, &cache.token_hash);
    if token_changed {
        cache.needs_login = None;
    }
    let quota_age = if now >= cache.last_refreshed {
        now - cache.last_refreshed
    } else {
        0
    };
    let fetch = (cache.quota.len() == 0 || quota_age > QUOTA_REFRESH_INTERVAL_SECS
        || last_config_update > cache_modified || token_changed) && token_hash.is_some();
    if token_hash.is_none() {
        cache.token_hash = None;
        cache.needs_login = Some(true);
        cache.last_refreshed = now;
        cache.quota.clear();
    }
    fetch
}

fn opt_string_eq(a: &Option<String>, b: &Option<String>) -> (r: bool)
    ensures
        r == (opt_view(*a) == opt_view(*b)),
{
    match (a, b) {
        (Some(x), Some(y)) => chars_eq(&chars_of(x.as_str()), &chars_of(y.as_str())),
        (None, None) => true,
        _ => false,
    }
}

/// What a quota request came back with.
pub enum QuotaFetch {
    /// The list of models with their quota.
    Models(Vec<QuotaItem>),
    /// The server refused the token (401 or 403).
    AuthRejected,
    /// Anything else: no answer, another status, or a body without models.
    Failed,
}

/// What an answer to the quota request means: status 200 with a list of
/// models gives the models, 401 or 403 a refused token, anything else
/// (no answer, another status, a 200 without models) a failure.
pub open spec fn quota_answer(status: Option<u16>, models: Option<Seq<QuotaItem>>) -> Option<
    Option<Seq<QuotaItem>>,
> {
    match status {
        Some(code) => if code == 200 {
            match models {
                Some(list) => Some(Some(list)),
                None => None,
            }
        } else if code == 401 || code == 403 {
            Some(None)
        } else {
            None
        },
        None => None,
    }
}

/// Classifies the answer to a quota request (see `quota_answer`): `status`
/// is `None` when no answer came, `models` the list read from a body with a
/// `models` object, `None` when the body had none.
pub fn classify_quota_answer(status: Option<u16>, models: Option<Vec<QuotaItem>>) -> (r: QuotaFetch)
    ensures
        match quota_answer(status, match models {
            Some(v) => Some(v@),
            None => None,
        }) {
            Some(Some(list)) => r matches QuotaFetch::Models(v) && v@ == list,
            Some(None) => r is AuthRejected,
            None => r is Failed,
        },
{
    match status {
        Some(code) => if code == 200 {
            match models {
                Some(list) => QuotaFetch::Models(list),
                None => QuotaFetch::Failed,
            }
        } else if code == 401 || code == 403 {
            QuotaFetch::AuthRejected
        } else {
            QuotaFetch::Failed
        },
        None => QuotaFetch::Failed,
    }
}

/// Records the answer to a quota request in the cache.
pub fn apply_quota_fetch(
    cache: &mut CacheData,
    outcome: QuotaFetch,
    token_hash: &Option<String>,
    now: u64,
)
    ensures
        final(cache).last_refreshed == now,
        final(cache).vcs == old(cache).vcs,
        match outcome {
            QuotaFetch::Models(list) => {
                &&& final(cache).needs_login == Some(false)
                &&& final(cache).token_hash == *token_hash
                &&& final(cache).quota@ == list@
            },
            QuotaFetch::AuthRejected => {
                &&& final(cache).needs_login == Some(true)
                &&& final(cache).token_hash == *token_hash
                &&& final(cache).quota@.len() == 0
            },
            QuotaFetch::Failed => {
                &&& final(cache).needs_login == old(cache).needs_login
                &&& final(cache).token_hash == old(cache).token_hash
                &&& final(cache).quota@ == old(cache).quota@
            },
        },
{
    match outcome {
        QuotaFetch::Models(list) => {
            cache.needs_login = Some(false);
            cache.token_hash = token_hash.clone();
            cache.quota = list;
        },
        QuotaFetch::AuthRejected => {
            cache.needs_login = Some(true);
            cache.token_hash = token_hash.clone();
            cache.quota.clear();
        },
        QuotaFetch::Failed => {},
    }
    cache.last_refreshed = now;
}

/// The quota entry of one model: its display name, or its key when it has
/// none.
pub fn quota_item_for_model(
    key: String,
    display_name: Option<String>,
    remaining_fraction_bits: u64,
    remaining_percent: i64,
    bar_cells: usize,
    reset_time: Option<String>,
) -> (q: QuotaItem)
    ensures
        q.id == key,
        q.display_name == match display_name {
            Some(d) => d,
            None => key,
        },
        q.remaining_fraction_bits == remaining_fraction_bits,
        q.remaining_percent == remaining_percent,
        q.bar_cells == bar_cells,
        q.reset_time == reset_time,
{
    let display = match display_name {
        Some(d) => d,
        None => key.clone(),
    };
    QuotaItem {
        id: key,
        display_name: display,
        remaining_fraction_bits,
        remaining_percent,
        bar_cells,
        reset_time,
    }
}

// ---------------------------------------------------------------------------
// git status
// ---------------------------------------------------------------------------

/// Whether the cached repository state can be kept: same directory, and the
/// modification times of `HEAD` and `index` are known and unchanged.
pub open spec fn vcs_still_fresh(
    cache: CacheData,
    cwd: Seq<char>,
    head_mtime: Option<u64>,
    index_mtime: Option<u64>,
) -> bool {
    match cache.vcs {
        Some(v) => v.cwd@ == cwd && v.head_mtime == head_mtime && v.index_mtime == index_mtime
            && head_mtime is Some && index_mtime is Some,
        None => false,
    }
}

/// When the cached repository state is still fresh, marks it as checked now
/// and returns true; otherwise leaves the cache alone and returns false.
pub fn reuse_cached_vcs(
    cache: &mut CacheData,
    cwd: &str,
    now: u64,
    head_mtime: Option<u64>,
    index_mtime: Option<u64>,
) -> (reused: bool)
    ensures
        reused == vcs_still_fresh(*old(cache), cwd@, head_mtime, index_mtime),
        reused ==> (final(cache).vcs matches Some(v) && old(cache).vcs matches Some(o) && v
            == (VcsInfo { last_checked: now, ..o })),
        !reused ==> final(cache).vcs == old(cache).vcs,
        final(cache).quota == old(cache).quota,
        final(cache).last_refreshed == old(cache).last_refreshed,
        final(cache).token_hash == old(cache).token_hash,
        final(cache).needs_login == old(cache).needs_login,
{
    let fresh = match &cache.vcs {
        Some(v) => {
            chars_eq(&chars_of(v.cwd.as_str()), &chars_of(cwd)) && opt_u64_eq(
                v.head_mtime,
                head_mtime,
            ) && opt_u64_eq(v.index_mtime, index_mtime) && head_mtime.is_some()
                && index_mtime.is_some()
        },
        None => false,
    };
    if fresh {
        match &mut cache.vcs {
            Some(v) => {
                v.last_checked = now;
            },
            None => {},
        }
    }
    fresh
}

fn opt_u64_eq(a: Option<u64>, b: Option<u64>) -> (r: bool)
    ensures
        r == (a == b),
{
    match (a, b) {
        (Some(x), Some(y)) => x == y,
        (None, None) => true,
        _ => false,
    }
}

/// Whether a line of `git status --porcelain` names a change (it is not
/// blank).
pub open spec fn is_change_line(line: Seq<char>) -> bool {
    trim(line).len() > 0
}

/// The number of lines in `ls` that name a change.
pub open spec fn count_changes(ls: Seq<Seq<char>>) -> nat
    decreases ls.len(),
{
    if ls.len() == 0 {
        0
    } else {
        count_changes(ls.drop_last()) + if is_change_line(ls.last()) {
            1nat
        } else {
            0nat
        }
    }
}

/// The number of changed files that `git status --porcelain` lists, as the
/// `u32` that `usize as u32` gives.
pub open spec fn status_count(out: Seq<char>) -> u32 {
    (count_changes(lines(out)) % 0x1_0000_0000) as u32
}

/// Counts the changed files in the output of `git status --porcelain`.
pub fn count_status_lines(out: &str) -> (n: u32)
    ensures
        n == status_count(out@),
{
    let v = chars_of(out);
    let ls = lines_chars(&v);
    let ghost lv = pieces(&ls);
    let mut count: usize = 0;
    let mut i: usize = 0;
    while i < ls.len()
        invariant
            i <= ls@.len(),
            lv == pieces(&ls),
            lv.len() == ls@.len(),
            count as nat == count_changes(lv.take(i as int)),
            count <= i,
        decreases ls.len() - i,
    {
        assert(lv.take(i + 1).drop_last() == lv.take(i as int));
        assert(lv[i as int] == ls@[i as int]@);
        let t = trim_chars(&ls[i]);
        if t.len() > 0 {
            count = count + 1;
        }
        i = i + 1;
    }
    assert(lv.take(ls@.len() as int) == lines(out@));
    ((count as u64) % 0x1_0000_0000u64) as u32
}

/// The ahead and behind counts in the output of
/// `git rev-list --left-right --count HEAD...@{u}`: two numbers, each kept
/// when it parses.
pub open spec fn ahead_behind(out: Seq<char>) -> (u32, u32) {
    let parts = tokens(out, Sep::Whitespace);
    if parts.len() == 2 {
        (
            match parse_u32_spec(parts[0]) {
                Some(a) => a,
                None => 0,
            },
            match parse_u32_spec(parts[1]) {
                Some(b) => b,
                None => 0,
            },
        )
    } else {
        (0, 0)
    }
}

/// Reads the ahead and behind counts (see `ahead_behind`).
pub fn parse_ahead_behind(out: &str) -> (r: (u32, u32))
    ensures
        r == ahead_behind(out@),
{
    let v = chars_of(out);
    let parts = tokens_chars(&v, Sep::Whitespace);
    assert(pieces(&parts).len() == parts@.len());
    if parts.len() == 2 {
        let a = match parse_u32(&parts[0]) {
            Some(a) => a,
            None => 0,
        };
        let b = match parse_u32(&parts[1]) {
            Some(b) => b,
            None => 0,
        };
        (a, b)
    } else {
        (0, 0)
    }
}

/// The insertions and deletions of one `git diff --numstat` line (0 for a
/// column that does not parse, as for binary files).
pub open spec fn numstat_line(line: Seq<char>) -> (nat, nat) {
    let parts = tokens(line, Sep::Whitespace);
    if parts.len() >= 2 {
        (
            match parse_u32_spec(parts[0]) {
                Some(a) => a as nat,
                None => 0,
            },
            match parse_u32_spec(parts[1]) {
                Some(b) => b as nat,
                None => 0,
            },
        )
    } else {
        (0, 0)
    }
}

/// The summed insertions and deletions of the lines `ls`.
pub open spec fn numstat_sum(ls: Seq<Seq<char>>) -> (nat, nat)
    decreases ls.len(),
{
    if ls.len() == 0 {
        (0, 0)
    } else {
        let (a, b) = numstat_sum(ls.drop_last());
        let (x, y) = numstat_line(ls.last());
        (a + x, b + y)
    }
}

/// The total insertions and deletions in the output of `git diff --numstat`.
pub open spec fn numstat_totals(out: Seq<char>) -> (nat, nat) {
    numstat_sum(lines(out))
}

proof fn lemma_numstat_sum_grows(ls: Seq<Seq<char>>, i: int, j: int)
    requires
        0 <= i <= j <= ls.len(),
    ensures
        numstat_sum(ls.take(i)).0 <= numstat_sum(ls.take(j)).0,
        numstat_sum(ls.take(i)).1 <= numstat_sum(ls.take(j)).1,
    decreases j - i,
{
    if i < j {
        lemma_numstat_sum_grows(ls, i, j - 1);
        assert(ls.take(j).drop_last() == ls.take(j - 1));
    }
}

/// Sums the insertions and deletions of `git diff --numstat` output; the
/// sums must fit in a `u32`, as the `+=` that adds them up checks.
pub fn parse_numstat(output: &str) -> (r: (u32, u32))
    requires
        numstat_totals(output@).0 <= u32::MAX,
        numstat_totals(output@).1 <= u32::MAX,
    ensures
        r.0 as nat == numstat_totals(output@).0,
        r.1 as nat == numstat_totals(output@).1,
{
    let v = chars_of(output);
    let ls = lines_chars(&v);
    let ghost lv = pieces(&ls);
    assert(lv.take(ls@.len() as int) == lv);
    let mut insertions: u32 = 0;
    let mut deletions: u32 = 0;
    let mut i: usize = 0;
    while i < ls.len()
        invariant
            i <= ls@.len(),
            lv == pieces(&ls),
            lv == lines(output@),
            lv.len() == ls@.len(),
            numstat_sum(lv).0 <= u32::MAX,
            numstat_sum(lv).1 <= u32::MAX,
            insertions as nat == numstat_sum(lv.take(i as int)).0,
            deletions as nat == numstat_sum(lv.take(i as int)).1,
        decreases ls.len() - i,
    {
        assert(lv.take(i + 1).drop_last() == lv.take(i as int));
        assert(lv[i as int] == ls@[i as int]@);
        proof {
            lemma_numstat_sum_grows(lv, i + 1, lv.len() as int);
            assert(lv.take(lv.len() as int) == lv);
        }
        let parts = tokens_chars(&ls[i], Sep::Whitespace);
        let ghost pv = pieces(&parts);
        assert(pv.len() == parts@.len());
        let ghost step = numstat_line(lv[i as int]);
        assert(numstat_sum(lv.take(i + 1)) == (numstat_sum(lv.take(i as int)).0 + step.0,
            numstat_sum(lv.take(i as int)).1 + step.1));
        if parts.len() >= 2 {
            assert(pv[0] == parts@[0]@);
            assert(pv[1] == parts@[1]@);
            if let Some(a) = parse_u32(&parts[0]) {
                insertions = insertions + a;
            }
            if let Some(b) = parse_u32(&parts[1]) {
                deletions = deletions + b;
            }
        }
        i = i + 1;
    }
    (insertions, deletions)
}

/// The sums of `parse_numstat`, or `None` when one of them does not fit in a
/// `u32` (where the `+=` of the sum would overflow).
pub fn parse_numstat_checked(output: &str) -> (r: Option<(u32, u32)>)
    ensures
        r is None <==> (numstat_totals(output@).0 > u32::MAX || numstat_totals(output@).1
            > u32::MAX),
        r matches Some(t) ==> t.0 as nat == numstat_totals(output@).0 && t.1 as nat
            == numstat_totals(output@).1,
{
    let v = chars_of(output);
    let ls = lines_chars(&v);
    let ghost lv = pieces(&ls);
    assert(lv.take(ls@.len() as int) == lv);
    let mut insertions: u32 = 0;
    let mut deletions: u32 = 0;
    let mut i: usize = 0;
    while i < ls.len()
        invariant
            i <= ls@.len(),
            lv == pieces(&ls),
            lv == lines(output@),
            lv.len() == ls@.len(),
            insertions as nat == numstat_sum(lv.take(i as int)).0,
            deletions as nat == numstat_sum(lv.take(i as int)).1,
        decreases ls.len() - i,
    {
        assert(lv.take(i + 1).drop_last() == lv.take(i as int));
        assert(lv[i as int] == ls@[i as int]@);
        proof {
            lemma_numstat_sum_grows(lv, i + 1, lv.len() as int);
            assert(lv.take(lv.len() as int) == lv);
        }
        let parts = tokens_chars(&ls[i], Sep::Whitespace);
        let ghost pv = pieces(&parts);
        assert(pv.len() == parts@.len());
        let ghost step = numstat_line(lv[i as int]);
        assert(numstat_sum(lv.take(i + 1)) == (numstat_sum(lv.take(i as int)).0 + step.0,
            numstat_sum(lv.take(i as int)).1 + step.1));
        if parts.len() >= 2 {
            assert(pv[0] == parts@[0]@);
            assert(pv[1] == parts@[1]@);
            if let Some(a) = parse_u32(&parts[0]) {
                match insertions.checked_add(a) {
                    Some(x) => {
                        insertions = x;
                    },
                    None => {
                        return None;
                    },
                }
            }
            if let Some(b) = parse_u32(&parts[1]) {
                match deletions.checked_add(b) {
                    Some(x) => {
                        deletions = x;
                    },
                    None => {
                        return None;
                    },
                }
            }
        }
        i = i + 1;
    }
    Some((insertions, deletions))
}

/// Drops a `.git` ending.
pub open spec fn without_git_suffix(s: Seq<char>) -> Seq<char> {
    if ".git"@.is_suffix_of(s) {
        s.take(s.len() - ".git"@.len())
    } else {
        s
    }
}

/// The web address of a git remote: an `http(s)://` address without its
/// `.git`, or an scp-like `user@host:path` turned into `https://host/path`;
/// `None` for anything else or an empty address.
pub open spec fn remote_web_url(url: Seq<char>) -> Option<Seq<char>> {
    let u = trim(url);
    if u.len() == 0 {
        None
    } else if "https://"@.is_prefix_of(u) || "http://"@.is_prefix_of(u) {
        Some(without_git_suffix(u))
    } else if contains(u, seq!['@']) && contains(u, seq![':']) {
        let colon = find(u, seq![':'])->0;
        let host = last_segment(u.take(colon), '@');
        let path = without_git_suffix(u.skip(colon + 1));
        Some("https://"@ + host + seq!['/'] + replace_char(path, '\\', '/'))
    } else {
        None
    }
}

fn drop_git_suffix(v: &Vec<char>) -> (r: Vec<char>)
    ensures
        r@ == without_git_suffix(v@),
{
    let suffix = chars_of(".git");
    let mut n = v.len();
    if ends_with_chars(v, &suffix) {
        n = v.len() - suffix.len();
    }
    let mut r: Vec<char> = Vec::new();
    let mut i: usize = 0;
    while i < n
        invariant
            n <= v@.len(),
            i <= n,
            r@ == v@.take(i as int),
        decreases n - i,
    {
        r.push(v[i]);
        i = i + 1;
        assert(r@ =~= v@.take(i as int));
    }
    assert(v@.take(v@.len() as int) == v@);
    r
}

/// Turns a git remote address into a web address (see `remote_web_url`).
pub fn parse_git_remote_url(url: &str) -> (r: Option<String>)
    ensures
        r matches Some(s) ==> remote_web_url(url@) == Some(s@),
        r is None ==> remote_web_url(url@) is None,
{
    let u = trim_chars(&chars_of(url));
    if u.len() == 0 {
        return None;
    }
    if starts_with_chars(&u, &chars_of("https://")) || starts_with_chars(&u, &chars_of("http://")) {
        return Some(string_of(&drop_git_suffix(&u)));
    }
    let at: Vec<char> = vec!['@'];
    let colon: Vec<char> = vec![':'];
    assert(at@ == seq!['@']);
    assert(colon@ == seq![':']);
    if find_chars(&u, &at).is_some() && find_chars(&u, &colon).is_some() {
        let idx = find_chars(&u, &colon).unwrap();
        let mut head: Vec<char> = Vec::new();
        let mut i: usize = 0;
        while i < idx
            invariant
                idx < u@.len(),
                i <= idx,
                head@ == u@.take(i as int),
            decreases idx - i,
        {
            head.push(u[i]);
            i = i + 1;
            assert(head@ =~= u@.take(i as int));
        }
        let mut tail: Vec<char> = Vec::new();
        let mut k: usize = idx + 1;
        while k < u.len()
            invariant
                idx + 1 <= k <= u@.len(),
                tail@ == u@.subrange(idx + 1, k as int),
            decreases u.len() - k,
        {
            tail.push(u[k]);
            k = k + 1;
            assert(tail@ =~= u@.subrange(idx + 1, k as int));
        }
        assert(tail@ == u@.skip(idx + 1));
        let host = last_segment_chars(&head, '@');
        let path = replace_char_chars(&drop_git_suffix(&tail), '\\', '/');
        let mut out = owned("https://");
        push_chars(&mut out, &host);
        push_str(&mut out, "/");
        push_chars(&mut out, &path);
        proof {
            reveal_strlit("/");
        }
        assert(out@ =~= "https://"@ + last_segment(u@.take(idx as int), '@') + seq!['/']
            + replace_char(without_git_suffix(u@.skip(idx + 1)), '\\', '/'));
        return Some(out);
    }
    None
}

/// The git outputs that the refresh collects; each is `None` when the
/// command failed.
pub struct GitOutputs {
    pub status: Option<String>,
    pub rev_list: Option<String>,
    pub remote_url: Option<String>,
    pub diff: Option<String>,
    pub cached_diff: Option<String>,
}

/// The insertions (`.0`) and deletions (`.1`) of an optional diff output.
pub open spec fn diff_totals(out: Option<String>) -> (nat, nat) {
    match out {
        Some(s) => numstat_totals(s@),
        None => (0, 0),
    }
}

/// Whether the summed insertions and deletions of both diffs fit in `u32`,
/// as the additions that sum them check.
pub open spec fn diff_sums_fit(o: GitOutputs) -> bool {
    diff_totals(o.diff).0 + diff_totals(o.cached_diff).0 <= u32::MAX && diff_totals(o.diff).1
        + diff_totals(o.cached_diff).1 <= u32::MAX
}

/// The repository state recorded for a directory: without a branch, an
/// empty branch and zero counts; with one, the counts read from the outputs.
pub open spec fn vcs_from_outputs(
    cwd: Seq<char>,
    now: u64,
    head_mtime: Option<u64>,
    index_mtime: Option<u64>,
    branch: Option<String>,
    o: GitOutputs,
    v: VcsInfo,
) -> bool {
    &&& v.cwd@ == cwd
    &&& v.last_checked == now
    &&& v.head_mtime == head_mtime
    &&& v.index_mtime == index_mtime
    &&& match branch {
        None => {
            &&& v.branch@.len() == 0
            &&& !v.dirty && v.modified == 0 && v.ahead == 0 && v.behind == 0
            &&& v.remote_web_url is None
            &&& v.insertions == 0 && v.deletions == 0
        },
        Some(b) => {
            &&& v.branch == b
            &&& v.modified == match o.status {
                Some(s) => status_count(s@),
                None => 0,
            }
            &&& v.dirty == (v.modified > 0)
            &&& (v.ahead, v.behind) == match o.rev_list {
                Some(s) => ahead_behind(s@),
                None => (0u32, 0u32),
            }
            &&& match o.remote_url {
                Some(s) => match remote_web_url(s@) {
                    Some(w) => v.remote_web_url matches Some(x) && x@ == w,
                    None => v.remote_web_url is None,
                },
                None => v.remote_web_url is None,
            }
            &&& v.insertions == diff_totals(o.diff).0 + diff_totals(o.cached_diff).0
            &&& v.deletions == diff_totals(o.diff).1 + diff_totals(o.cached_diff).1
        },
    }
}

/// Builds the repository state of a directory from its branch and the
/// outputs of the git commands (see `vcs_from_outputs`).
pub fn build_vcs_info(
    cwd: &str,
    now: u64,
    head_mtime: Option<u64>,
    index_mtime: Option<u64>,
    branch: Option<String>,
    outputs: &GitOutputs,
) -> (v: VcsInfo)
    requires
        branch is Some ==> diff_sums_fit(*outputs),
    ensures
        vcs_from_outputs(cwd@, now, head_mtime, index_mtime, branch, *outputs, v),
{
    let mut git_branch = String::new();
    let mut git_dirty = false;
    let mut git_ahead: u32 = 0;
    let mut git_behind: u32 = 0;
    let mut git_modified: u32 = 0;
    let mut remote_web_url: Option<String> = None;
    let mut insertions: u32 = 0;
    let mut deletions: u32 = 0;
    let ghost has_branch = branch is Some;
    if let Some(b) = branch {
        git_branch = b;
        if let Some(s) = &outputs.status {
            let count = count_status_lines(s.as_str());
            git_dirty = count > 0;
            git_modified = count;
        }
        if let Some(s) = &outputs.rev_list {
            let (a, b) = parse_ahead_behind(s.as_str());
            git_ahead = a;
            git_behind = b;
        }
        if let Some(s) = &outputs.remote_url {
            remote_web_url = parse_git_remote_url(s.as_str());
        }
        if let Some(s) = &outputs.diff {
            let (ins, del) = parse_numstat(s.as_str());
            insertions = insertions + ins;
            deletions = deletions + del;
        }
        if let Some(s) = &outputs.cached_diff {
            let (ins, del) = parse_numstat(s.as_str());
            insertions = insertions + ins;
            deletions = deletions + del;
        }
    }
    VcsInfo {
        cwd: owned(cwd),
        branch: git_branch,
        dirty: git_dirty,
        ahead: git_ahead,
        behind: git_behind,
        modified: git_modified,
        last_checked: now,
        head_mtime,
        index_mtime,
        remote_web_url,
        insertions,
        deletions,
    }
}

/// `build_vcs_info`, or `None` where the summed insertions or deletions of
/// the two diffs do not fit in a `u32` (where the additions would overflow).
pub fn build_vcs_info_checked(
    cwd: &str,
    now: u64,
    head_mtime: Option<u64>,
    index_mtime: Option<u64>,
    branch: Option<String>,
    outputs: &GitOutputs,
) -> (r: Option<VcsInfo>)
    ensures
        r is None <==> (branch is Some && !diff_sums_fit(*outputs)),
        r matches Some(v) ==> vcs_from_outputs(cwd@, now, head_mtime, index_mtime, branch, *outputs, v),
{
    if branch.is_some() {
        let d = match &outputs.diff {
            Some(s) => parse_numstat_checked(s.as_str()),
            None => Some((0u32, 0u32)),
        };
        let c = match &outputs.cached_diff {
            Some(s) => parse_numstat_checked(s.as_str()),
            None => Some((0u32, 0u32)),
        };
        match (d, c) {
            (Some(x), Some(y)) => {
                if x.0.checked_add(y.0).is_none() || x.1.checked_add(y.1).is_none() {
                    return None;
                }
            },
            _ => {
                return None;
            },
        }
    }
    Some(build_vcs_info(cwd, now, head_mtime, index_mtime, branch, outputs))
}


// ---------------------------------------------------------------------------
// Laws
// ---------------------------------------------------------------------------

/// Without a token the quota is never requested.
pub proof fn law_no_token_no_request(
    cache: CacheData,
    now: u64,
    last_config_update: u64,
    cache_modified: u64,
)
    ensures
        !quota_fetch_needed(cache, None, now, last_config_update, cache_modified),
{
}

/// Once a non-empty quota list has been fetched with a token, it is not
/// requested again while the token and the credential files stay the same
/// and the interval has not passed.
pub proof fn law_fetched_quota_is_kept(
    cache: CacheData,
    token_hash: Option<String>,
    later: u64,
    last_config_update: u64,
    cache_modified: u64,
)
    requires
        cache.quota@.len() > 0,
        opt_view(cache.token_hash) == opt_view(token_hash),
        cache.last_refreshed <= later,
        later - cache.last_refreshed <= QUOTA_REFRESH_INTERVAL_SECS,
        last_config_update <= cache_modified,
    ensures
        !quota_fetch_needed(cache, token_hash, later, last_config_update, cache_modified),
{
}

proof fn lemma_tokens_trailing_sep(x: Seq<char>, k: Sep, c: char, i: int, cur: Seq<char>)
    requires
        is_sep(k, c),
        0 <= i <= x.len(),
    ensures
        tokens_acc(x.push(c), k, i, cur) == tokens_acc(x, k, i, cur),
    decreases x.len() - i,
{
    let s = x.push(c);
    if i == x.len() {
        assert(s[i] == c);
        assert(tokens_acc(s, k, i + 1, seq![]) == Seq::<Seq<char>>::empty());
        if cur.len() > 0 {
            assert(seq![cur] + Seq::<Seq<char>>::empty() =~= seq![cur]);
        }
    } else {
        assert(s[i] == x[i]);
        if is_sep(k, x[i]) {
            lemma_tokens_trailing_sep(x, k, c, i + 1, seq![]);
        } else {
            lemma_tokens_trailing_sep(x, k, c, i + 1, cur.push(x[i]));
        }
    }
}

proof fn lemma_numstat_line_strip_cr(line: Seq<char>)
    ensures
        numstat_line(strip_cr(line)) == numstat_line(line),
{
    if line.len() > 0 && line.last() == '\r' {
        assert(line.drop_last().push('\r') =~= line);
        lemma_tokens_trailing_sep(line.drop_last(), Sep::Whitespace, '\r', 0, seq![]);
    }
}

proof fn lemma_numstat_sum_concat(x: Seq<Seq<char>>, y: Seq<Seq<char>>)
    ensures
        numstat_sum(x + y) == (numstat_sum(x).0 + numstat_sum(y).0, numstat_sum(x).1 + numstat_sum(
            y,
        ).1),
    decreases y.len(),
{
    if y.len() == 0 {
        assert(x + y =~= x);
    } else {
        lemma_numstat_sum_concat(x, y.drop_last());
        assert((x + y).drop_last() =~= x + y.drop_last());
        assert((x + y).last() == y.last());
    }
}

proof fn lemma_lines_tail(a: Seq<char>, b: Seq<char>, j: int, cur: Seq<char>)
    requires
        0 <= j <= b.len(),
    ensures
        lines_acc(a + seq!['\n'] + b, a.len() + 1 + j, cur) == lines_acc(b, j, cur),
    decreases b.len() - j,
{
    let s = a + seq!['\n'] + b;
    if j < b.len() {
        assert(s[a.len() + 1 + j] == b[j]);
        if b[j] == '\n' {
            lemma_lines_tail(a, b, j + 1, seq![]);
        } else {
            lemma_lines_tail(a, b, j + 1, cur.push(b[j]));
        }
    }
}

proof fn lemma_lines_head(a: Seq<char>, b: Seq<char>, i: int, cur: Seq<char>)
    requires
        0 <= i <= a.len(),
    ensures
        numstat_sum(lines_acc(a + seq!['\n'] + b, i, cur)) == (numstat_sum(lines_acc(a, i, cur)).0
            + numstat_sum(lines(b)).0, numstat_sum(lines_acc(a, i, cur)).1 + numstat_sum(
            lines(b),
        ).1),
    decreases a.len() - i,
{
    let s = a + seq!['\n'] + b;
    if i == a.len() {
        assert(s[i] == '\n');
        lemma_lines_tail(a, b, 0, seq![]);
        assert(lines_acc(s, i + 1, seq![]) == lines(b));
        lemma_numstat_sum_concat(seq![strip_cr(cur)], lines(b));
        lemma_numstat_line_strip_cr(cur);
        assert(seq![strip_cr(cur)].drop_last() =~= Seq::<Seq<char>>::empty());
        if cur.len() > 0 {
            assert(seq![cur].drop_last() =~= Seq::<Seq<char>>::empty());
        } else {
            assert(cur =~= Seq::<char>::empty());
            assert(strip_cr(cur) =~= cur);
            assert(tokens(cur, Sep::Whitespace) =~= Seq::<Seq<char>>::empty());
        }
    } else {
        assert(s[i] == a[i]);
        if a[i] == '\n' {
            lemma_lines_head(a, b, i + 1, seq![]);
            lemma_numstat_sum_concat(seq![strip_cr(cur)], lines_acc(s, i + 1, seq![]));
            lemma_numstat_sum_concat(seq![strip_cr(cur)], lines_acc(a, i + 1, seq![]));
            assert(seq![strip_cr(cur)].drop_last() =~= Seq::<Seq<char>>::empty());
        } else {
            lemma_lines_head(a, b, i + 1, cur.push(a[i]));
        }
    }
}

/// The insertions and deletions of two `git diff --numstat` outputs joined
/// by a line break are the sums of those of each.
pub proof fn law_numstat_adds_up(a: Seq<char>, b: Seq<char>)
    ensures
        numstat_totals(a + seq!['\n'] + b) == (numstat_totals(a).0 + numstat_totals(b).0,
            numstat_totals(a).1 + numstat_totals(b).1),
{
    lemma_lines_head(a, b, 0, seq![]);
}

} // verus!
