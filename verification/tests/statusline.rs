use agy_statusline::cli::{needs_refresh, parse_command, refresh_args, CliCommand};
use agy_statusline::config::{
    account_menu_step, config_menu_line, config_menu_step, credential_target, effective_credential,
    must_save_active_account, after_login, stored_credential_matches, switch_succeeded,
    switched_token_file, LoginResult,
    find_alias_for_credential, line_edit_step, register_saved_account, sanitize_alias,
    set_config_theme, AccountAction, LineEdit, MenuAction, MenuKey,
};
use agy_statusline::merge::merge_input_json;
use agy_statusline::refresh::{
    apply_quota_fetch, build_vcs_info, build_vcs_info_checked, classify_quota_answer,
    count_status_lines, parse_ahead_behind,
    parse_git_remote_url, parse_numstat, parse_numstat_checked, plan_quota_refresh, reuse_cached_vcs, GitOutputs,
    QuotaFetch,
};
use agy_statusline::render::{
    get_info_widgets, get_metric_widgets, get_model_quota_string, get_short_model_name,
    render_tui_checked,
    ContextFigures, UsageLevel,
};
use agy_statusline::theme::resolve;
use agy_statusline::title::{get_title_string, get_workspace_name};
use agy_statusline::types::{
    clean_input_text, AgentInfo, CacheData, ContextWindow, CurrentUsage, InputJson, ModelInfo,
    QuotaItem, UserConfig, VcsInfo, Workspace,
};

fn empty_input() -> InputJson {
    InputJson {
        agent_state: None,
        model: None,
        workspace: None,
        cwd: None,
        context_window: None,
        sandbox: None,
        agent: None,
        vcs: None,
        product: None,
        artifacts: None,
        artifact_count: None,
        subagents: None,
        background_tasks: None,
        task_count: None,
        tool_confirmation_pending: None,
        pending_input_count: None,
        plan_tier: None,
        email: None,
        version: None,
        conversation_id: None,
        terminal_width: None,
    }
}

fn empty_cache() -> CacheData {
    CacheData { quota: vec![], vcs: None, last_refreshed: 0, token_hash: None, needs_login: None }
}

fn window(input: u64, output: u64, size: u64) -> ContextWindow {
    ContextWindow {
        used_percentage_bits: None,
        remaining_percentage_bits: None,
        total_input_tokens: Some(input),
        total_output_tokens: Some(output),
        context_window_size: Some(size),
        current_usage: None,
    }
}

fn figures(pct: f64) -> ContextFigures {
    let level = if pct >= 90.0 {
        UsageLevel::Critical
    } else if pct >= 60.0 {
        UsageLevel::High
    } else {
        UsageLevel::Normal
    };
    ContextFigures {
        level,
        percent_text: format!("{:.1}", pct),
        free_percent_text: format!("{:.1}", 100.0 - pct),
        bar_cells: (0..=10).map(|n| ((pct / 100.0) * (n as f64)).round() as usize).collect(),
    }
}

fn vcs(cwd: &str, branch: &str) -> VcsInfo {
    VcsInfo {
        cwd: cwd.to_string(),
        branch: branch.to_string(),
        dirty: true,
        ahead: 1,
        behind: 0,
        modified: 3,
        last_checked: 100,
        head_mtime: Some(7),
        index_mtime: Some(8),
        remote_web_url: None,
        insertions: 12,
        deletions: 5,
    }
}

// --- title -----------------------------------------------------------------

#[test]
fn title_for_idle_agent() {
    let mut j = empty_input();
    j.agent_state = Some("idle".to_string());
    j.workspace = Some(Workspace {
        current_dir: Some("C:\\Develop\\my-project".to_string()),
        project_dir: None,
    });
    assert_eq!(get_title_string(&j), "\u{1f634} idle | my-project");
}

#[test]
fn title_defaults() {
    assert_eq!(get_title_string(&empty_input()), "\u{1f634} idle | unknown");
}

#[test]
fn title_with_agent_mode_and_status() {
    let mut j = empty_input();
    j.agent_state = Some("tool_use".to_string());
    j.cwd = Some("/home/me/repo".to_string());
    j.agent = Some(AgentInfo {
        name: Some("Planner".to_string()),
        role: None,
        status: Some("running tests".to_string()),
    });
    assert_eq!(
        get_title_string(&j),
        "\u{1f6e0}\u{fe0f} [PLAN] tool_use - running tests | repo"
    );
    j.agent = Some(AgentInfo { name: Some("auditor".to_string()), role: None, status: None });
    j.agent_state = Some("busy".to_string());
    assert_eq!(get_title_string(&j), "\u{1f916} [AUDITOR] busy | repo");
    j.agent = Some(AgentInfo { name: Some("Main".to_string()), role: None, status: Some("idle".to_string()) });
    assert_eq!(get_title_string(&j), "\u{1f916} busy | repo");
}

#[test]
fn workspace_names() {
    assert_eq!(get_workspace_name("/google/src/cloud/user/ws/google3"), "ws");
    assert_eq!(get_workspace_name("/google/src/cloud/user"), "user");
    assert_eq!(get_workspace_name("/google/src/cloud/"), "unknown");
    assert_eq!(get_workspace_name("/tmp/x/"), "");
    assert_eq!(get_workspace_name(""), "unknown");
}

#[test]
fn input_text_is_cleaned() {
    assert_eq!(clean_input_text("  \u{feff}{\"a\":1}\n"), "{\"a\":1}");
    assert_eq!(clean_input_text("\n"), "");
}

// --- merge -----------------------------------------------------------------

#[test]
fn merge_without_previous_drops_tier() {
    let mut j = empty_input();
    j.plan_tier = Some("pro".to_string());
    let m = merge_input_json(j, None);
    assert!(m.plan_tier.is_none());
}

#[test]
fn merge_fills_missing_window_while_busy() {
    let mut cur = empty_input();
    cur.agent_state = Some("thinking".to_string());
    let mut last = empty_input();
    last.context_window = Some(window(10, 20, 100));
    let m = merge_input_json(cur, Some(last));
    assert_eq!(m.context_window.unwrap().total_input_tokens, Some(10));
}

#[test]
fn merge_keeps_missing_window_when_idle() {
    let mut last = empty_input();
    last.context_window = Some(window(10, 20, 100));
    let m = merge_input_json(empty_input(), Some(last));
    assert!(m.context_window.is_none());
}

#[test]
fn merge_fills_zero_counts_only() {
    let mut cur = empty_input();
    cur.context_window = Some(window(0, 7, 0));
    cur.context_window.as_mut().unwrap().used_percentage_bits = Some((-0.0f64).to_bits());
    let mut last = empty_input();
    last.context_window = Some(window(10, 20, 100));
    last.context_window.as_mut().unwrap().used_percentage_bits = Some(14.8f64.to_bits());
    let m = merge_input_json(cur, Some(last)).context_window.unwrap();
    assert_eq!(m.total_input_tokens, Some(10));
    assert_eq!(m.total_output_tokens, Some(7));
    assert_eq!(m.context_window_size, Some(100));
    assert_eq!(m.used_percentage_bits, Some(14.8f64.to_bits()));
}

#[test]
fn merge_usage_taken_over_or_merged() {
    let mut cur = empty_input();
    cur.agent_state = Some("working".to_string());
    let mut cw = window(1, 1, 1);
    cw.current_usage = Some(CurrentUsage {
        cache_read_input_tokens: Some(0),
        cache_creation_input_tokens: None,
        input_tokens: Some(5),
        output_tokens: None,
    });
    cur.context_window = Some(cw);
    let mut last = empty_input();
    let mut lw = window(1, 1, 1);
    lw.current_usage = Some(CurrentUsage {
        cache_read_input_tokens: Some(30),
        cache_creation_input_tokens: Some(40),
        input_tokens: Some(50),
        output_tokens: Some(60),
    });
    last.context_window = Some(lw);
    let u = merge_input_json(cur, Some(last)).context_window.unwrap().current_usage.unwrap();
    assert_eq!(u.cache_read_input_tokens, Some(30));
    assert_eq!(u.cache_creation_input_tokens, Some(40));
    assert_eq!(u.input_tokens, Some(5));
    assert_eq!(u.output_tokens, Some(60));
}

#[test]
fn merge_other_conversation_keeps_current() {
    let mut cur = empty_input();
    cur.agent_state = Some("thinking".to_string());
    cur.conversation_id = Some("a".to_string());
    let mut last = empty_input();
    last.conversation_id = Some(" b ".to_string());
    last.context_window = Some(window(10, 20, 100));
    assert!(merge_input_json(cur, Some(last)).context_window.is_none());
}

#[test]
fn merge_other_model_keeps_current() {
    let mut cur = empty_input();
    cur.agent_state = Some("thinking".to_string());
    cur.model = Some(ModelInfo { id: Some("m1".to_string()), display_name: None });
    let mut last = empty_input();
    last.model = Some(ModelInfo { id: Some("m2".to_string()), display_name: None });
    last.context_window = Some(window(10, 20, 100));
    assert!(merge_input_json(cur, Some(last)).context_window.is_none());
}

// --- refresh ---------------------------------------------------------------

#[test]
fn remote_urls() {
    assert_eq!(
        parse_git_remote_url("git@github.com:user/repo.git\n").as_deref(),
        Some("https://github.com/user/repo")
    );
    assert_eq!(
        parse_git_remote_url("https://github.com/u/r.git").as_deref(),
        Some("https://github.com/u/r")
    );
    assert_eq!(
        parse_git_remote_url("ssh://git@host.example:2222/x").as_deref(),
        Some("https://ssh///git@host.example:2222/x")
    );
    assert_eq!(parse_git_remote_url("  "), None);
    assert_eq!(parse_git_remote_url("/srv/repo.git"), None);
}

#[test]
fn numstat_sums() {
    assert_eq!(parse_numstat("10\t2\tsrc/a.rs\n-\t-\tlogo.png\n3\t4\tb\n"), (13, 6));
    assert_eq!(parse_numstat(""), (0, 0));
    assert_eq!(parse_numstat("7\n"), (0, 0));
}

#[test]
fn numstat_sums_that_overflow_are_refused() {
    assert_eq!(parse_numstat_checked("10\t2\tsrc/a.rs\n3\t4\tb\n"), Some((13, 6)));
    assert_eq!(parse_numstat_checked("4294967295\t0\ta\n1\t0\tb\n"), None);
    assert_eq!(parse_numstat_checked("0\t4294967295\ta\n0\t1\tb\n"), None);
    assert_eq!(parse_numstat_checked("4294967295\t0\ta\n"), Some((u32::MAX, 0)));
}

#[test]
fn vcs_info_with_overflowing_diffs_is_refused() {
    let outputs = GitOutputs {
        status: None,
        rev_list: None,
        remote_url: None,
        diff: Some("4000000000\t0\ta\n".to_string()),
        cached_diff: Some("400000000\t0\tb\n".to_string()),
    };
    assert!(build_vcs_info_checked("/w", 1, None, None, Some("main".to_string()), &outputs).is_none());
    let v = build_vcs_info_checked("/w", 1, None, None, None, &outputs).unwrap();
    assert_eq!(v.insertions, 0);
    let fine = GitOutputs {
        status: None,
        rev_list: None,
        remote_url: None,
        diff: Some("1\t0\ta\n".to_string()),
        cached_diff: None,
    };
    let v = build_vcs_info_checked("/w", 1, None, None, Some("dev".to_string()), &fine).unwrap();
    assert_eq!((v.insertions, v.deletions), (1, 0));
    assert!(!v.dirty);
}

#[test]
fn numstat_of_joined_outputs_adds_up() {
    let a = "12\t5\tsrc/a.rs\n-\t-\timg.png\r";
    let b = "3\t0\tb.rs";
    let joined = format!("{a}\n{b}");
    let (x, y) = (parse_numstat(a), parse_numstat(b));
    assert_eq!(parse_numstat(&joined), (x.0 + y.0, x.1 + y.1));
    assert_eq!(parse_numstat("12\t5\tsrc/a.rs\n-\t-\timg.png\n3\t0\tb.rs"), (15, 5));
}

#[test]
fn status_lines_are_counted() {
    assert_eq!(count_status_lines(" M a.rs\n?? b.rs\n\n   \n"), 2);
    assert_eq!(count_status_lines(""), 0);
}

#[test]
fn ahead_behind_counts() {
    assert_eq!(parse_ahead_behind("3\t1"), (3, 1));
    assert_eq!(parse_ahead_behind("3 x"), (3, 0));
    assert_eq!(parse_ahead_behind("3 1 2"), (0, 0));
}

#[test]
fn vcs_info_from_outputs() {
    let outputs = GitOutputs {
        status: Some(" M a\n".to_string()),
        rev_list: Some("2\t0".to_string()),
        remote_url: Some("git@github.com:u/r.git".to_string()),
        diff: Some("1\t2\ta\n".to_string()),
        cached_diff: Some("3\t4\tb\n".to_string()),
    };
    let v = build_vcs_info("/w", 50, Some(1), Some(2), Some("main".to_string()), &outputs);
    assert_eq!(v.branch, "main");
    assert!(v.dirty);
    assert_eq!(v.modified, 1);
    assert_eq!((v.ahead, v.behind), (2, 0));
    assert_eq!(v.remote_web_url.as_deref(), Some("https://github.com/u/r"));
    assert_eq!((v.insertions, v.deletions), (4, 6));
    let none = build_vcs_info("/w", 50, None, None, None, &outputs);
    assert_eq!(none.branch, "");
    assert_eq!(none.insertions, 0);
}

#[test]
fn quota_refresh_plan() {
    let mut c = empty_cache();
    assert!(plan_quota_refresh(&mut c, &Some("h".to_string()), 1000, 0, 0));
    assert!(!plan_quota_refresh(&mut c, &None, 1000, 0, 0));
    assert_eq!(c.needs_login, Some(true));
    assert_eq!(c.last_refreshed, 1000);
}

#[test]
fn quota_answers_are_classified() {
    assert!(matches!(classify_quota_answer(Some(200), Some(vec![])), QuotaFetch::Models(v) if v.is_empty()));
    assert!(matches!(classify_quota_answer(Some(200), None), QuotaFetch::Failed));
    assert!(matches!(classify_quota_answer(Some(401), None), QuotaFetch::AuthRejected));
    assert!(matches!(classify_quota_answer(Some(403), Some(vec![])), QuotaFetch::AuthRejected));
    assert!(matches!(classify_quota_answer(Some(500), None), QuotaFetch::Failed));
    assert!(matches!(classify_quota_answer(None, None), QuotaFetch::Failed));
}

#[test]
fn quota_answers_update_cache() {
    let mut c = empty_cache();
    let item = QuotaItem {
        id: "m".to_string(),
        display_name: "M".to_string(),
        remaining_fraction_bits: 0.5f64.to_bits(),
        remaining_percent: 50,
        bar_cells: 3,
        reset_time: None,
    };
    let h = Some("h".to_string());
    apply_quota_fetch(&mut c, QuotaFetch::Models(vec![item]), &h, 77);
    assert_eq!(c.needs_login, Some(false));
    assert_eq!(c.quota.len(), 1);
    assert!(!plan_quota_refresh(&mut c, &h, 100, 0, 0));
    apply_quota_fetch(&mut c, QuotaFetch::AuthRejected, &h, 200);
    assert_eq!(c.needs_login, Some(true));
    assert!(c.quota.is_empty());
    apply_quota_fetch(&mut c, QuotaFetch::Failed, &None, 300);
    assert_eq!(c.last_refreshed, 300);
    assert_eq!(c.token_hash.as_deref(), Some("h"));
}

#[test]
fn cached_vcs_is_reused_when_unchanged() {
    let mut c = empty_cache();
    c.vcs = Some(vcs("/w", "main"));
    assert!(reuse_cached_vcs(&mut c, "/w", 500, Some(7), Some(8)));
    assert_eq!(c.vcs.as_ref().unwrap().last_checked, 500);
    assert!(!reuse_cached_vcs(&mut c, "/w", 600, Some(7), Some(9)));
    assert!(!reuse_cached_vcs(&mut c, "/w", 600, None, None));
}

// --- cli -------------------------------------------------------------------

fn args(a: &[&str]) -> Vec<String> {
    a.iter().map(|s| s.to_string()).collect()
}

#[test]
fn command_line_modes() {
    assert!(matches!(parse_command(&args(&["x", "--config", "--title"])), CliCommand::Config));
    match parse_command(&args(&["x", "--theme", "Neon"])) {
        CliCommand::SetTheme(n) => assert_eq!(n, "Neon"),
        _ => panic!("expected a theme"),
    }
    assert!(matches!(parse_command(&args(&["x", "--theme"])), CliCommand::StatusLine));
    assert!(matches!(parse_command(&args(&["x", "--title"])), CliCommand::Title));
    match parse_command(&args(&["x", "--refresh", "--cwd", "/w"])) {
        CliCommand::Refresh(Some(d)) => assert_eq!(d, "/w"),
        _ => panic!("expected a refresh"),
    }
    assert!(matches!(parse_command(&args(&["x", "--refresh"])), CliCommand::Refresh(None)));
    assert!(matches!(parse_command(&args(&["x"])), CliCommand::StatusLine));
}

#[test]
fn refresh_decision() {
    let mut c = empty_cache();
    c.last_refreshed = 1000;
    c.vcs = Some(vcs("/w", "main"));
    c.vcs.as_mut().unwrap().last_checked = 1000;
    assert!(!needs_refresh(true, "/w", &c, 1005, Some(7), Some(8)));
    assert!(needs_refresh(false, "/w", &c, 1005, Some(7), Some(8)));
    assert!(needs_refresh(true, "/other", &c, 1005, Some(7), Some(8)));
    assert!(needs_refresh(true, "/w", &c, 1011, Some(7), Some(8)));
    assert!(needs_refresh(true, "/w", &c, 1005, Some(7), Some(9)));
    assert!(!needs_refresh(true, "", &c, 1005, Some(7), Some(8)));
    assert_eq!(refresh_args("/w"), vec!["--refresh", "--cwd", "/w"]);
    assert_eq!(refresh_args(""), vec!["--refresh"]);
}

// --- config ----------------------------------------------------------------

#[test]
fn login_preparation_rules() {
    assert!(must_save_active_account("cred", &None));
    assert!(!must_save_active_account("cred", &Some("work".to_string())));
    assert!(!must_save_active_account("", &None));
    assert_eq!(effective_credential("main", "file"), "main");
    assert_eq!(effective_credential("", "file"), "file");
}

#[test]
fn account_switch_and_login_steps() {
    assert_eq!(switched_token_file(&Some("tok".to_string()), "cred"), "tok");
    assert_eq!(switched_token_file(&None, "cred"), "cred");
    assert!(switch_succeeded(false, true));
    assert!(!switch_succeeded(false, false));
    assert!(stored_credential_matches(&Some("c".to_string()), "c"));
    assert!(!stored_credential_matches(&None, "c"));
    match after_login("", "tok", "old", "") {
        LoginResult::NewAccount(c) => assert_eq!(c, "tok"),
        LoginResult::Restore { .. } => panic!("expected a new account"),
    }
    match after_login("", "", "old", "") {
        LoginResult::Restore { main, token_file } => {
            assert_eq!(main.as_deref(), Some("old"));
            assert!(token_file.is_none());
        }
        LoginResult::NewAccount(_) => panic!("expected a restore"),
    }
}

#[test]
fn saved_accounts_grow_without_duplicates() {
    let mut accounts = vec!["work".to_string()];
    for (input, written) in [("home", true), ("work", true), (" ::\u{7} ", true), ("other", false), ("home", true)] {
        let clean = sanitize_alias(input);
        if !clean.is_empty() {
            register_saved_account(&mut accounts, &clean, written);
        }
    }
    assert_eq!(accounts, vec!["work".to_string(), "home".to_string()]);
}

#[test]
fn aliases_are_sanitized() {
    assert_eq!(sanitize_alias("  work:acct\u{7} "), "workacct");
    let long = "x".repeat(70);
    assert_eq!(sanitize_alias(&long), "x".repeat(64));
    let tricky = format!("{}\u{e9}", "x".repeat(63));
    assert_eq!(sanitize_alias(&tricky), tricky);
    assert_eq!(sanitize_alias(&"\u{e9}".repeat(40)), "\u{e9}".repeat(40));
    assert_eq!(sanitize_alias(&"\u{e9}".repeat(70)), "\u{e9}".repeat(64));
    assert_eq!(sanitize_alias("  work:acct\t"), "workacct");
}

#[test]
fn theme_names_are_validated() {
    let mut c = UserConfig::default();
    assert_eq!(c.theme, "frost");
    assert!(set_config_theme(&mut c, " NEON "));
    assert_eq!(c.theme, "neon");
    assert!(!set_config_theme(&mut c, "custom"));
    assert_eq!(c.theme, "neon");
}

#[test]
fn main_menu_keys() {
    let mut c = UserConfig::default();
    assert_eq!(config_menu_step(0, &mut c, MenuKey::Up).0, 7);
    assert_eq!(config_menu_step(7, &mut c, MenuKey::Down).0, 0);
    config_menu_step(0, &mut c, MenuKey::Enter);
    assert_eq!(c.theme, "pastel");
    config_menu_step(1, &mut c, MenuKey::Enter);
    assert!(!c.layout.show_vcs);
    assert!(matches!(config_menu_step(5, &mut c, MenuKey::Enter).1, MenuAction::OpenAccounts));
    assert!(matches!(config_menu_step(6, &mut c, MenuKey::Enter).1, MenuAction::SaveAndExit));
    assert!(matches!(config_menu_step(3, &mut c, MenuKey::Escape).1, MenuAction::Exit));
}

#[test]
fn main_menu_lines() {
    let c = UserConfig::default();
    let t = resolve("frost");
    let p = &t.palette;
    assert_eq!(
        config_menu_line(1, &c, 0, p),
        format!("   {}Show Git VCS Info: {}\u{25cf} Enabled{}\x1b[0m", p.label, p.success, p.label)
    );
    assert_eq!(
        config_menu_line(0, &c, 0, p),
        format!(" {}\x1b[1m\u{276f} Theme: frost\x1b[0m", p.accent)
    );
}

#[test]
fn account_menu_keys() {
    assert!(matches!(account_menu_step(0, 2, MenuKey::Enter).1, AccountAction::Switch(0)));
    assert!(matches!(account_menu_step(2, 2, MenuKey::Enter).1, AccountAction::SaveCurrent));
    assert!(matches!(account_menu_step(3, 2, MenuKey::Enter).1, AccountAction::AddAccount));
    assert!(matches!(account_menu_step(4, 2, MenuKey::Enter).1, AccountAction::Back));
    assert_eq!(account_menu_step(0, 2, MenuKey::Up).0, 4);
}

#[test]
fn accounts_are_registered_once() {
    let mut a = vec!["home".to_string()];
    register_saved_account(&mut a, "work", true);
    register_saved_account(&mut a, "work", true);
    register_saved_account(&mut a, "other", false);
    assert_eq!(a, vec!["home", "work"]);
    assert_eq!(credential_target("work"), "gemini:antigravity:work");
    let stored = vec![Some("t1".to_string()), Some("t2".to_string())];
    assert_eq!(find_alias_for_credential("t2", &a, &stored).as_deref(), Some("work"));
    assert_eq!(find_alias_for_credential("t3", &a, &stored), None);
}

#[test]
fn line_editor() {
    let mut input: Vec<char> = "ab".chars().collect();
    assert!(matches!(line_edit_step(&mut input, MenuKey::Char('c')), LineEdit::Continue(ref s) if s == "c"));
    assert!(matches!(line_edit_step(&mut input, MenuKey::Char(':')), LineEdit::Continue(ref s) if s.is_empty()));
    assert!(matches!(line_edit_step(&mut input, MenuKey::Backspace), LineEdit::Continue(ref s) if s == "\x08 \x08"));
    assert_eq!(input.iter().collect::<String>(), "ab");
    assert!(matches!(line_edit_step(&mut input, MenuKey::Enter), LineEdit::Done));
}

// --- status line -----------------------------------------------------------

#[test]
fn short_model_names_drop_the_vendor() {
    assert_eq!(get_short_model_name("Gemini 3.5 Flash"), "3.5 Flash");
    assert_eq!(get_short_model_name("Solo"), "Solo");
    assert_eq!(get_short_model_name(""), "");
}

#[test]
fn quota_string_with_reset_time() {
    let t = resolve("frost");
    let mut c = empty_cache();
    c.quota.push(QuotaItem {
        id: "gemini-3.5-flash".to_string(),
        display_name: "Gemini 3.5 Flash".to_string(),
        remaining_fraction_bits: 0.95f64.to_bits(),
        remaining_percent: 95,
        bar_cells: 5,
        reset_time: Some("2026-06-09T05:12:00Z".to_string()),
    });
    let now = 1780981920 - (3 * 3600 + 12 * 60);
    let s = get_model_quota_string(&t, &c, "Gemini 3.5 Flash", false, now);
    let dim = "\x1b[38;2;80;80;80m";
    let success = t.palette.success;
    let label = t.palette.label;
    assert_eq!(
        s,
        format!("{label}\u{26a1}{dim}[{success}-----{dim}{dim}]\x1b[0m {label}(~3h12m)\x1b[0m")
    );
    let hidden = get_model_quota_string(&t, &c, "gemini-3.5-flash", true, now);
    assert_eq!(hidden, format!("{label}\u{26a1}{success}95%\x1b[0m"));
    assert_eq!(get_model_quota_string(&t, &c, "Orion", true, now), "");
    c.needs_login = Some(true);
    assert_eq!(
        get_model_quota_string(&t, &c, "x", false, now),
        format!("{label}\u{26a1}{}\x1b[1m[LOGIN]\x1b[0m", t.palette.warning)
    );
}

#[test]
fn quota_string_low_percent_is_critical() {
    let t = resolve("neon");
    let mut c = empty_cache();
    c.quota.push(QuotaItem {
        id: "gemini-3.5-pro".to_string(),
        display_name: "Gemini 3.5 Pro".to_string(),
        remaining_fraction_bits: 0.12f64.to_bits(),
        remaining_percent: 12,
        bar_cells: 1,
        reset_time: None,
    });
    let s = get_model_quota_string(&t, &c, "3.5 Pro", true, 0);
    assert_eq!(
        s,
        format!("{}\u{26a1}{}\x1b[1m12%\x1b[0m", t.palette.label, t.palette.critical)
    );
}

#[test]
fn info_widgets_at_two_steps() {
    let t = resolve("frost");
    let mut j = empty_input();
    j.agent_state = Some("thinking".to_string());
    j.model = Some(ModelInfo { id: None, display_name: Some("Gemini 3.5 Pro".to_string()) });
    j.cwd = Some("/home/me/my-project".to_string());
    j.email = Some("me@example.com".to_string());
    j.conversation_id = Some("0123456789".to_string());
    let mut c = empty_cache();
    c.vcs = Some(vcs("/home/me/my-project", "main"));
    let wide = get_info_widgets(&t, &j, &c, 0, 200, 0, "/home/me");
    let texts: Vec<&str> = wide.iter().map(|w| w.text.as_str()).collect();
    assert_eq!(texts.len(), 6);
    assert_eq!(texts[0], t.states.thinking);
    assert_eq!(texts[1], format!("{}Gemini 3.5 Pro\x1b[0m", t.palette.accent));
    assert_eq!(texts[2], format!("{}\u{f07c} ~/my-project\x1b[0m", t.palette.label));
    assert_eq!(
        texts[3],
        format!("{}\u{e0a0} main{}*3 \u{2191}1\x1b[0m", t.palette.label, t.palette.warning)
    );
    assert_eq!(texts[4], "me@example.com");
    assert_eq!(texts[5], "id:01234567");
    let narrow = get_info_widgets(&t, &j, &c, 4, 200, 0, "/home/me");
    let texts: Vec<&str> = narrow.iter().map(|w| w.text.as_str()).collect();
    assert_eq!(texts.len(), 4);
    assert_eq!(texts[1], format!("{}3.5 Pro\x1b[0m", t.palette.accent));
    assert_eq!(texts[2], format!("{}\u{f07c} my-project\x1b[0m", t.palette.label));
    let narrower = get_info_widgets(&t, &j, &c, 6, 200, 0, "/home/me");
    assert_eq!(narrower.len(), 2);
}

#[test]
fn metric_widgets_at_three_steps() {
    let t = resolve("frost");
    let mut j = empty_input();
    j.context_window = Some(window(148_000, 2_000, 1_000_000));
    j.artifact_count = Some(4);
    let f = figures(15.0);
    let w = get_metric_widgets(&t, &j, 0, &f);
    assert_eq!(w.len(), 2);
    let dim = "\x1b[38;2;80;80;80m";
    let l = t.palette.label;
    let a = t.palette.accent;
    assert_eq!(
        w[0].text,
        format!("{l}\u{f061a} {l}ctx\x1b[0m {dim}[{a}=>{dim}--------{dim}]\x1b[0m {a}\x1b[1m15.0%\x1b[0m{l} (150.0K/1.0M)\x1b[0m")
    );
    assert_eq!(w[1].text, format!("{l}\u{f09d1} {l}artifacts\x1b[0m {a}\x1b[1m4\x1b[0m"));
    let w = get_metric_widgets(&t, &j, 5, &f);
    assert!(w[0].text.ends_with(&format!("{l} (free:85.0%/850.0K)\x1b[0m")));
    let w = get_metric_widgets(&t, &j, 10, &f);
    assert_eq!(w.len(), 1);
    assert_eq!(w[0].text, format!("{l}\u{f061a} {l}ctx\x1b[0m {a}\x1b[1m15.0%\x1b[0m"));
}

#[test]
fn layouts_by_terminal_width() {
    let c = UserConfig::default();
    let t = resolve("frost");
    let mut j = empty_input();
    j.agent_state = Some("idle".to_string());
    j.model = Some(ModelInfo { id: None, display_name: Some("Gemini 3.5 Pro".to_string()) });
    j.cwd = Some("/home/me/my-project".to_string());
    j.context_window = Some(window(650_000, 0, 1_000_000));
    let cache = empty_cache();
    let f = figures(65.0);
    j.terminal_width = Some(200);
    let one = render_tui_checked(&c, &j, &cache, 0, "/home/me", &f).unwrap();
    assert_eq!(one.len(), 1);
    assert!(one[0].starts_with(&format!("{}\u{256d}\u{2500}\x1b[0m {}", t.palette.border, t.states.ready)));
    j.terminal_width = Some(100);
    let two = render_tui_checked(&c, &j, &cache, 0, "/home/me", &f).unwrap();
    assert_eq!(two.len(), 2);
    assert!(two[1].starts_with(&format!("{}\u{2570}\u{2500}\x1b[0m ", t.palette.border)));
    j.terminal_width = Some(70);
    let compact = render_tui_checked(&c, &j, &cache, 0, "/home/me", &f).unwrap();
    assert_eq!(compact.len(), 2);
    assert!(compact[0].starts_with(t.states.ready));
    assert!(!compact[0].contains("my-project"));
    j.terminal_width = Some(1);
    assert!(render_tui_checked(&c, &j, &cache, 0, "/home/me", &f).is_none());
}
