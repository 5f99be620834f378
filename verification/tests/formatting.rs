use agy_statusline::path::{
    branch_from_head, eval_rfc3339, get_configs_last_modified_time, get_human_format,
    get_shorten_path, gitdir_from_file, parse_rfc3339_to_unix, percent_encode_path,
};
use agy_statusline::text::{parse_u32, chars_of, tokens_chars, lines_chars, Sep};
use agy_statusline::theme::{get_icon, resolve};
use agy_statusline::widget::{get_visual_length, render_progress_bar, Widget};

const DIM: &str = "\x1b[38;2;80;80;80m";

#[test]
fn human_format_small_numbers_are_plain() {
    assert_eq!(get_human_format(0), "0");
    assert_eq!(get_human_format(999), "999");
}

#[test]
fn human_format_thousands_and_millions() {
    assert_eq!(get_human_format(1_000), "1.0K");
    assert_eq!(get_human_format(14_850), "14.8K");
    assert_eq!(get_human_format(148_000), "148.0K");
    assert_eq!(get_human_format(999_999), "999.9K");
    assert_eq!(get_human_format(1_000_000), "1.0M");
    assert_eq!(get_human_format(1_550_000), "1.5M");
    assert_eq!(get_human_format(350_000), "350.0K");
}

#[test]
fn rfc3339_utc_timestamps() {
    assert_eq!(parse_rfc3339_to_unix("1970-01-01T00:00:00Z"), Some(0));
    assert_eq!(parse_rfc3339_to_unix("2026-06-09T05:12:00Z"), Some(1780981920));
    assert_eq!(parse_rfc3339_to_unix("2000-02-29T12:30:15Z"), Some(951827415));
}

#[test]
fn rfc3339_fraction_and_offset() {
    assert_eq!(parse_rfc3339_to_unix("2024-01-01T00:00:00.123456Z"), Some(1704067200));
    assert_eq!(parse_rfc3339_to_unix("2024-01-01T02:00:00+02:00"), Some(1704067200));
    assert_eq!(parse_rfc3339_to_unix("2023-12-31T22:00:00.5-02:00"), Some(1704067200));
    assert_eq!(parse_rfc3339_to_unix("2024-01-01T00:00:00+00:00"), Some(1704067200));
}

#[test]
fn rfc3339_offset_before_epoch_wraps() {
    assert_eq!(
        parse_rfc3339_to_unix("1970-01-01T00:00:00+01:00"),
        Some(0u64.wrapping_sub(3600))
    );
}

#[test]
fn rfc3339_rejects_short_or_non_numeric_text() {
    assert_eq!(parse_rfc3339_to_unix("2024-01-01"), None);
    assert_eq!(parse_rfc3339_to_unix("abcd-01-01T00:00:00Z"), None);
    assert_eq!(parse_rfc3339_to_unix("2024-01-01T0x:00:00Z"), None);
}

#[test]
fn rfc3339_month_thirteen_follows_the_formula() {
    assert_eq!(parse_rfc3339_to_unix("2024-13-01T00:00:00Z"), Some(1735689600));
}

#[test]
fn rfc3339_failing_inputs_are_reported() {
    assert_eq!(eval_rfc3339("0000-01-01T00:00:00Z"), None);
    assert_eq!(eval_rfc3339("1969-12-31T00:00:00Z"), None);
    assert_eq!(eval_rfc3339("2024-03-00T00:00:00Z"), None);
    assert_eq!(eval_rfc3339("202\u{e9}-01-01T00:00:00Z"), None);
    assert_eq!(eval_rfc3339("2024-01-01T00:00:00Z"), Some(Some(1704067200)));
}

#[test]
fn percent_encoding_keeps_unreserved_bytes() {
    assert_eq!(percent_encode_path("C:/Develop/my-project_1.0~x"), "C:/Develop/my-project_1.0~x");
}

#[test]
fn percent_encoding_escapes_others() {
    assert_eq!(percent_encode_path("C:/My Dir/\u{e4}"), "C:/My%20Dir/%C3%A4");
    assert_eq!(percent_encode_path("a#b?c"), "a%23b%3Fc");
}

#[test]
fn shorten_path_uses_tilde_for_home() {
    assert_eq!(get_shorten_path("C:\\Users\\me\\proj", "C:\\Users\\me"), "~/proj");
    assert_eq!(get_shorten_path("/home/me/x", ""), "/home/me/x");
}

#[test]
fn shorten_path_keeps_last_component_of_long_paths() {
    assert_eq!(
        get_shorten_path("D:\\work\\clients\\acme\\website\\frontend", "C:\\Users\\me"),
        ".../frontend"
    );
    assert_eq!(get_shorten_path("/a/b/c/", ""), "/a/b/c/");
    assert_eq!(get_shorten_path("/aaaaaaaaaa/bbbbbbbbbb/cccc/", ""), ".../");
}

#[test]
fn configs_mtime_is_the_latest() {
    assert_eq!(get_configs_last_modified_time(None, None), 0);
    assert_eq!(get_configs_last_modified_time(Some(5), None), 5);
    assert_eq!(get_configs_last_modified_time(Some(5), Some(9)), 9);
    assert_eq!(get_configs_last_modified_time(Some(12), Some(9)), 12);
}

#[test]
fn head_file_branch() {
    assert_eq!(branch_from_head("ref: refs/heads/main\n").as_deref(), Some("main"));
    assert_eq!(branch_from_head("  ref: refs/heads/feature/x\r\n").as_deref(), Some("feature/x"));
    assert_eq!(branch_from_head("0123456789abcdef\n").as_deref(), Some("01234567"));
    assert_eq!(branch_from_head(""), None);
}

#[test]
fn git_file_target() {
    assert_eq!(
        gitdir_from_file("gitdir: ../.git/worktrees/x\n").as_deref(),
        Some("../.git/worktrees/x")
    );
    assert_eq!(gitdir_from_file("something else\n"), None);
}

#[test]
fn visual_length_skips_escape_sequences() {
    assert_eq!(get_visual_length("\x1b[31mabc\x1b[0m"), 3);
    assert_eq!(get_visual_length("h\u{e9}llo"), 5);
    assert_eq!(get_visual_length("\x1b[38;2;1;2;3m\u{f07c} x"), 3);
    assert_eq!(get_visual_length("a\x1bb"), 3);
}

#[test]
fn widget_carries_its_width() {
    let w = Widget::new("\x1b[1mabc\x1b[0m".to_string());
    assert_eq!(w.visual_width, 3);
    assert_eq!(w.text, "\x1b[1mabc\x1b[0m");
}

#[test]
fn quota_progress_bar() {
    let bar = render_progress_bar(3, 5, "C", true);
    assert_eq!(bar, format!("{DIM}[C---{DIM}--{DIM}]\x1b[0m"));
    assert_eq!(render_progress_bar(0, 0, "C", true), "");
    assert_eq!(render_progress_bar(9, 5, "C", true), format!("{DIM}[C-----{DIM}{DIM}]\x1b[0m"));
}

#[test]
fn context_progress_bar() {
    assert_eq!(render_progress_bar(3, 5, "C", false), format!("{DIM}[C==>{DIM}--{DIM}]\x1b[0m"));
    assert_eq!(render_progress_bar(5, 5, "C", false), format!("{DIM}[C====>{DIM}]\x1b[0m"));
    assert_eq!(render_progress_bar(0, 3, "C", false), format!("{DIM}[C{DIM}---{DIM}]\x1b[0m"));
}

#[test]
fn themes_resolve_case_insensitively() {
    assert_eq!(resolve("FROST").palette.border, "\x1b[38;2;76;86;106m");
    assert_eq!(resolve("Pastel").palette.accent, "\x1b[38;2;203;166;247m");
    assert_eq!(resolve("neon").states.ready, "\x1b[38;2;115;218;202m\x1b[1m[READY]\x1b[0m");
    assert_eq!(resolve("other").palette.border, "\x1b[90m");
    assert_eq!(resolve("").states.tool_use, "\x1b[95m\x1b[1m[TOOL]\x1b[0m");
}

#[test]
fn icons() {
    assert_eq!(get_icon("vcs"), "\u{e0a0}");
    assert_eq!(get_icon("settings"), "\u{f013}");
    assert_eq!(get_icon("unknown"), "");
}

#[test]
fn number_parsing_follows_str_parse() {
    assert_eq!(parse_u32(&chars_of("+42")), Some(42));
    assert_eq!(parse_u32(&chars_of("4294967295")), Some(u32::MAX));
    assert_eq!(parse_u32(&chars_of("+")), None);
    assert_eq!(parse_u32(&chars_of("-1")), None);
    assert_eq!(parse_u32(&chars_of("4294967296")), None);
    assert_eq!(parse_u32(&chars_of("12a")), None);
}

#[test]
fn splitting_follows_str_methods() {
    let t = tokens_chars(&chars_of("  a \t bb\n c  "), Sep::Whitespace);
    let t: Vec<String> = t.iter().map(|v| v.iter().collect()).collect();
    assert_eq!(t, vec!["a", "bb", "c"]);
    let l = lines_chars(&chars_of("x\r\ny\n\nz"));
    let l: Vec<String> = l.iter().map(|v| v.iter().collect()).collect();
    assert_eq!(l, vec!["x", "y", "", "z"]);
    let l = lines_chars(&chars_of("x\n"));
    assert_eq!(l.len(), 1);
}

#[test]
fn rfc3339_text_order_is_time_order() {
    let texts = [
        "1970-01-01T00:00:00Z",
        "1999-12-31T23:59:59Z",
        "2000-02-28T12:00:00Z",
        "2000-02-29T00:00:00Z",
        "2000-03-01T00:00:00Z",
        "2024-01-01T00:00:00Z",
        "2024-01-01T00:00:01Z",
        "9999-12-31T23:59:59Z",
    ];
    for a in texts {
        for b in texts {
            let ta = parse_rfc3339_to_unix(a).unwrap();
            let tb = parse_rfc3339_to_unix(b).unwrap();
            assert_eq!(a < b, ta < tb, "{a} {b}");
        }
    }
}

fn percent_decode(s: &str) -> Vec<u8> {
    let b = s.as_bytes();
    let mut out = Vec::new();
    let mut i = 0;
    while i < b.len() {
        if b[i] == b'%' && i + 2 < b.len() {
            out.push(u8::from_str_radix(&s[i + 1..i + 3], 16).unwrap());
            i += 3;
        } else {
            out.push(b[i]);
            i += 1;
        }
    }
    out
}

#[test]
fn percent_encoding_decodes_back_and_grows_by_escapes() {
    for path in ["C:/Develop/my project", "/home/\u{fc}ser/a%b", "plain-path_1.2~:/x", ""] {
        let enc = percent_encode_path(path);
        assert_eq!(percent_decode(&enc), path.as_bytes());
        let escaped = path
            .bytes()
            .filter(|c| !(c.is_ascii_alphanumeric() || b"-_.~/:".contains(c)))
            .count();
        assert_eq!(enc.len(), path.len() + 2 * escaped);
        assert!(enc.bytes().all(|c| c.is_ascii_alphanumeric() || b"-_.~/:%".contains(&c)));
    }
}
