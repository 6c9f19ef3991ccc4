use capcut_version_guard::config::{key_line, lock_config_lines, rewrite_config};
use capcut_version_guard::paths::base_name_of;
use capcut_version_guard::text::{decimal_string, join_with_newlines, split_lines, trim_bounds};

fn strings(xs: &[&str]) -> Vec<String> {
    xs.iter().map(|x| x.to_string()).collect()
}

#[test]
fn rewrite_replaces_key_line_in_place() {
    let out = lock_config_lines(&strings(&["foo=1", "last_version=0.0.0.1", "bar=2"]));
    assert_eq!(out, strings(&["foo=1", "last_version=1.0.0.0", "bar=2"]));
}

#[test]
fn rewrite_appends_missing_key_line() {
    let out = lock_config_lines(&strings(&["foo=1"]));
    assert_eq!(out, strings(&["foo=1", "last_version=1.0.0.0"]));
}

#[test]
fn rewrite_text_preserves_unrelated_lines() {
    assert_eq!(
        rewrite_config("foo=1\nlast_version=0.0.0.1\nbar=2"),
        "foo=1\nlast_version=1.0.0.0\nbar=2"
    );
}

#[test]
fn rewrite_text_appends_when_absent() {
    assert_eq!(rewrite_config("foo=1"), "foo=1\nlast_version=1.0.0.0");
}

#[test]
fn rewrite_of_empty_file() {
    assert_eq!(rewrite_config(""), "last_version=1.0.0.0");
}

#[test]
fn rewrite_twice_is_rewrite_once() {
    for input in [
        "foo=1\nlast_version=0.0.0.1\nbar=2",
        "foo=1",
        "",
        "  last_version = 9\r\nx=y\r\nlast_version=2\n",
        "a\n\nb",
    ] {
        let once = rewrite_config(input);
        let twice = rewrite_config(&once);
        assert_eq!(once.as_bytes(), twice.as_bytes(), "input {:?}", input);
    }
}

#[test]
fn rewrite_replaces_every_key_line() {
    assert_eq!(
        rewrite_config("last_version=1\nx=2\n\tlast_version_old=3\n"),
        "last_version=1.0.0.0\nx=2\nlast_version=1.0.0.0"
    );
}

#[test]
fn rewrite_drops_carriage_returns_and_final_newline() {
    assert_eq!(rewrite_config("a=1\r\nb=2\r\n"), "a=1\nb=2\nlast_version=1.0.0.0");
}

#[test]
fn key_line_uses_trimmed_form() {
    assert!(key_line("   last_version=3"));
    assert!(key_line("\u{3000}last_version"));
    assert!(!key_line("# last_version=3"));
    assert!(!key_line("last_versio"));
    assert!(!key_line("LAST_VERSION=1"));
}

#[test]
fn split_lines_matches_std_lines() {
    for input in ["", "a", "a\n", "a\r\nb", "a\r", "\n", "a\n\nb\n", "x\r\r\ny"] {
        let ours = split_lines(input);
        let std_lines: Vec<String> = input.lines().map(|l| l.to_string()).collect();
        assert_eq!(ours, std_lines, "input {:?}", input);
    }
}

#[test]
fn join_with_newlines_joins() {
    assert_eq!(join_with_newlines(&strings(&["a", "", "b"])), "a\n\nb");
    assert_eq!(join_with_newlines(&strings(&[])), "");
}

#[test]
fn trim_bounds_skips_unicode_whitespace() {
    let s = "\u{a0} ab c\t\u{2009}";
    let (a, b) = trim_bounds(s);
    let chars: Vec<char> = s.chars().collect();
    let trimmed: String = chars[a..b].iter().collect();
    assert_eq!(trimmed, s.trim());
}

#[test]
fn decimal_string_formats() {
    assert_eq!(decimal_string(0), "0");
    assert_eq!(decimal_string(7), "7");
    assert_eq!(decimal_string(1203), "1203");
    assert_eq!(decimal_string(usize::MAX), usize::MAX.to_string());
}

#[test]
fn base_name_takes_last_component() {
    assert_eq!(base_name_of("C:\\Users\\me\\AppData\\Local\\CapCut\\Apps\\3.2.0"), "3.2.0");
    assert_eq!(base_name_of("/home/me/apps/2.9.0/"), "2.9.0");
    assert_eq!(base_name_of("1.5.0"), "1.5.0");
    assert_eq!(base_name_of(""), "");
}

#[test]
fn trailing_empty_line_after_key_is_dropped_on_second_rewrite() {
    let once = rewrite_config("last_version=0\n\n");
    assert_eq!(once, "last_version=1.0.0.0\n");
    assert_eq!(rewrite_config(&once), "last_version=1.0.0.0");
}

#[test]
fn rewrite_keeps_one_key_line_per_key_line() {
    let out = rewrite_config("last_version=1\nx=2\n last_version=3");
    let keys = out.lines().filter(|l| l.trim().starts_with("last_version")).count();
    assert_eq!(keys, 2);
    let again = rewrite_config(&rewrite_config("x=2"));
    assert_eq!(again.lines().filter(|l| l.trim().starts_with("last_version")).count(), 1);
}
