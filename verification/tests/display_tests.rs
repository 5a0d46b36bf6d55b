use runner_mgr::display::{format_duration, format_scope_display, truncate};
use runner_mgr::github::RunnerScope;
use runner_mgr::strutil::{join_tail, split_char, u32_to_string};

#[test]
fn test_format_duration() {
    assert_eq!(format_duration(45), "45s");
    assert_eq!(format_duration(60), "1m");
    assert_eq!(format_duration(90), "1m 30s");
    assert_eq!(format_duration(300), "5m");
    assert_eq!(format_duration(3600), "1h 0m");
    assert_eq!(format_duration(5400), "1h 30m");
}

#[test]
fn test_truncate() {
    assert_eq!(truncate("short", 15), "short");
    assert_eq!(truncate("a-very-long-name", 10), "a-very-...");
    assert_eq!(truncate("abcdef", 3), "...");
}

#[test]
fn test_format_scope_display() {
    let repo = RunnerScope::parse("owner/repo").unwrap();
    assert_eq!(format_scope_display(&repo, 30), "owner/repo");

    let org = RunnerScope::parse("org:myorg").unwrap();
    assert_eq!(format_scope_display(&org, 30), "[org] myorg");

    let long = RunnerScope::parse("averylongownername/averylongreponame").unwrap();
    let cell = format_scope_display(&long, 20);
    assert_eq!(cell.chars().count(), 20);
    assert!(cell.starts_with("..."));
    assert!(cell.ends_with("reponame"));
}

#[test]
fn test_u32_to_string() {
    assert_eq!(u32_to_string(0), "0");
    assert_eq!(u32_to_string(7), "7");
    assert_eq!(u32_to_string(4294967295), "4294967295");
}

#[test]
fn test_split_and_join_tail() {
    let lines = split_char("a\nb\nc\nd", '\n');
    assert_eq!(lines, vec!["a", "b", "c", "d"]);
    assert_eq!(join_tail(&lines, 2), "c\nd");
    assert_eq!(join_tail(&lines, 10), "a\nb\nc\nd");
    assert_eq!(join_tail(&lines, 0), "");

    let single = split_char("no breaks", '\n');
    assert_eq!(single, vec!["no breaks"]);
}
