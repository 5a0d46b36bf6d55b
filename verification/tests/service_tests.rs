use runner_mgr::service::{
    extract_service_label, is_launch_agent, is_plist_path, journal_command, normalize_uid,
    parse_macos_service, start_plan, status_command, stop_plan, ServiceError,
};

#[test]
fn test_extract_service_label() {
    assert_eq!(
        extract_service_label("/Library/LaunchDaemons/actions.runner.a-b.host.plist"),
        "actions.runner.a-b.host"
    );
    assert_eq!(extract_service_label("actions.runner.a-b.host.plist"), "actions.runner.a-b.host");
    assert_eq!(extract_service_label("actions.runner.a-b.host"), "actions.runner.a-b.host");
    // a bare hidden file has no stem to strip
    assert_eq!(extract_service_label(".plist"), ".plist");
}

#[test]
fn test_is_plist_path() {
    assert!(is_plist_path("/Library/LaunchDaemons/a.plist"));
    assert!(is_plist_path("a.plist"));
    assert!(!is_plist_path("a.service"));
    assert!(!is_plist_path(".plist"));
}

#[test]
fn test_plist_extension_case_insensitive() {
    // the extension matches in any ASCII letter case
    assert!(is_plist_path("a.PLIST"));
    assert!(is_plist_path("/Library/LaunchDaemons/a.PList"));
    assert_eq!(
        extract_service_label("/Library/LaunchDaemons/actions.runner.x.PLIST"),
        "actions.runner.x"
    );
    assert_eq!(extract_service_label("actions.runner.x.PList"), "actions.runner.x");
    // so an upper-cased plist path still gets the load fallback
    let p = start_plan("darwin", "/Library/LaunchDaemons/actions.runner.x.PLIST", None).unwrap();
    assert_eq!(
        p.primary.args,
        vec!["launchctl", "kickstart", "-k", "system/actions.runner.x"]
    );
    assert!(p.fallback.is_some());
}

#[test]
fn test_is_launch_agent() {
    assert!(is_launch_agent("/Users/u/Library/LaunchAgents/a.plist"));
    assert!(is_launch_agent("Library/LaunchAgents"));
    assert!(!is_launch_agent("/Library/LaunchDaemons/a.plist"));
}

#[test]
fn test_parse_macos_service_daemon() {
    let (label, target) =
        parse_macos_service("/Library/LaunchDaemons/actions.runner.x.plist", None).unwrap();
    assert_eq!(label, "actions.runner.x");
    assert_eq!(target, "system/actions.runner.x");
}

#[test]
fn test_parse_macos_service_agent() {
    let (label, target) = parse_macos_service(
        "/Users/u/Library/LaunchAgents/actions.runner.x.plist",
        Some("501"),
    )
    .unwrap();
    assert_eq!(label, "actions.runner.x");
    assert_eq!(target, "gui/501/actions.runner.x");

    let r = parse_macos_service("/Users/u/Library/LaunchAgents/actions.runner.x.plist", None);
    assert!(matches!(r, Err(ServiceError::MissingUid)));
}

#[test]
fn test_status_command() {
    let c = status_command("linux", "actions.runner.x");
    assert_eq!(c.program, "systemctl");
    assert_eq!(c.args, vec!["is-active", "--quiet", "actions.runner.x"]);

    let c = status_command("darwin", "/Library/LaunchDaemons/actions.runner.x.plist");
    assert_eq!(c.program, "sudo");
    assert_eq!(c.args, vec!["launchctl", "list", "actions.runner.x"]);
}

#[test]
fn test_start_plan_darwin_with_fallback() {
    let p = start_plan("darwin", "/Library/LaunchDaemons/actions.runner.x.plist", None).unwrap();
    assert_eq!(p.primary.program, "sudo");
    assert_eq!(
        p.primary.args,
        vec!["launchctl", "kickstart", "-k", "system/actions.runner.x"]
    );
    let f = p.fallback.unwrap();
    assert_eq!(f.requires_path, "/Library/LaunchDaemons/actions.runner.x.plist");
    assert_eq!(
        f.cmd.args,
        vec!["launchctl", "load", "/Library/LaunchDaemons/actions.runner.x.plist"]
    );
}

#[test]
fn test_start_plan_darwin_bare_label() {
    // a bare label is not a plist path: no fallback applies
    let p = start_plan("darwin", "actions.runner.x", None).unwrap();
    assert_eq!(
        p.primary.args,
        vec!["launchctl", "kickstart", "-k", "system/actions.runner.x"]
    );
    assert!(p.fallback.is_none());
}

#[test]
fn test_stop_plan_darwin() {
    let p = stop_plan("darwin", "/Library/LaunchDaemons/actions.runner.x.plist", None).unwrap();
    assert_eq!(
        p.primary.args,
        vec!["launchctl", "kill", "SIGTERM", "system/actions.runner.x"]
    );
    let f = p.fallback.unwrap();
    assert_eq!(
        f.cmd.args,
        vec!["launchctl", "unload", "/Library/LaunchDaemons/actions.runner.x.plist"]
    );
}

#[test]
fn test_stop_plan_linux() {
    let p = stop_plan("linux", "actions.runner.x", None).unwrap();
    assert_eq!(p.primary.program, "sudo");
    assert_eq!(p.primary.args, vec!["systemctl", "stop", "actions.runner.x.service"]);
    assert!(p.fallback.is_none());
}

#[test]
fn test_journal_command() {
    let c = journal_command("actions.runner.x", 50);
    assert_eq!(c.program, "sudo");
    assert_eq!(
        c.args,
        vec!["journalctl", "-u", "actions.runner.x", "-n", "50", "--no-pager"]
    );
}

#[test]
fn test_normalize_uid() {
    assert_eq!(normalize_uid("501\n").as_deref(), Some("501"));
    assert_eq!(normalize_uid("  1000  ").as_deref(), Some("1000"));
    assert_eq!(normalize_uid("not a uid"), None);
    assert_eq!(normalize_uid(""), None);
    assert_eq!(normalize_uid("12x"), None);
    // trimming covers the whole Unicode white-space set
    assert_eq!(normalize_uid("\u{a0}501\u{2028}").as_deref(), Some("501"));
}
