use runner_mgr::github::RunnerScope;
use runner_mgr::runner::{
    build_inventory, check_service_status, match_systemd_units, parse_repo_from_runner_config,
    parse_scope_from_runner_config, parse_service_name, validate_runner_directory,
    detect_launchd_service, InstanceEntry, PlistFile, RunnerStatus,
};

#[test]
fn test_runner_status_display() {
    assert_eq!(RunnerStatus::Running.to_display(), "running");
    assert_eq!(RunnerStatus::Stopped.to_display(), "stopped");
    assert_eq!(RunnerStatus::NoService.to_display(), "no service");
    assert_eq!(RunnerStatus::Unknown.to_display(), "unknown");
}

// Reading the registered repository out of runner metadata

#[test]
fn test_parse_repo_from_runner_config_valid() {
    let content = r#"{"gitHubUrl": "https://github.com/myowner/myrepo"}"#;
    let result = parse_repo_from_runner_config(content).unwrap();
    assert_eq!(result, "myowner/myrepo");
}

#[test]
fn test_parse_repo_from_runner_config_with_trailing_slash() {
    let content = r#"{"gitHubUrl": "https://github.com/owner/repo/"}"#;
    let result = parse_repo_from_runner_config(content).unwrap();
    assert_eq!(result, "owner/repo");
}

#[test]
fn test_parse_repo_from_runner_config_http_url() {
    let content = r#"{"gitHubUrl": "http://github.com/owner/repo"}"#;
    let result = parse_repo_from_runner_config(content).unwrap();
    assert_eq!(result, "owner/repo");
}

#[test]
fn test_parse_repo_from_runner_config_missing_url() {
    let content = r#"{"somethingElse": "value"}"#;
    let result = parse_repo_from_runner_config(content);
    assert!(result.is_err());
    let err = result.unwrap_err().message();
    assert!(err.contains("No gitHubUrl found"));
}

#[test]
fn test_parse_repo_from_runner_config_invalid_json() {
    let content = "not valid json";
    let result = parse_repo_from_runner_config(content);
    assert!(result.is_err());
    let err = result.unwrap_err().message();
    assert!(err.contains("Failed to parse"));
}

#[test]
fn test_parse_repo_from_runner_config_unexpected_format() {
    let content = r#"{"gitHubUrl": "https://gitlab.com/owner/repo"}"#;
    let result = parse_repo_from_runner_config(content);
    assert!(result.is_err());
    let err = result.unwrap_err().message();
    assert!(err.contains("Unexpected GitHub URL format"));
}

#[test]
fn test_parse_repo_from_runner_config_with_bom() {
    // UTF-8 BOM followed by valid JSON
    let content = "\u{feff}{\"gitHubUrl\": \"https://github.com/owner/repo\"}";
    let result = parse_repo_from_runner_config(content).unwrap();
    assert_eq!(result, "owner/repo");
}

#[test]
fn test_parse_repo_from_runner_config_org_rejected() {
    let content = r#"{"gitHubUrl": "https://github.com/myorg"}"#;
    let result = parse_repo_from_runner_config(content);
    assert!(result.is_err());
    let err = result.unwrap_err().message();
    assert!(err.contains("Expected repository URL but found organization"));
}

// Reading a scope out of runner metadata

#[test]
fn test_parse_scope_from_runner_config_repo() {
    let content = r#"{"gitHubUrl": "https://github.com/myowner/myrepo"}"#;
    let scope = parse_scope_from_runner_config(content).unwrap();
    assert!(matches!(
        scope,
        RunnerScope::Repository { owner, repo } if owner == "myowner" && repo == "myrepo"
    ));
}

#[test]
fn test_parse_scope_from_runner_config_org() {
    let content = r#"{"gitHubUrl": "https://github.com/myorg"}"#;
    let scope = parse_scope_from_runner_config(content).unwrap();
    assert!(matches!(
        scope,
        RunnerScope::Organization { org } if org == "myorg"
    ));
}

#[test]
fn test_parse_scope_from_runner_config_org_trailing_slash() {
    let content = r#"{"gitHubUrl": "https://github.com/myorg/"}"#;
    let scope = parse_scope_from_runner_config(content).unwrap();
    assert!(matches!(
        scope,
        RunnerScope::Organization { org } if org == "myorg"
    ));
}

// The service marker file

#[test]
fn test_parse_service_name() {
    assert_eq!(
        parse_service_name(Some("actions.runner.myservice\n")).as_deref(),
        Some("actions.runner.myservice")
    );
    assert_eq!(parse_service_name(Some("   \n")), None);
    assert_eq!(parse_service_name(None), None);
    // the whole Unicode white-space set is trimmed, and nothing inside
    assert_eq!(
        parse_service_name(Some("\u{a0}actions.runner.x\u{3000}\n")).as_deref(),
        Some("actions.runner.x")
    );
    assert_eq!(parse_service_name(Some("\u{2028}\u{205f}")), None);
}

#[test]
fn test_check_service_status() {
    assert_eq!(check_service_status(None, false), RunnerStatus::NoService);
    assert_eq!(check_service_status(Some("svc"), true), RunnerStatus::Running);
    assert_eq!(check_service_status(Some("svc"), false), RunnerStatus::Stopped);
}

// Building the inventory from observed entries

fn entry(name: &str, service: Option<&str>, running: bool) -> InstanceEntry {
    InstanceEntry {
        name: name.to_string(),
        service_name: service.map(|s| s.to_string()),
        probe_running: running,
    }
}

#[test]
fn test_inventory_lists_and_sorts_scopes() {
    let entries = vec![
        entry("owner__repo1", None, false),
        entry("owner__repo2", None, false),
        entry("org__myorg", None, false),
    ];
    let instances = build_inventory("/base/instances", &entries);
    assert_eq!(instances.len(), 3);
    assert_eq!(instances[0].scope.to_display(), "org:myorg");
    assert_eq!(instances[1].scope.to_display(), "owner/repo1");
    assert_eq!(instances[2].scope.to_display(), "owner/repo2");
    assert_eq!(instances[1].dir, "/base/instances/owner__repo1");
}

#[test]
fn test_inventory_sorted_by_display() {
    let entries = vec![
        entry("zzz__repo", None, false),
        entry("aaa__repo", None, false),
        entry("mmm__repo", None, false),
        entry("org__beta", None, false),
    ];
    let instances = build_inventory("/r", &entries);
    assert_eq!(instances.len(), 4);
    assert_eq!(instances[0].scope.to_display(), "aaa/repo");
    assert_eq!(instances[1].scope.to_display(), "mmm/repo");
    assert_eq!(instances[2].scope.to_display(), "org:beta");
    assert_eq!(instances[3].scope.to_display(), "zzz/repo");
}

#[test]
fn test_inventory_skips_undecodable_names() {
    let entries = vec![
        entry("not-a-scope", None, false),
        entry("owner__repo", None, false),
        entry("org__", None, false),
    ];
    let instances = build_inventory("/r", &entries);
    assert_eq!(instances.len(), 1);
    assert_eq!(instances[0].scope.to_display(), "owner/repo");
}

#[test]
fn test_inventory_carries_service_and_status() {
    let entries = vec![
        entry("owner__repo1", Some("actions.runner.myservice"), true),
        entry("owner__repo2", Some("other.service"), false),
        entry("org__quiet", None, false),
    ];
    let instances = build_inventory("/r", &entries);
    assert_eq!(instances.len(), 3);
    assert_eq!(instances[0].status, RunnerStatus::NoService);
    assert_eq!(
        instances[1].service_name.as_deref(),
        Some("actions.runner.myservice")
    );
    assert_eq!(instances[1].status, RunnerStatus::Running);
    assert_eq!(instances[2].status, RunnerStatus::Stopped);
}

// Validating discovered directories

#[test]
fn test_validate_runner_directory() {
    let content = r#"{"gitHubUrl": "https://github.com/a/b", "agentName": "host-a-b"}"#;
    let d = validate_runner_directory("/opt/actions-runner", true, Some(content)).unwrap();
    assert_eq!(d.path, "/opt/actions-runner");
    assert_eq!(d.scope.to_display(), "a/b");
    assert_eq!(d.agent_name.as_deref(), Some("host-a-b"));

    assert!(validate_runner_directory("/opt/x", false, Some(content)).is_none());
    assert!(validate_runner_directory("/opt/x", true, None).is_none());
    assert!(validate_runner_directory("/opt/x", true, Some("nonsense")).is_none());
}

// Service detection from listings

#[test]
fn test_match_systemd_units() {
    let lines = vec![
        "  cron.service        loaded active running Regular background jobs".to_string(),
        "  actions.runner.a-b.host.service loaded active running GitHub Actions Runner (a-b.host)"
            .to_string(),
    ];
    let unit = match_systemd_units(&lines, "host").unwrap();
    assert_eq!(unit, "actions.runner.a-b.host");

    assert!(match_systemd_units(&lines, "absent-agent").is_none());
}

#[test]
fn test_detect_launchd_service() {
    let files = vec![
        PlistFile {
            name: "com.apple.something.plist".to_string(),
            content: "<plist/>".to_string(),
        },
        PlistFile {
            name: "actions.runner.a-b.host.plist".to_string(),
            content: "<string>/opt/actions-runner</string>".to_string(),
        },
    ];
    let label = detect_launchd_service(&files, "/opt/actions-runner", "host").unwrap();
    assert_eq!(label, "actions.runner.a-b.host");

    // no content match: fall back to the agent name
    let label = detect_launchd_service(&files, "/elsewhere", "a-b.host").unwrap();
    assert_eq!(label, "actions.runner.a-b.host");

    assert!(detect_launchd_service(&files, "/elsewhere", "nobody").is_none());
}

#[test]
fn test_detect_launchd_service_upper_case_extension() {
    // the extension filter is case-insensitive; the label strip peels the
    // lowercase suffix only, so an upper-cased one stays in the label
    let files = vec![PlistFile {
        name: "actions.runner.a-b.host.PLIST".to_string(),
        content: "<string>/opt/actions-runner</string>".to_string(),
    }];
    let label = detect_launchd_service(&files, "/opt/actions-runner", "host").unwrap();
    assert_eq!(label, "actions.runner.a-b.host.PLIST");
}
