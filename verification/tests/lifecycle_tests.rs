use runner_mgr::config::Config;
use runner_mgr::github::RunnerScope;
use runner_mgr::lifecycle::{
    add_plan, begin_add, begin_remove, deregister_command, expand_tilde, find_instance,
    import_plan, import_precheck, import_scope, is_managed, normalize_labels,
    release_version_of_tag, resolve_runner_name, resolve_source_path, restart_runner_plan,
    runner_display_name, runner_download_url, runner_package_name, runner_package_os,
    start_runner_plan, stop_runner_plan, token_scope_hint, unmanaged_runners, LifecycleError,
    TokenPurpose,
};
use runner_mgr::runner::{build_inventory, DiscoveredRunner, InstanceEntry, RunnerStatus};

fn linux_config() -> Config {
    Config {
        github_pat: "ghp_test".to_string(),
        github_user: "user".to_string(),
        runner_user: "github".to_string(),
        runner_os: "linux".to_string(),
        runner_arch: "x64".to_string(),
        instances_base: "/opt/github-runners".to_string(),
    }
}

fn repo_scope() -> RunnerScope {
    RunnerScope::parse("owner/repo").unwrap()
}

// Adding

#[test]
fn test_add_on_existing_instance_fails_before_any_side_effect() {
    // an existing directory stops the operation: no token request comes back,
    // so nothing remote is contacted and no command is planned
    let r = begin_add(&repo_scope(), true);
    assert!(matches!(r, Err(LifecycleError::AlreadyConfigured)));
}

#[test]
fn test_add_requests_registration_token() {
    let t = begin_add(&repo_scope(), false).unwrap();
    assert_eq!(t.api_path, "repos/owner/repo");
    assert_eq!(t.purpose, TokenPurpose::Registration);
}

#[test]
fn test_token_scope_hint() {
    assert_eq!(token_scope_hint(&repo_scope()), "repo");
    let org = RunnerScope::parse("org:myorg").unwrap();
    assert_eq!(token_scope_hint(&org), "admin:org");
}

#[test]
fn test_normalize_labels() {
    assert_eq!(normalize_labels("gpu,fast"), "self-hosted,gpu,fast");
    assert_eq!(normalize_labels("self-hosted,gpu"), "self-hosted,gpu");
    assert_eq!(normalize_labels(""), "self-hosted,");
}

#[test]
fn test_runner_display_name() {
    let name = runner_display_name("myhost", &repo_scope());
    assert_eq!(name, "myhost-owner__repo");

    let long_host = "h".repeat(80);
    let name = runner_display_name(&long_host, &repo_scope());
    assert_eq!(name.chars().count(), 64);
}

#[test]
fn test_resolve_runner_name_is_bounded() {
    let name = resolve_runner_name(&repo_scope());
    assert!(name.chars().count() <= 64);
    assert!(name.ends_with("owner__repo") || name.chars().count() == 64);
}

#[test]
fn test_add_plan_commands() {
    let config = linux_config();
    let plan = add_plan(&config, &repo_scope(), "gpu", "TOKEN123", "host-owner__repo");
    assert_eq!(plan.dir, "/opt/github-runners/instances/owner__repo");
    assert_eq!(plan.labels, "self-hosted,gpu");
    assert_eq!(plan.steps.len(), 6);
    assert_eq!(plan.steps[0].cmd.program, "sudo");
    assert_eq!(plan.steps[0].cmd.args, vec!["mkdir", "-p", &plan.dir]);
    assert_eq!(plan.steps[1].cmd.args, vec!["chown", "github", &plan.dir]);
    assert_eq!(
        plan.steps[2].cmd.args,
        vec![
            "-u",
            "github",
            "cp",
            "-a",
            "/opt/github-runners/template/.",
            "/opt/github-runners/instances/owner__repo/"
        ]
    );
    assert_eq!(
        plan.steps[3].cmd.args,
        vec![
            "-u",
            "github",
            "/opt/github-runners/instances/owner__repo/config.sh",
            "--url",
            "https://github.com/owner/repo",
            "--token",
            "TOKEN123",
            "--name",
            "host-owner__repo",
            "--labels",
            "self-hosted,gpu",
            "--unattended",
            "--replace"
        ]
    );
    assert_eq!(plan.steps[4].cwd.as_deref(), Some(plan.dir.as_str()));
    assert_eq!(
        plan.steps[4].cmd.args,
        vec![
            "/opt/github-runners/instances/owner__repo/svc.sh",
            "install",
            "github"
        ]
    );
    assert_eq!(
        plan.steps[5].cmd.args,
        vec!["/opt/github-runners/instances/owner__repo/svc.sh", "start"]
    );
}

// Removing

#[test]
fn test_remove_on_unmanaged_scope_fails_with_no_side_effects() {
    let config = linux_config();
    let r = begin_remove(&config, &repo_scope(), false, false);
    assert!(matches!(r, Err(LifecycleError::NotConfigured)));
    let msg = r.unwrap_err().message();
    assert!(msg.contains("not configured") || msg.contains("No runner configured"));
}

#[test]
fn test_remove_plan() {
    let config = linux_config();
    let plan = begin_remove(&config, &repo_scope(), true, true).unwrap();
    assert_eq!(plan.dir, "/opt/github-runners/instances/owner__repo");
    assert_eq!(plan.service_steps.len(), 2);
    assert_eq!(
        plan.service_steps[0].cmd.args,
        vec!["/opt/github-runners/instances/owner__repo/svc.sh", "stop"]
    );
    assert_eq!(
        plan.service_steps[1].cmd.args,
        vec![
            "/opt/github-runners/instances/owner__repo/svc.sh",
            "uninstall"
        ]
    );
    assert_eq!(plan.token_request.api_path, "repos/owner/repo");
    assert_eq!(plan.token_request.purpose, TokenPurpose::Removal);
    assert_eq!(plan.cleanup.program, "sudo");
    assert_eq!(plan.cleanup.args, vec!["rm", "-rf", &plan.dir]);
}

#[test]
fn test_remove_plan_without_service_marker() {
    let config = linux_config();
    let plan = begin_remove(&config, &repo_scope(), true, false).unwrap();
    assert!(plan.service_steps.is_empty());
}

#[test]
fn test_deregister_command() {
    let config = linux_config();
    let cmd = deregister_command(&config, "/opt/github-runners/instances/owner__repo", "RTOK");
    assert_eq!(cmd.program, "sudo");
    assert_eq!(
        cmd.args,
        vec![
            "-u",
            "github",
            "/opt/github-runners/instances/owner__repo/config.sh",
            "remove",
            "--token",
            "RTOK"
        ]
    );
}

// Starting, stopping, restarting

#[test]
fn test_start_requires_instance_and_service() {
    let config = linux_config();
    let r = start_runner_plan(&config, false, None, None);
    assert!(matches!(r, Err(LifecycleError::NotConfigured)));
    let r = start_runner_plan(&config, true, None, None);
    assert!(matches!(r, Err(LifecycleError::NoService)));
}

#[test]
fn test_start_stop_plans_linux() {
    let config = linux_config();
    let p = start_runner_plan(&config, true, Some("actions.runner.x"), None).unwrap();
    assert_eq!(p.primary.program, "sudo");
    assert_eq!(
        p.primary.args,
        vec!["systemctl", "start", "actions.runner.x.service"]
    );
    assert!(p.fallback.is_none());

    let p = stop_runner_plan(&config, true, Some("actions.runner.x"), None).unwrap();
    assert_eq!(
        p.primary.args,
        vec!["systemctl", "stop", "actions.runner.x.service"]
    );
}

#[test]
fn test_restart_is_stop_then_start() {
    let config = linux_config();
    let (stopper, starter) =
        restart_runner_plan(&config, true, Some("actions.runner.x"), None).unwrap();
    assert_eq!(
        stopper.primary.args,
        vec!["systemctl", "stop", "actions.runner.x.service"]
    );
    assert_eq!(
        starter.primary.args,
        vec!["systemctl", "start", "actions.runner.x.service"]
    );
}

// Importing

#[test]
fn test_import_precheck() {
    let r = import_precheck(false, false);
    assert!(matches!(r, Err(LifecycleError::SourceMissing)));
    assert!(r.unwrap_err().message().contains("does not exist"));

    let r = import_precheck(true, false);
    assert!(matches!(r, Err(LifecycleError::NotARunnerDirectory)));
    assert!(r.unwrap_err().message().contains("Not a valid runner directory"));

    assert!(import_precheck(true, true).is_ok());
}

#[test]
fn test_import_scope_sources() {
    let s = import_scope(Some("owner/repo"), None).unwrap();
    assert_eq!(s.to_display(), "owner/repo");

    let content = r#"{"gitHubUrl": "https://github.com/a/b"}"#;
    let s = import_scope(None, Some(content)).unwrap();
    assert_eq!(s.to_display(), "a/b");

    let r = import_scope(None, None);
    assert!(matches!(r, Err(LifecycleError::NoScopeDetected)));

    let r = import_scope(Some("nonsense"), Some(content));
    assert!(matches!(r, Err(LifecycleError::Scope(_))));
}

#[test]
fn test_import_plan_refuses_managed_scope() {
    let config = linux_config();
    let r = import_plan(&config, &repo_scope(), "/src", true, true);
    assert!(matches!(r, Err(LifecycleError::AlreadyConfigured)));
}

#[test]
fn test_import_plan_links_source() {
    let config = linux_config();
    let plan = import_plan(&config, &repo_scope(), "/home/u/actions-runner", true, false).unwrap();
    assert_eq!(plan.target_dir, "/opt/github-runners/instances/owner__repo");
    assert_eq!(plan.steps.len(), 1);
    assert_eq!(
        plan.steps[0].cmd.args,
        vec![
            "-u",
            "github",
            "ln",
            "-s",
            "/home/u/actions-runner",
            "/opt/github-runners/instances/owner__repo"
        ]
    );

    let plan = import_plan(&config, &repo_scope(), "/src", false, false).unwrap();
    assert_eq!(plan.steps.len(), 3);
    assert_eq!(
        plan.steps[0].cmd.args,
        vec!["mkdir", "-p", "/opt/github-runners/instances"]
    );
    assert_eq!(
        plan.steps[1].cmd.args,
        vec!["chown", "github", "/opt/github-runners/instances"]
    );
}

#[test]
fn test_expand_tilde() {
    assert_eq!(expand_tilde("~/runners", Some("/home/u")), "/home/u/runners");
    assert_eq!(expand_tilde("~/runners", None), "~/runners");
    assert_eq!(expand_tilde("/abs/path", Some("/home/u")), "/abs/path");
}

#[test]
fn test_resolve_source_path() {
    assert_eq!(resolve_source_path("/abs/path").unwrap(), "/abs/path");
    // with a home directory known, a tilde expands; the suffix survives
    match resolve_source_path("~/runners") {
        Ok(p) => {
            assert!(p.ends_with("/runners"));
            assert!(!p.starts_with("~"));
        }
        Err(e) => assert!(matches!(e, LifecycleError::NoHomeDirectory)),
    }
}

// Scanning

#[test]
fn test_unmanaged_runners_partition() {
    let managed_entries = vec![InstanceEntry {
        name: "owner__repo".to_string(),
        service_name: None,
        probe_running: false,
    }];
    let instances = build_inventory("/r", &managed_entries);

    let discovered = vec![
        DiscoveredRunner {
            path: "/opt/r1".to_string(),
            scope: RunnerScope::parse("owner/repo").unwrap(),
            agent_name: None,
        },
        DiscoveredRunner {
            path: "/opt/r2".to_string(),
            scope: RunnerScope::parse("other/repo").unwrap(),
            agent_name: Some("agent".to_string()),
        },
    ];

    assert!(is_managed(&instances, &discovered[0].scope));
    assert!(!is_managed(&instances, &discovered[1].scope));

    let unmanaged = unmanaged_runners(&discovered, &instances);
    assert_eq!(unmanaged.len(), 1);
    assert_eq!(unmanaged[0].path, "/opt/r2");
}

// Release packaging

#[test]
fn test_release_helpers() {
    assert_eq!(runner_package_os("darwin"), "osx");
    assert_eq!(runner_package_os("linux"), "linux");
    assert_eq!(release_version_of_tag("v2.321.0"), "2.321.0");
    assert_eq!(
        runner_package_name("linux", "x64", "2.321.0"),
        "actions-runner-linux-x64-2.321.0.tar.gz"
    );
    assert_eq!(
        runner_download_url("linux", "x64", "2.321.0"),
        "https://github.com/actions/runner/releases/download/v2.321.0/actions-runner-linux-x64-2.321.0.tar.gz"
    );
}

// End to end, with the remote stubbed

#[test]
fn test_add_flow_end_to_end() {
    let config = linux_config();
    let scope = RunnerScope::parse("owner/repo").unwrap();

    // the instances root is empty: nothing exists for the scope
    let token_request = begin_add(&scope, false).unwrap();
    assert_eq!(token_request.api_path, "repos/owner/repo");

    // a stubbed remote answers the token request
    let token = "STUBTOKEN";
    let name = runner_display_name("host", &scope);
    let plan = add_plan(&config, &scope, "ci", token, &name);

    // the plan materializes the directory and starts the service
    assert_eq!(plan.dir, "/opt/github-runners/instances/owner__repo");
    assert!(plan.steps[0].cmd.args.contains(&"mkdir".to_string()));
    assert_eq!(
        plan.steps[5].cmd.args,
        vec!["/opt/github-runners/instances/owner__repo/svc.sh", "start"]
    );

    // after the plan ran, a scan of the instances root reports the scope
    // with its service running
    let entries = vec![InstanceEntry {
        name: "owner__repo".to_string(),
        service_name: Some("actions.runner.owner-repo.host".to_string()),
        probe_running: true,
    }];
    let instances = build_inventory("/opt/github-runners/instances", &entries);
    assert_eq!(instances.len(), 1);
    let i = find_instance(&instances, &scope).unwrap();
    assert_eq!(instances[i].status, RunnerStatus::Running);
    assert_eq!(instances[i].scope.to_display(), "owner/repo");
}
