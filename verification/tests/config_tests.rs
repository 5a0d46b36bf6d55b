use runner_mgr::config::Config;
use runner_mgr::github::RunnerScope;

fn sample_config() -> Config {
    Config {
        github_pat: "ghp_test".to_string(),
        github_user: "user".to_string(),
        runner_user: "github".to_string(),
        runner_os: "linux".to_string(),
        runner_arch: "x64".to_string(),
        instances_base: "/opt/github-runners".to_string(),
    }
}

#[test]
fn test_instance_dir_path() {
    let config = sample_config();
    let scope = RunnerScope::parse("myuser/myrepo").unwrap();
    let dir = config.instance_dir(&scope);
    assert_eq!(dir, "/opt/github-runners/instances/myuser__myrepo");
}

#[test]
fn test_template_dir_path() {
    let config = sample_config();
    let dir = config.template_dir();
    assert_eq!(dir, "/opt/github-runners/template");
}

#[test]
fn test_detect_os() {
    let os = Config::detect_os("linux");
    assert!(os == "linux" || os == "darwin");
}

#[test]
fn test_detect_arch() {
    let arch = Config::detect_arch("x86_64");
    assert!(arch == "x64" || arch == "arm64");
}

#[test]
fn test_detect_os_values() {
    assert_eq!(Config::detect_os("macos"), "darwin");
    assert_eq!(Config::detect_os("linux"), "linux");
    assert_eq!(Config::detect_os("freebsd"), "linux");
}

#[test]
fn test_detect_arch_values() {
    assert_eq!(Config::detect_arch("aarch64"), "arm64");
    assert_eq!(Config::detect_arch("x86_64"), "x64");
}

#[test]
fn test_instances_dir_path() {
    let config = sample_config();
    assert_eq!(config.instances_dir(), "/opt/github-runners/instances");
}

#[test]
fn test_config_file_paths() {
    assert_eq!(
        Config::config_file("/home/u/.config/runner-mgr"),
        "/home/u/.config/runner-mgr/config.toml"
    );
    assert_eq!(
        runner_mgr::config::ScanConfig::config_file("/home/u/.config/runner-mgr"),
        "/home/u/.config/runner-mgr/scan.toml"
    );
}
