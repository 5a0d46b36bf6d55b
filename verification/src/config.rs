//! Host configuration: who runs the runners and where they live on disk.
//!
//! The configuration itself is plain data; loading and saving it are I/O and
//! stay outside the library.  The path derivations here are the single
//! source of truth for the on-disk layout: a base directory with an
//! `instances` tree (one directory per managed scope) and a `template` tree
//! (the golden runner copy).

use vstd::prelude::*;
use vstd::string::*;

use crate::github::{spec_dir_name, RunnerScope};
use crate::strutil::{concat2, concat3, str_eq};

verus! {

/// Settings for the runner scanner: extra directories to probe.
#[derive(Debug, Clone)]
pub struct ScanConfig {
    /// Additional paths to scan for runner directories.
    pub paths: Vec<String>,
}

impl Default for ScanConfig {
    /// A scanner configuration with no extra paths.
    fn default() -> (r: ScanConfig)
        ensures
            r.paths@.len() == 0,
    {
        ScanConfig { paths: Vec::new() }
    }
}

impl ScanConfig {
    /// The scanner settings file inside the given configuration directory.
    pub fn config_file(config_dir: &str) -> (r: String)
        ensures
            r@ == config_dir@ + "/scan.toml"@,
    {
        concat2(config_dir, "/scan.toml")
    }
}

/// The host configuration the tool operates under.
#[derive(Debug, Clone)]
pub struct Config {
    /// Personal access token for the remote registry.
    pub github_pat: String,
    /// Account name the token authenticates.
    pub github_user: String,
    /// Local account that owns and runs the runner processes.
    pub runner_user: String,
    /// Host operating system: `linux` or `darwin`.
    pub runner_os: String,
    /// Host architecture: `x64` or `arm64`.
    pub runner_arch: String,
    /// Base directory that holds the instances and template trees.
    pub instances_base: String,
}

impl Config {
    /// The configuration file inside the given configuration directory.
    pub fn config_file(config_dir: &str) -> (r: String)
        ensures
            r@ == config_dir@ + "/config.toml"@,
    {
        concat2(config_dir, "/config.toml")
    }

    /// The directory that holds one subdirectory per managed instance.
    pub fn instances_dir(&self) -> (r: String)
        ensures
            r@ == self.instances_base@ + "/instances"@,
    {
        concat2(self.instances_base.as_str(), "/instances")
    }

    /// The directory that holds the golden runner copy.
    pub fn template_dir(&self) -> (r: String)
        ensures
            r@ == self.instances_base@ + "/template"@,
    {
        concat2(self.instances_base.as_str(), "/template")
    }

    /// The instance directory of one scope, under the instances tree.
    pub fn instance_dir(&self, scope: &RunnerScope) -> (r: String)
        ensures
            r@ == self.instances_base@ + "/instances/"@ + spec_dir_name(scope@),
    {
        let name = scope.to_dir_name();
        let r = concat3(self.instances_dir().as_str(), "/", name.as_str());
        proof {
            reveal_strlit("/instances");
            reveal_strlit("/");
            reveal_strlit("/instances/");
            assert(r@ =~= self.instances_base@ + "/instances/"@ + spec_dir_name(scope@));
        }
        r
    }

    /// The runner package name for a build-target operating system:
    /// `darwin` for macOS hosts, `linux` for everything else.
    pub fn detect_os(target_os: &str) -> (r: String)
        ensures
            r@ == if target_os@ == "macos"@ {
                "darwin"@
            } else {
                "linux"@
            },
    {
        if str_eq(target_os, "macos") {
            String::from_str("darwin")
        } else {
            String::from_str("linux")
        }
    }

    /// The runner package name for a build-target architecture:
    /// `arm64` for aarch64 hosts, `x64` for everything else.
    pub fn detect_arch(target_arch: &str) -> (r: String)
        ensures
            r@ == if target_arch@ == "aarch64"@ {
                "arm64"@
            } else {
                "x64"@
            },
    {
        if str_eq(target_arch, "aarch64") {
            String::from_str("arm64")
        } else {
            String::from_str("x64")
        }
    }
}

} // verus!
