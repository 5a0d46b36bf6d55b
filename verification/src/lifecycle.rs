//! Lifecycle decisions: adding, removing, starting, stopping and importing
//! runner instances.
//!
//! Every operation here is a decision from plain observations (does the
//! instance directory exist, what did the marker file say) to either a
//! rejection or an exact plan of external commands.  State-consistency
//! checks come first: an `add` on an existing instance or a `remove` on an
//! unmanaged scope is rejected before any token request or command appears
//! in a plan.  Running the plans — and the best-effort error swallowing the
//! contracts call out — is the caller's concern.

use vstd::prelude::*;
use vstd::seq_lib::*;
use vstd::string::*;

use crate::config::Config;
use crate::github::{
    spec_api_path, spec_dir_name, spec_github_url, spec_parse, RunnerScope, ScopeError, ScopeView,
};
use crate::runner::{
    spec_scope_from_runner_file, InstanceView, RunnerFileError, RunnerInstance,
    parse_scope_from_runner_config,
};
use crate::service::{
    opt_str_view, spec_start_plan, spec_stop_plan, start_plan, stop_plan, Cmd, CmdView,
    ServiceError, ServicePlan,
};
use crate::strutil::{concat2, concat3, has_sub, starts_with_str, substring};

verus! {

/// Why a lifecycle operation was rejected.
#[derive(Debug, Clone, Copy, PartialEq, Eq, Structural)]
pub enum LifecycleError {
    /// An instance directory already exists for the scope.
    AlreadyConfigured,
    /// No instance directory exists for the scope.
    NotConfigured,
    /// The instance has no service on record.
    NoService,
    /// The source directory to import does not exist.
    SourceMissing,
    /// The source directory carries no runner configuration entry point.
    NotARunnerDirectory,
    /// Neither an explicit target nor runner metadata names the scope.
    NoScopeDetected,
    /// The home directory was needed for expansion and is unknown.
    NoHomeDirectory,
    /// An explicit target string did not parse.
    Scope(ScopeError),
    /// The runner metadata did not yield a scope.
    RunnerFile(RunnerFileError),
    /// The service backend could not be addressed.
    Service(ServiceError),
}

impl LifecycleError {
    /// Human-readable description of the rejection.
    pub fn message(&self) -> (r: String)
        ensures
            r@ == self.spec_message(),
    {
        match self {
            LifecycleError::AlreadyConfigured => String::from_str(
                "Runner already configured. Use 'remove' first.",
            ),
            LifecycleError::NotConfigured => String::from_str("No runner configured"),
            LifecycleError::NoService => String::from_str("No service configured"),
            LifecycleError::SourceMissing => String::from_str(
                "Runner directory does not exist",
            ),
            LifecycleError::NotARunnerDirectory => String::from_str(
                "Not a valid runner directory (missing config.sh)",
            ),
            LifecycleError::NoScopeDetected => String::from_str(
                "Could not auto-detect scope. No .runner file found. Use --target to specify.",
            ),
            LifecycleError::NoHomeDirectory => String::from_str(
                "Could not determine home directory",
            ),
            LifecycleError::Scope(e) => e.message(),
            LifecycleError::RunnerFile(e) => e.message(),
            LifecycleError::Service(e) => e.message(),
        }
    }

    /// The description each rejection carries.
    pub open spec fn spec_message(&self) -> Seq<char> {
        match self {
            LifecycleError::AlreadyConfigured => "Runner already configured. Use 'remove' first."@,
            LifecycleError::NotConfigured => "No runner configured"@,
            LifecycleError::NoService => "No service configured"@,
            LifecycleError::SourceMissing => "Runner directory does not exist"@,
            LifecycleError::NotARunnerDirectory => "Not a valid runner directory (missing config.sh)"@,
            LifecycleError::NoScopeDetected => "Could not auto-detect scope. No .runner file found. Use --target to specify."@,
            LifecycleError::NoHomeDirectory => "Could not determine home directory"@,
            LifecycleError::Scope(e) => e.spec_message(),
            LifecycleError::RunnerFile(e) => e.spec_message(),
            LifecycleError::Service(e) => e.spec_message(),
        }
    }
}

/// What a token is requested for.
#[derive(Debug, Clone, Copy, PartialEq, Eq, Structural)]
pub enum TokenPurpose {
    /// Registering a new runner.
    Registration,
    /// Deregistering an existing runner.
    Removal,
}

/// A request the remote registry must answer before a plan can proceed.
#[derive(Debug, Clone)]
pub struct TokenRequest {
    /// The scope's API path the request is keyed by.
    pub api_path: String,
    /// Whether a registration or a removal token is wanted.
    pub purpose: TokenPurpose,
}

/// The token scope the registry demands for registering under a scope:
/// `repo` for a repository, `admin:org` for an organization.
pub fn token_scope_hint(scope: &RunnerScope) -> (r: String)
    ensures
        r@ == if scope@ is Repository {
            "repo"@
        } else {
            "admin:org"@
        },
{
    match scope {
        RunnerScope::Repository { .. } => String::from_str("repo"),
        RunnerScope::Organization { .. } => String::from_str("admin:org"),
    }
}

/// Labels with `self-hosted` guaranteed present: it is prepended unless the
/// text already holds it.
pub open spec fn spec_normalize_labels(labels: Seq<char>) -> Seq<char> {
    if has_sub(labels, "self-hosted"@) {
        labels
    } else {
        "self-hosted,"@ + labels
    }
}

/// Ensures the label list carries `self-hosted`.
pub fn normalize_labels(labels: &str) -> (r: String)
    ensures
        r@ == spec_normalize_labels(labels@),
{
    if crate::strutil::contains_sub(labels, "self-hosted") {
        String::from_str(labels)
    } else {
        concat2("self-hosted,", labels)
    }
}

/// The registration name of a runner: hostname, a dash and the scope's
/// directory name, cut to the registry's limit of 64 characters.
pub open spec fn spec_runner_name(hostname: Seq<char>, v: ScopeView) -> Seq<char> {
    let full = hostname + "-"@ + spec_dir_name(v);
    if full.len() <= 64 {
        full
    } else {
        full.take(64)
    }
}

/// Builds the registration name of a runner from a hostname.
pub fn runner_display_name(hostname: &str, scope: &RunnerScope) -> (r: String)
    ensures
        r@ == spec_runner_name(hostname@, scope@),
        r@.len() <= 64,
{
    let dir_name = scope.to_dir_name();
    let full = concat3(hostname, "-", dir_name.as_str());
    let n = full.as_str().unicode_len();
    if n <= 64 {
        full
    } else {
        let r = substring(full.as_str(), 0, 64);
        proof {
            assert(full@.take(64) =~= full@.subrange(0, 64));
        }
        r
    }
}

/// Relies on the hostname crate: `hostname::get` reports this machine's
/// name, which depends on the machine; nothing is assumed of the value.
#[verifier::external_body]
fn host_name() -> (r: Option<String>) {
    hostname::get().ok().and_then(|h| h.into_string().ok())
}

/// The registration name this host gives a runner for a scope: the
/// machine's hostname — `runner` when it has none — combined as
/// `spec_runner_name` says.
pub fn resolve_runner_name(scope: &RunnerScope) -> (r: String)
    ensures
        r@.len() <= 64,
        exists|h: Seq<char>| r@ == spec_runner_name(h, scope@),
{
    let h = match host_name() {
        Some(h) => h,
        None => String::from_str("runner"),
    };
    let r = runner_display_name(h.as_str(), scope);
    proof {
        assert(r@ == spec_runner_name(h@, scope@));
    }
    r
}

/// First decision of `add`: a scope with an existing instance directory is
/// rejected before anything is requested from the registry and before any
/// command is planned; otherwise the one thing to do next is to request a
/// registration token for the scope's API path.
pub fn begin_add(scope: &RunnerScope, dir_exists: bool) -> (r: Result<
    TokenRequest,
    LifecycleError,
>)
    ensures
        dir_exists ==> r matches Err(LifecycleError::AlreadyConfigured),
        !dir_exists ==> (r matches Ok(t) && t.api_path@ == spec_api_path(scope@) && t.purpose
            == TokenPurpose::Registration),
{
    if dir_exists {
        Err(LifecycleError::AlreadyConfigured)
    } else {
        Ok(TokenRequest { api_path: scope.api_path(), purpose: TokenPurpose::Registration })
    }
}

/// Mathematical view of one plan step.
#[verifier::ext_equal]
pub struct StepView {
    pub cwd: Option<Seq<char>>,
    pub cmd: CmdView,
}

/// One planned command, with the directory to run it in when one is needed.
#[derive(Debug, Clone)]
pub struct Step {
    /// The working directory the command must run in, if any.
    pub cwd: Option<String>,
    /// The command itself.
    pub cmd: Cmd,
}

impl View for Step {
    type V = StepView;

    open spec fn view(&self) -> StepView {
        StepView {
            cwd: match self.cwd {
                Some(d) => Some(d@),
                None => None,
            },
            cmd: self.cmd@,
        }
    }
}

/// The command sequence that materializes and starts a new instance, once a
/// registration token is in hand: create and own the directory, copy the
/// template into it, run the runner's configuration entry point, then
/// install and start the service from inside the directory.
pub open spec fn spec_add_steps(
    user: Seq<char>,
    template_dir: Seq<char>,
    dir: Seq<char>,
    url: Seq<char>,
    token: Seq<char>,
    name: Seq<char>,
    labels: Seq<char>,
) -> Seq<StepView> {
    seq![
        StepView {
            cwd: None,
            cmd: CmdView { program: "sudo"@, args: seq!["mkdir"@, "-p"@, dir] },
        },
        StepView {
            cwd: None,
            cmd: CmdView { program: "sudo"@, args: seq!["chown"@, user, dir] },
        },
        StepView {
            cwd: None,
            cmd: CmdView {
                program: "sudo"@,
                args: seq!["-u"@, user, "cp"@, "-a"@, template_dir + "/."@, dir + "/"@],
            },
        },
        StepView {
            cwd: None,
            cmd: CmdView {
                program: "sudo"@,
                args: seq![
                    "-u"@,
                    user,
                    dir + "/config.sh"@,
                    "--url"@,
                    url,
                    "--token"@,
                    token,
                    "--name"@,
                    name,
                    "--labels"@,
                    labels,
                    "--unattended"@,
                    "--replace"@,
                ],
            },
        },
        StepView {
            cwd: Some(dir),
            cmd: CmdView { program: "sudo"@, args: seq![dir + "/svc.sh"@, "install"@, user] },
        },
        StepView {
            cwd: Some(dir),
            cmd: CmdView { program: "sudo"@, args: seq![dir + "/svc.sh"@, "start"@] },
        },
    ]
}

/// The materialization plan of one `add`.
#[derive(Debug, Clone)]
pub struct AddPlan {
    /// The instance directory the plan creates.
    pub dir: String,
    /// The registration name the runner gets.
    pub runner_name: String,
    /// The label list the runner gets.
    pub labels: String,
    /// The commands, in order; the plan is not transactional, and a failure
    /// leaves a partially configured directory for `remove` to clean up.
    pub steps: Vec<Step>,
}

/// Plans the materialization of a new instance from the registration token
/// and runner name in hand; labels are normalized on the way.
pub fn add_plan(
    config: &Config,
    scope: &RunnerScope,
    labels: &str,
    token: &str,
    runner_name: &str,
) -> (r: AddPlan)
    ensures
        r.dir@ == config.instances_base@ + "/instances/"@ + spec_dir_name(scope@),
        r.runner_name@ == runner_name@,
        r.labels@ == spec_normalize_labels(labels@),
        r.steps@.map_values(|s: Step| s@) == spec_add_steps(
            config.runner_user@,
            config.instances_base@ + "/template"@,
            config.instances_base@ + "/instances/"@ + spec_dir_name(scope@),
            spec_github_url(scope@),
            token@,
            runner_name@,
            spec_normalize_labels(labels@),
        ),
{
    let dir = config.instance_dir(scope);
    let nlabels = normalize_labels(labels);
    let url = scope.github_url();
    let template = config.template_dir();
    let user = &config.runner_user;

    let mut steps: Vec<Step> = Vec::new();

    let mut a0: Vec<String> = Vec::new();
    a0.push(String::from_str("mkdir"));
    a0.push(String::from_str("-p"));
    a0.push(dir.clone());
    steps.push(Step { cwd: None, cmd: Cmd { program: String::from_str("sudo"), args: a0 } });

    let mut a1: Vec<String> = Vec::new();
    a1.push(String::from_str("chown"));
    a1.push(user.clone());
    a1.push(dir.clone());
    steps.push(Step { cwd: None, cmd: Cmd { program: String::from_str("sudo"), args: a1 } });

    let mut a2: Vec<String> = Vec::new();
    a2.push(String::from_str("-u"));
    a2.push(user.clone());
    a2.push(String::from_str("cp"));
    a2.push(String::from_str("-a"));
    a2.push(concat2(template.as_str(), "/."));
    a2.push(concat2(dir.as_str(), "/"));
    steps.push(Step { cwd: None, cmd: Cmd { program: String::from_str("sudo"), args: a2 } });

    let config_sh = concat2(dir.as_str(), "/config.sh");
    let mut a3: Vec<String> = Vec::new();
    a3.push(String::from_str("-u"));
    a3.push(user.clone());
    a3.push(config_sh);
    a3.push(String::from_str("--url"));
    a3.push(url);
    a3.push(String::from_str("--token"));
    a3.push(String::from_str(token));
    a3.push(String::from_str("--name"));
    a3.push(String::from_str(runner_name));
    a3.push(String::from_str("--labels"));
    a3.push(nlabels.clone());
    a3.push(String::from_str("--unattended"));
    a3.push(String::from_str("--replace"));
    steps.push(Step { cwd: None, cmd: Cmd { program: String::from_str("sudo"), args: a3 } });

    let svc_sh = concat2(dir.as_str(), "/svc.sh");
    let mut a4: Vec<String> = Vec::new();
    a4.push(svc_sh.clone());
    a4.push(String::from_str("install"));
    a4.push(user.clone());
    steps.push(
        Step { cwd: Some(dir.clone()), cmd: Cmd { program: String::from_str("sudo"), args: a4 } },
    );

    let mut a5: Vec<String> = Vec::new();
    a5.push(svc_sh);
    a5.push(String::from_str("start"));
    steps.push(
        Step { cwd: Some(dir.clone()), cmd: Cmd { program: String::from_str("sudo"), args: a5 } },
    );

    let r = AddPlan {
        dir,
        runner_name: String::from_str(runner_name),
        labels: nlabels,
        steps,
    };
    proof {
        let expect = spec_add_steps(
            config.runner_user@,
            config.instances_base@ + "/template"@,
            config.instances_base@ + "/instances/"@ + spec_dir_name(scope@),
            spec_github_url(scope@),
            token@,
            runner_name@,
            spec_normalize_labels(labels@),
        );
        let got = r.steps@.map_values(|s: Step| s@);
        assert(got.len() == 6);
        assert(got[0].cmd.args =~= expect[0].cmd.args);
        assert(got[0] =~~= expect[0]);
        assert(got[1].cmd.args =~= expect[1].cmd.args);
        assert(got[1] =~~= expect[1]);
        assert(got[2].cmd.args =~= expect[2].cmd.args);
        assert(got[2] =~~= expect[2]);
        assert(got[3].cmd.args =~= expect[3].cmd.args);
        assert(got[3] =~~= expect[3]);
        assert(got[4].cmd.args =~= expect[4].cmd.args);
        assert(got[4] =~~= expect[4]);
        assert(got[5].cmd.args =~= expect[5].cmd.args);
        assert(got[5] =~~= expect[5]);
        assert(got =~~= expect);
    }
    r
}

/// The teardown plan of one `remove`.
#[derive(Debug, Clone)]
pub struct RemovePlan {
    /// The instance directory the plan deletes.
    pub dir: String,
    /// Best-effort service stop and uninstall, present only when the
    /// instance has a service marker; failures here must not stop the rest.
    pub service_steps: Vec<Step>,
    /// The removal-token request for best-effort remote deregistration; a
    /// remote failure must not stop the local cleanup.
    pub token_request: TokenRequest,
    /// The final, mandatory deletion of the instance directory.
    pub cleanup: Cmd,
}

/// The best-effort service teardown steps of a `remove`.
pub open spec fn spec_remove_service_steps(dir: Seq<char>) -> Seq<StepView> {
    seq![
        StepView {
            cwd: Some(dir),
            cmd: CmdView { program: "sudo"@, args: seq![dir + "/svc.sh"@, "stop"@] },
        },
        StepView {
            cwd: Some(dir),
            cmd: CmdView { program: "sudo"@, args: seq![dir + "/svc.sh"@, "uninstall"@] },
        },
    ]
}

/// Decides a `remove`: an unmanaged scope — no instance directory — is
/// rejected as not configured, with no plan and so no side effect at all;
/// a managed one gets the teardown plan: best-effort service stop and
/// uninstall when a service marker exists, best-effort remote
/// deregistration, then the directory deletion that must always run.
pub fn begin_remove(
    config: &Config,
    scope: &RunnerScope,
    dir_exists: bool,
    has_service_marker: bool,
) -> (r: Result<RemovePlan, LifecycleError>)
    ensures
        !dir_exists ==> r matches Err(LifecycleError::NotConfigured),
        dir_exists ==> (r matches Ok(p) && {
            let dir = config.instances_base@ + "/instances/"@ + spec_dir_name(scope@);
            &&& p.dir@ == dir
            &&& p.service_steps@.map_values(|s: Step| s@) == (if has_service_marker {
                spec_remove_service_steps(dir)
            } else {
                Seq::<StepView>::empty()
            })
            &&& p.token_request.api_path@ == spec_api_path(scope@)
            &&& p.token_request.purpose == TokenPurpose::Removal
            &&& p.cleanup@ == (CmdView { program: "sudo"@, args: seq!["rm"@, "-rf"@, dir] })
        }),
{
    if !dir_exists {
        return Err(LifecycleError::NotConfigured);
    }
    let dir = config.instance_dir(scope);
    let svc_sh = concat2(dir.as_str(), "/svc.sh");
    let mut service_steps: Vec<Step> = Vec::new();
    if has_service_marker {
        let mut a0: Vec<String> = Vec::new();
        a0.push(svc_sh.clone());
        a0.push(String::from_str("stop"));
        service_steps.push(
            Step {
                cwd: Some(dir.clone()),
                cmd: Cmd { program: String::from_str("sudo"), args: a0 },
            },
        );
        let mut a1: Vec<String> = Vec::new();
        a1.push(svc_sh.clone());
        a1.push(String::from_str("uninstall"));
        service_steps.push(
            Step {
                cwd: Some(dir.clone()),
                cmd: Cmd { program: String::from_str("sudo"), args: a1 },
            },
        );
    }
    let mut ca: Vec<String> = Vec::new();
    ca.push(String::from_str("rm"));
    ca.push(String::from_str("-rf"));
    ca.push(dir.clone());
    let cleanup = Cmd { program: String::from_str("sudo"), args: ca };
    let r = RemovePlan {
        dir,
        service_steps,
        token_request: TokenRequest { api_path: scope.api_path(), purpose: TokenPurpose::Removal },
        cleanup,
    };
    proof {
        let dirv = config.instances_base@ + "/instances/"@ + spec_dir_name(scope@);
        if has_service_marker {
            let got = r.service_steps@.map_values(|s: Step| s@);
            let expect = spec_remove_service_steps(dirv);
            assert(got.len() == 2);
            assert(got[0].cmd.args =~= expect[0].cmd.args);
            assert(got[0] =~~= expect[0]);
            assert(got[1].cmd.args =~= expect[1].cmd.args);
            assert(got[1] =~~= expect[1]);
            assert(got =~~= expect);
        } else {
            assert(r.service_steps@.map_values(|s: Step| s@) =~= Seq::<StepView>::empty());
        }
        assert(r.cleanup@.args =~= seq!["rm"@, "-rf"@, dirv]);
        assert(r.cleanup@ =~~= CmdView { program: "sudo"@, args: seq!["rm"@, "-rf"@, dirv] });
    }
    Ok(r)
}

/// The best-effort deregistration command of a `remove`, once the removal
/// token arrived: the runner's configuration entry point with `remove`.
pub fn deregister_command(config: &Config, dir: &str, token: &str) -> (r: Cmd)
    ensures
        r@ == (CmdView {
            program: "sudo"@,
            args: seq![
                "-u"@,
                config.runner_user@,
                dir@ + "/config.sh"@,
                "remove"@,
                "--token"@,
                token@,
            ],
        }),
{
    let mut a: Vec<String> = Vec::new();
    a.push(String::from_str("-u"));
    a.push(config.runner_user.clone());
    a.push(concat2(dir, "/config.sh"));
    a.push(String::from_str("remove"));
    a.push(String::from_str("--token"));
    a.push(String::from_str(token));
    let r = Cmd { program: String::from_str("sudo"), args: a };
    proof {
        assert(r@.args =~= seq![
            "-u"@,
            config.runner_user@,
            dir@ + "/config.sh"@,
            "remove"@,
            "--token"@,
            token@,
        ]);
        assert(r@ =~~= CmdView {
            program: "sudo"@,
            args: seq![
                "-u"@,
                config.runner_user@,
                dir@ + "/config.sh"@,
                "remove"@,
                "--token"@,
                token@,
            ],
        });
    }
    r
}

/// Index of the instance serving a scope in an inventory, if one does.
pub fn find_instance(instances: &Vec<RunnerInstance>, scope: &RunnerScope) -> (r: Option<usize>)
    ensures
        match r {
            Some(i) => i < instances@.len() && instances@[i as int]@.scope == scope@,
            None => forall|j: int|
                0 <= j < instances@.len() ==> (#[trigger] instances@[j]@).scope != scope@,
        },
{
    let n = instances.len();
    let mut i: usize = 0;
    while i < n
        invariant
            n == instances@.len(),
            0 <= i <= n,
            forall|j: int| 0 <= j < i ==> (#[trigger] instances@[j]@).scope != scope@,
        decreases n - i,
    {
        if instances[i].scope == *scope {
            return Some(i);
        }
        i = i + 1;
    }
    None
}

/// Decides a `start`: the scope must have an instance directory and a
/// service on record; then the backend's start plan applies.
pub fn start_runner_plan(
    config: &Config,
    dir_exists: bool,
    service_name: Option<&str>,
    uid: Option<&str>,
) -> (r: Result<ServicePlan, LifecycleError>)
    ensures
        !dir_exists ==> r matches Err(LifecycleError::NotConfigured),
        dir_exists && service_name is None ==> r matches Err(LifecycleError::NoService),
        (dir_exists && service_name is Some) ==> match spec_start_plan(
            config.runner_os@,
            service_name->0@,
            opt_str_view(uid),
        ) {
            Ok(pv) => r matches Ok(p) && p@ == pv,
            Err(e) => r matches Err(LifecycleError::Service(e2)) && e2 == e,
        },
{
    if !dir_exists {
        return Err(LifecycleError::NotConfigured);
    }
    match service_name {
        None => Err(LifecycleError::NoService),
        Some(s) => match start_plan(config.runner_os.as_str(), s, uid) {
            Ok(p) => Ok(p),
            Err(e) => Err(LifecycleError::Service(e)),
        },
    }
}

/// Decides a `stop`, mirroring `start_runner_plan`.
pub fn stop_runner_plan(
    config: &Config,
    dir_exists: bool,
    service_name: Option<&str>,
    uid: Option<&str>,
) -> (r: Result<ServicePlan, LifecycleError>)
    ensures
        !dir_exists ==> r matches Err(LifecycleError::NotConfigured),
        dir_exists && service_name is None ==> r matches Err(LifecycleError::NoService),
        (dir_exists && service_name is Some) ==> match spec_stop_plan(
            config.runner_os@,
            service_name->0@,
            opt_str_view(uid),
        ) {
            Ok(pv) => r matches Ok(p) && p@ == pv,
            Err(e) => r matches Err(LifecycleError::Service(e2)) && e2 == e,
        },
{
    if !dir_exists {
        return Err(LifecycleError::NotConfigured);
    }
    match service_name {
        None => Err(LifecycleError::NoService),
        Some(s) => match stop_plan(config.runner_os.as_str(), s, uid) {
            Ok(p) => Ok(p),
            Err(e) => Err(LifecycleError::Service(e)),
        },
    }
}

/// Decides a `restart`: the stop plan, then the start plan; the caller runs
/// them in that order and must not attempt the start when the stop failed.
pub fn restart_runner_plan(
    config: &Config,
    dir_exists: bool,
    service_name: Option<&str>,
    uid: Option<&str>,
) -> (r: Result<(ServicePlan, ServicePlan), LifecycleError>)
    ensures
        !dir_exists ==> r matches Err(LifecycleError::NotConfigured),
        dir_exists && service_name is None ==> r matches Err(LifecycleError::NoService),
        (dir_exists && service_name is Some) ==> match (
            spec_stop_plan(config.runner_os@, service_name->0@, opt_str_view(uid)),
            spec_start_plan(config.runner_os@, service_name->0@, opt_str_view(uid)),
        ) {
            (Ok(sv), Ok(tv)) => r matches Ok((sp, tp)) && sp@ == sv && tp@ == tv,
            (Err(e), _) => r matches Err(LifecycleError::Service(e2)) && e2 == e,
            (_, Err(e)) => r matches Err(LifecycleError::Service(e2)) && e2 == e,
        },
{
    let sp = stop_runner_plan(config, dir_exists, service_name, uid);
    match sp {
        Ok(stopper) => {
            match start_runner_plan(config, dir_exists, service_name, uid) {
                Ok(starter) => Ok((stopper, starter)),
                Err(e) => Err(e),
            }
        },
        Err(e) => Err(e),
    }
}

/// A path with a leading `~/` replaced by the home directory, when one is
/// known; without one the path stays as written.
pub open spec fn spec_expand_tilde(path: Seq<char>, home: Option<Seq<char>>) -> Seq<char> {
    if "~/"@.is_prefix_of(path) && home is Some {
        home->0 + "/"@ + path.skip(2)
    } else {
        path
    }
}

/// Expands a leading `~/` against a known home directory.
pub fn expand_tilde(path: &str, home: Option<&str>) -> (r: String)
    ensures
        r@ == spec_expand_tilde(path@, opt_str_view(home)),
{
    proof {
        reveal_strlit("~/");
    }
    if starts_with_str(path, "~/") {
        match home {
            Some(h) => {
                let n = path.unicode_len();
                let rest = substring(path, 2, n);
                proof {
                    assert(path@.skip(2) =~= path@.subrange(2, n as int));
                }
                concat3(h, "/", rest.as_str())
            },
            None => String::from_str(path),
        }
    } else {
        String::from_str(path)
    }
}

/// The scan candidates a comma-separated list denotes: each part trimmed,
/// blank parts dropped, and a leading `~/` expanded where a home is known.
pub open spec fn spec_expand_parts(parts: Seq<Seq<char>>, home: Option<Seq<char>>) -> Seq<
    Seq<char>,
>
    decreases parts.len(),
{
    if parts.len() == 0 {
        Seq::empty()
    } else {
        let p = spec_expand_parts(parts.drop_last(), home);
        let t = crate::strutil::trim_spec(parts.last());
        if t.len() == 0 {
            p
        } else {
            p.push(spec_expand_tilde(t, home))
        }
    }
}

/// Turns the operator's comma-separated extra scan paths into candidates:
/// split at commas, trimmed, blanks dropped, tildes expanded.
pub fn expand_extra_paths(extra: &str, home: Option<&str>) -> (r: Vec<String>)
    ensures
        exists|parts: Seq<Seq<char>>|
            {
                &&& crate::strutil::spec_join(parts, ',') == extra@
                &&& (forall|k: int| 0 <= k < parts.len() ==> !(#[trigger] parts[k]).contains(','))
                &&& r@.map_values(|s: String| s@) == spec_expand_parts(parts, opt_str_view(home))
            },
{
    let parts = crate::strutil::split_char(extra, ',');
    let ghost pv = parts@.map_values(|x: String| x@);
    let mut out: Vec<String> = Vec::new();
    let n = parts.len();
    let mut i: usize = 0;
    while i < n
        invariant
            n == parts@.len(),
            pv == parts@.map_values(|x: String| x@),
            pv.len() == n,
            0 <= i <= n,
            out@.map_values(|s: String| s@) == spec_expand_parts(
                pv.take(i as int),
                opt_str_view(home),
            ),
        decreases n - i,
    {
        proof {
            assert(pv.take(i + 1).drop_last() =~= pv.take(i as int));
            assert(pv.take(i + 1).last() == pv[i as int]);
            assert(pv[i as int] == parts@[i as int]@);
        }
        let t = crate::strutil::trim_str(parts[i].as_str());
        if t.as_str().unicode_len() > 0 {
            let expanded = expand_tilde(t.as_str(), home);
            out.push(expanded);
            proof {
                assert(out@.map_values(|s: String| s@) =~= spec_expand_parts(
                    pv.take(i + 1),
                    opt_str_view(home),
                ));
            }
        }
        i = i + 1;
    }
    proof {
        assert(pv.take(n as int) =~= pv);
    }
    out
}

/// Relies on the dirs crate: `dirs::home_dir` names this user's home
/// directory, which depends on the environment; nothing is assumed of the
/// value.
#[verifier::external_body]
fn home_directory() -> (r: Option<String>) {
    dirs::home_dir().and_then(|p| p.into_os_string().into_string().ok())
}

/// The source path an import starts from: a leading `~/` is expanded
/// against this user's home directory, which must then be known.
pub fn resolve_source_path(path: &str) -> (r: Result<String, LifecycleError>)
    ensures
        !("~/"@.is_prefix_of(path@)) ==> (r matches Ok(p) && p@ == path@),
        "~/"@.is_prefix_of(path@) ==> match r {
            Ok(p) => exists|h: Seq<char>| p@ == spec_expand_tilde(path@, Some(h)),
            Err(e) => e == LifecycleError::NoHomeDirectory,
        },
{
    proof {
        reveal_strlit("~/");
    }
    if starts_with_str(path, "~/") {
        match home_directory() {
            Some(h) => {
                let r = expand_tilde(path, Some(h.as_str()));
                proof {
                    assert(r@ == spec_expand_tilde(path@, Some(h@)));
                }
                Ok(r)
            },
            None => Err(LifecycleError::NoHomeDirectory),
        }
    } else {
        Ok(String::from_str(path))
    }
}

/// First decision of `import`: the source directory must exist and must
/// hold the runner configuration entry point.
pub fn import_precheck(source_exists: bool, has_config_sh: bool) -> (r: Result<
    (),
    LifecycleError,
>)
    ensures
        !source_exists ==> r matches Err(LifecycleError::SourceMissing),
        source_exists && !has_config_sh ==> r matches Err(LifecycleError::NotARunnerDirectory),
        source_exists && has_config_sh ==> r is Ok,
{
    if !source_exists {
        Err(LifecycleError::SourceMissing)
    } else if !has_config_sh {
        Err(LifecycleError::NotARunnerDirectory)
    } else {
        Ok(())
    }
}

/// The scope an `import` is for: an explicit target wins; otherwise the
/// runner metadata must name one; with neither, the operator is told to
/// supply a target.
pub fn import_scope(scope_override: Option<&str>, runner_file: Option<&str>) -> (r: Result<
    RunnerScope,
    LifecycleError,
>)
    ensures
        match scope_override {
            Some(t) => match spec_parse(t@) {
                Ok(v) => r matches Ok(s) && s@ == v,
                Err(e) => r matches Err(LifecycleError::Scope(e2)) && e2 == e,
            },
            None => match runner_file {
                Some(content) => match spec_scope_from_runner_file(content@) {
                    Ok(v) => r matches Ok(s) && s@ == v,
                    Err(e) => r matches Err(LifecycleError::RunnerFile(e2)) && e2 == e,
                },
                None => r matches Err(LifecycleError::NoScopeDetected),
            },
        },
{
    match scope_override {
        Some(t) => match RunnerScope::parse(t) {
            Ok(s) => Ok(s),
            Err(e) => Err(LifecycleError::Scope(e)),
        },
        None => match runner_file {
            Some(content) => match parse_scope_from_runner_config(content) {
                Ok(s) => Ok(s),
                Err(e) => Err(LifecycleError::RunnerFile(e)),
            },
            None => Err(LifecycleError::NoScopeDetected),
        },
    }
}

/// The linking plan of one `import`.
#[derive(Debug, Clone)]
pub struct ImportPlan {
    /// The managed path that will point at the source.
    pub target_dir: String,
    /// The commands, in order: create and own the instances root when it is
    /// missing, then symlink the source into it.
    pub steps: Vec<Step>,
}

/// The commands of an import: the instances root made and owned first when
/// absent, then one symlink from the managed tree to the source.
pub open spec fn spec_import_steps(
    user: Seq<char>,
    instances_dir: Seq<char>,
    instances_dir_exists: bool,
    source: Seq<char>,
    target: Seq<char>,
) -> Seq<StepView> {
    let link = StepView {
        cwd: None,
        cmd: CmdView {
            program: "sudo"@,
            args: seq!["-u"@, user, "ln"@, "-s"@, source, target],
        },
    };
    if instances_dir_exists {
        seq![link]
    } else {
        seq![
            StepView {
                cwd: None,
                cmd: CmdView { program: "sudo"@, args: seq!["mkdir"@, "-p"@, instances_dir] },
            },
            StepView {
                cwd: None,
                cmd: CmdView { program: "sudo"@, args: seq!["chown"@, user, instances_dir] },
            },
            link,
        ]
    }
}

/// Decides the linking of an `import`: a scope that is already managed is
/// rejected; otherwise the canonical source is symlinked into the managed
/// tree, which is created first when missing.  The managed tree only ever
/// references the imported directory, it never owns or copies it.
pub fn import_plan(
    config: &Config,
    scope: &RunnerScope,
    canonical_source: &str,
    instances_dir_exists: bool,
    target_dir_exists: bool,
) -> (r: Result<ImportPlan, LifecycleError>)
    ensures
        target_dir_exists ==> r matches Err(LifecycleError::AlreadyConfigured),
        !target_dir_exists ==> (r matches Ok(p) && {
            let target = config.instances_base@ + "/instances/"@ + spec_dir_name(scope@);
            &&& p.target_dir@ == target
            &&& p.steps@.map_values(|s: Step| s@) == spec_import_steps(
                config.runner_user@,
                config.instances_base@ + "/instances"@,
                instances_dir_exists,
                canonical_source@,
                target,
            )
        }),
{
    if target_dir_exists {
        return Err(LifecycleError::AlreadyConfigured);
    }
    let target_dir = config.instance_dir(scope);
    let instances_dir = config.instances_dir();
    let mut steps: Vec<Step> = Vec::new();
    if !instances_dir_exists {
        let mut a0: Vec<String> = Vec::new();
        a0.push(String::from_str("mkdir"));
        a0.push(String::from_str("-p"));
        a0.push(instances_dir.clone());
        steps.push(Step { cwd: None, cmd: Cmd { program: String::from_str("sudo"), args: a0 } });
        let mut a1: Vec<String> = Vec::new();
        a1.push(String::from_str("chown"));
        a1.push(config.runner_user.clone());
        a1.push(instances_dir.clone());
        steps.push(Step { cwd: None, cmd: Cmd { program: String::from_str("sudo"), args: a1 } });
    }
    let mut al: Vec<String> = Vec::new();
    al.push(String::from_str("-u"));
    al.push(config.runner_user.clone());
    al.push(String::from_str("ln"));
    al.push(String::from_str("-s"));
    al.push(String::from_str(canonical_source));
    al.push(target_dir.clone());
    steps.push(Step { cwd: None, cmd: Cmd { program: String::from_str("sudo"), args: al } });
    let r = ImportPlan { target_dir, steps };
    proof {
        let target = config.instances_base@ + "/instances/"@ + spec_dir_name(scope@);
        let expect = spec_import_steps(
            config.runner_user@,
            config.instances_base@ + "/instances"@,
            instances_dir_exists,
            canonical_source@,
            target,
        );
        let got = r.steps@.map_values(|s: Step| s@);
        if instances_dir_exists {
            assert(got.len() == 1);
            assert(got[0].cmd.args =~= expect[0].cmd.args);
            assert(got[0] =~~= expect[0]);
        } else {
            assert(got.len() == 3);
            assert(got[0].cmd.args =~= expect[0].cmd.args);
            assert(got[0] =~~= expect[0]);
            assert(got[1].cmd.args =~= expect[1].cmd.args);
            assert(got[1] =~~= expect[1]);
            assert(got[2].cmd.args =~= expect[2].cmd.args);
            assert(got[2] =~~= expect[2]);
        }
        assert(got =~~= expect);
    }
    Ok(r)
}

/// Whether an inventory already manages a scope.
pub open spec fn spec_scope_managed(m: Seq<InstanceView>, s: ScopeView) -> bool {
    exists|i: int| 0 <= i < m.len() && (#[trigger] m[i]).scope == s
}

/// True when some instance of the inventory serves the scope.
pub fn is_managed(instances: &Vec<RunnerInstance>, scope: &RunnerScope) -> (r: bool)
    ensures
        r == spec_scope_managed(
            instances@.map_values(|x: RunnerInstance| x@),
            scope@,
        ),
{
    let ghost m = instances@.map_values(|x: RunnerInstance| x@);
    match find_instance(instances, scope) {
        Some(i) => {
            proof {
                assert(m[i as int].scope == scope@);
            }
            true
        },
        None => {
            proof {
                if spec_scope_managed(m, scope@) {
                    let i = choose|i: int| 0 <= i < m.len() && (#[trigger] m[i]).scope == scope@;
                    assert(instances@[i]@.scope != scope@);
                }
            }
            false
        },
    }
}

/// The discovered runners an inventory does not yet manage, in their
/// discovered order.
pub open spec fn spec_unmanaged(
    d: Seq<crate::runner::DiscoveredView>,
    m: Seq<InstanceView>,
) -> Seq<crate::runner::DiscoveredView>
    decreases d.len(),
{
    if d.len() == 0 {
        Seq::empty()
    } else {
        let p = spec_unmanaged(d.drop_last(), m);
        if spec_scope_managed(m, d.last().scope) {
            p
        } else {
            p.push(d.last())
        }
    }
}

/// Splits discovered runners from an inventory's point of view: those whose
/// scope is already managed are dropped, the rest keep their order and are
/// the candidates for import.
pub fn unmanaged_runners(
    discovered: &Vec<crate::runner::DiscoveredRunner>,
    instances: &Vec<RunnerInstance>,
) -> (r: Vec<crate::runner::DiscoveredRunner>)
    ensures
        r@.map_values(|x: crate::runner::DiscoveredRunner| x@) == spec_unmanaged(
            discovered@.map_values(|x: crate::runner::DiscoveredRunner| x@),
            instances@.map_values(|x: RunnerInstance| x@),
        ),
{
    let ghost dv = discovered@.map_values(|x: crate::runner::DiscoveredRunner| x@);
    let ghost m = instances@.map_values(|x: RunnerInstance| x@);
    let mut r: Vec<crate::runner::DiscoveredRunner> = Vec::new();
    let mut i: usize = 0;
    while i < discovered.len()
        invariant
            dv == discovered@.map_values(|x: crate::runner::DiscoveredRunner| x@),
            m == instances@.map_values(|x: RunnerInstance| x@),
            dv.len() == discovered@.len(),
            0 <= i <= discovered@.len(),
            r@.map_values(|x: crate::runner::DiscoveredRunner| x@) == spec_unmanaged(
                dv.take(i as int),
                m,
            ),
        decreases discovered@.len() - i,
    {
        proof {
            assert(dv.take(i + 1).drop_last() =~= dv.take(i as int));
            assert(dv.take(i + 1).last() == dv[i as int]);
            assert(dv[i as int] == discovered@[i as int]@);
        }
        let d = &discovered[i];
        if !is_managed(instances, &d.scope) {
            r.push(d.clone_runner());
            proof {
                assert(r@.map_values(|x: crate::runner::DiscoveredRunner| x@) =~= spec_unmanaged(
                    dv.take(i + 1),
                    m,
                ));
            }
        }
        i = i + 1;
    }
    proof {
        assert(dv.take(discovered@.len() as int) =~= dv);
    }
    r
}

/// The runner release package name of a host OS: `osx` for macOS hosts,
/// `linux` for everything else.
pub fn runner_package_os(runner_os: &str) -> (r: String)
    ensures
        r@ == if runner_os@ == "darwin"@ {
            "osx"@
        } else {
            "linux"@
        },
{
    if crate::strutil::str_eq(runner_os, "darwin") {
        String::from_str("osx")
    } else {
        String::from_str("linux")
    }
}

/// The release version a GitHub tag denotes: the tag without its leading
/// `v` markers.
pub fn release_version_of_tag(tag: &str) -> (r: String)
    ensures
        r@ == crate::strutil::trim_leading(tag@, 'v'),
{
    crate::strutil::trim_leading_char(tag, 'v')
}

/// The file name of one runner release package.
pub fn runner_package_name(pkg_os: &str, arch: &str, version: &str) -> (r: String)
    ensures
        r@ == "actions-runner-"@ + pkg_os@ + "-"@ + arch@ + "-"@ + version@ + ".tar.gz"@,
{
    let mut r = String::from_str("actions-runner-");
    r.append(pkg_os);
    r.append("-");
    r.append(arch);
    r.append("-");
    r.append(version);
    r.append(".tar.gz");
    r
}

/// The download URL of one runner release package.
pub fn runner_download_url(pkg_os: &str, arch: &str, version: &str) -> (r: String)
    ensures
        r@ == "https://github.com/actions/runner/releases/download/v"@ + version@ + "/"@
            + ("actions-runner-"@ + pkg_os@ + "-"@ + arch@ + "-"@ + version@ + ".tar.gz"@),
{
    let pkg = runner_package_name(pkg_os, arch, version);
    let mut r = String::from_str("https://github.com/actions/runner/releases/download/v");
    r.append(version);
    r.append("/");
    r.append(pkg.as_str());
    r
}

} // verus!
