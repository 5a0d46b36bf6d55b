//! The OS service backends, as command plans.
//!
//! A runner instance is supervised either by systemd (service names are unit
//! names) or by launchd (service names may be bare labels or `.plist`
//! paths).  This module decides, from plain values, exactly which external
//! commands drive each backend: probing, starting and stopping a service and
//! reading its journal.  Running the commands is a caller's concern; the
//! contracts here pin down every program and argument.

use vstd::prelude::*;
use vstd::seq_lib::*;
use vstd::string::*;

use crate::strutil::{
    contains_sub, ends_with_ascii_ci, ends_with_str, find_last_char, find_last_char_spec,
    has_sub, has_suffix_ascii_ci, lemma_find_last_char_spec, spec_decimal, str_eq, substring,
    u32_to_string,
};

verus! {

/// Mathematical view of one external command.
#[verifier::ext_equal]
pub struct CmdView {
    pub program: Seq<char>,
    pub args: Seq<Seq<char>>,
}

/// One external command: a program and its arguments.
#[derive(Debug, Clone)]
pub struct Cmd {
    pub program: String,
    pub args: Vec<String>,
}

impl View for Cmd {
    type V = CmdView;

    open spec fn view(&self) -> CmdView {
        CmdView { program: self.program@, args: self.args@.map_values(|a: String| a@) }
    }
}

/// A command to try, and at most one fallback behind it.
#[derive(Debug, Clone)]
pub struct ServicePlan {
    /// The command to run first.
    pub primary: Cmd,
    /// What to run when the primary fails, if anything.
    pub fallback: Option<Fallback>,
}

/// A fallback command, gated on a file existing.
#[derive(Debug, Clone)]
pub struct Fallback {
    /// The fallback applies only when this file exists on disk.
    pub requires_path: String,
    /// The command to run then.
    pub cmd: Cmd,
}

/// Mathematical view of a service plan.
#[verifier::ext_equal]
pub struct PlanView {
    pub primary: CmdView,
    pub fallback: Option<FallbackView>,
}

/// Mathematical view of a fallback.
#[verifier::ext_equal]
pub struct FallbackView {
    pub requires_path: Seq<char>,
    pub cmd: CmdView,
}

impl View for Fallback {
    type V = FallbackView;

    open spec fn view(&self) -> FallbackView {
        FallbackView { requires_path: self.requires_path@, cmd: self.cmd@ }
    }
}

impl View for ServicePlan {
    type V = PlanView;

    open spec fn view(&self) -> PlanView {
        PlanView {
            primary: self.primary@,
            fallback: match self.fallback {
                Some(f) => Some(f@),
                None => None,
            },
        }
    }
}

/// Why a service plan could not be made.
#[derive(Debug, Clone, Copy, PartialEq, Eq, Structural)]
pub enum ServiceError {
    /// A user-scoped launchd service needs the runner user's numeric uid,
    /// and none was supplied.
    MissingUid,
}

impl ServiceError {
    /// Human-readable description of the failure.
    pub fn message(&self) -> (r: String)
        ensures
            r@ == self.spec_message(),
    {
        String::from_str("Failed to get user UID")
    }

    /// The description each failure carries.
    pub open spec fn spec_message(&self) -> Seq<char> {
        "Failed to get user UID"@
    }
}

/// A service name that is a path to a launchd property list: its base name
/// carries the `.plist` extension — in any ASCII letter case — behind a
/// non-empty stem.
pub open spec fn spec_is_plist(name: Seq<char>) -> bool {
    let base = match find_last_char_spec(name, '/') {
        Some(i) => name.skip(i + 1),
        None => name,
    };
    has_suffix_ascii_ci(base, ".plist"@) && base.len() > 6
}

/// The launchd label of a service name: a `.plist` path — whatever the
/// case of the extension — is reduced to its base name without the suffix;
/// anything else is already the label.
pub open spec fn spec_service_label(name: Seq<char>) -> Seq<char> {
    let base = match find_last_char_spec(name, '/') {
        Some(i) => name.skip(i + 1),
        None => name,
    };
    if has_suffix_ascii_ci(base, ".plist"@) && base.len() > 6 {
        base.take(base.len() - 6)
    } else {
        name
    }
}

/// A service name that denotes a user-scoped LaunchAgent rather than a
/// system-scoped LaunchDaemon.
pub open spec fn spec_is_launch_agent(name: Seq<char>) -> bool {
    has_sub(name, "/LaunchAgents/"@) || has_sub(name, "Library/LaunchAgents"@)
}

/// The view of an optional borrowed string.
pub open spec fn opt_str_view(o: Option<&str>) -> Option<Seq<char>> {
    match o {
        Some(s) => Some(s@),
        None => None,
    }
}

/// The launchd target a service name is driven through.
pub open spec fn spec_service_target(name: Seq<char>, uid: Option<Seq<char>>) -> Seq<char> {
    if spec_is_launch_agent(name) {
        "gui/"@ + uid->0 + "/"@ + spec_service_label(name)
    } else {
        "system/"@ + spec_service_label(name)
    }
}

/// The plan that starts a service, as a function of the backend, the
/// service name and the resolved uid.
pub open spec fn spec_start_plan(os: Seq<char>, name: Seq<char>, uid: Option<Seq<char>>) -> Result<
    PlanView,
    ServiceError,
> {
    if os == "darwin"@ {
        if spec_is_launch_agent(name) && uid is None {
            Err(ServiceError::MissingUid)
        } else {
            Ok(
                PlanView {
                    primary: CmdView {
                        program: "sudo"@,
                        args: seq![
                            "launchctl"@,
                            "kickstart"@,
                            "-k"@,
                            spec_service_target(name, uid),
                        ],
                    },
                    fallback: if spec_is_plist(name) {
                        Some(
                            FallbackView {
                                requires_path: name,
                                cmd: CmdView {
                                    program: "sudo"@,
                                    args: seq!["launchctl"@, "load"@, name],
                                },
                            },
                        )
                    } else {
                        None
                    },
                },
            )
        }
    } else {
        Ok(
            PlanView {
                primary: CmdView {
                    program: "sudo"@,
                    args: seq!["systemctl"@, "start"@, name + ".service"@],
                },
                fallback: None,
            },
        )
    }
}

/// The plan that stops a service, as a function of the backend, the service
/// name and the resolved uid.
pub open spec fn spec_stop_plan(os: Seq<char>, name: Seq<char>, uid: Option<Seq<char>>) -> Result<
    PlanView,
    ServiceError,
> {
    if os == "darwin"@ {
        if spec_is_launch_agent(name) && uid is None {
            Err(ServiceError::MissingUid)
        } else {
            Ok(
                PlanView {
                    primary: CmdView {
                        program: "sudo"@,
                        args: seq!["launchctl"@, "kill"@, "SIGTERM"@, spec_service_target(
                            name,
                            uid,
                        )],
                    },
                    fallback: if spec_is_plist(name) {
                        Some(
                            FallbackView {
                                requires_path: name,
                                cmd: CmdView {
                                    program: "sudo"@,
                                    args: seq!["launchctl"@, "unload"@, name],
                                },
                            },
                        )
                    } else {
                        None
                    },
                },
            )
        }
    } else {
        Ok(
            PlanView {
                primary: CmdView {
                    program: "sudo"@,
                    args: seq!["systemctl"@, "stop"@, name + ".service"@],
                },
                fallback: None,
            },
        )
    }
}

/// The launchd label of a service name.
pub fn extract_service_label(service_name: &str) -> (r: String)
    ensures
        r@ == spec_service_label(service_name@),
{
    proof {
        reveal_strlit(".plist");
        lemma_find_last_char_spec(service_name@, '/');
    }
    let n = service_name.unicode_len();
    let base_start: usize = match find_last_char(service_name, '/') {
        Some(i) => i + 1,
        None => 0,
    };
    let base = substring(service_name, base_start, n);
    proof {
        match find_last_char_spec(service_name@, '/') {
            Some(i) => {
                assert(service_name@.skip(i + 1) =~= service_name@.subrange(i + 1, n as int));
            },
            None => {
                assert(service_name@.skip(0) =~= service_name@.subrange(0, n as int));
                assert(base@ == service_name@);
            },
        }
    }
    let blen = base.as_str().unicode_len();
    if ends_with_ascii_ci(base.as_str(), ".plist") && blen > 6 {
        let r = substring(base.as_str(), 0, blen - 6);
        proof {
            assert(base@.take(blen - 6) =~= base@.subrange(0, blen - 6));
        }
        r
    } else {
        let mut r = String::new();
        r.append(service_name);
        r
    }
}

/// Whether a launchd service name must be driven through the user domain.
pub fn is_launch_agent(service_name: &str) -> (r: bool)
    ensures
        r == spec_is_launch_agent(service_name@),
{
    contains_sub(service_name, "/LaunchAgents/") || contains_sub(
        service_name,
        "Library/LaunchAgents",
    )
}

/// The launchd label and target of a service name: `gui/<uid>/<label>` for a
/// LaunchAgent — whose uid the caller must have resolved — or
/// `system/<label>` for a LaunchDaemon.
pub fn parse_macos_service(service_name: &str, uid: Option<&str>) -> (r: Result<
    (String, String),
    ServiceError,
>)
    ensures
        ({
            let label = spec_service_label(service_name@);
            if spec_is_launch_agent(service_name@) {
                match uid {
                    Some(u) => r matches Ok((l, t)) && l@ == label && t@ == "gui/"@ + u@ + "/"@
                        + label,
                    None => r matches Err(ServiceError::MissingUid),
                }
            } else {
                r matches Ok((l, t)) && l@ == label && t@ == "system/"@ + label
            }
        }),
{
    let label = extract_service_label(service_name);
    if is_launch_agent(service_name) {
        match uid {
            Some(u) => {
                let mut t = String::from_str("gui/");
                t.append(u);
                t.append("/");
                t.append(label.as_str());
                Ok((label, t))
            },
            None => Err(ServiceError::MissingUid),
        }
    } else {
        let t = crate::strutil::concat2("system/", label.as_str());
        Ok((label, t))
    }
}

/// The command that asks the backend whether a service is running: exit
/// success means running.
pub fn status_command(runner_os: &str, service_name: &str) -> (r: Cmd)
    ensures
        r@ == if runner_os@ == "darwin"@ {
            (CmdView {
                program: "sudo"@,
                args: seq!["launchctl"@, "list"@, spec_service_label(service_name@)],
            })
        } else {
            (CmdView { program: "systemctl"@, args: seq!["is-active"@, "--quiet"@, service_name@] })
        },
{
    if str_eq(runner_os, "darwin") {
        let label = extract_service_label(service_name);
        let mut args: Vec<String> = Vec::new();
        args.push(String::from_str("launchctl"));
        args.push(String::from_str("list"));
        args.push(label);
        let r = Cmd { program: String::from_str("sudo"), args };
        proof {
            assert(r@.args =~= seq!["launchctl"@, "list"@, spec_service_label(service_name@)]);
            assert(r@ =~= CmdView {
                program: "sudo"@,
                args: seq!["launchctl"@, "list"@, spec_service_label(service_name@)],
            });
        }
        r
    } else {
        let mut args: Vec<String> = Vec::new();
        args.push(String::from_str("is-active"));
        args.push(String::from_str("--quiet"));
        args.push(String::from_str(service_name));
        let r = Cmd { program: String::from_str("systemctl"), args };
        proof {
            assert(r@.args =~= seq!["is-active"@, "--quiet"@, service_name@]);
            assert(r@ =~= CmdView {
                program: "systemctl"@,
                args: seq!["is-active"@, "--quiet"@, service_name@],
            });
        }
        r
    }
}

/// The plan that starts a service: `systemctl start <name>.service` under
/// systemd; `launchctl kickstart -k <target>` under launchd, falling back to
/// `launchctl load <path>` only when the name is a plist path and that file
/// exists.
pub fn start_plan(runner_os: &str, service_name: &str, uid: Option<&str>) -> (r: Result<
    ServicePlan,
    ServiceError,
>)
    ensures
        match r {
            Ok(p) => spec_start_plan(runner_os@, service_name@, opt_str_view(uid)) == Ok::<
                PlanView,
                ServiceError,
            >(p@),
            Err(e) => spec_start_plan(runner_os@, service_name@, opt_str_view(uid)) == Err::<
                PlanView,
                ServiceError,
            >(e),
        },
{
    if str_eq(runner_os, "darwin") {
        match parse_macos_service(service_name, uid) {
            Ok((_label, target)) => {
                let mut args: Vec<String> = Vec::new();
                args.push(String::from_str("launchctl"));
                args.push(String::from_str("kickstart"));
                args.push(String::from_str("-k"));
                args.push(target);
                let primary = Cmd { program: String::from_str("sudo"), args };
                let fallback = if is_plist_path(service_name) {
                    let mut fargs: Vec<String> = Vec::new();
                    fargs.push(String::from_str("launchctl"));
                    fargs.push(String::from_str("load"));
                    fargs.push(String::from_str(service_name));
                    Some(
                        Fallback {
                            requires_path: String::from_str(service_name),
                            cmd: Cmd { program: String::from_str("sudo"), args: fargs },
                        },
                    )
                } else {
                    None
                };
                let r = ServicePlan { primary, fallback };
                proof {
                    let target_v = spec_service_target(service_name@, opt_str_view(uid));
                    assert(r.primary@.args =~= seq!["launchctl"@, "kickstart"@, "-k"@, target_v]);
                    assert(r.primary@ =~= CmdView {
                        program: "sudo"@,
                        args: seq!["launchctl"@, "kickstart"@, "-k"@, target_v],
                    });
                    if spec_is_plist(service_name@) {
                        assert(r.fallback matches Some(f) && f.cmd@.args =~= seq![
                            "launchctl"@,
                            "load"@,
                            service_name@,
                        ]);
                        assert(r.fallback matches Some(f) && f.cmd@ =~= CmdView {
                            program: "sudo"@,
                            args: seq!["launchctl"@, "load"@, service_name@],
                        });
                    }
                    assert(Ok::<PlanView, ServiceError>(r@) =~~= spec_start_plan(
                        runner_os@,
                        service_name@,
                        opt_str_view(uid),
                    ));
                }
                Ok(r)
            },
            Err(e) => Err(e),
        }
    } else {
        let unit = crate::strutil::concat2(service_name, ".service");
        let mut args: Vec<String> = Vec::new();
        args.push(String::from_str("systemctl"));
        args.push(String::from_str("start"));
        args.push(unit);
        let r = ServicePlan { primary: Cmd { program: String::from_str("sudo"), args }, fallback: None };
        proof {
            assert(r.primary@.args =~= seq!["systemctl"@, "start"@, service_name@ + ".service"@]);
            assert(r.primary@ =~= CmdView {
                program: "sudo"@,
                args: seq!["systemctl"@, "start"@, service_name@ + ".service"@],
            });
            assert(Ok::<PlanView, ServiceError>(r@) =~~= spec_start_plan(
                runner_os@,
                service_name@,
                opt_str_view(uid),
            ));
        }
        Ok(r)
    }
}

/// The plan that stops a service: `systemctl stop <name>.service` under
/// systemd; `launchctl kill SIGTERM <target>` under launchd, falling back to
/// `launchctl unload <path>` only when the name is a plist path and that
/// file exists.
pub fn stop_plan(runner_os: &str, service_name: &str, uid: Option<&str>) -> (r: Result<
    ServicePlan,
    ServiceError,
>)
    ensures
        match r {
            Ok(p) => spec_stop_plan(runner_os@, service_name@, opt_str_view(uid)) == Ok::<
                PlanView,
                ServiceError,
            >(p@),
            Err(e) => spec_stop_plan(runner_os@, service_name@, opt_str_view(uid)) == Err::<
                PlanView,
                ServiceError,
            >(e),
        },
{
    if str_eq(runner_os, "darwin") {
        match parse_macos_service(service_name, uid) {
            Ok((_label, target)) => {
                let mut args: Vec<String> = Vec::new();
                args.push(String::from_str("launchctl"));
                args.push(String::from_str("kill"));
                args.push(String::from_str("SIGTERM"));
                args.push(target);
                let primary = Cmd { program: String::from_str("sudo"), args };
                let fallback = if is_plist_path(service_name) {
                    let mut fargs: Vec<String> = Vec::new();
                    fargs.push(String::from_str("launchctl"));
                    fargs.push(String::from_str("unload"));
                    fargs.push(String::from_str(service_name));
                    Some(
                        Fallback {
                            requires_path: String::from_str(service_name),
                            cmd: Cmd { program: String::from_str("sudo"), args: fargs },
                        },
                    )
                } else {
                    None
                };
                let r = ServicePlan { primary, fallback };
                proof {
                    let target_v = spec_service_target(service_name@, opt_str_view(uid));
                    assert(r.primary@.args =~= seq!["launchctl"@, "kill"@, "SIGTERM"@, target_v]);
                    assert(r.primary@ =~= CmdView {
                        program: "sudo"@,
                        args: seq!["launchctl"@, "kill"@, "SIGTERM"@, target_v],
                    });
                    if spec_is_plist(service_name@) {
                        assert(r.fallback matches Some(f) && f.cmd@.args =~= seq![
                            "launchctl"@,
                            "unload"@,
                            service_name@,
                        ]);
                        assert(r.fallback matches Some(f) && f.cmd@ =~= CmdView {
                            program: "sudo"@,
                            args: seq!["launchctl"@, "unload"@, service_name@],
                        });
                    }
                    assert(Ok::<PlanView, ServiceError>(r@) =~~= spec_stop_plan(
                        runner_os@,
                        service_name@,
                        opt_str_view(uid),
                    ));
                }
                Ok(r)
            },
            Err(e) => Err(e),
        }
    } else {
        let unit = crate::strutil::concat2(service_name, ".service");
        let mut args: Vec<String> = Vec::new();
        args.push(String::from_str("systemctl"));
        args.push(String::from_str("stop"));
        args.push(unit);
        let r = ServicePlan { primary: Cmd { program: String::from_str("sudo"), args }, fallback: None };
        proof {
            assert(r.primary@.args =~= seq!["systemctl"@, "stop"@, service_name@ + ".service"@]);
            assert(r.primary@ =~= CmdView {
                program: "sudo"@,
                args: seq!["systemctl"@, "stop"@, service_name@ + ".service"@],
            });
            assert(Ok::<PlanView, ServiceError>(r@) =~~= spec_stop_plan(
                runner_os@,
                service_name@,
                opt_str_view(uid),
            ));
        }
        Ok(r)
    }
}

/// Whether a service name is a path to a launchd property list.
pub fn is_plist_path(service_name: &str) -> (r: bool)
    ensures
        r == spec_is_plist(service_name@),
{
    proof {
        reveal_strlit(".plist");
        lemma_find_last_char_spec(service_name@, '/');
    }
    let n = service_name.unicode_len();
    let base_start: usize = match find_last_char(service_name, '/') {
        Some(i) => i + 1,
        None => 0,
    };
    let base = substring(service_name, base_start, n);
    proof {
        match find_last_char_spec(service_name@, '/') {
            Some(i) => {
                assert(service_name@.skip(i + 1) =~= service_name@.subrange(i + 1, n as int));
            },
            None => {
                assert(service_name@.skip(0) =~= service_name@.subrange(0, n as int));
            },
        }
    }
    ends_with_ascii_ci(base.as_str(), ".plist") && base.as_str().unicode_len() > 6
}

/// The command that reads the last `lines` journal lines of a systemd unit.
pub fn journal_command(service_name: &str, lines: u32) -> (r: Cmd)
    ensures
        r@ == (CmdView {
            program: "sudo"@,
            args: seq![
                "journalctl"@,
                "-u"@,
                service_name@,
                "-n"@,
                spec_decimal(lines as int),
                "--no-pager"@,
            ],
        }),
{
    let mut args: Vec<String> = Vec::new();
    args.push(String::from_str("journalctl"));
    args.push(String::from_str("-u"));
    args.push(String::from_str(service_name));
    args.push(String::from_str("-n"));
    args.push(u32_to_string(lines));
    args.push(String::from_str("--no-pager"));
    let r = Cmd { program: String::from_str("sudo"), args };
    proof {
        assert(r@.args =~= seq![
            "journalctl"@,
            "-u"@,
            service_name@,
            "-n"@,
            spec_decimal(lines as int),
            "--no-pager"@,
        ]);
        assert(r@ =~= CmdView {
            program: "sudo"@,
            args: seq![
                "journalctl"@,
                "-u"@,
                service_name@,
                "-n"@,
                spec_decimal(lines as int),
                "--no-pager"@,
            ],
        });
    }
    r
}

/// Whether a diagnostics-directory file name looks like a runner log.
pub fn is_runner_log_name(name: &str) -> (r: bool)
    ensures
        r == ("Runner_"@.is_prefix_of(name@) && ".log"@.is_suffix_of(name@)),
{
    crate::strutil::starts_with_str(name, "Runner_") && ends_with_str(name, ".log")
}

/// A sequence of decimal digits only.
pub open spec fn all_digits(s: Seq<char>) -> bool {
    forall|i: int| 0 <= i < s.len() ==> 48 <= (#[trigger] s[i]) as int <= 57
}

/// The numeric uid an `id -u` output denotes: its trimmed text, accepted
/// only when it is non-empty and all digits.
pub fn normalize_uid(output: &str) -> (r: Option<String>)
    ensures
        ({
            let t = crate::strutil::trim_spec(output@);
            if t.len() > 0 && all_digits(t) {
                r matches Some(u) && u@ == t
            } else {
                r is None
            }
        }),
{
    let t = crate::strutil::trim_str(output);
    let n = t.as_str().unicode_len();
    if n == 0 {
        return None;
    }
    let mut i: usize = 0;
    while i < n
        invariant
            n == t@.len(),
            t@ == crate::strutil::trim_spec(output@),
            n > 0,
            0 <= i <= n,
            forall|j: int| 0 <= j < i ==> 48 <= (#[trigger] t@[j]) as int <= 57,
        decreases n - i,
    {
        let c = t.as_str().get_char(i);
        let cv = c as u32;
        if cv < 48 || cv > 57 {
            proof {
                assert(c == t@[i as int]);
                assert((c as int) < 48 || (c as int) > 57);
                assert(!all_digits(t@));
            }
            return None;
        }
        i = i + 1;
    }
    Some(t)
}

} // verus!
