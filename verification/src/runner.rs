//! Local runner instances: the on-disk inventory and the runner metadata.
//!
//! An instance is one directory under the instances root whose name encodes
//! a scope.  The inventory here is built from plain observations of that
//! tree — entry names, marker-file contents, probe results — and is exact:
//! undecodable names are skipped silently, and the result is sorted by the
//! scopes' display form.  The `.runner` metadata file is read through
//! serde_json behind trusted declarations.

use vstd::prelude::*;
use vstd::seq_lib::*;
use vstd::string::*;

use crate::github::{
    spec_display, spec_from_dir_name, spec_from_github_url, RunnerScope, ScopeError, ScopeView,
};
use crate::strutil::{
    concat3, has_sub, lex_leq, lemma_lex_total, lemma_lex_trans, spec_first_token,
    spec_trim_suffix, str_leq, substring, trim_spec, trim_str,
};

verus! {

/// Local supervision state of one instance.
#[derive(Debug, Clone, Copy, PartialEq, Eq, Structural)]
pub enum RunnerStatus {
    Running,
    Stopped,
    NoService,
    Unknown,
}

impl RunnerStatus {
    /// The status as the operator reads it.
    pub fn to_display(&self) -> (r: String)
        ensures
            r@ == match self {
                RunnerStatus::Running => "running"@,
                RunnerStatus::Stopped => "stopped"@,
                RunnerStatus::NoService => "no service"@,
                RunnerStatus::Unknown => "unknown"@,
            },
    {
        match self {
            RunnerStatus::Running => String::from_str("running"),
            RunnerStatus::Stopped => String::from_str("stopped"),
            RunnerStatus::NoService => String::from_str("no service"),
            RunnerStatus::Unknown => String::from_str("unknown"),
        }
    }
}

/// Mathematical view of one inventory row.
#[verifier::ext_equal]
pub struct InstanceView {
    pub scope: ScopeView,
    pub dir: Seq<char>,
    pub service_name: Option<Seq<char>>,
    pub status: RunnerStatus,
}

/// One locally registered runner, as one inventory scan saw it.
#[derive(Debug, Clone)]
pub struct RunnerInstance {
    /// The scope the instance serves.
    pub scope: RunnerScope,
    /// The instance directory.
    pub dir: String,
    /// The supervising service, when the marker file names one.
    pub service_name: Option<String>,
    /// Supervision state at scan time.
    pub status: RunnerStatus,
}

impl View for RunnerInstance {
    type V = InstanceView;

    open spec fn view(&self) -> InstanceView {
        InstanceView {
            scope: self.scope@,
            dir: self.dir@,
            service_name: match self.service_name {
                Some(s) => Some(s@),
                None => None,
            },
            status: self.status,
        }
    }
}

/// Mathematical view of one observed directory entry.
#[verifier::ext_equal]
pub struct EntryView {
    pub name: Seq<char>,
    pub service_name: Option<Seq<char>>,
    pub probe_running: bool,
}

/// One observation of a subdirectory of the instances root: its name, the
/// service name its marker file yielded, and whether the status probe for
/// that service reported it running.
#[derive(Debug, Clone)]
pub struct InstanceEntry {
    pub name: String,
    pub service_name: Option<String>,
    pub probe_running: bool,
}

impl View for InstanceEntry {
    type V = EntryView;

    open spec fn view(&self) -> EntryView {
        EntryView {
            name: self.name@,
            service_name: match self.service_name {
                Some(s) => Some(s@),
                None => None,
            },
            probe_running: self.probe_running,
        }
    }
}

/// The status an instance gets: no service on record means `NoService`, a
/// probed service is `Running` exactly when the probe said so.
pub open spec fn spec_status(service_present: bool, probe_running: bool) -> RunnerStatus {
    if !service_present {
        RunnerStatus::NoService
    } else if probe_running {
        RunnerStatus::Running
    } else {
        RunnerStatus::Stopped
    }
}

/// Decides an instance's status from its service record and probe result.
pub fn check_service_status(service_name: Option<&str>, probe_running: bool) -> (r: RunnerStatus)
    ensures
        r == spec_status(service_name is Some, probe_running),
{
    match service_name {
        None => RunnerStatus::NoService,
        Some(_) => {
            if probe_running {
                RunnerStatus::Running
            } else {
                RunnerStatus::Stopped
            }
        },
    }
}

/// The service name a marker file's contents denote: the trimmed text, or
/// nothing when the file is absent or blank.
pub fn parse_service_name(contents: Option<&str>) -> (r: Option<String>)
    ensures
        match contents {
            Some(c) => if trim_spec(c@).len() == 0 {
                r is None
            } else {
                r matches Some(s) && s@ == trim_spec(c@)
            },
            None => r is None,
        },
{
    match contents {
        Some(c) => {
            let t = trim_str(c);
            if t.as_str().unicode_len() == 0 {
                None
            } else {
                Some(t)
            }
        },
        None => None,
    }
}

/// The inventory row one entry decodes to, if its name encodes a scope.
pub open spec fn spec_decode_entry(instances_dir: Seq<char>, e: EntryView) -> Option<
    InstanceView,
> {
    match spec_from_dir_name(e.name) {
        Some(sv) => Some(
            InstanceView {
                scope: sv,
                dir: instances_dir + "/"@ + e.name,
                service_name: e.service_name,
                status: spec_status(e.service_name is Some, e.probe_running),
            },
        ),
        None => None,
    }
}

/// The rows a whole sequence of entries decodes to, in entry order.
pub open spec fn spec_decoded(instances_dir: Seq<char>, entries: Seq<EntryView>) -> Seq<
    InstanceView,
>
    decreases entries.len(),
{
    if entries.len() == 0 {
        Seq::empty()
    } else {
        let p = spec_decoded(instances_dir, entries.drop_last());
        match spec_decode_entry(instances_dir, entries.last()) {
            Some(v) => p.push(v),
            None => p,
        }
    }
}

/// Rows ordered by the display form of their scopes.
pub open spec fn spec_sorted(s: Seq<InstanceView>) -> bool {
    forall|i: int, j: int|
        0 <= i < j < s.len() ==> lex_leq(
            spec_display(#[trigger] s[i].scope),
            spec_display(#[trigger] s[j].scope),
        )
}

proof fn lemma_multiset_add_dist(s1: Seq<InstanceView>, s2: Seq<InstanceView>)
    ensures
        (s1 + s2).to_multiset() =~= s1.to_multiset().add(s2.to_multiset()),
    decreases s2.len(),
{
    broadcast use vstd::seq_lib::group_to_multiset_ensures;

    if s2.len() == 0 {
        assert(s1 + s2 =~= s1);
        assert(s2.to_multiset() =~= vstd::multiset::Multiset::<InstanceView>::empty());
    } else {
        lemma_multiset_add_dist(s1, s2.drop_last());
        assert(s1 + s2 =~= (s1 + s2.drop_last()).push(s2.last()));
        assert(((s1 + s2.drop_last()).push(s2.last())).to_multiset() =~= (s1
            + s2.drop_last()).to_multiset().insert(s2.last()));
        assert(s2 =~= s2.drop_last().push(s2.last()));
        assert((s2.drop_last().push(s2.last())).to_multiset() =~= s2.drop_last().to_multiset().insert(
            s2.last(),
        ));
    }
}

proof fn lemma_insert_multiset(s: Seq<InstanceView>, p: int, x: InstanceView)
    requires
        0 <= p <= s.len(),
    ensures
        s.insert(p, x).to_multiset() =~= s.to_multiset().insert(x),
{
    broadcast use vstd::seq_lib::group_to_multiset_ensures;

    let a = s.take(p);
    let b = s.skip(p);
    assert(s.insert(p, x) =~= a.push(x) + b);
    assert(s =~= a + b);
    lemma_multiset_add_dist(a.push(x), b);
    lemma_multiset_add_dist(a, b);
    assert(a.push(x).to_multiset() =~= a.to_multiset().insert(x));
    assert(a.to_multiset().insert(x).add(b.to_multiset()) =~= a.to_multiset().add(
        b.to_multiset(),
    ).insert(x));
}

/// Places one row into a sorted inventory, keeping it sorted.
fn insert_sorted(out: &mut Vec<RunnerInstance>, inst: RunnerInstance)
    requires
        spec_sorted(old(out)@.map_values(|x: RunnerInstance| x@)),
    ensures
        spec_sorted(final(out)@.map_values(|x: RunnerInstance| x@)),
        final(out)@.map_values(|x: RunnerInstance| x@).to_multiset() == old(out)@.map_values(
            |x: RunnerInstance| x@,
        ).to_multiset().insert(inst@),
{
    let ghost m0 = old(out)@.map_values(|x: RunnerInstance| x@);
    let key = inst.scope.to_display();
    let n = out.len();
    let mut p: usize = 0;
    while p < n
        invariant
            n == out@.len(),
            m0 == out@.map_values(|x: RunnerInstance| x@),
            m0.len() == n,
            key@ == spec_display(inst@.scope),
            0 <= p <= n,
            forall|j: int| 0 <= j < p ==> lex_leq(spec_display(#[trigger] m0[j].scope), key@),
        ensures
            n == out@.len(),
            m0 == out@.map_values(|x: RunnerInstance| x@),
            0 <= p <= n,
            forall|j: int| 0 <= j < p ==> lex_leq(spec_display(#[trigger] m0[j].scope), key@),
            p < n ==> !lex_leq(spec_display(m0[p as int].scope), key@),
        decreases n - p,
    {
        let d = out[p].scope.to_display();
        proof {
            assert(m0[p as int] == out@[p as int]@);
        }
        if !str_leq(d.as_str(), key.as_str()) {
            break ;
        }
        p = p + 1;
    }
    proof {
        if p < n {
            lemma_lex_total(spec_display(m0[p as int].scope), key@);
        }
    }
    let ghost pos = p as int;
    out.insert(p, inst);
    proof {
        let m1 = out@.map_values(|x: RunnerInstance| x@);
        assert(m1 =~= m0.insert(pos, inst@));
        lemma_insert_multiset(m0, pos, inst@);
        assert(m1.to_multiset() == m0.to_multiset().insert(inst@));
        assert forall|i: int, j: int| 0 <= i < j < m1.len() implies lex_leq(
            spec_display(#[trigger] m1[i].scope),
            spec_display(#[trigger] m1[j].scope),
        ) by {
            if i < pos && j < pos {
                assert(m1[i] == m0[i] && m1[j] == m0[j]);
            } else if i < pos && j == pos {
                assert(m1[i] == m0[i]);
            } else if i < pos && j > pos {
                assert(m1[i] == m0[i] && m1[j] == m0[j - 1]);
                if j - 1 == i {
                    assert(lex_leq(spec_display(m0[i].scope), key@));
                    lemma_lex_trans(
                        spec_display(m0[i].scope),
                        key@,
                        spec_display(m0[j - 1].scope),
                    );
                    assert(false);
                }
            } else if i == pos && j > pos {
                assert(m1[j] == m0[j - 1]);
                assert(lex_leq(key@, spec_display(m0[pos].scope)));
                if j - 1 > pos {
                    lemma_lex_trans(
                        key@,
                        spec_display(m0[pos].scope),
                        spec_display(m0[j - 1].scope),
                    );
                }
            } else {
                assert(m1[i] == m0[i - 1] && m1[j] == m0[j - 1]);
            }
        }
    }
}

/// Builds the inventory of one scan of the instances root: entries whose
/// names decode to a scope become rows — undecodable names are skipped —
/// and the rows come out sorted by their scopes' display form.  The
/// function reads nothing itself and is deterministic in its inputs.
pub fn build_inventory(instances_dir: &str, entries: &Vec<InstanceEntry>) -> (r: Vec<
    RunnerInstance,
>)
    ensures
        spec_sorted(r@.map_values(|x: RunnerInstance| x@)),
        r@.map_values(|x: RunnerInstance| x@).to_multiset() == spec_decoded(
            instances_dir@,
            entries@.map_values(|e: InstanceEntry| e@),
        ).to_multiset(),
{
    broadcast use vstd::seq_lib::group_to_multiset_ensures;

    let ghost eviews = entries@.map_values(|e: InstanceEntry| e@);
    let mut out: Vec<RunnerInstance> = Vec::new();
    let mut i: usize = 0;
    while i < entries.len()
        invariant
            eviews == entries@.map_values(|e: InstanceEntry| e@),
            eviews.len() == entries@.len(),
            0 <= i <= entries@.len(),
            spec_sorted(out@.map_values(|x: RunnerInstance| x@)),
            out@.map_values(|x: RunnerInstance| x@).to_multiset() == spec_decoded(
                instances_dir@,
                eviews.take(i as int),
            ).to_multiset(),
        decreases entries@.len() - i,
    {
        broadcast use vstd::seq_lib::group_to_multiset_ensures;

        proof {
            assert(eviews.take(i + 1).drop_last() =~= eviews.take(i as int));
            assert(eviews.take(i + 1).last() == eviews[i as int]);
            assert(eviews[i as int] == entries@[i as int]@);
        }
        let e = &entries[i];
        match RunnerScope::from_dir_name(e.name.as_str()) {
            Some(scope) => {
                let dir = concat3(instances_dir, "/", e.name.as_str());
                let service_name = match &e.service_name {
                    Some(s) => Some(s.clone()),
                    None => None,
                };
                let status = check_service_status(
                    match &e.service_name {
                        Some(s) => Some(s.as_str()),
                        None => None,
                    },
                    e.probe_running,
                );
                let inst = RunnerInstance { scope, dir, service_name, status };
                proof {
                    assert(spec_decode_entry(instances_dir@, eviews[i as int]) matches Some(v)
                        && inst@ =~~= v);
                }
                insert_sorted(&mut out, inst);
            },
            None => {
                proof {
                    assert(spec_decode_entry(instances_dir@, eviews[i as int]) is None);
                }
            },
        }
        i = i + 1;
    }
    proof {
        assert(eviews.take(entries@.len() as int) =~= eviews);
    }
    out
}

/// Why runner metadata was rejected.
#[derive(Debug, Clone, Copy, PartialEq, Eq, Structural)]
pub enum RunnerFileError {
    /// The metadata file is not valid JSON.
    Json,
    /// The metadata carries no registered URL.
    NoUrl,
    /// The registered URL does not name a scope.
    Url(ScopeError),
    /// The registered URL names an organization where a repository was
    /// expected.
    OrganizationNotRepository,
}

impl RunnerFileError {
    /// Human-readable description of the rejection.
    pub fn message(&self) -> (r: String)
        ensures
            r@ == self.spec_message(),
    {
        match self {
            RunnerFileError::Json => String::from_str("Failed to parse .runner file as JSON"),
            RunnerFileError::NoUrl => String::from_str("No gitHubUrl found in .runner file"),
            RunnerFileError::Url(e) => e.message(),
            RunnerFileError::OrganizationNotRepository => String::from_str(
                "Expected repository URL but found organization",
            ),
        }
    }

    /// The description each rejection carries.
    pub open spec fn spec_message(&self) -> Seq<char> {
        match self {
            RunnerFileError::Json => "Failed to parse .runner file as JSON"@,
            RunnerFileError::NoUrl => "No gitHubUrl found in .runner file"@,
            RunnerFileError::Url(e) => e.spec_message(),
            RunnerFileError::OrganizationNotRepository => "Expected repository URL but found organization"@,
        }
    }
}

/// The `gitHubUrl` string field of the runner metadata JSON, a name for what
/// serde_json extracts: nothing when the text is not JSON, an inner nothing
/// when the field is absent or not a string.  It depends on the text alone.
pub uninterp spec fn github_url_field(content: Seq<char>) -> Option<Option<Seq<char>>>;

/// The `agentName` string field of the runner metadata JSON, named the same
/// way as `github_url_field`.
pub uninterp spec fn agent_name_field(content: Seq<char>) -> Option<Option<Seq<char>>>;

/// Relies on serde_json: `from_str::<Value>` parses the text, `Value::get`
/// and `Value::as_str` read its `gitHubUrl` string field.
#[verifier::external_body]
fn read_github_url_field(content: &str) -> (r: Option<Option<String>>)
    ensures
        match r {
            Some(Some(u)) => github_url_field(content@) == Some(Some(u@)),
            Some(None) => github_url_field(content@) == Some(None::<Seq<char>>),
            None => github_url_field(content@) is None,
        },
{
    match serde_json::from_str::<serde_json::Value>(content) {
        Ok(v) => Some(v.get("gitHubUrl").and_then(|x| x.as_str()).map(|s| s.to_string())),
        Err(_) => None,
    }
}

/// Relies on serde_json: `from_str::<Value>` parses the text, `Value::get`
/// and `Value::as_str` read its `agentName` string field.
#[verifier::external_body]
fn read_agent_name_field(content: &str) -> (r: Option<Option<String>>)
    ensures
        match r {
            Some(Some(u)) => agent_name_field(content@) == Some(Some(u@)),
            Some(None) => agent_name_field(content@) == Some(None::<Seq<char>>),
            None => agent_name_field(content@) is None,
        },
{
    match serde_json::from_str::<serde_json::Value>(content) {
        Ok(v) => Some(v.get("agentName").and_then(|x| x.as_str()).map(|s| s.to_string())),
        Err(_) => None,
    }
}

/// Text with a leading byte-order mark removed.
pub open spec fn spec_strip_bom(c: Seq<char>) -> Seq<char> {
    if c.len() > 0 && c[0] == '\u{feff}' {
        c.skip(1)
    } else {
        c
    }
}

/// Text of the metadata file with a leading byte-order mark removed.
fn strip_bom(content: &str) -> (r: String)
    ensures
        r@ == spec_strip_bom(content@),
{
    let n = content.unicode_len();
    if n > 0 && content.get_char(0) == '\u{feff}' {
        let r = substring(content, 1, n);
        proof {
            assert(content@.skip(1) =~= content@.subrange(1, n as int));
        }
        r
    } else {
        String::from_str(content)
    }
}

/// The scope the metadata text denotes: its registered URL, decoded.
pub open spec fn spec_scope_from_runner_file(content: Seq<char>) -> Result<
    ScopeView,
    RunnerFileError,
> {
    let c = spec_strip_bom(content);
    match github_url_field(c) {
        None => Err(RunnerFileError::Json),
        Some(None) => Err(RunnerFileError::NoUrl),
        Some(Some(url)) => match spec_from_github_url(url) {
            Ok(v) => Ok(v),
            Err(e) => Err(RunnerFileError::Url(e)),
        },
    }
}

/// Reads the scope a runner's metadata file registers: the JSON's
/// `gitHubUrl` field, decoded as a GitHub URL; a leading byte-order mark is
/// tolerated.
pub fn parse_scope_from_runner_config(content: &str) -> (r: Result<RunnerScope, RunnerFileError>)
    ensures
        match r {
            Ok(s) => spec_scope_from_runner_file(content@) == Ok::<ScopeView, RunnerFileError>(
                s@,
            ),
            Err(e) => spec_scope_from_runner_file(content@) == Err::<ScopeView, RunnerFileError>(
                e,
            ),
        },
{
    let stripped = strip_bom(content);
    match read_github_url_field(stripped.as_str()) {
        None => Err(RunnerFileError::Json),
        Some(None) => Err(RunnerFileError::NoUrl),
        Some(Some(url)) => match RunnerScope::from_github_url(url.as_str()) {
            Ok(s) => Ok(s),
            Err(e) => Err(RunnerFileError::Url(e)),
        },
    }
}

/// Reads the repository a runner's metadata file registers, in `owner/repo`
/// form; an organization registration is rejected.
pub fn parse_repo_from_runner_config(content: &str) -> (r: Result<String, RunnerFileError>)
    ensures
        match r {
            Ok(s) => spec_scope_from_runner_file(content@) matches Ok(v) && v is Repository && s@
                == spec_display(v),
            Err(e) => match spec_scope_from_runner_file(content@) {
                Ok(v) => v is Organization && e == RunnerFileError::OrganizationNotRepository,
                Err(e2) => e == e2,
            },
        },
{
    match parse_scope_from_runner_config(content) {
        Ok(scope) => match scope {
            RunnerScope::Repository { .. } => Ok(scope.to_display()),
            RunnerScope::Organization { .. } => Err(RunnerFileError::OrganizationNotRepository),
        },
        Err(e) => Err(e),
    }
}

/// Mathematical view of a discovered runner directory.
#[verifier::ext_equal]
pub struct DiscoveredView {
    pub path: Seq<char>,
    pub scope: ScopeView,
    pub agent_name: Option<Seq<char>>,
}

/// A runner directory found by probing the filesystem, before any import.
#[derive(Debug, Clone)]
pub struct DiscoveredRunner {
    /// Where the directory sits.
    pub path: String,
    /// The scope its metadata registers.
    pub scope: RunnerScope,
    /// The agent name its metadata registers, when present.
    pub agent_name: Option<String>,
}

impl View for DiscoveredRunner {
    type V = DiscoveredView;

    open spec fn view(&self) -> DiscoveredView {
        DiscoveredView {
            path: self.path@,
            scope: self.scope@,
            agent_name: match self.agent_name {
                Some(a) => Some(a@),
                None => None,
            },
        }
    }
}

impl DiscoveredRunner {
    /// An owned copy with the same view.
    pub fn clone_runner(&self) -> (r: DiscoveredRunner)
        ensures
            r@ == self@,
    {
        let r = DiscoveredRunner {
            path: self.path.clone(),
            scope: self.scope.duplicate(),
            agent_name: match &self.agent_name {
                Some(a) => Some(a.clone()),
                None => None,
            },
        };
        proof {
            assert(r@ =~~= self@);
        }
        r
    }
}

/// What validating a candidate directory yields: it must hold the runner
/// configuration entry point and metadata whose registered URL decodes.
pub open spec fn spec_validate_runner(
    path: Seq<char>,
    has_config_sh: bool,
    runner_file: Option<Seq<char>>,
) -> Option<DiscoveredView> {
    if !has_config_sh {
        None
    } else {
        match runner_file {
            None => None,
            Some(content) => match spec_scope_from_runner_file(content) {
                Ok(v) => Some(
                    DiscoveredView {
                        path: path,
                        scope: v,
                        agent_name: match agent_name_field(spec_strip_bom(content)) {
                            Some(Some(a)) => Some(a),
                            _ => None,
                        },
                    },
                ),
                Err(_) => None,
            },
        }
    }
}

/// Validates one candidate directory from what a probe of it saw: whether
/// the configuration entry point exists, and the metadata file's text.
pub fn validate_runner_directory(
    path: &str,
    has_config_sh: bool,
    runner_file: Option<&str>,
) -> (r: Option<DiscoveredRunner>)
    ensures
        match r {
            Some(d) => spec_validate_runner(
                path@,
                has_config_sh,
                match runner_file {
                    Some(c) => Some(c@),
                    None => None,
                },
            ) == Some(d@),
            None => spec_validate_runner(
                path@,
                has_config_sh,
                match runner_file {
                    Some(c) => Some(c@),
                    None => None,
                },
            ) is None,
        },
{
    if !has_config_sh {
        return None;
    }
    match runner_file {
        None => None,
        Some(content) => {
            match parse_scope_from_runner_config(content) {
                Ok(scope) => {
                    let stripped = strip_bom(content);
                    let agent_name = match read_agent_name_field(stripped.as_str()) {
                        Some(Some(a)) => Some(a),
                        _ => None,
                    };
                    let d = DiscoveredRunner { path: String::from_str(path), scope, agent_name };
                    proof {
                        assert(spec_validate_runner(path@, has_config_sh, Some(content@))
                            == Some(d@));
                    }
                    Some(d)
                },
                Err(_) => None,
            }
        },
    }
}

/// Mathematical view of one service-definition file.
#[verifier::ext_equal]
pub struct PlistView {
    pub name: Seq<char>,
    pub content: Seq<char>,
}

/// One file of the launchd service directory: its name and its text.
#[derive(Debug, Clone)]
pub struct PlistFile {
    pub name: String,
    pub content: String,
}

impl View for PlistFile {
    type V = PlistView;

    open spec fn view(&self) -> PlistView {
        PlistView { name: self.name@, content: self.content@ }
    }
}

/// The first systemd listing line that names both the agent and the runner
/// service family, reduced to its unit name.
pub open spec fn spec_match_systemd(lines: Seq<Seq<char>>, agent: Seq<char>) -> Option<Seq<char>>
    decreases lines.len(),
{
    if lines.len() == 0 {
        None
    } else if has_sub(lines[0], agent) && has_sub(lines[0], "actions.runner"@) {
        Some(spec_trim_suffix(spec_first_token(lines[0]), ".service"@))
    } else {
        spec_match_systemd(lines.skip(1), agent)
    }
}

/// Finds the systemd unit supervising a runner in a `list-units` listing:
/// the first line holding both the agent name and `actions.runner`, taken
/// as its first word without the `.service` suffix.
pub fn match_systemd_units(lines: &Vec<String>, agent_name: &str) -> (r: Option<String>)
    ensures
        match r {
            Some(u) => spec_match_systemd(
                lines@.map_values(|x: String| x@),
                agent_name@,
            ) == Some(u@),
            None => spec_match_systemd(lines@.map_values(|x: String| x@), agent_name@) is None,
        },
{
    let ghost lv = lines@.map_values(|x: String| x@);
    proof {
        assert(lv.skip(0) =~= lv);
    }
    let n = lines.len();
    let mut i: usize = 0;
    while i < n
        invariant
            n == lines@.len(),
            lv == lines@.map_values(|x: String| x@),
            lv.len() == n,
            0 <= i <= n,
            spec_match_systemd(lv, agent_name@) == spec_match_systemd(
                lv.skip(i as int),
                agent_name@,
            ),
        decreases n - i,
    {
        proof {
            assert(lv.skip(i as int)[0] == lv[i as int]);
            assert(lv.skip(i as int).skip(1) =~= lv.skip(i + 1));
            assert(lv[i as int] == lines@[i as int]@);
        }
        let line = &lines[i];
        if crate::strutil::contains_sub(line.as_str(), agent_name) && crate::strutil::contains_sub(
            line.as_str(),
            "actions.runner",
        ) {
            let token = crate::strutil::first_token(line.as_str());
            let unit = crate::strutil::trim_suffix(token.as_str(), ".service");
            return Some(unit);
        }
        i = i + 1;
    }
    proof {
        assert(lv.skip(n as int) =~= Seq::<Seq<char>>::empty());
    }
    None
}

/// The first launchd file named for the runner family whose text points at
/// the instance directory, reduced to its label.
pub open spec fn spec_match_plist_primary(files: Seq<PlistView>, dir: Seq<char>) -> Option<
    Seq<char>,
>
    decreases files.len(),
{
    if files.len() == 0 {
        None
    } else if "actions.runner."@.is_prefix_of(files[0].name) && crate::service::spec_is_plist(
        files[0].name,
    ) && has_sub(files[0].content, dir) {
        Some(spec_trim_suffix(files[0].name, ".plist"@))
    } else {
        spec_match_plist_primary(files.skip(1), dir)
    }
}

/// The first launchd file whose name holds the agent name, reduced to its
/// label; the last resort of detection.
pub open spec fn spec_match_plist_fallback(files: Seq<PlistView>, agent: Seq<char>) -> Option<
    Seq<char>,
>
    decreases files.len(),
{
    if files.len() == 0 {
        None
    } else if has_sub(files[0].name, agent) && crate::service::spec_is_plist(files[0].name) {
        Some(spec_trim_suffix(files[0].name, ".plist"@))
    } else {
        spec_match_plist_fallback(files.skip(1), agent)
    }
}

/// Finds the launchd service supervising a runner among the service
/// directory's files: first a runner-family file whose text names the
/// instance directory, then any file named after the agent.
pub fn detect_launchd_service(
    files: &Vec<PlistFile>,
    runner_dir: &str,
    agent_name: &str,
) -> (r: Option<String>)
    ensures
        ({
            let fv = files@.map_values(|x: PlistFile| x@);
            let expect = match spec_match_plist_primary(fv, runner_dir@) {
                Some(u) => Some(u),
                None => spec_match_plist_fallback(fv, agent_name@),
            };
            match r {
                Some(u) => expect == Some(u@),
                None => expect is None,
            }
        }),
{
    let ghost fv = files@.map_values(|x: PlistFile| x@);
    proof {
        assert(fv.skip(0) =~= fv);
    }
    let n = files.len();
    let mut i: usize = 0;
    while i < n
        invariant
            n == files@.len(),
            fv == files@.map_values(|x: PlistFile| x@),
            fv.len() == n,
            0 <= i <= n,
            spec_match_plist_primary(fv, runner_dir@) == spec_match_plist_primary(
                fv.skip(i as int),
                runner_dir@,
            ),
        decreases n - i,
    {
        proof {
            assert(fv.skip(i as int)[0] == fv[i as int]);
            assert(fv.skip(i as int).skip(1) =~= fv.skip(i + 1));
            assert(fv[i as int] == files@[i as int]@);
        }
        let f = &files[i];
        if crate::strutil::starts_with_str(f.name.as_str(), "actions.runner.")
            && crate::service::is_plist_path(f.name.as_str()) && crate::strutil::contains_sub(
            f.content.as_str(),
            runner_dir,
        ) {
            return Some(crate::strutil::trim_suffix(f.name.as_str(), ".plist"));
        }
        i = i + 1;
    }
    proof {
        assert(fv.skip(n as int) =~= Seq::<PlistView>::empty());
    }
    let mut k: usize = 0;
    proof {
        assert(fv.skip(0) =~= fv);
    }
    while k < n
        invariant
            n == files@.len(),
            fv == files@.map_values(|x: PlistFile| x@),
            fv.len() == n,
            0 <= k <= n,
            spec_match_plist_primary(fv, runner_dir@) is None,
            spec_match_plist_fallback(fv, agent_name@) == spec_match_plist_fallback(
                fv.skip(k as int),
                agent_name@,
            ),
        decreases n - k,
    {
        proof {
            assert(fv.skip(k as int)[0] == fv[k as int]);
            assert(fv.skip(k as int).skip(1) =~= fv.skip(k + 1));
            assert(fv[k as int] == files@[k as int]@);
        }
        let f = &files[k];
        if crate::strutil::contains_sub(f.name.as_str(), agent_name)
            && crate::service::is_plist_path(f.name.as_str()) {
            return Some(crate::strutil::trim_suffix(f.name.as_str(), ".plist"));
        }
        k = k + 1;
    }
    proof {
        assert(fv.skip(n as int) =~= Seq::<PlistView>::empty());
    }
    None
}

} // verus!
