//! Identity of a runner registration target: a repository or an organization.
//!
//! A `RunnerScope` is created by validated parsing only, and every canonical
//! encoding of it (directory name, display form, GitHub URL, API path) is
//! specified as a function of the scope's view.  The decoders are exact: the
//! contracts say precisely which inputs decode, to what, and which are
//! rejected.  The module also carries the plain data shapes that the remote
//! GitHub registry hands back to the rest of the library.

use vstd::prelude::*;
use vstd::seq_lib::*;
use vstd::string::*;

use crate::strutil::{
    contains_char, find_char, find_char_spec, has_sub, lemma_find_char_contains,
    lemma_find_char_spec, lemma_find_sub_spec, starts_with_str, str_eq, substring,
};

verus! {

/// Mathematical view of a scope: the character sequences that identify it.
#[verifier::ext_equal]
pub enum ScopeView {
    Repository { owner: Seq<char>, repo: Seq<char> },
    Organization { org: Seq<char> },
}

/// A runner registration target: one repository or one organization.
#[derive(Debug, Clone, Eq, Hash)]
pub enum RunnerScope {
    Repository { owner: String, repo: String },
    Organization { org: String },
}

impl View for RunnerScope {
    type V = ScopeView;

    open spec fn view(&self) -> ScopeView {
        match self {
            RunnerScope::Repository { owner, repo } => ScopeView::Repository {
                owner: owner@,
                repo: repo@,
            },
            RunnerScope::Organization { org } => ScopeView::Organization { org: org@ },
        }
    }
}

impl PartialEq for RunnerScope {
    fn eq(&self, other: &RunnerScope) -> (r: bool) {
        let r = match (self, other) {
            (
                RunnerScope::Repository { owner: o1, repo: r1 },
                RunnerScope::Repository { owner: o2, repo: r2 },
            ) => str_eq(o1.as_str(), o2.as_str()) && str_eq(r1.as_str(), r2.as_str()),
            (
                RunnerScope::Organization { org: g1 },
                RunnerScope::Organization { org: g2 },
            ) => str_eq(g1.as_str(), g2.as_str()),
            _ => false,
        };
        proof {
            if r {
                assert(self@ =~= other@);
            }
        }
        r
    }
}

impl vstd::std_specs::cmp::PartialEqSpecImpl for RunnerScope {
    open spec fn obeys_eq_spec() -> bool {
        true
    }

    open spec fn eq_spec(&self, other: &RunnerScope) -> bool {
        self@ == other@
    }
}

/// Why a string was rejected as a scope, a URL, or runner metadata.
#[derive(Debug, Clone, Copy, PartialEq, Eq, Structural)]
pub enum ScopeError {
    /// An `org:` identifier with nothing after the colon.
    EmptyOrgName,
    /// An `org:` identifier whose name holds a `/`.
    OrgNameWithSlash,
    /// An identifier with a `/` that is not exactly `owner/repo`.
    RepositoryFormat,
    /// An identifier that is neither `owner/repo` nor `org:name`.
    InvalidIdentifier,
    /// A URL that does not start with a GitHub host prefix.
    UnexpectedUrl,
    /// A GitHub URL whose path is neither one nor two segments.
    UrlScope,
}

impl ScopeError {
    /// Human-readable description of the rejection.
    pub fn message(&self) -> (r: String)
        ensures
            r@ == self.spec_message(),
    {
        match self {
            ScopeError::EmptyOrgName => String::from_str("Organization name cannot be empty"),
            ScopeError::OrgNameWithSlash => String::from_str("Organization name cannot contain '/'"),
            ScopeError::RepositoryFormat => String::from_str(
                "Repository must be in 'owner/repo' format",
            ),
            ScopeError::InvalidIdentifier => String::from_str(
                "Invalid identifier. Use 'owner/repo' for repositories or 'org:name' for organizations",
            ),
            ScopeError::UnexpectedUrl => String::from_str("Unexpected GitHub URL format"),
            ScopeError::UrlScope => String::from_str("Cannot determine scope from URL"),
        }
    }

    /// The description each rejection carries.
    pub open spec fn spec_message(&self) -> Seq<char> {
        match self {
            ScopeError::EmptyOrgName => "Organization name cannot be empty"@,
            ScopeError::OrgNameWithSlash => "Organization name cannot contain '/'"@,
            ScopeError::RepositoryFormat => "Repository must be in 'owner/repo' format"@,
            ScopeError::InvalidIdentifier => "Invalid identifier. Use 'owner/repo' for repositories or 'org:name' for organizations"@,
            ScopeError::UnexpectedUrl => "Unexpected GitHub URL format"@,
            ScopeError::UrlScope => "Cannot determine scope from URL"@,
        }
    }
}

/// What parsing an identifier yields: `owner/repo` with both segments
/// non-empty and free of `/`, or `org:name` with a non-empty name free of
/// `/`; anything else is rejected with the reason.
pub open spec fn spec_parse(id: Seq<char>) -> Result<ScopeView, ScopeError> {
    if "org:"@.is_prefix_of(id) {
        let name = id.skip(4);
        if name.len() == 0 {
            Err(ScopeError::EmptyOrgName)
        } else if name.contains('/') {
            Err(ScopeError::OrgNameWithSlash)
        } else {
            Ok(ScopeView::Organization { org: name })
        }
    } else if id.contains('/') {
        let i = find_char_spec(id, '/')->Some_0;
        let owner = id.take(i);
        let rest = id.skip(i + 1);
        if owner.len() > 0 && rest.len() > 0 && !rest.contains('/') {
            Ok(ScopeView::Repository { owner, repo: rest })
        } else {
            Err(ScopeError::RepositoryFormat)
        }
    } else {
        Err(ScopeError::InvalidIdentifier)
    }
}

/// Directory-name encoding: `owner__repo`, or `org__name`.
pub open spec fn spec_dir_name(v: ScopeView) -> Seq<char> {
    match v {
        ScopeView::Repository { owner, repo } => owner + "__"@ + repo,
        ScopeView::Organization { org } => "org__"@ + org,
    }
}

/// Display encoding: `owner/repo`, or `org:name`.
pub open spec fn spec_display(v: ScopeView) -> Seq<char> {
    match v {
        ScopeView::Repository { owner, repo } => owner + "/"@ + repo,
        ScopeView::Organization { org } => "org:"@ + org,
    }
}

/// The GitHub page of the scope.
pub open spec fn spec_github_url(v: ScopeView) -> Seq<char> {
    match v {
        ScopeView::Repository { owner, repo } => "https://github.com/"@ + owner + "/"@ + repo,
        ScopeView::Organization { org } => "https://github.com/"@ + org,
    }
}

/// The REST API path segment of the scope.
pub open spec fn spec_api_path(v: ScopeView) -> Seq<char> {
    match v {
        ScopeView::Repository { owner, repo } => "repos/"@ + owner + "/"@ + repo,
        ScopeView::Organization { org } => "orgs/"@ + org,
    }
}

/// What decoding the path of a GitHub URL yields, once the host prefix is
/// gone: trailing slashes are dropped, one non-empty segment names an
/// organization, two name a repository, anything else is rejected.
pub open spec fn spec_url_path(path0: Seq<char>) -> Result<ScopeView, ScopeError> {
    let path = crate::strutil::trim_trailing(path0, '/');
    if path.len() == 0 {
        Err(ScopeError::UrlScope)
    } else if !path.contains('/') {
        Ok(ScopeView::Organization { org: path })
    } else {
        let i = find_char_spec(path, '/')->Some_0;
        let owner = path.take(i);
        let rest = path.skip(i + 1);
        if owner.len() > 0 && rest.len() > 0 && !rest.contains('/') {
            Ok(ScopeView::Repository { owner, repo: rest })
        } else {
            Err(ScopeError::UrlScope)
        }
    }
}

/// What decoding a full GitHub URL yields: the URL must start with the
/// `https` or `http` GitHub host prefix, and its path decodes as
/// `spec_url_path` says.
pub open spec fn spec_from_github_url(url: Seq<char>) -> Result<ScopeView, ScopeError> {
    if "https://github.com/"@.is_prefix_of(url) {
        spec_url_path(url.skip(19))
    } else if "http://github.com/"@.is_prefix_of(url) {
        spec_url_path(url.skip(18))
    } else {
        Err(ScopeError::UnexpectedUrl)
    }
}

/// What decoding a directory name yields: `org__name` with a non-empty name,
/// or `owner__repo` split at the first `__` with both parts non-empty and the
/// owner not literally `org`; anything else yields nothing.
pub open spec fn spec_from_dir_name(name: Seq<char>) -> Option<ScopeView> {
    if "org__"@.is_prefix_of(name) && name.len() > 5 {
        Some(ScopeView::Organization { org: name.skip(5) })
    } else {
        match crate::strutil::find_sub_spec(name, "__"@) {
            Some(i) => {
                let owner = name.take(i);
                let repo = name.skip(i + 2);
                if owner.len() > 0 && repo.len() > 0 && owner != "org"@ {
                    Some(ScopeView::Repository { owner, repo })
                } else {
                    None
                }
            },
            None => None,
        }
    }
}

impl RunnerScope {
    /// Parses `owner/repo` or `org:name` into a scope; any other shape is
    /// rejected before anything else looks at it.
    pub fn parse(identifier: &str) -> (r: Result<RunnerScope, ScopeError>)
        ensures
            match r {
                Ok(s) => spec_parse(identifier@) == Ok::<ScopeView, ScopeError>(s@),
                Err(e) => spec_parse(identifier@) == Err::<ScopeView, ScopeError>(e),
            },
    {
        proof {
            reveal_strlit("org:");
        }
        let n = identifier.unicode_len();
        if starts_with_str(identifier, "org:") {
            let name = substring(identifier, 4, n);
            proof {
                assert(identifier@.skip(4) =~= identifier@.subrange(4, n as int));
            }
            if name.as_str().unicode_len() == 0 {
                Err(ScopeError::EmptyOrgName)
            } else if contains_char(name.as_str(), '/') {
                Err(ScopeError::OrgNameWithSlash)
            } else {
                let r = RunnerScope::Organization { org: name };
                proof {
                    assert(spec_parse(identifier@) == Ok::<ScopeView, ScopeError>(r@));
                }
                Ok(r)
            }
        } else if let Some(i) = find_char(identifier, '/') {
            proof {
                lemma_find_char_spec(identifier@, '/');
                lemma_find_char_contains(identifier@, '/');
            }
            let owner = substring(identifier, 0, i);
            let rest = substring(identifier, i + 1, n);
            proof {
                assert(identifier@.take(i as int) =~= identifier@.subrange(0, i as int));
                assert(identifier@.skip(i + 1) =~= identifier@.subrange(i + 1, n as int));
            }
            if owner.as_str().unicode_len() > 0 && rest.as_str().unicode_len() > 0
                && !contains_char(rest.as_str(), '/') {
                let r = RunnerScope::Repository { owner, repo: rest };
                proof {
                    assert(spec_parse(identifier@) == Ok::<ScopeView, ScopeError>(r@));
                }
                Ok(r)
            } else {
                Err(ScopeError::RepositoryFormat)
            }
        } else {
            proof {
                lemma_find_char_contains(identifier@, '/');
            }
            Err(ScopeError::InvalidIdentifier)
        }
    }

    /// Decodes a stored GitHub URL into a scope: one path segment names an
    /// organization, two name a repository, trailing slashes are ignored,
    /// and any other host or shape is rejected.
    pub fn from_github_url(url: &str) -> (r: Result<RunnerScope, ScopeError>)
        ensures
            match r {
                Ok(s) => spec_from_github_url(url@) == Ok::<ScopeView, ScopeError>(s@),
                Err(e) => spec_from_github_url(url@) == Err::<ScopeView, ScopeError>(e),
            },
    {
        proof {
            reveal_strlit("https://github.com/");
            reveal_strlit("http://github.com/");
        }
        let n = url.unicode_len();
        if starts_with_str(url, "https://github.com/") {
            let path0 = substring(url, 19, n);
            proof {
                assert(url@.skip(19) =~= url@.subrange(19, n as int));
            }
            url_path_scope(path0.as_str())
        } else if starts_with_str(url, "http://github.com/") {
            let path0 = substring(url, 18, n);
            proof {
                assert(url@.skip(18) =~= url@.subrange(18, n as int));
            }
            url_path_scope(path0.as_str())
        } else {
            Err(ScopeError::UnexpectedUrl)
        }
    }

    /// Canonical directory name of the scope.
    pub fn to_dir_name(&self) -> (r: String)
        ensures
            r@ == spec_dir_name(self@),
    {
        match self {
            RunnerScope::Repository { owner, repo } => {
                let mut r = String::from_str(owner.as_str());
                r.append("__");
                r.append(repo.as_str());
                r
            },
            RunnerScope::Organization { org } => {
                let mut r = String::from_str("org__");
                r.append(org.as_str());
                r
            },
        }
    }

    /// Display form of the scope, as shown to the operator.
    pub fn to_display(&self) -> (r: String)
        ensures
            r@ == spec_display(self@),
    {
        match self {
            RunnerScope::Repository { owner, repo } => {
                let mut r = String::from_str(owner.as_str());
                r.append("/");
                r.append(repo.as_str());
                r
            },
            RunnerScope::Organization { org } => {
                let mut r = String::from_str("org:");
                r.append(org.as_str());
                r
            },
        }
    }

    /// The GitHub page of the scope.
    pub fn github_url(&self) -> (r: String)
        ensures
            r@ == spec_github_url(self@),
    {
        let mut r = String::from_str("https://github.com/");
        match self {
            RunnerScope::Repository { owner, repo } => {
                r.append(owner.as_str());
                r.append("/");
                r.append(repo.as_str());
            },
            RunnerScope::Organization { org } => {
                r.append(org.as_str());
            },
        }
        r
    }

    /// The REST API path segment of the scope.
    pub fn api_path(&self) -> (r: String)
        ensures
            r@ == spec_api_path(self@),
    {
        match self {
            RunnerScope::Repository { owner, repo } => {
                let mut r = String::from_str("repos/");
                r.append(owner.as_str());
                r.append("/");
                r.append(repo.as_str());
                r
            },
            RunnerScope::Organization { org } => {
                let mut r = String::from_str("orgs/");
                r.append(org.as_str());
                r
            },
        }
    }

    /// Only repositories have workflow runs at this API surface.
    pub fn supports_workflow_runs(&self) -> (r: bool)
        ensures
            r == (self@ is Repository),
    {
        match self {
            RunnerScope::Repository { .. } => true,
            RunnerScope::Organization { .. } => false,
        }
    }

    /// An owned copy of the scope with the same view.
    pub fn duplicate(&self) -> (r: RunnerScope)
        ensures
            r@ == self@,
    {
        let r = match self {
            RunnerScope::Repository { owner, repo } => RunnerScope::Repository {
                owner: owner.clone(),
                repo: repo.clone(),
            },
            RunnerScope::Organization { org } => RunnerScope::Organization { org: org.clone() },
        };
        proof {
            assert(r@ =~= self@);
        }
        r
    }

    /// Decodes a directory name back into a scope; names that are not a
    /// canonical encoding yield nothing, silently.
    pub fn from_dir_name(dir_name: &str) -> (r: Option<RunnerScope>)
        ensures
            match r {
                Some(s) => spec_from_dir_name(dir_name@) == Some(s@),
                None => spec_from_dir_name(dir_name@) is None,
            },
    {
        proof {
            reveal_strlit("org__");
            reveal_strlit("__");
            reveal_strlit("org");
        }
        let n = dir_name.unicode_len();
        if starts_with_str(dir_name, "org__") && n > 5 {
            let org = substring(dir_name, 5, n);
            proof {
                assert(dir_name@.skip(5) =~= dir_name@.subrange(5, n as int));
            }
            let r = RunnerScope::Organization { org };
            proof {
                assert(spec_from_dir_name(dir_name@) == Some(r@));
            }
            return Some(r);
        }
        match crate::strutil::find_sub(dir_name, "__") {
            Some(i) => {
                proof {
                    lemma_find_sub_spec(dir_name@, "__"@);
                }
                let owner = substring(dir_name, 0, i);
                let repo = substring(dir_name, i + 2, n);
                proof {
                    assert(dir_name@.take(i as int) =~= dir_name@.subrange(0, i as int));
                    assert(dir_name@.skip(i + 2) =~= dir_name@.subrange(i + 2, n as int));
                }
                if owner.as_str().unicode_len() > 0 && repo.as_str().unicode_len() > 0
                    && !str_eq(owner.as_str(), "org") {
                    let r = RunnerScope::Repository { owner, repo };
                    proof {
                        assert(spec_from_dir_name(dir_name@) == Some(r@));
                    }
                    Some(r)
                } else {
                    None
                }
            },
            None => None,
        }
    }
}

/// Decides what the path part of a GitHub URL names.
fn url_path_scope(path0: &str) -> (r: Result<RunnerScope, ScopeError>)
    ensures
        match r {
            Ok(s) => spec_url_path(path0@) == Ok::<ScopeView, ScopeError>(s@),
            Err(e) => spec_url_path(path0@) == Err::<ScopeView, ScopeError>(e),
        },
{
    let path = crate::strutil::trim_trailing_char(path0, '/');
    let n = path.as_str().unicode_len();
    if n == 0 {
        return Err(ScopeError::UrlScope);
    }
    match find_char(path.as_str(), '/') {
        None => {
            proof {
                lemma_find_char_contains(path@, '/');
            }
            Ok(RunnerScope::Organization { org: path })
        },
        Some(i) => {
            proof {
                lemma_find_char_spec(path@, '/');
                lemma_find_char_contains(path@, '/');
            }
            let owner = substring(path.as_str(), 0, i);
            let rest = substring(path.as_str(), i + 1, n);
            proof {
                assert(path@.take(i as int) =~= path@.subrange(0, i as int));
                assert(path@.skip(i + 1) =~= path@.subrange(i + 1, n as int));
            }
            if owner.as_str().unicode_len() > 0 && rest.as_str().unicode_len() > 0
                && !contains_char(rest.as_str(), '/') {
                let r = RunnerScope::Repository { owner, repo: rest };
                proof {
                    assert(spec_url_path(path0@) == Ok::<ScopeView, ScopeError>(r@));
                }
                Ok(r)
            } else {
                Err(ScopeError::UrlScope)
            }
        },
    }
}

/// A scope the library considers well formed: every segment non-empty and
/// free of `/`, and the owner of a repository not literally `org` (that word
/// is reserved by the directory encoding).
pub open spec fn spec_valid(v: ScopeView) -> bool {
    match v {
        ScopeView::Repository { owner, repo } => owner.len() > 0 && repo.len() > 0
            && !owner.contains('/') && !repo.contains('/') && owner != "org"@,
        ScopeView::Organization { org } => org.len() > 0 && !org.contains('/'),
    }
}

/// Owners on which the directory encoding is injective: decoding splits at
/// the first `__`, so an owner holding `__` or ending in `_` would decode to
/// a different scope.
pub open spec fn dir_injective(v: ScopeView) -> bool {
    match v {
        ScopeView::Repository { owner, repo } => !has_sub(owner, "__"@) && owner.last() != '_',
        ScopeView::Organization { org } => true,
    }
}

/// Owners on which the display encoding is injective: an owner starting with
/// `org:` would display as an organization identifier.
pub open spec fn display_parseable(v: ScopeView) -> bool {
    match v {
        ScopeView::Repository { owner, repo } => !"org:"@.is_prefix_of(owner),
        ScopeView::Organization { org } => true,
    }
}

/// Law: decoding a directory name undoes encoding, for every well-formed
/// scope whose owner neither holds `__` nor ends in `_`.
pub proof fn lemma_dir_name_round_trip(v: ScopeView)
    requires
        spec_valid(v),
        dir_injective(v),
    ensures
        spec_from_dir_name(spec_dir_name(v)) == Some(v),
{
    reveal_strlit("org__");
    reveal_strlit("__");
    reveal_strlit("org");
    match v {
        ScopeView::Organization { org } => {
            let d = spec_dir_name(v);
            assert(d.len() == 5 + org.len());
            assert(d.subrange(0, 5) =~= "org__"@);
            assert("org__"@.is_prefix_of(d));
            assert(d.skip(5) =~= org);
            assert(ScopeView::Organization { org: d.skip(5) } =~= v);
        },
        ScopeView::Repository { owner, repo } => {
            let d = spec_dir_name(v);
            let k = owner.len() as int;
            assert(d.len() == k + 2 + repo.len());
            assert(forall|x: int| 0 <= x < k ==> d[x] == owner[x]);
            assert(d[k] == '_' && d[k + 1] == '_');
            assert(forall|x: int| k + 2 <= x < d.len() ==> d[x] == repo[x - k - 2]);
            // the name does not carry the organization prefix
            if "org__"@.is_prefix_of(d) {
                assert(forall|x: int| 0 <= x < 5 ==> d[x] == "org__"@[x]);
                if k >= 5 {
                    assert(owner.subrange(3, 3 + "__"@.len() as int) =~= "__"@);
                    assert(has_sub(owner, "__"@));
                } else if k == 4 {
                    assert(owner.last() == d[3]);
                } else if k == 3 {
                    assert(owner =~= "org"@);
                } else {
                    assert(d[k] == '_');
                }
                assert(false);
            }
            // the first double underscore sits exactly after the owner
            assert(d.subrange(k, k + 2) =~= "__"@);
            assert forall|j: int| 0 <= j < k implies #[trigger] d.subrange(j, j + 2) != "__"@ by {
                if d.subrange(j, j + 2) == "__"@ {
                    assert(d[j] == d.subrange(j, j + 2)[0]);
                    assert(d[j + 1] == d.subrange(j, j + 2)[1]);
                    if j + 1 < k {
                        assert(owner.subrange(j, j + "__"@.len() as int) =~= "__"@);
                        assert(has_sub(owner, "__"@));
                    } else {
                        assert(owner.last() == d[k - 1]);
                    }
                    assert(false);
                }
            }
            lemma_find_sub_spec(d, "__"@);
            match crate::strutil::find_sub_spec(d, "__"@) {
                Some(i) => {
                    if i < k {
                        assert(d.subrange(i, i + 2) != "__"@);
                    } else if i > k {
                        assert(d.subrange(k, k + 2) != "__"@);
                    }
                    assert(i == k);
                    assert(d.take(k) =~= owner);
                    assert(d.skip(k + 2) =~= repo);
                    assert(ScopeView::Repository { owner: d.take(k), repo: d.skip(k + 2) } =~= v);
                },
                None => {
                    assert(d.subrange(k, k + 2) != "__"@);
                    assert(false);
                },
            }
        },
    }
}

/// Law: the display form of every well-formed scope parses back to the same
/// scope, except for a repository owner that itself starts with `org:`.
pub proof fn lemma_display_round_trip(v: ScopeView)
    requires
        spec_valid(v),
        display_parseable(v),
    ensures
        spec_parse(spec_display(v)) == Ok::<ScopeView, ScopeError>(v),
{
    reveal_strlit("org:");
    reveal_strlit("/");
    match v {
        ScopeView::Organization { org } => {
            let d = spec_display(v);
            assert(d.len() == 4 + org.len());
            assert(d.subrange(0, 4) =~= "org:"@);
            assert("org:"@.is_prefix_of(d));
            assert(d.skip(4) =~= org);
            assert(ScopeView::Organization { org: d.skip(4) } =~= v);
        },
        ScopeView::Repository { owner, repo } => {
            let d = spec_display(v);
            let k = owner.len() as int;
            assert(d.len() == k + 1 + repo.len());
            assert(forall|x: int| 0 <= x < k ==> d[x] == owner[x]);
            assert(d[k] == '/');
            assert(forall|x: int| k + 1 <= x < d.len() ==> d[x] == repo[x - k - 1]);
            // not an organization identifier
            if "org:"@.is_prefix_of(d) {
                assert(forall|x: int| 0 <= x < 4 ==> d[x] == "org:"@[x]);
                if k >= 4 {
                    assert(owner.subrange(0, 4) =~= "org:"@);
                    assert("org:"@.is_prefix_of(owner));
                } else {
                    assert(d[k] == '/');
                }
                assert(false);
            }
            // the first slash sits exactly after the owner
            assert(d.contains('/'));
            lemma_find_char_spec(d, '/');
            match find_char_spec(d, '/') {
                Some(i) => {
                    if i < k {
                        assert(owner[i] == '/');
                        assert(owner.contains('/'));
                        assert(false);
                    } else if i > k {
                        assert(d[k] != '/');
                        assert(false);
                    }
                    assert(d.take(k) =~= owner);
                    assert(d.skip(k + 1) =~= repo);
                    assert(!d.skip(k + 1).contains('/'));
                    assert(ScopeView::Repository { owner: d.take(k), repo: d.skip(k + 1) } =~= v);
                },
                None => {
                    assert(d[k] != '/');
                    assert(false);
                },
            }
        },
    }
}

/// Law: the directory encoding is injective on the scopes it round-trips
/// for — two such scopes with the same directory name are the same scope.
pub proof fn lemma_dir_name_injective(a: ScopeView, b: ScopeView)
    requires
        spec_valid(a),
        dir_injective(a),
        spec_valid(b),
        dir_injective(b),
        spec_dir_name(a) == spec_dir_name(b),
    ensures
        a == b,
{
    lemma_dir_name_round_trip(a);
    lemma_dir_name_round_trip(b);
}

/// Law: the display encoding is injective on the scopes it round-trips for.
pub proof fn lemma_display_injective(a: ScopeView, b: ScopeView)
    requires
        spec_valid(a),
        display_parseable(a),
        spec_valid(b),
        display_parseable(b),
        spec_display(a) == spec_display(b),
    ensures
        a == b,
{
    lemma_display_round_trip(a);
    lemma_display_round_trip(b);
}

/// Law: a directory name that decodes at all decodes to a scope whose
/// encoding is that very name.
pub proof fn lemma_from_dir_name_sound(name: Seq<char>)
    ensures
        match spec_from_dir_name(name) {
            Some(v) => spec_dir_name(v) == name,
            None => true,
        },
{
    reveal_strlit("org__");
    reveal_strlit("__");
    if "org__"@.is_prefix_of(name) && name.len() > 5 {
        let v = ScopeView::Organization { org: name.skip(5) };
        assert(spec_dir_name(v) =~= name);
    } else {
        lemma_find_sub_spec(name, "__"@);
        match crate::strutil::find_sub_spec(name, "__"@) {
            Some(i) => {
                assert(name.subrange(i, i + 2) == "__"@);
                let owner = name.take(i);
                let repo = name.skip(i + 2);
                if owner.len() > 0 && repo.len() > 0 && owner != "org"@ {
                    let v = ScopeView::Repository { owner, repo };
                    assert forall|x: int| 0 <= x < name.len() implies spec_dir_name(v)[x]
                        == name[x] by {
                        if i <= x < i + 2 {
                            assert(name.subrange(i, i + 2)[x - i] == name[x]);
                        }
                    }
                    assert(spec_dir_name(v) =~= name);
                }
            },
            None => {},
        }
    }
}

/// Law: a name that is not the encoding of any scope never decodes; the
/// decoder is silent on everything it does not recognise.
pub proof fn lemma_from_dir_name_rejects(name: Seq<char>)
    requires
        forall|v: ScopeView| name != #[trigger] spec_dir_name(v),
    ensures
        spec_from_dir_name(name) is None,
{
    lemma_from_dir_name_sound(name);
    if spec_from_dir_name(name) is Some {
        let v = spec_from_dir_name(name)->Some_0;
        assert(name != spec_dir_name(v));
        assert(false);
    }
}

/// The authenticated user, as the registry reports it.
#[derive(Debug, Clone)]
pub struct User {
    pub login: String,
}

/// One repository of the authenticated user.
#[derive(Debug, Clone)]
pub struct Repository {
    pub full_name: String,
    pub private: bool,
    pub archived: bool,
}

/// A short-lived runner registration or removal credential.
#[derive(Debug, Clone)]
pub struct RegistrationToken {
    pub token: String,
}

/// One registered runner, as the registry reports it.
#[derive(Debug, Clone)]
pub struct Runner {
    pub id: u64,
    pub name: String,
    pub os: String,
    pub status: String,
    pub busy: bool,
    pub labels: Vec<RunnerLabel>,
}

/// A label attached to a registered runner.
#[derive(Debug, Clone)]
pub struct RunnerLabel {
    pub name: String,
}

/// The registry's answer to a runner listing.
#[derive(Debug, Clone)]
pub struct RunnerList {
    pub total_count: u64,
    pub runners: Vec<Runner>,
}

/// Mathematical view of a registered runner.
#[verifier::ext_equal]
pub struct RunnerView {
    pub id: int,
    pub name: Seq<char>,
    pub os: Seq<char>,
    pub status: Seq<char>,
    pub busy: bool,
}

impl View for Runner {
    type V = RunnerView;

    open spec fn view(&self) -> RunnerView {
        RunnerView {
            id: self.id as int,
            name: self.name@,
            os: self.os@,
            status: self.status@,
            busy: self.busy,
        }
    }
}

/// Mathematical view of a workflow run.
#[verifier::ext_equal]
pub struct WorkflowRunView {
    pub id: int,
    pub name: Option<Seq<char>>,
    pub status: Seq<char>,
    pub conclusion: Option<Seq<char>>,
    pub head_branch: Option<Seq<char>>,
    pub created_at: Seq<char>,
    pub updated_at: Seq<char>,
    pub html_url: Seq<char>,
}

/// One workflow run, as the registry reports it.
#[derive(Debug, Clone)]
pub struct WorkflowRun {
    pub id: u64,
    pub name: Option<String>,
    pub status: String,
    pub conclusion: Option<String>,
    pub head_branch: Option<String>,
    pub created_at: String,
    pub updated_at: String,
    pub html_url: String,
}

impl View for WorkflowRun {
    type V = WorkflowRunView;

    open spec fn view(&self) -> WorkflowRunView {
        WorkflowRunView {
            id: self.id as int,
            name: match self.name {
                Some(n) => Some(n@),
                None => None,
            },
            status: self.status@,
            conclusion: match self.conclusion {
                Some(c) => Some(c@),
                None => None,
            },
            head_branch: match self.head_branch {
                Some(b) => Some(b@),
                None => None,
            },
            created_at: self.created_at@,
            updated_at: self.updated_at@,
            html_url: self.html_url@,
        }
    }
}

/// The registry's answer to a workflow-run listing.
#[derive(Debug, Clone)]
pub struct WorkflowRunList {
    pub total_count: u64,
    pub workflow_runs: Vec<WorkflowRun>,
}

} // verus!
