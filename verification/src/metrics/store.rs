//! The metrics history store and its aggregation.
//!
//! The store keeps workflow-run records (one per remote run id and scope,
//! upserted idempotently) and runner snapshots (append-only), and computes
//! rolling-window statistics from them.  Persistence is a caller's concern:
//! the store is plain data, and every operation on it is verified.

use vstd::prelude::*;
use vstd::seq_lib::*;
use vstd::string::*;

use crate::github::{spec_display, RunnerScope, RunnerView, WorkflowRun, WorkflowRunView, Runner};
use crate::metrics::models::{
    spec_success_rate, DurationBucket, RunnerSnapshot, ScopeMetrics, SnapshotView, StoredRunView,
    StoredWorkflowRun, Trend,
};
use crate::strutil::str_eq;

verus! {

/// The epoch second a timestamp string denotes, if it parses; a name for
/// what chrono's parser returns, which depends on the string alone.
pub uninterp spec fn parse_instant(s: Seq<char>) -> Option<int>;

/// Relies on chrono: `str::parse::<DateTime<Utc>>` accepts RFC 3339 and
/// yields a date-time limited to about 262000 years around the epoch, and
/// `DateTime::timestamp` returns its epoch second; the bound below follows
/// from that range.
#[verifier::external_body]
fn parse_timestamp(s: &str) -> (r: Option<i64>)
    ensures
        match r {
            Some(t) => parse_instant(s@) == Some(t as int) && -10000000000000 <= t
                <= 10000000000000,
            None => parse_instant(s@) is None,
        },
{
    s.parse::<chrono::DateTime<chrono::Utc>>().ok().map(|d| d.timestamp())
}

/// Seconds from creation to update, when both timestamps parse.
pub open spec fn spec_duration(created: Seq<char>, updated: Seq<char>) -> Option<int> {
    match (parse_instant(created), parse_instant(updated)) {
        (Some(c), Some(u)) => Some(u - c),
        _ => None,
    }
}

/// A remote run id squeezed into the store's signed key space.
pub open spec fn spec_clamp_id(u: int) -> int {
    if u <= i64::MAX as int {
        u
    } else {
        i64::MAX as int
    }
}

/// The stored record a polled workflow run turns into.
pub open spec fn stored_of(w: WorkflowRunView, scope_id: Seq<char>, now: int) -> StoredRunView {
    StoredRunView {
        github_run_id: spec_clamp_id(w.id),
        scope_identifier: scope_id,
        status: w.status,
        conclusion: w.conclusion,
        created_at: w.created_at,
        updated_at: w.updated_at,
        recorded_at: now,
        duration_seconds: spec_duration(w.created_at, w.updated_at),
    }
}

/// First index holding the (run id, scope) key, if any.
pub open spec fn find_run_view(s: Seq<StoredRunView>, id: int, scope: Seq<char>) -> Option<int>
    decreases s.len(),
{
    if s.len() == 0 {
        None
    } else if s[0].github_run_id == id && s[0].scope_identifier == scope {
        Some(0int)
    } else {
        match find_run_view(s.skip(1), id, scope) {
            Some(i) => Some(i + 1),
            None => None,
        }
    }
}

/// The characteristic property of `find_run_view`.
pub proof fn lemma_find_run_view(s: Seq<StoredRunView>, id: int, scope: Seq<char>)
    ensures
        match find_run_view(s, id, scope) {
            Some(i) => 0 <= i < s.len() && s[i].github_run_id == id && s[i].scope_identifier
                == scope && forall|j: int|
                0 <= j < i ==> !(s[j].github_run_id == id && s[j].scope_identifier == scope),
            None => forall|j: int|
                0 <= j < s.len() ==> !(s[j].github_run_id == id && s[j].scope_identifier
                    == scope),
        },
    decreases s.len(),
{
    if s.len() != 0 && !(s[0].github_run_id == id && s[0].scope_identifier == scope) {
        let t = s.skip(1);
        lemma_find_run_view(t, id, scope);
        assert(forall|j: int| 0 <= j < t.len() ==> t[j] == s[j + 1]);
        match find_run_view(t, id, scope) {
            Some(i) => {
                assert(s[i + 1] == t[i]);
                assert forall|j: int|
                    0 <= j < i + 1 implies !(s[j].github_run_id == id && s[j].scope_identifier
                    == scope) by {
                    if j > 0 {
                        assert(s[j] == t[j - 1]);
                    }
                }
            },
            None => {
                assert forall|j: int|
                    0 <= j < s.len() implies !(s[j].github_run_id == id && s[j].scope_identifier
                    == scope) by {
                    if j > 0 {
                        assert(s[j] == t[j - 1]);
                    }
                }
            },
        }
    }
}

/// A fresh record laid over an existing row with the same key: the creation
/// timestamp stays, everything volatile is replaced.
pub open spec fn merge_view(prev: StoredRunView, next: StoredRunView) -> StoredRunView {
    StoredRunView {
        github_run_id: prev.github_run_id,
        scope_identifier: prev.scope_identifier,
        status: next.status,
        conclusion: next.conclusion,
        created_at: prev.created_at,
        updated_at: next.updated_at,
        recorded_at: next.recorded_at,
        duration_seconds: next.duration_seconds,
    }
}

/// One idempotent upsert: update the row with the record's key, or append.
pub open spec fn upsert_view(s: Seq<StoredRunView>, rec: StoredRunView) -> Seq<StoredRunView> {
    match find_run_view(s, rec.github_run_id, rec.scope_identifier) {
        Some(i) => s.update(i, merge_view(s[i], rec)),
        None => s.push(rec),
    }
}

/// The store after a whole batch of polled runs, upserted front to back.
pub open spec fn record_runs_view(
    s: Seq<StoredRunView>,
    wf: Seq<WorkflowRunView>,
    scope_id: Seq<char>,
    now: int,
) -> Seq<StoredRunView>
    decreases wf.len(),
{
    if wf.len() == 0 {
        s
    } else {
        upsert_view(
            record_runs_view(s, wf.drop_last(), scope_id, now),
            stored_of(wf.last(), scope_id, now),
        )
    }
}

/// The snapshot a polled runner turns into.
pub open spec fn snap_of(r: RunnerView, scope_id: Seq<char>, now: int) -> SnapshotView {
    SnapshotView {
        scope_identifier: scope_id,
        runner_id: spec_clamp_id(r.id),
        runner_name: r.name,
        status: r.status,
        busy: r.busy,
        recorded_at: now,
    }
}

/// No two rows share a (run id, scope) key.
pub open spec fn wf_runs(s: Seq<StoredRunView>) -> bool {
    forall|i: int, j: int|
        0 <= i < j < s.len() ==> !(s[i].github_run_id == s[j].github_run_id
            && s[i].scope_identifier == s[j].scope_identifier)
}

/// An upsert keeps the key set unique and grows the store by at most one.
pub proof fn lemma_upsert_wf(s: Seq<StoredRunView>, rec: StoredRunView)
    requires
        wf_runs(s),
    ensures
        wf_runs(upsert_view(s, rec)),
        find_run_view(s, rec.github_run_id, rec.scope_identifier) is Some ==> upsert_view(s, rec).len()
            == s.len(),
        find_run_view(s, rec.github_run_id, rec.scope_identifier) is None ==> upsert_view(s, rec).len()
            == s.len() + 1,
{
    lemma_find_run_view(s, rec.github_run_id, rec.scope_identifier);
    match find_run_view(s, rec.github_run_id, rec.scope_identifier) {
        Some(i) => {
            let s2 = upsert_view(s, rec);
            assert forall|x: int, y: int|
                0 <= x < y < s2.len() implies !(s2[x].github_run_id == s2[y].github_run_id
                && s2[x].scope_identifier == s2[y].scope_identifier) by {
                assert(s2[x].github_run_id == s[x].github_run_id && s2[x].scope_identifier
                    == s[x].scope_identifier);
                assert(s2[y].github_run_id == s[y].github_run_id && s2[y].scope_identifier
                    == s[y].scope_identifier);
            }
        },
        None => {
            let s2 = s.push(rec);
            assert forall|x: int, y: int|
                0 <= x < y < s2.len() implies !(s2[x].github_run_id == s2[y].github_run_id
                && s2[x].scope_identifier == s2[y].scope_identifier) by {
                if y < s.len() {
                    assert(s2[x] == s[x] && s2[y] == s[y]);
                } else {
                    assert(s2[y] == rec);
                    assert(s2[x] == s[x]);
                }
            }
        },
    }
}

/// The in-memory history: upserted workflow runs, appended snapshots.
pub struct MetricsStore {
    /// One record per (remote run id, scope).
    pub runs: Vec<StoredWorkflowRun>,
    /// One row per runner per poll.
    pub snapshots: Vec<RunnerSnapshot>,
}

impl MetricsStore {
    /// The stored run records, as mathematical values.
    pub open spec fn runs_view(&self) -> Seq<StoredRunView> {
        self.runs@.map_values(|r: StoredWorkflowRun| r@)
    }

    /// The stored snapshots, as mathematical values.
    pub open spec fn snapshots_view(&self) -> Seq<SnapshotView> {
        self.snapshots@.map_values(|r: RunnerSnapshot| r@)
    }

    /// Well-formedness: run keys are unique.
    pub open spec fn wf(&self) -> bool {
        wf_runs(self.runs_view())
    }

    /// An empty history.
    pub fn new() -> (r: MetricsStore)
        ensures
            r.wf(),
            r.runs_view().len() == 0,
            r.snapshots_view().len() == 0,
    {
        MetricsStore { runs: Vec::new(), snapshots: Vec::new() }
    }

    /// Seconds between two ISO-8601 timestamps; nothing when either side
    /// does not parse.
    pub fn calculate_duration(created_at: &str, updated_at: &str) -> (r: Option<i64>)
        ensures
            match r {
                Some(d) => spec_duration(created_at@, updated_at@) == Some(d as int),
                None => spec_duration(created_at@, updated_at@) is None,
            },
    {
        let c = parse_timestamp(created_at);
        let u = parse_timestamp(updated_at);
        match (c, u) {
            (Some(cv), Some(uv)) => Some(uv - cv),
            _ => None,
        }
    }

    /// Records one batch of polled workflow runs for a scope: one upsert per
    /// run, keyed by (remote run id, scope), so re-polling the same run
    /// updates its row instead of duplicating it.
    pub fn record_workflow_runs(&mut self, scope: &RunnerScope, runs: &Vec<WorkflowRun>, now: i64)
        requires
            old(self).wf(),
        ensures
            final(self).wf(),
            final(self).runs_view() == record_runs_view(
                old(self).runs_view(),
                runs@.map_values(|w: WorkflowRun| w@),
                spec_display(scope@),
                now as int,
            ),
            final(self).snapshots_view() == old(self).snapshots_view(),
    {
        let ghost orig = self.runs_view();
        let ghost wfseq = runs@.map_values(|w: WorkflowRun| w@);
        let scope_id = scope.to_display();
        let mut idx: usize = 0;
        while idx < runs.len()
            invariant
                self.wf(),
                0 <= idx <= runs.len(),
                wfseq == runs@.map_values(|w: WorkflowRun| w@),
                wfseq.len() == runs@.len(),
                scope_id@ == spec_display(scope@),
                self.runs_view() == record_runs_view(
                    orig,
                    wfseq.take(idx as int),
                    spec_display(scope@),
                    now as int,
                ),
                self.snapshots_view() == old(self).snapshots_view(),
            decreases runs.len() - idx,
        {
            let w = &runs[idx];
            let duration = Self::calculate_duration(w.created_at.as_str(), w.updated_at.as_str());
            let id: i64 = if w.id <= 9223372036854775807u64 {
                w.id as i64
            } else {
                i64::MAX
            };
            proof {
                assert(id as int == spec_clamp_id(w@.id));
            }
            let ghost prev = self.runs_view();
            let ghost rec = stored_of(wfseq[idx as int], spec_display(scope@), now as int);
            proof {
                assert(wfseq[idx as int] == runs@[idx as int]@);
            }
            let found = self.find_run(id, scope_id.as_str());
            match found {
                Some(j) => {
                    proof {
                        assert(prev[j as int] == self.runs@[j as int]@);
                    }
                    let prev_created = self.runs[j].created_at.clone();
                    let merged = StoredWorkflowRun {
                        github_run_id: id,
                        scope_identifier: scope_id.clone(),
                        status: w.status.clone(),
                        conclusion: clone_opt_string(&w.conclusion),
                        created_at: prev_created,
                        updated_at: w.updated_at.clone(),
                        recorded_at: now,
                        duration_seconds: duration,
                    };
                    proof {
                        lemma_find_run_view(prev, id as int, scope_id@);
                        assert(merged@ =~~= merge_view(prev[j as int], rec));
                    }
                    let ghost pre_set = self.runs@;
                    self.runs.set(j, merged);
                    proof {
                        assert(self.runs_view() =~= upsert_view(prev, rec));
                        lemma_upsert_wf(prev, rec);
                    }
                },
                None => {
                    let fresh = StoredWorkflowRun {
                        github_run_id: id,
                        scope_identifier: scope_id.clone(),
                        status: w.status.clone(),
                        conclusion: clone_opt_string(&w.conclusion),
                        created_at: w.created_at.clone(),
                        updated_at: w.updated_at.clone(),
                        recorded_at: now,
                        duration_seconds: duration,
                    };
                    proof {
                        assert(fresh@ =~~= rec);
                    }
                    self.runs.push(fresh);
                    proof {
                        assert(self.runs_view() =~= upsert_view(prev, rec));
                        lemma_upsert_wf(prev, rec);
                    }
                },
            }
            proof {
                assert(wfseq.take(idx + 1).drop_last() =~= wfseq.take(idx as int));
                assert(wfseq.take(idx + 1).last() == wfseq[idx as int]);
                assert(self.runs_view() == record_runs_view(
                    orig,
                    wfseq.take(idx + 1),
                    spec_display(scope@),
                    now as int,
                ));
            }
            idx = idx + 1;
        }
        proof {
            assert(wfseq.take(runs@.len() as int) =~= wfseq);
        }
    }

    /// Index of the stored run with this key, if one exists.
    fn find_run(&self, id: i64, scope_id: &str) -> (r: Option<usize>)
        ensures
            match r {
                Some(i) => find_run_view(self.runs_view(), id as int, scope_id@) == Some(i as int)
                    && i < self.runs@.len(),
                None => find_run_view(self.runs_view(), id as int, scope_id@) is None,
            },
    {
        let n = self.runs.len();
        let mut i: usize = 0;
        while i < n
            invariant
                n == self.runs@.len(),
                0 <= i <= n,
                forall|j: int|
                    0 <= j < i ==> !(self.runs_view()[j].github_run_id == id as int
                        && self.runs_view()[j].scope_identifier == scope_id@),
            decreases n - i,
        {
            if self.runs[i].github_run_id == id && str_eq(
                self.runs[i].scope_identifier.as_str(),
                scope_id,
            ) {
                proof {
                    lemma_find_run_view(self.runs_view(), id as int, scope_id@);
                    let v = self.runs_view();
                    if find_run_view(v, id as int, scope_id@) is None {
                        assert(v[i as int].github_run_id == id as int);
                    } else {
                        let k = find_run_view(v, id as int, scope_id@)->Some_0;
                        if k < i {
                            assert(!(v[k].github_run_id == id as int && v[k].scope_identifier
                                == scope_id@));
                        } else if k > i {
                            assert(!(v[i as int].github_run_id == id as int
                                && v[i as int].scope_identifier == scope_id@));
                        }
                    }
                }
                return Some(i);
            }
            i = i + 1;
        }
        proof {
            lemma_find_run_view(self.runs_view(), id as int, scope_id@);
            let v = self.runs_view();
            if find_run_view(v, id as int, scope_id@) is Some {
                let k = find_run_view(v, id as int, scope_id@)->Some_0;
                assert(!(v[k].github_run_id == id as int && v[k].scope_identifier == scope_id@));
            }
        }
        None
    }

    /// Aggregated statistics for one scope over the trailing window of
    /// `days` days ending at `now`: completed-run counts, the success rate
    /// recomputed from them, duration statistics over clamped durations,
    /// runner uptime, and both trends against the window of equal length
    /// immediately before — each trend only when both windows hold data.
    pub fn get_scope_metrics(&self, scope: &RunnerScope, days: u32, now: i64) -> (m: ScopeMetrics)
        requires
            self.wf(),
            1 <= days <= 36500,
            -1000000000000 <= now <= 1000000000000,
            self.runs@.len() <= u32::MAX,
            self.snapshots@.len() <= u32::MAX,
        ensures
            ({
                let scope_id = spec_display(scope@);
                let hi = i64::MAX as int + 1;
                let cutoff = now - days * 86400;
                let prev_cutoff = now - days * 172800;
                let cur = spec_run_counts(self.runs_view(), scope_id, cutoff as int, hi);
                let prev = spec_run_counts(
                    self.runs_view(),
                    scope_id,
                    prev_cutoff as int,
                    cutoff as int,
                );
                let ds = spec_duration_stats(self.runs_view(), scope_id, cutoff as int, hi);
                let pds = spec_duration_stats(
                    self.runs_view(),
                    scope_id,
                    prev_cutoff as int,
                    cutoff as int,
                );
                let up = spec_snapshot_counts(self.snapshots_view(), scope_id, cutoff as int);
                &&& m.total_runs == cur.0
                &&& m.successful_runs == cur.1
                &&& m.failed_runs == cur.2
                &&& m.success_rate_hundredths == spec_success_rate(cur.1, cur.0)
                &&& m.success_trend == (if cur.0 > 0 && prev.0 > 0 {
                    Some(spec_rate_trend(cur.1, cur.0, prev.1, prev.0))
                } else {
                    None::<Trend>
                })
                &&& (ds.count > 0 ==> (m.avg_duration_seconds matches Some(a) && a == ds.sum
                    / ds.count))
                &&& (ds.count > 0 ==> (m.min_duration_seconds matches Some(a) && a == ds.min))
                &&& (ds.count > 0 ==> (m.max_duration_seconds matches Some(a) && a == ds.max))
                &&& (ds.count == 0 ==> m.avg_duration_seconds is None && m.min_duration_seconds
                    is None && m.max_duration_seconds is None)
                &&& m.duration_trend == (if ds.count > 0 && pds.count > 0 {
                    Some(spec_duration_trend(ds.sum / ds.count, pds.sum / pds.count))
                } else {
                    None::<Trend>
                })
                &&& (up.0 > 0 ==> (m.runner_uptime_hundredths matches Some(u) && u == up.1
                    * 10000 / up.0))
                &&& (up.0 == 0 ==> m.runner_uptime_hundredths is None)
            }),
    {
        let ghost scope_view = spec_display(scope@);
        let ghost hi = i64::MAX as int + 1;
        let scope_id = scope.to_display();
        let cutoff: i64 = now - (days as i64) * 86400;
        let prev_cutoff: i64 = now - (days as i64) * 172800;
        let rn = self.runs.len();
        let mut cur_t: u32 = 0;
        let mut cur_s: u32 = 0;
        let mut cur_f: u32 = 0;
        let mut prev_t: u32 = 0;
        let mut prev_s: u32 = 0;
        let mut dcount: u32 = 0;
        let mut dsum: u64 = 0;
        let mut dmin: u32 = 0;
        let mut dmax: u32 = 0;
        let mut pcount: u32 = 0;
        let mut psum: u64 = 0;
        let mut i: usize = 0;
        while i < rn
            invariant
                rn == self.runs@.len(),
                rn <= u32::MAX,
                0 <= i <= rn,
                scope_view == spec_display(scope@),
                scope_id@ == scope_view,
                hi == i64::MAX as int + 1,
                ({
                    let c = spec_run_counts(
                        self.runs_view().take(i as int),
                        scope_view,
                        cutoff as int,
                        hi,
                    );
                    cur_t == c.0 && cur_s == c.1 && cur_f == c.2
                }),
                ({
                    let c = spec_run_counts(
                        self.runs_view().take(i as int),
                        scope_view,
                        prev_cutoff as int,
                        cutoff as int,
                    );
                    prev_t == c.0 && prev_s == c.1
                }),
                ({
                    let d = spec_duration_stats(
                        self.runs_view().take(i as int),
                        scope_view,
                        cutoff as int,
                        hi,
                    );
                    dcount == d.count && dsum == d.sum && (d.count > 0 ==> dmin == d.min && dmax
                        == d.max)
                }),
                ({
                    let d = spec_duration_stats(
                        self.runs_view().take(i as int),
                        scope_view,
                        prev_cutoff as int,
                        cutoff as int,
                    );
                    pcount == d.count && psum == d.sum
                }),
            decreases rn - i,
        {
            proof {
                lemma_run_counts_bounds(
                    self.runs_view().take(i as int),
                    scope_view,
                    cutoff as int,
                    hi,
                );
                lemma_run_counts_bounds(
                    self.runs_view().take(i as int),
                    scope_view,
                    prev_cutoff as int,
                    cutoff as int,
                );
                lemma_duration_stats_bounds(
                    self.runs_view().take(i as int),
                    scope_view,
                    cutoff as int,
                    hi,
                );
                lemma_duration_stats_bounds(
                    self.runs_view().take(i as int),
                    scope_view,
                    prev_cutoff as int,
                    cutoff as int,
                );
                assert(self.runs_view().take(i as int).len() == i as int);
                assert(self.runs_view().take(i + 1).drop_last() =~= self.runs_view().take(
                    i as int,
                ));
                assert(self.runs_view().take(i + 1).last() == self.runs_view()[i as int]);
                assert(self.runs_view()[i as int] == self.runs@[i as int]@);
            }
            let r = &self.runs[i];
            let scope_matches = str_eq(r.scope_identifier.as_str(), scope_id.as_str());
            let completed = str_eq(r.status.as_str(), "completed");
            let in_cur = scope_matches && completed && r.recorded_at >= cutoff;
            let in_prev = scope_matches && completed && r.recorded_at >= prev_cutoff
                && r.recorded_at < cutoff;
            let succeeded = match &r.conclusion {
                Some(c) => str_eq(c.as_str(), "success"),
                None => false,
            };
            let failed = match &r.conclusion {
                Some(c) => str_eq(c.as_str(), "failure"),
                None => false,
            };
            let dur: Option<u32> = match r.duration_seconds {
                Some(d) => {
                    if d < 0 {
                        Some(0)
                    } else if d > 4294967295i64 {
                        Some(u32::MAX)
                    } else {
                        Some(d as u32)
                    }
                },
                None => None,
            };
            if in_cur {
                cur_t = cur_t + 1;
                if succeeded {
                    cur_s = cur_s + 1;
                }
                if failed {
                    cur_f = cur_f + 1;
                }
                match dur {
                    Some(d) => {
                        if dcount == 0 {
                            dmin = d;
                            dmax = d;
                        } else {
                            if d < dmin {
                                dmin = d;
                            }
                            if d > dmax {
                                dmax = d;
                            }
                        }
                        dcount = dcount + 1;
                        dsum = dsum + (d as u64);
                        proof {
                            assert(dsum <= (dcount as int) * (u32::MAX as int)) by (
                            nonlinear_arith)
                                requires
                                    dsum <= (dcount as int - 1) * (u32::MAX as int) + u32::MAX
                                        as int,
                                    dcount >= 1,
                            ;
                        }
                    },
                    None => {},
                }
            } else if in_prev {
                prev_t = prev_t + 1;
                if succeeded {
                    prev_s = prev_s + 1;
                }
                match dur {
                    Some(d) => {
                        pcount = pcount + 1;
                        psum = psum + (d as u64);
                        proof {
                            assert(psum <= (pcount as int) * (u32::MAX as int)) by (
                            nonlinear_arith)
                                requires
                                    psum <= (pcount as int - 1) * (u32::MAX as int) + u32::MAX
                                        as int,
                                    pcount >= 1,
                            ;
                        }
                    },
                    None => {},
                }
            }
            i = i + 1;
        }
        proof {
            assert(self.runs_view().take(rn as int) =~= self.runs_view());
            lemma_run_counts_bounds(self.runs_view(), scope_view, cutoff as int, hi);
            lemma_run_counts_bounds(
                self.runs_view(),
                scope_view,
                prev_cutoff as int,
                cutoff as int,
            );
            lemma_duration_stats_bounds(self.runs_view(), scope_view, cutoff as int, hi);
            lemma_duration_stats_bounds(
                self.runs_view(),
                scope_view,
                prev_cutoff as int,
                cutoff as int,
            );
        }
        // uptime over the snapshots
        let sn = self.snapshots.len();
        let mut up_t: u32 = 0;
        let mut up_o: u32 = 0;
        let mut k: usize = 0;
        while k < sn
            invariant
                sn == self.snapshots@.len(),
                sn <= u32::MAX,
                0 <= k <= sn,
                scope_view == spec_display(scope@),
                scope_id@ == scope_view,
                ({
                    let c = spec_snapshot_counts(
                        self.snapshots_view().take(k as int),
                        scope_view,
                        cutoff as int,
                    );
                    up_t == c.0 && up_o == c.1
                }),
            decreases sn - k,
        {
            proof {
                lemma_snapshot_counts_bounds(
                    self.snapshots_view().take(k as int),
                    scope_view,
                    cutoff as int,
                );
                assert(self.snapshots_view().take(k as int).len() == k as int);
                assert(self.snapshots_view().take(k + 1).drop_last() =~= self.snapshots_view().take(
                    k as int,
                ));
                assert(self.snapshots_view().take(k + 1).last() == self.snapshots_view()[k as int]);
                assert(self.snapshots_view()[k as int] == self.snapshots@[k as int]@);
            }
            let r = &self.snapshots[k];
            if str_eq(r.scope_identifier.as_str(), scope_id.as_str()) && r.recorded_at >= cutoff {
                up_t = up_t + 1;
                if str_eq(r.status.as_str(), "online") {
                    up_o = up_o + 1;
                }
            }
            k = k + 1;
        }
        proof {
            assert(self.snapshots_view().take(sn as int) =~= self.snapshots_view());
            lemma_snapshot_counts_bounds(self.snapshots_view(), scope_view, cutoff as int);
        }
        // assemble
        let success_rate: u32 = if cur_t > 0 {
            proof {
                assert(cur_s as int * 10000 / cur_t as int <= 10000) by (nonlinear_arith)
                    requires
                        cur_t > 0,
                        cur_s <= cur_t,
                ;
            }
            ((cur_s as u64) * 10000 / (cur_t as u64)) as u32
        } else {
            0
        };
        let success_trend: Option<Trend> = if cur_t > 0 && prev_t > 0 {
            Some(rate_trend(cur_s, cur_t, prev_s, prev_t))
        } else {
            None
        };
        let avg: Option<u32> = if dcount > 0 {
            proof {
                assert(dsum as int / dcount as int <= u32::MAX as int) by (nonlinear_arith)
                    requires
                        dcount > 0,
                        dsum <= (dcount as int) * (u32::MAX as int),
                ;
            }
            Some((dsum / (dcount as u64)) as u32)
        } else {
            None
        };
        let pavg: Option<u32> = if pcount > 0 {
            proof {
                assert(psum as int / pcount as int <= u32::MAX as int) by (nonlinear_arith)
                    requires
                        pcount > 0,
                        psum <= (pcount as int) * (u32::MAX as int),
                ;
            }
            Some((psum / (pcount as u64)) as u32)
        } else {
            None
        };
        let duration_trend: Option<Trend> = match (avg, pavg) {
            (Some(a), Some(p)) => {
                if p == a {
                    Some(Trend::Stable)
                } else if p > a {
                    Some(Trend::Up)
                } else {
                    Some(Trend::Down)
                }
            },
            _ => None,
        };
        let uptime: Option<u32> = if up_t > 0 {
            proof {
                assert(up_o as int * 10000 / up_t as int <= 10000) by (nonlinear_arith)
                    requires
                        up_t > 0,
                        up_o <= up_t,
                ;
            }
            Some(((up_o as u64) * 10000 / (up_t as u64)) as u32)
        } else {
            None
        };
        ScopeMetrics {
            total_runs: cur_t,
            successful_runs: cur_s,
            failed_runs: cur_f,
            success_rate_hundredths: success_rate,
            success_trend,
            avg_duration_seconds: avg,
            min_duration_seconds: if dcount > 0 {
                Some(dmin)
            } else {
                None
            },
            max_duration_seconds: if dcount > 0 {
                Some(dmax)
            } else {
                None
            },
            duration_trend,
            runner_uptime_hundredths: uptime,
        }
    }

    /// The duration distribution of a scope's completed runs over the
    /// trailing window: the non-empty bands in their fixed order.
    pub fn get_duration_distribution(&self, scope: &RunnerScope, days: u32, now: i64) -> (r: Vec<
        DurationBucket,
    >)
        requires
            self.wf(),
            1 <= days <= 36500,
            -1000000000000 <= now <= 1000000000000,
            self.runs@.len() <= u32::MAX,
        ensures
            r@.map_values(|b: DurationBucket| (b.label@, b.count as int)) == spec_distribution(
                spec_bucket_counts(
                    self.runs_view(),
                    spec_display(scope@),
                    now - days * 86400,
                    i64::MAX as int + 1,
                ),
            ),
    {
        let ghost scope_view = spec_display(scope@);
        let ghost hi = i64::MAX as int + 1;
        let scope_id = scope.to_display();
        let cutoff: i64 = now - (days as i64) * 86400;
        let rn = self.runs.len();
        let mut c0: u32 = 0;
        let mut c1: u32 = 0;
        let mut c2: u32 = 0;
        let mut c3: u32 = 0;
        let mut c4: u32 = 0;
        let mut i: usize = 0;
        while i < rn
            invariant
                rn == self.runs@.len(),
                rn <= u32::MAX,
                0 <= i <= rn,
                scope_view == spec_display(scope@),
                scope_id@ == scope_view,
                hi == i64::MAX as int + 1,
                ({
                    let c = spec_bucket_counts(
                        self.runs_view().take(i as int),
                        scope_view,
                        cutoff as int,
                        hi,
                    );
                    c0 == c.0 && c1 == c.1 && c2 == c.2 && c3 == c.3 && c4 == c.4
                }),
            decreases rn - i,
        {
            proof {
                lemma_bucket_counts_bounds(
                    self.runs_view().take(i as int),
                    scope_view,
                    cutoff as int,
                    hi,
                );
                assert(self.runs_view().take(i as int).len() == i as int);
                assert(self.runs_view().take(i + 1).drop_last() =~= self.runs_view().take(
                    i as int,
                ));
                assert(self.runs_view().take(i + 1).last() == self.runs_view()[i as int]);
                assert(self.runs_view()[i as int] == self.runs@[i as int]@);
            }
            let r = &self.runs[i];
            let in_cur = str_eq(r.scope_identifier.as_str(), scope_id.as_str()) && str_eq(
                r.status.as_str(),
                "completed",
            ) && r.recorded_at >= cutoff;
            if in_cur {
                match r.duration_seconds {
                    Some(d) => {
                        if d < 60 {
                            c0 = c0 + 1;
                        } else if d < 300 {
                            c1 = c1 + 1;
                        } else if d < 600 {
                            c2 = c2 + 1;
                        } else if d < 1800 {
                            c3 = c3 + 1;
                        } else {
                            c4 = c4 + 1;
                        }
                    },
                    None => {},
                }
            }
            i = i + 1;
        }
        proof {
            assert(self.runs_view().take(rn as int) =~= self.runs_view());
        }
        let mut out: Vec<DurationBucket> = Vec::new();
        if c0 > 0 {
            out.push(DurationBucket { label: String::from_str("<1m"), count: c0 });
        }
        if c1 > 0 {
            out.push(DurationBucket { label: String::from_str("1-5m"), count: c1 });
        }
        if c2 > 0 {
            out.push(DurationBucket { label: String::from_str("5-10m"), count: c2 });
        }
        if c3 > 0 {
            out.push(DurationBucket { label: String::from_str("10-30m"), count: c3 });
        }
        if c4 > 0 {
            out.push(DurationBucket { label: String::from_str(">30m"), count: c4 });
        }
        proof {
            assert(out@.map_values(|b: DurationBucket| (b.label@, b.count as int))
                =~= spec_distribution(
                spec_bucket_counts(self.runs_view(), scope_view, cutoff as int, hi),
            ));
        }
        out
    }

    /// Every scope identifier with recorded data, runs first, each once, in
    /// order of first appearance.
    pub fn get_recorded_scopes(&self) -> (r: Vec<String>)
        ensures
            r@.map_values(|s: String| s@) == spec_dedup(
                self.runs_view().map_values(|x: StoredRunView| x.scope_identifier)
                    + self.snapshots_view().map_values(|x: SnapshotView| x.scope_identifier),
            ),
    {
        let ghost full = self.runs_view().map_values(|x: StoredRunView| x.scope_identifier)
            + self.snapshots_view().map_values(|x: SnapshotView| x.scope_identifier);
        let mut out: Vec<String> = Vec::new();
        let rn = self.runs.len();
        let mut i: usize = 0;
        while i < rn
            invariant
                rn == self.runs@.len(),
                0 <= i <= rn,
                full == self.runs_view().map_values(|x: StoredRunView| x.scope_identifier)
                    + self.snapshots_view().map_values(|x: SnapshotView| x.scope_identifier),
                full.len() == self.runs@.len() + self.snapshots@.len(),
                out@.map_values(|s: String| s@) == spec_dedup(full.take(i as int)),
            decreases rn - i,
        {
            proof {
                assert(full.take(i + 1).drop_last() =~= full.take(i as int));
                assert(full.take(i + 1).last() == full[i as int]);
                assert(full[i as int] == self.runs_view()[i as int].scope_identifier);
                assert(self.runs_view()[i as int] == self.runs@[i as int]@);
                lemma_dedup_contains(full.take(i as int), full[i as int]);
            }
            let id = &self.runs[i].scope_identifier;
            if !contains_string(&out, id.as_str()) {
                out.push(id.clone());
                proof {
                    assert(out@.map_values(|s: String| s@) =~= spec_dedup(full.take(i + 1)));
                }
            }
            i = i + 1;
        }
        let sn = self.snapshots.len();
        let mut k: usize = 0;
        while k < sn
            invariant
                rn == self.runs@.len(),
                sn == self.snapshots@.len(),
                0 <= k <= sn,
                full == self.runs_view().map_values(|x: StoredRunView| x.scope_identifier)
                    + self.snapshots_view().map_values(|x: SnapshotView| x.scope_identifier),
                full.len() == self.runs@.len() + self.snapshots@.len(),
                out@.map_values(|s: String| s@) == spec_dedup(full.take(rn + k as int)),
            decreases sn - k,
        {
            proof {
                assert(full.take(rn + k + 1).drop_last() =~= full.take(rn + k as int));
                assert(full.take(rn + k + 1).last() == full[rn + k as int]);
                assert(full[rn + k as int] == self.snapshots_view()[k as int].scope_identifier);
                assert(self.snapshots_view()[k as int] == self.snapshots@[k as int]@);
                lemma_dedup_contains(full.take(rn + k as int), full[rn + k as int]);
            }
            let id = &self.snapshots[k].scope_identifier;
            if !contains_string(&out, id.as_str()) {
                out.push(id.clone());
                proof {
                    assert(out@.map_values(|s: String| s@) =~= spec_dedup(full.take(rn + k + 1)));
                }
            }
            k = k + 1;
        }
        proof {
            assert(full.take(rn + sn as int) =~= full);
        }
        out
    }

    /// Records one poll of the remote runner list for a scope: append-only,
    /// one snapshot per runner, used later for uptime.
    pub fn record_runner_snapshots(&mut self, scope: &RunnerScope, runners: &Vec<Runner>, now: i64)
        requires
            old(self).wf(),
        ensures
            final(self).wf(),
            final(self).runs_view() == old(self).runs_view(),
            final(self).snapshots_view() == old(self).snapshots_view() + runners@.map_values(
                |r: Runner| snap_of(r@, spec_display(scope@), now as int),
            ),
    {
        let ghost appended = runners@.map_values(
            |r: Runner| snap_of(r@, spec_display(scope@), now as int),
        );
        let scope_id = scope.to_display();
        let mut idx: usize = 0;
        while idx < runners.len()
            invariant
                self.wf(),
                0 <= idx <= runners.len(),
                appended == runners@.map_values(
                    |r: Runner| snap_of(r@, spec_display(scope@), now as int),
                ),
                appended.len() == runners@.len(),
                scope_id@ == spec_display(scope@),
                self.runs_view() == old(self).runs_view(),
                self.snapshots_view() == old(self).snapshots_view() + appended.take(idx as int),
            decreases runners.len() - idx,
        {
            let r = &runners[idx];
            let id: i64 = if r.id <= 9223372036854775807u64 {
                r.id as i64
            } else {
                i64::MAX
            };
            proof {
                assert(id as int == spec_clamp_id(r@.id));
            }
            let snap = RunnerSnapshot {
                scope_identifier: scope_id.clone(),
                runner_id: id,
                runner_name: r.name.clone(),
                status: r.status.clone(),
                busy: r.busy,
                recorded_at: now,
            };
            proof {
                assert(appended[idx as int] == snap_of(
                    runners@[idx as int]@,
                    spec_display(scope@),
                    now as int,
                ));
                assert(snap@ =~= appended[idx as int]);
            }
            let ghost pre = self.snapshots_view();
            self.snapshots.push(snap);
            proof {
                assert(self.snapshots_view() =~= pre.push(snap@));
                assert(appended.take(idx + 1) =~= appended.take(idx as int).push(
                    appended[idx as int],
                ));
                assert(self.snapshots_view() =~= old(self).snapshots_view() + appended.take(
                    idx + 1,
                ));
            }
            idx = idx + 1;
        }
        proof {
            assert(appended.take(runners@.len() as int) =~= appended);
        }
    }
}

/// Counts of completed-run durations in the five fixed bands: under a
/// minute, one to five, five to ten, ten to thirty, over thirty.
pub open spec fn spec_bucket_counts(
    s: Seq<StoredRunView>,
    scope_id: Seq<char>,
    lo: int,
    hi: int,
) -> (int, int, int, int, int)
    decreases s.len(),
{
    if s.len() == 0 {
        (0int, 0int, 0int, 0int, 0int)
    } else {
        let p = spec_bucket_counts(s.drop_last(), scope_id, lo, hi);
        let r = s.last();
        if in_window(r, scope_id, lo, hi) && r.duration_seconds is Some {
            let d = r.duration_seconds->0;
            if d < 60 {
                (p.0 + 1, p.1, p.2, p.3, p.4)
            } else if d < 300 {
                (p.0, p.1 + 1, p.2, p.3, p.4)
            } else if d < 600 {
                (p.0, p.1, p.2 + 1, p.3, p.4)
            } else if d < 1800 {
                (p.0, p.1, p.2, p.3 + 1, p.4)
            } else {
                (p.0, p.1, p.2, p.3, p.4 + 1)
            }
        } else {
            p
        }
    }
}

proof fn lemma_bucket_counts_bounds(s: Seq<StoredRunView>, scope_id: Seq<char>, lo: int, hi: int)
    ensures
        ({
            let c = spec_bucket_counts(s, scope_id, lo, hi);
            0 <= c.0 <= s.len() && 0 <= c.1 <= s.len() && 0 <= c.2 <= s.len() && 0 <= c.3
                <= s.len() && 0 <= c.4 <= s.len()
        }),
    decreases s.len(),
{
    if s.len() != 0 {
        lemma_bucket_counts_bounds(s.drop_last(), scope_id, lo, hi);
    }
}

/// The distribution rows the bucket counts yield: the non-empty bands in
/// their fixed order, each with its label and count.
pub open spec fn spec_distribution(c: (int, int, int, int, int)) -> Seq<(Seq<char>, int)> {
    let e = Seq::<(Seq<char>, int)>::empty();
    let e = if c.0 > 0 {
        e.push(("<1m"@, c.0))
    } else {
        e
    };
    let e = if c.1 > 0 {
        e.push(("1-5m"@, c.1))
    } else {
        e
    };
    let e = if c.2 > 0 {
        e.push(("5-10m"@, c.2))
    } else {
        e
    };
    let e = if c.3 > 0 {
        e.push(("10-30m"@, c.3))
    } else {
        e
    };
    if c.4 > 0 {
        e.push((">30m"@, c.4))
    } else {
        e
    }
}

/// The identifiers of a sequence, first occurrences only, in order.
pub open spec fn spec_dedup(s: Seq<Seq<char>>) -> Seq<Seq<char>>
    decreases s.len(),
{
    if s.len() == 0 {
        Seq::empty()
    } else {
        let p = spec_dedup(s.drop_last());
        if s.drop_last().contains(s.last()) {
            p
        } else {
            p.push(s.last())
        }
    }
}

/// Deduplication keeps exactly the members.
pub proof fn lemma_dedup_contains(s: Seq<Seq<char>>, x: Seq<char>)
    ensures
        spec_dedup(s).contains(x) <==> s.contains(x),
    decreases s.len(),
{
    if s.len() != 0 {
        let t = s.drop_last();
        lemma_dedup_contains(t, x);
        assert(forall|i: int| 0 <= i < t.len() ==> t[i] == s[i]);
        if s.contains(x) {
            let i = choose|i: int| 0 <= i < s.len() && s[i] == x;
            if i < s.len() - 1 {
                assert(t[i] == x);
                assert(t.contains(x));
            } else {
                assert(s.last() == x);
            }
        }
        if t.contains(x) {
            let i = choose|i: int| 0 <= i < t.len() && t[i] == x;
            assert(s[i] == x);
            assert(s.contains(x));
        }
        if s.last() == x {
            assert(s[s.len() - 1] == x);
            assert(s.contains(x));
        }
        let p = spec_dedup(t);
        if !t.contains(s.last()) {
            let q = p.push(s.last());
            if q.contains(x) {
                let i = choose|i: int| 0 <= i < q.len() && q[i] == x;
                if i < p.len() {
                    assert(p[i] == x);
                    assert(p.contains(x));
                } else {
                    assert(x == s.last());
                }
            }
            if p.contains(x) {
                let i = choose|i: int| 0 <= i < p.len() && p[i] == x;
                assert(q[i] == x);
                assert(q.contains(x));
            }
            if x == s.last() {
                assert(q[p.len() as int] == x);
                assert(q.contains(x));
            }
        }
    }
}

/// Law: recording the same run key twice keeps exactly one row for it, the
/// row holds the later record's status, conclusion, update time, recording
/// time and duration, and the store does not grow on the second recording.
pub proof fn lemma_record_same_run_twice(
    s: Seq<StoredRunView>,
    a: StoredRunView,
    b: StoredRunView,
)
    requires
        wf_runs(s),
        a.github_run_id == b.github_run_id,
        a.scope_identifier == b.scope_identifier,
    ensures
        ({
            let s1 = upsert_view(s, a);
            let s2 = upsert_view(s1, b);
            &&& s2.len() == s1.len()
            &&& wf_runs(s2)
            &&& match find_run_view(s2, b.github_run_id, b.scope_identifier) {
                Some(i) => s2[i].status == b.status && s2[i].conclusion == b.conclusion
                    && s2[i].updated_at == b.updated_at && s2[i].recorded_at == b.recorded_at
                    && s2[i].duration_seconds == b.duration_seconds,
                None => false,
            }
        }),
{
    lemma_upsert_wf(s, a);
    let s1 = upsert_view(s, a);
    lemma_upsert_wf(s1, b);
    let s2 = upsert_view(s1, b);
    lemma_find_run_view(s, a.github_run_id, a.scope_identifier);
    lemma_find_run_view(s1, b.github_run_id, b.scope_identifier);
    // after the first upsert the key is present
    match find_run_view(s, a.github_run_id, a.scope_identifier) {
        Some(i) => {
            assert(s1[i].github_run_id == b.github_run_id && s1[i].scope_identifier
                == b.scope_identifier);
        },
        None => {
            assert(s1[s.len() as int] == a);
        },
    }
    match find_run_view(s1, b.github_run_id, b.scope_identifier) {
        Some(k) => {
            assert(s2 == s1.update(k, merge_view(s1[k], b)));
            assert(s2[k].github_run_id == b.github_run_id && s2[k].scope_identifier
                == b.scope_identifier);
            lemma_find_run_view(s2, b.github_run_id, b.scope_identifier);
            match find_run_view(s2, b.github_run_id, b.scope_identifier) {
                Some(k2) => {
                    if k2 != k {
                        assert(!(s2[k2].github_run_id == s2[k].github_run_id
                            && s2[k2].scope_identifier == s2[k].scope_identifier));
                    }
                    assert(k2 == k);
                },
                None => {
                    assert(!(s2[k].github_run_id == b.github_run_id && s2[k].scope_identifier
                        == b.scope_identifier));
                },
            }
        },
        None => {
            assert(false);
        },
    }
}

/// A stored run that counts for a window: right scope, completed, and
/// recorded inside `[lo, hi)`.
pub open spec fn in_window(r: StoredRunView, scope_id: Seq<char>, lo: int, hi: int) -> bool {
    r.scope_identifier == scope_id && r.status == "completed"@ && lo <= r.recorded_at < hi
}

/// Completed-run counts over a window: total, successes, failures.
pub open spec fn spec_run_counts(
    s: Seq<StoredRunView>,
    scope_id: Seq<char>,
    lo: int,
    hi: int,
) -> (int, int, int)
    decreases s.len(),
{
    if s.len() == 0 {
        (0int, 0int, 0int)
    } else {
        let p = spec_run_counts(s.drop_last(), scope_id, lo, hi);
        let r = s.last();
        if in_window(r, scope_id, lo, hi) {
            (
                p.0 + 1,
                p.1 + if r.conclusion == Some("success"@) {
                    1int
                } else {
                    0int
                },
                p.2 + if r.conclusion == Some("failure"@) {
                    1int
                } else {
                    0int
                },
            )
        } else {
            p
        }
    }
}

proof fn lemma_run_counts_bounds(s: Seq<StoredRunView>, scope_id: Seq<char>, lo: int, hi: int)
    ensures
        ({
            let c = spec_run_counts(s, scope_id, lo, hi);
            0 <= c.0 <= s.len() && 0 <= c.1 <= c.0 && 0 <= c.2 <= c.0
        }),
    decreases s.len(),
{
    if s.len() != 0 {
        lemma_run_counts_bounds(s.drop_last(), scope_id, lo, hi);
    }
}

/// A duration squeezed into the statistics range: negatives count as zero.
pub open spec fn clamp_duration(d: int) -> int {
    if d < 0 {
        0
    } else if d > u32::MAX as int {
        u32::MAX as int
    } else {
        d
    }
}

/// Duration statistics over a window: how many runs carried a duration,
/// their sum, and the least and greatest of them.
pub struct DurStats {
    pub count: int,
    pub sum: int,
    pub min: int,
    pub max: int,
}

/// Folds the clamped durations of a window's completed runs.
pub open spec fn spec_duration_stats(
    s: Seq<StoredRunView>,
    scope_id: Seq<char>,
    lo: int,
    hi: int,
) -> DurStats
    decreases s.len(),
{
    if s.len() == 0 {
        DurStats { count: 0, sum: 0, min: 0, max: 0 }
    } else {
        let p = spec_duration_stats(s.drop_last(), scope_id, lo, hi);
        let r = s.last();
        if in_window(r, scope_id, lo, hi) && r.duration_seconds is Some {
            let d = clamp_duration(r.duration_seconds->0);
            if p.count == 0 {
                DurStats { count: 1, sum: d, min: d, max: d }
            } else {
                DurStats {
                    count: p.count + 1,
                    sum: p.sum + d,
                    min: if d < p.min {
                        d
                    } else {
                        p.min
                    },
                    max: if d > p.max {
                        d
                    } else {
                        p.max
                    },
                }
            }
        } else {
            p
        }
    }
}

proof fn lemma_duration_stats_bounds(
    s: Seq<StoredRunView>,
    scope_id: Seq<char>,
    lo: int,
    hi: int,
)
    ensures
        ({
            let d = spec_duration_stats(s, scope_id, lo, hi);
            0 <= d.count <= s.len() && 0 <= d.sum <= d.count * (u32::MAX as int) && (d.count > 0
                ==> 0 <= d.min <= u32::MAX && 0 <= d.max <= u32::MAX)
        }),
    decreases s.len(),
{
    if s.len() != 0 {
        lemma_duration_stats_bounds(s.drop_last(), scope_id, lo, hi);
        let p = spec_duration_stats(s.drop_last(), scope_id, lo, hi);
        let d = spec_duration_stats(s, scope_id, lo, hi);
        assert(d.count * (u32::MAX as int) >= p.count * (u32::MAX as int) + if d.count == p.count {
            0int
        } else {
            u32::MAX as int
        }) by (nonlinear_arith)
            requires
                d.count == p.count || d.count == p.count + 1,
                p.count >= 0,
        ;
    }
}

/// Snapshot counts over a window: all snapshots, and those online.
pub open spec fn spec_snapshot_counts(s: Seq<SnapshotView>, scope_id: Seq<char>, lo: int) -> (
    int,
    int,
)
    decreases s.len(),
{
    if s.len() == 0 {
        (0int, 0int)
    } else {
        let p = spec_snapshot_counts(s.drop_last(), scope_id, lo);
        let r = s.last();
        if r.scope_identifier == scope_id && r.recorded_at >= lo {
            (
                p.0 + 1,
                p.1 + if r.status == "online"@ {
                    1int
                } else {
                    0int
                },
            )
        } else {
            p
        }
    }
}

proof fn lemma_snapshot_counts_bounds(s: Seq<SnapshotView>, scope_id: Seq<char>, lo: int)
    ensures
        ({
            let c = spec_snapshot_counts(s, scope_id, lo);
            0 <= c.0 <= s.len() && 0 <= c.1 <= c.0
        }),
    decreases s.len(),
{
    if s.len() != 0 {
        lemma_snapshot_counts_bounds(s.drop_last(), scope_id, lo);
    }
}

/// Direction of the success ratio `cs/ct` against `ps/pt`: stable when the
/// two ratios differ by less than one twentieth, else up or down with the
/// sign of the difference.
pub open spec fn spec_rate_trend(cs: int, ct: int, ps: int, pt: int) -> Trend {
    let d = cs * pt - ps * ct;
    let ad = if d < 0 {
        -d
    } else {
        d
    };
    if ad * 20 < ct * pt {
        Trend::Stable
    } else if d > 0 {
        Trend::Up
    } else {
        Trend::Down
    }
}

/// Direction of a mean duration against the previous window's: shorter runs
/// point up, longer ones down; whole seconds leave no room under the
/// threshold, so stable means equal.
pub open spec fn spec_duration_trend(cur: int, prev: int) -> Trend {
    if prev == cur {
        Trend::Stable
    } else if prev > cur {
        Trend::Up
    } else {
        Trend::Down
    }
}

/// Direction of a statistic against its previous value, both in hundredths:
/// stable when they differ by less than five hundredths, else up or down
/// with the sign of the difference.
pub fn calculate_trend(current_hundredths: i64, previous_hundredths: i64) -> (t: Trend)
    requires
        -1000000000000 <= current_hundredths <= 1000000000000,
        -1000000000000 <= previous_hundredths <= 1000000000000,
    ensures
        t == ({
            let d = current_hundredths as int - previous_hundredths as int;
            if -5 < d < 5 {
                Trend::Stable
            } else if d > 0 {
                Trend::Up
            } else {
                Trend::Down
            }
        }),
{
    let d = current_hundredths - previous_hundredths;
    if -5 < d && d < 5 {
        Trend::Stable
    } else if d > 0 {
        Trend::Up
    } else {
        Trend::Down
    }
}

/// Decides the success-ratio direction from the four counts.
fn rate_trend(cs: u32, ct: u32, ps: u32, pt: u32) -> (t: Trend)
    requires
        ct > 0,
        pt > 0,
    ensures
        t == spec_rate_trend(cs as int, ct as int, ps as int, pt as int),
{
    proof {
        assert((cs as int) * (pt as int) <= (u32::MAX as int) * (u32::MAX as int)
            && (ps as int) * (ct as int) <= (u32::MAX as int) * (u32::MAX as int) && (ct as int) * (
        pt as int) <= (u32::MAX as int) * (u32::MAX as int)) by (nonlinear_arith)
            requires
                cs <= u32::MAX,
                ct <= u32::MAX,
                ps <= u32::MAX,
                pt <= u32::MAX,
        ;
    }
    let a: u64 = (cs as u64) * (pt as u64);
    let b: u64 = (ps as u64) * (ct as u64);
    let ad: u64 = if a >= b {
        a - b
    } else {
        b - a
    };
    let prod: u64 = (ct as u64) * (pt as u64);
    let stable: bool = if ad > u64::MAX / 20 {
        false
    } else {
        ad * 20 < prod
    };
    if stable {
        Trend::Stable
    } else if a > b {
        Trend::Up
    } else {
        Trend::Down
    }
}

/// True when one of the strings in `v` reads as `x`.
fn contains_string(v: &Vec<String>, x: &str) -> (r: bool)
    ensures
        r == v@.map_values(|s: String| s@).contains(x@),
{
    let ghost m = v@.map_values(|s: String| s@);
    let n = v.len();
    let mut i: usize = 0;
    while i < n
        invariant
            n == v@.len(),
            m == v@.map_values(|s: String| s@),
            m.len() == n,
            0 <= i <= n,
            forall|j: int| 0 <= j < i ==> m[j] != x@,
        decreases n - i,
    {
        if str_eq(v[i].as_str(), x) {
            proof {
                assert(m[i as int] == x@);
            }
            return true;
        }
        i = i + 1;
    }
    proof {
        if m.contains(x@) {
            let j = choose|j: int| 0 <= j < m.len() && m[j] == x@;
            assert(m[j] != x@);
        }
    }
    false
}

/// An owned copy of an optional string.
fn clone_opt_string(s: &Option<String>) -> (r: Option<String>)
    ensures
        match r {
            Some(v) => s matches Some(o) && v@ == o@,
            None => s is None,
        },
{
    match s {
        Some(v) => Some(v.clone()),
        None => None,
    }
}

} // verus!
