//! Data shapes of the metrics subsystem: trends, aggregated per-scope
//! statistics, and the records the history store keeps.
//!
//! Rates and percentages are carried in hundredths of a percent, so that a
//! success rate of 100% is the integer 10000; nothing here is approximate.

use vstd::prelude::*;
use vstd::string::*;

verus! {

/// Direction of a statistic compared to the immediately preceding window.
#[derive(Debug, Clone, Copy, PartialEq, Eq, Structural)]
pub enum Trend {
    Up,
    Down,
    Stable,
}

impl Trend {
    /// The display symbol of this trend.
    pub fn symbol(self) -> (r: &'static str)
        ensures
            r@ == match self {
                Trend::Up => "↑"@,
                Trend::Down => "↓"@,
                Trend::Stable => "-"@,
            },
    {
        match self {
            Trend::Up => "↑",
            Trend::Down => "↓",
            Trend::Stable => "-",
        }
    }
}

/// Aggregated statistics for one scope over one reporting window.
#[derive(Debug, Clone)]
pub struct ScopeMetrics {
    /// Completed workflow runs recorded in the window.
    pub total_runs: u32,
    /// Completed runs that concluded with success.
    pub successful_runs: u32,
    /// Completed runs that concluded with failure.
    pub failed_runs: u32,
    /// Success rate in hundredths of a percent (0 to 10000), zero when
    /// there are no runs; always recomputed from the two counts above.
    pub success_rate_hundredths: u32,
    /// Success-rate direction against the preceding window, when both
    /// windows hold runs.
    pub success_trend: Option<Trend>,
    /// Mean job duration in seconds.
    pub avg_duration_seconds: Option<u32>,
    /// Shortest job duration in seconds.
    pub min_duration_seconds: Option<u32>,
    /// Longest job duration in seconds.
    pub max_duration_seconds: Option<u32>,
    /// Duration direction against the preceding window; shorter is up.
    pub duration_trend: Option<Trend>,
    /// Share of snapshots that saw the runner online, in hundredths of a
    /// percent, when any snapshots fell into the window.
    pub runner_uptime_hundredths: Option<u32>,
}

/// The success rate a pair of counts yields, in hundredths of a percent.
pub open spec fn spec_success_rate(successful: int, total: int) -> int {
    if total > 0 {
        successful * 10000 / total
    } else {
        0
    }
}

impl Default for ScopeMetrics {
    /// Metrics of an empty window: all counts zero, nothing known.
    fn default() -> (r: ScopeMetrics)
        ensures
            r.total_runs == 0,
            r.successful_runs == 0,
            r.failed_runs == 0,
            r.success_rate_hundredths == 0,
            r.success_trend is None,
            r.avg_duration_seconds is None,
            r.min_duration_seconds is None,
            r.max_duration_seconds is None,
            r.duration_trend is None,
            r.runner_uptime_hundredths is None,
    {
        ScopeMetrics {
            total_runs: 0,
            successful_runs: 0,
            failed_runs: 0,
            success_rate_hundredths: 0,
            success_trend: None,
            avg_duration_seconds: None,
            min_duration_seconds: None,
            max_duration_seconds: None,
            duration_trend: None,
            runner_uptime_hundredths: None,
        }
    }
}

impl ScopeMetrics {
    /// Recomputes the stored success rate from the stored counts, leaving
    /// every other field as it was.
    pub fn calculate_success_rate(&mut self)
        requires
            old(self).successful_runs <= old(self).total_runs,
        ensures
            final(self).success_rate_hundredths == spec_success_rate(
                old(self).successful_runs as int,
                old(self).total_runs as int,
            ),
            final(self).total_runs == old(self).total_runs,
            final(self).successful_runs == old(self).successful_runs,
            final(self).failed_runs == old(self).failed_runs,
            final(self).success_trend == old(self).success_trend,
            final(self).avg_duration_seconds == old(self).avg_duration_seconds,
            final(self).min_duration_seconds == old(self).min_duration_seconds,
            final(self).max_duration_seconds == old(self).max_duration_seconds,
            final(self).duration_trend == old(self).duration_trend,
            final(self).runner_uptime_hundredths == old(self).runner_uptime_hundredths,
    {
        if self.total_runs > 0 {
            let wide: u64 = (self.successful_runs as u64) * 10000 / (self.total_runs as u64);
            proof {
                assert(self.successful_runs as int * 10000 / self.total_runs as int
                    <= 10000) by (nonlinear_arith)
                    requires
                        self.total_runs > 0,
                        self.successful_runs <= self.total_runs,
                ;
            }
            self.success_rate_hundredths = wide as u32;
        } else {
            self.success_rate_hundredths = 0;
        }
    }
}

/// Mathematical view of a stored workflow run.
#[verifier::ext_equal]
pub struct StoredRunView {
    pub github_run_id: int,
    pub scope_identifier: Seq<char>,
    pub status: Seq<char>,
    pub conclusion: Option<Seq<char>>,
    pub created_at: Seq<char>,
    pub updated_at: Seq<char>,
    pub recorded_at: int,
    pub duration_seconds: Option<int>,
}

/// One workflow run as the history store keeps it.
#[derive(Debug, Clone)]
pub struct StoredWorkflowRun {
    /// Remote identifier of the run; together with the scope it is the key.
    pub github_run_id: i64,
    /// Display form of the scope the run belongs to.
    pub scope_identifier: String,
    /// Remote status, such as `completed`.
    pub status: String,
    /// Remote conclusion of a completed run, such as `success`.
    pub conclusion: Option<String>,
    /// Remote creation timestamp, as reported.
    pub created_at: String,
    /// Remote update timestamp, as reported.
    pub updated_at: String,
    /// When this record was written, in epoch seconds.
    pub recorded_at: i64,
    /// Seconds between creation and update, when both timestamps parse.
    pub duration_seconds: Option<i64>,
}

impl View for StoredWorkflowRun {
    type V = StoredRunView;

    open spec fn view(&self) -> StoredRunView {
        StoredRunView {
            github_run_id: self.github_run_id as int,
            scope_identifier: self.scope_identifier@,
            status: self.status@,
            conclusion: match self.conclusion {
                Some(c) => Some(c@),
                None => None,
            },
            created_at: self.created_at@,
            updated_at: self.updated_at@,
            recorded_at: self.recorded_at as int,
            duration_seconds: match self.duration_seconds {
                Some(d) => Some(d as int),
                None => None,
            },
        }
    }
}

/// Mathematical view of a runner snapshot.
#[verifier::ext_equal]
pub struct SnapshotView {
    pub scope_identifier: Seq<char>,
    pub runner_id: int,
    pub runner_name: Seq<char>,
    pub status: Seq<char>,
    pub busy: bool,
    pub recorded_at: int,
}

/// One point-in-time observation of a runner's remote status.
#[derive(Debug, Clone)]
pub struct RunnerSnapshot {
    /// Display form of the scope the runner serves.
    pub scope_identifier: String,
    /// Remote identifier of the runner.
    pub runner_id: i64,
    /// Remote name of the runner.
    pub runner_name: String,
    /// Remote status, such as `online`.
    pub status: String,
    /// Whether the runner was busy with a job.
    pub busy: bool,
    /// When this snapshot was taken, in epoch seconds.
    pub recorded_at: i64,
}

impl View for RunnerSnapshot {
    type V = SnapshotView;

    open spec fn view(&self) -> SnapshotView {
        SnapshotView {
            scope_identifier: self.scope_identifier@,
            runner_id: self.runner_id as int,
            runner_name: self.runner_name@,
            status: self.status@,
            busy: self.busy,
            recorded_at: self.recorded_at as int,
        }
    }
}

/// Per-day aggregate of one scope's activity.
#[derive(Debug, Clone)]
pub struct DailyMetrics {
    pub scope_identifier: String,
    pub date: String,
    pub total_runs: i32,
    pub successful_runs: i32,
    pub failed_runs: i32,
    pub avg_duration_seconds: Option<i32>,
    pub runner_online_minutes: Option<i32>,
}

/// One band of the duration distribution, with its count.
#[derive(Debug, Clone)]
pub struct DurationBucket {
    /// Band label, such as `<1m`.
    pub label: String,
    /// Completed runs whose duration fell into the band.
    pub count: u32,
}

} // verus!
