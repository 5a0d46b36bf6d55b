use runner_mgr::github::{RunnerScope, Runner, WorkflowRun};
use runner_mgr::metrics::models::Trend;
use runner_mgr::metrics::store::{calculate_trend, MetricsStore};

fn test_scope() -> RunnerScope {
    RunnerScope::Repository {
        owner: "test".to_string(),
        repo: "repo".to_string(),
    }
}

fn run(id: u64, conclusion: &str, created: &str, updated: &str) -> WorkflowRun {
    WorkflowRun {
        id,
        name: Some("Test".to_string()),
        status: "completed".to_string(),
        conclusion: Some(conclusion.to_string()),
        head_branch: Some("main".to_string()),
        created_at: created.to_string(),
        updated_at: updated.to_string(),
        html_url: format!("https://github.com/test/repo/actions/runs/{id}"),
    }
}

#[test]
fn test_record_and_query_workflow_runs() {
    let mut db = MetricsStore::new();
    let scope = test_scope();

    let runs = vec![
        run(1, "success", "2024-01-01T10:00:00Z", "2024-01-01T10:05:00Z"),
        run(2, "failure", "2024-01-01T11:00:00Z", "2024-01-01T11:10:00Z"),
    ];

    // recorded "now": 2024-01-01T12:00:00Z
    let now = 1704110400;
    db.record_workflow_runs(&scope, &runs, now);

    let metrics = db.get_scope_metrics(&scope, 30, now);
    assert_eq!(metrics.total_runs, 2);
    assert_eq!(metrics.successful_runs, 1);
    assert_eq!(metrics.failed_runs, 1);
}

#[test]
fn test_duration_calculation() {
    let duration =
        MetricsStore::calculate_duration("2024-01-01T10:00:00Z", "2024-01-01T10:05:00Z");
    assert_eq!(duration, Some(300)); // 5 minutes = 300 seconds
}

#[test]
fn test_duration_calculation_malformed() {
    assert_eq!(
        MetricsStore::calculate_duration("not a time", "2024-01-01T10:05:00Z"),
        None
    );
    assert_eq!(
        MetricsStore::calculate_duration("2024-01-01T10:00:00Z", "nonsense"),
        None
    );
}

#[test]
fn test_trend_calculation() {
    // rates carried in hundredths: 1.0 is 100
    // clear upward trend (difference 10, over the threshold of 5)
    assert_eq!(calculate_trend(100, 90), Trend::Up);
    // clear downward trend (difference -10)
    assert_eq!(calculate_trend(80, 90), Trend::Down);
    // within the threshold (difference 2)
    assert_eq!(calculate_trend(92, 90), Trend::Stable);
}

#[test]
fn test_upsert_idempotence() {
    let mut db = MetricsStore::new();
    let scope = test_scope();
    let now = 1704110400;

    let first = vec![run(7, "failure", "2024-01-01T10:00:00Z", "2024-01-01T10:05:00Z")];
    db.record_workflow_runs(&scope, &first, now);
    let second = vec![run(7, "success", "2024-01-01T10:00:00Z", "2024-01-01T10:09:00Z")];
    db.record_workflow_runs(&scope, &second, now + 60);

    // exactly one row, carrying the later status and duration
    let metrics = db.get_scope_metrics(&scope, 30, now + 60);
    assert_eq!(metrics.total_runs, 1);
    assert_eq!(metrics.successful_runs, 1);
    assert_eq!(metrics.failed_runs, 0);
    assert_eq!(metrics.avg_duration_seconds, Some(540));
}

#[test]
fn test_success_rate_from_counts() {
    let mut db = MetricsStore::new();
    let scope = test_scope();
    let now = 1704110400;
    let runs = vec![
        run(1, "success", "2024-01-01T10:00:00Z", "2024-01-01T10:05:00Z"),
        run(2, "success", "2024-01-01T10:00:00Z", "2024-01-01T10:06:00Z"),
        run(3, "failure", "2024-01-01T10:00:00Z", "2024-01-01T10:07:00Z"),
        run(4, "failure", "2024-01-01T10:00:00Z", "2024-01-01T10:08:00Z"),
    ];
    db.record_workflow_runs(&scope, &runs, now);
    let metrics = db.get_scope_metrics(&scope, 7, now);
    // 2 of 4: 50%, carried in hundredths of a percent
    assert_eq!(metrics.success_rate_hundredths, 5000);
    assert_eq!(metrics.min_duration_seconds, Some(300));
    assert_eq!(metrics.max_duration_seconds, Some(480));
    assert_eq!(metrics.avg_duration_seconds, Some(390));
}

#[test]
fn test_empty_window_metrics() {
    let db = MetricsStore::new();
    let scope = test_scope();
    let metrics = db.get_scope_metrics(&scope, 7, 1704110400);
    assert_eq!(metrics.total_runs, 0);
    assert_eq!(metrics.success_rate_hundredths, 0);
    assert_eq!(metrics.success_trend, None);
    assert_eq!(metrics.avg_duration_seconds, None);
    assert_eq!(metrics.duration_trend, None);
    assert_eq!(metrics.runner_uptime_hundredths, None);
}

#[test]
fn test_trends_against_previous_window() {
    let mut db = MetricsStore::new();
    let scope = test_scope();
    // a one-day window ending at `now`; the previous window is the day before
    let now = 1704110400;
    let in_current = now - 3600;
    let in_previous = now - 86400 - 3600;

    let old_runs = vec![
        run(1, "failure", "2024-01-01T10:00:00Z", "2024-01-01T10:10:00Z"),
        run(2, "success", "2024-01-01T10:00:00Z", "2024-01-01T10:10:00Z"),
    ];
    db.record_workflow_runs(&scope, &old_runs, in_previous);
    let new_runs = vec![
        run(3, "success", "2024-01-01T10:00:00Z", "2024-01-01T10:05:00Z"),
        run(4, "success", "2024-01-01T10:00:00Z", "2024-01-01T10:05:00Z"),
    ];
    db.record_workflow_runs(&scope, &new_runs, in_current);

    let metrics = db.get_scope_metrics(&scope, 1, now);
    // success went from 1/2 to 2/2, durations from 600 to 300
    assert_eq!(metrics.success_trend, Some(Trend::Up));
    assert_eq!(metrics.duration_trend, Some(Trend::Up));
}

fn snapshot_runner(id: u64, status: &str) -> Runner {
    Runner {
        id,
        name: format!("runner-{id}"),
        os: "linux".to_string(),
        status: status.to_string(),
        busy: false,
        labels: Vec::new(),
    }
}

#[test]
fn test_runner_uptime() {
    let mut db = MetricsStore::new();
    let scope = test_scope();
    let now = 1704110400;
    db.record_runner_snapshots(&scope, &vec![snapshot_runner(1, "online")], now - 300);
    db.record_runner_snapshots(&scope, &vec![snapshot_runner(1, "online")], now - 200);
    db.record_runner_snapshots(&scope, &vec![snapshot_runner(1, "offline")], now - 100);
    let metrics = db.get_scope_metrics(&scope, 1, now);
    // 2 of 3 snapshots online, in hundredths of a percent
    assert_eq!(metrics.runner_uptime_hundredths, Some(6666));
}

#[test]
fn test_duration_distribution() {
    let mut db = MetricsStore::new();
    let scope = test_scope();
    let now = 1704110400;
    let runs = vec![
        run(1, "success", "2024-01-01T10:00:00Z", "2024-01-01T10:00:30Z"), // 30s
        run(2, "success", "2024-01-01T10:00:00Z", "2024-01-01T10:02:00Z"), // 120s
        run(3, "success", "2024-01-01T10:00:00Z", "2024-01-01T10:04:00Z"), // 240s
        run(4, "failure", "2024-01-01T10:00:00Z", "2024-01-01T11:00:00Z"), // 3600s
    ];
    db.record_workflow_runs(&scope, &runs, now);
    let buckets = db.get_duration_distribution(&scope, 7, now);
    assert_eq!(buckets.len(), 3);
    assert_eq!(buckets[0].label, "<1m");
    assert_eq!(buckets[0].count, 1);
    assert_eq!(buckets[1].label, "1-5m");
    assert_eq!(buckets[1].count, 2);
    assert_eq!(buckets[2].label, ">30m");
    assert_eq!(buckets[2].count, 1);
}

#[test]
fn test_recorded_scopes() {
    let mut db = MetricsStore::new();
    let repo = test_scope();
    let org = RunnerScope::Organization {
        org: "myorg".to_string(),
    };
    let now = 1704110400;
    db.record_workflow_runs(
        &repo,
        &vec![run(1, "success", "2024-01-01T10:00:00Z", "2024-01-01T10:05:00Z")],
        now,
    );
    db.record_runner_snapshots(&org, &vec![snapshot_runner(1, "online")], now);
    db.record_runner_snapshots(&repo, &vec![snapshot_runner(2, "online")], now);
    let scopes = db.get_recorded_scopes();
    assert_eq!(scopes, vec!["test/repo".to_string(), "org:myorg".to_string()]);
}

#[test]
fn test_calculate_success_rate_method() {
    let mut m = runner_mgr::metrics::models::ScopeMetrics::default();
    m.total_runs = 3;
    m.successful_runs = 2;
    m.calculate_success_rate();
    assert_eq!(m.success_rate_hundredths, 6666);
}

#[test]
fn test_trend_symbols() {
    assert_eq!(Trend::Up.symbol(), "↑");
    assert_eq!(Trend::Down.symbol(), "↓");
    assert_eq!(Trend::Stable.symbol(), "-");
}
