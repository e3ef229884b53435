use gcore::buckets::error_counts_by_bucket;
use gcore::errors::{ErrorContext, McpClientError, NetworkError, TestHarnessError};
use gcore::metrics::{AnalyzedEvent, ErrorAnalyzer, TrendDirection};
use gcore::trends::calculate_trending_errors;

const HOUR: i64 = 3_600_000;

fn network() -> TestHarnessError {
    TestHarnessError::Network(NetworkError::ConnectionTimeout { endpoint: "e".to_string(), timeout_ms: 1 })
}

fn client() -> TestHarnessError {
    TestHarnessError::Client(McpClientError::RequestTimeout {
        method: "m".to_string(),
        duration_ms: 2,
        timeout_ms: 1,
        request_id: None,
    })
}

fn event(ts: i64, error: TestHarnessError) -> AnalyzedEvent {
    AnalyzedEvent {
        timestamp_ms: ts,
        error,
        context: ErrorContext::new("op"),
        recovery_attempted: false,
        recovery_successful: false,
    }
}

#[test]
fn trending_compares_the_last_two_hours() {
    let now = 10 * HOUR;
    let events = vec![
        event(now - 30 * 60_000, network()),
        event(now - 10 * 60_000, network()),
        event(now - 90 * 60_000, network()),
        event(now - 20 * 60_000, client()),
        event(now - 70 * 60_000, client()),
        event(now - 80 * 60_000, client()),
        event(now - 5 * HOUR, client()),
    ];
    let trending = calculate_trending_errors(&events, now);
    assert_eq!(trending.len(), 2);
    assert_eq!(trending[0].error_type, "network");
    assert_eq!((trending[0].current_count, trending[0].previous_count), (2, 1));
    assert_eq!(trending[0].trend_direction, TrendDirection::Increasing);
    assert_eq!(trending[1].error_type, "client");
    assert_eq!((trending[1].current_count, trending[1].previous_count), (1, 2));
    assert_eq!(trending[1].trend_direction, TrendDirection::Decreasing);
}

#[test]
fn trending_ties_go_to_the_steadier_trend() {
    let now = 10 * HOUR;
    let events = vec![
        event(now - 1, network()),
        event(now - HOUR - 1, network()),
        event(now - HOUR - 2, network()),
        event(now - HOUR - 3, network()),
        event(now - 2, client()),
        event(now - HOUR - 4, client()),
    ];
    let trending = calculate_trending_errors(&events, now);
    assert_eq!(trending.len(), 2);
    // client: 1 now, 1 before (confidence 1); network: 1 now, 3 before (1/3).
    assert_eq!(trending[0].error_type, "client");
    assert_eq!(trending[0].trend_direction, TrendDirection::Stable);
    assert_eq!(trending[1].error_type, "network");
    assert!(calculate_trending_errors(&Vec::new(), now).is_empty());
}

#[test]
fn hourly_and_daily_buckets() {
    let day = 24 * HOUR;
    let events = vec![
        event(3 * day + 2 * HOUR + 5, network()),
        event(3 * day + 2 * HOUR + 59 * 60_000, client()),
        event(3 * day + 1 * HOUR, network()),
        event(4 * day, network()),
        event(-1, client()),
    ];
    let hourly = error_counts_by_bucket(&events, true);
    let hours: Vec<i64> = hourly.iter().map(|b| b.bucket).collect();
    assert_eq!(hours, vec![0, (3 * day + HOUR) / 1000, (3 * day + 2 * HOUR) / 1000, (4 * day) / 1000]);
    assert_eq!(hourly[0].count, 1);
    assert_eq!(hourly[2].count, 2);
    let mut cats = hourly[2].categories.clone();
    cats.sort();
    assert_eq!(cats, vec![("client".to_string(), 1), ("network".to_string(), 1)]);

    let daily = error_counts_by_bucket(&events, false);
    let days: Vec<(i64, u64)> = daily.iter().map(|b| (b.bucket, b.count)).collect();
    assert_eq!(days, vec![(-1, 1), (3, 3), (4, 1)]);
}

#[test]
fn analyzer_trends_cover_recorded_events() {
    let mut analyzer = ErrorAnalyzer::new();
    analyzer.record_error(network(), ErrorContext::new("op"));
    analyzer.record_error(network(), ErrorContext::new("op"));
    let trends = analyzer.analyze_trends();
    assert_eq!(trends.error_patterns.len(), 1);
    assert_eq!(trends.trending_errors.len(), 1);
    assert_eq!(trends.trending_errors[0].current_count, 2);
    let total: u64 = trends.hourly_error_counts.iter().map(|b| b.count).sum();
    assert_eq!(total, 2);
    let total: u64 = trends.daily_error_counts.iter().map(|b| b.count).sum();
    assert_eq!(total, 2);
}

#[test]
fn every_error_lands_in_one_bucket() {
    let events = vec![
        event(-1, network()),
        event(0, client()),
        event(HOUR - 1, network()),
        event(HOUR, client()),
        event(30 * HOUR, network()),
        event(30 * HOUR + 5, network()),
    ];
    for hourly in [true, false] {
        let buckets = error_counts_by_bucket(&events, hourly);
        let total: u64 = buckets.iter().map(|b| b.count).sum();
        assert_eq!(total, events.len() as u64);
        for pair in buckets.windows(2) {
            assert!(pair[0].bucket < pair[1].bucket);
        }
    }
    assert_eq!(error_counts_by_bucket(&events, true).len(), 3);
    assert_eq!(error_counts_by_bucket(&events, false).len(), 3);
}
