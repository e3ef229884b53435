use gcore::args::ReportFormat;
use gcore::cli::WatchConfig;
use gcore::errors::{ErrorContext, McpClientError, NetworkError, TestHarnessError};
use gcore::metrics::ErrorAnalyzer;
use gcore::profiles::{expand_config_path, profile_stem_of, ProfileManager};
use gcore::recovery::{CircuitBreaker, CircuitBreakerConfig, CircuitBreakerState, ErrorClassifier};
use gcore::watch::WatchManager;

fn entries(items: &[(&str, bool)]) -> Vec<(String, bool)> {
    items.iter().map(|(n, f)| (n.to_string(), *f)).collect()
}

#[test]
fn profile_paths_join_the_directory() {
    let manager = ProfileManager::new("/home/qa/.config/mandrel-mcp-th".to_string());
    assert_eq!(manager.profile_path("nightly"), "/home/qa/.config/mandrel-mcp-th/nightly.yaml");
    let trailing = ProfileManager::new("profiles/".to_string());
    assert_eq!(trailing.profile_path("ci"), "profiles/ci.yaml");
    assert_eq!(trailing.profile_path("/abs/x"), "/abs/x.yaml");
}

#[test]
fn profile_listing_keeps_yaml_files_sorted() {
    let manager = ProfileManager::new("profiles".to_string());
    let listed = manager.select_profiles(&entries(&[
        ("zeta.yaml", true),
        ("alpha.yaml", true),
        ("notes.txt", true),
        ("dir.yaml", false),
        (".yaml", true),
        ("Beta.yaml", true),
        ("alpha.yml", true),
        ("m.n.yaml", true),
    ]));
    assert_eq!(listed, vec!["Beta".to_string(), "alpha".to_string(), "m.n".to_string(), "zeta".to_string()]);
    assert!(manager.select_profiles(&Vec::new()).is_empty());
}

#[test]
fn profile_stems() {
    assert_eq!(profile_stem_of("ci.yaml"), Some("ci".to_string()));
    assert_eq!(profile_stem_of("..yaml"), Some(".".to_string()));
    assert_eq!(profile_stem_of(".yaml"), None);
    assert_eq!(profile_stem_of("ci.YAML"), None);
    assert_eq!(profile_stem_of("yaml"), None);
}

#[test]
fn config_paths_expand_home() {
    assert_eq!(expand_config_path("~/.config/moth", Some("/home/qa")), "/home/qa/.config/moth");
    assert_eq!(expand_config_path("~", Some("/home/qa")), "/home/qa");
    assert_eq!(expand_config_path("~other/x", Some("/home/qa")), "~other/x");
    assert_eq!(expand_config_path("/etc/moth", Some("/home/qa")), "/etc/moth");
    assert_eq!(expand_config_path("~/.config/moth", None), "~/.config/moth");
}

fn watch(patterns: &[&str], formats: Vec<ReportFormat>) -> WatchManager {
    WatchManager::new(WatchConfig {
        input_patterns: patterns.iter().map(|p| p.to_string()).collect(),
        output_directory: "out".to_string(),
        debounce_ms: 500,
        formats,
        auto_open: false,
    })
}

#[test]
fn watch_patterns_match_by_containment() {
    let manager = watch(&["*.json", "results"], vec![]);
    assert!(manager.matches_input_patterns("run/latest.json"));
    assert!(manager.matches_input_patterns("results/x.txt"));
    assert!(!manager.matches_input_patterns("run/latest.yaml"));
    let wildcard_only = watch(&["*.*.", "*."], vec![]);
    assert!(wildcard_only.matches_input_patterns("anything"));
    let none = watch(&[], vec![]);
    assert!(!none.matches_input_patterns("a.json"));
}

#[test]
fn watch_changes_plan_one_report_per_format() {
    let manager = watch(&["*.json"], vec![ReportFormat::Html, ReportFormat::Junit]);
    assert_eq!(
        manager.reports_for_change("suite.json"),
        vec!["out/report.html".to_string(), "out/report.xml".to_string()]
    );
    assert!(manager.reports_for_change("suite.yaml").is_empty());
}

#[test]
fn retry_decisions_follow_retryability_and_attempts() {
    let classifier = ErrorClassifier::new();
    let timeout = TestHarnessError::Network(NetworkError::ConnectionTimeout { endpoint: "x".to_string(), timeout_ms: 1 });
    assert!(classifier.should_retry(&timeout, 1, 3));
    assert!(classifier.should_retry(&timeout, 2, 3));
    assert!(!classifier.should_retry(&timeout, 3, 3));
    let protocol = TestHarnessError::Client(McpClientError::ProtocolViolation {
        method: "m".to_string(),
        message: "bad".to_string(),
        request_id: None,
        invalid_payload: None,
    });
    assert!(!classifier.should_retry(&protocol, 1, 3));
}

#[test]
fn circuit_breaker_cycle() {
    let config = CircuitBreakerConfig { failure_threshold: 2, success_threshold: 1, timeout_ms: 0, half_open_max_calls: 1 };
    let mut breaker = CircuitBreaker::new(config);
    assert!(breaker.admit_call(None).is_ok());
    breaker.on_failure();
    breaker.on_failure();
    assert_eq!(*breaker.get_state(), CircuitBreakerState::Open);
    assert!(breaker.admit_call(Some(0)).is_err());
    assert!(breaker.admit_call(Some(1)).is_ok());
    assert_eq!(*breaker.get_state(), CircuitBreakerState::HalfOpen);
    breaker.on_success();
    assert_eq!(*breaker.get_state(), CircuitBreakerState::Closed);
    assert_eq!(breaker.get_failure_count(), 0);
    assert_eq!(breaker.get_success_count(), 0);
}

#[test]
fn error_patterns_group_repeated_keys() {
    let mut analyzer = ErrorAnalyzer::new();
    let timeout = || TestHarnessError::Network(NetworkError::ConnectionTimeout { endpoint: "e".to_string(), timeout_ms: 1 });
    let refused = || {
        TestHarnessError::Client(McpClientError::ConnectionFailed {
            server_name: "s".to_string(),
            message: "refused".to_string(),
            retry_count: 0,
            last_attempt: 0,
            underlying_error: None,
        })
    };
    analyzer.record_error(refused(), ErrorContext::new("op").with_test("alpha"));
    analyzer.record_error(timeout(), ErrorContext::new("op").with_test("alpha"));
    analyzer.record_error(timeout(), ErrorContext::new("op").with_test("beta"));
    analyzer.record_error(timeout(), ErrorContext::new("op").with_test("alpha"));
    analyzer.record_error(refused(), ErrorContext::new("op"));
    analyzer.record_error(TestHarnessError::Network(NetworkError::DnsResolutionFailed {
        hostname: "h".to_string(),
        error_message: "nx".to_string(),
    }), ErrorContext::new("op"));

    let patterns = analyzer.identify_error_patterns();
    assert_eq!(patterns.len(), 2);
    assert_eq!(patterns[0].pattern_key, "network_connection_timeout");
    assert_eq!(patterns[0].frequency, 3);
    assert!(patterns[0].first_seen_ms <= patterns[0].last_seen_ms);
    let mut tests = patterns[0].affected_tests.clone();
    tests.sort();
    assert_eq!(tests, vec!["alpha".to_string(), "beta".to_string()]);
    assert_eq!(patterns[0].description, "Network connectivity or timeout problems");
    assert_eq!(
        patterns[0].suggested_fix,
        Some("Verify network connectivity and increase timeout values".to_string())
    );
    assert_eq!(patterns[1].pattern_key, "client_connection_failed");
    assert_eq!(patterns[1].frequency, 2);
    assert_eq!(patterns[1].affected_tests, vec!["alpha".to_string()]);
    assert!(ErrorAnalyzer::new().identify_error_patterns().is_empty());
}
