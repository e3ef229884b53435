use gcore::errors::{
    ConfigurationError, Error, ErrorContext, McpClientError, NetworkError, TestExecutionError,
    TestHarnessError, ValidationError,
};
use gcore::executor::{
    ExpectedResult, PerformanceExpectation, PerformanceMetrics, ProgressTracker, SuiteResult,
    TestCase, TestConfig, TestResult, TestRunner, TestStatus, TestType,
};
use gcore::logging::{categorize_error, ErrorCollector};
use gcore::metrics::{generate_pattern_description, generate_pattern_key, ErrorAnalyzer};
use gcore::recovery::{ErrorCategory, ErrorClassifier, RetryPolicy};

fn string_value(s: &str) -> serde_json::Value {
    serde_json::Value::String(s.to_string())
}

fn object_with(key: &str, value: serde_json::Value) -> serde_json::Value {
    let mut map = serde_json::Map::new();
    map.insert(key.to_string(), value);
    serde_json::Value::Object(map)
}

fn connection_failed(server: &str, message: &str, retry_count: u32) -> McpClientError {
    McpClientError::ConnectionFailed {
        server_name: server.to_string(),
        message: message.to_string(),
        retry_count,
        last_attempt: 1736937045000,
        underlying_error: None,
    }
}

fn schema_error(message: &str) -> ValidationError {
    ValidationError::SchemaValidation {
        path: "$.test".to_string(),
        message: message.to_string(),
        expected_schema: None,
        actual_value: None,
    }
}

fn network_timeout(endpoint: &str, timeout_ms: u64) -> TestHarnessError {
    TestHarnessError::Network(NetworkError::ConnectionTimeout { endpoint: endpoint.to_string(), timeout_ms })
}

#[test]
fn test_error_display() {
    let err = Error::config("invalid port number");
    assert_eq!(err.to_string(), "Configuration error: invalid port number");
}

#[test]
fn test_error_constructors() {
    assert!(matches!(Error::config("test config error"), Error::Config(_)));
    assert!(matches!(Error::spec("test spec error"), Error::Spec(_)));
    assert!(matches!(Error::connection("test connection error"), Error::Connection(_)));
    assert!(matches!(Error::execution("test execution error"), Error::Execution(_)));
    assert!(matches!(Error::validation("test validation error"), Error::Validation(_)));
}

#[test]
fn test_error_from_io() {
    let io_err = std::io::Error::new(std::io::ErrorKind::NotFound, "file not found");
    let err = Error::from(io_err);
    assert!(matches!(err, Error::Io(_)));
    assert_eq!(err.to_string(), "I/O error: file not found");
}

#[test]
fn test_error_is_retryable() {
    assert!(Error::connection("test").is_retryable());
    assert!(!Error::config("test").is_retryable());
    assert!(!Error::spec("test").is_retryable());
    assert!(!Error::validation("test").is_retryable());
}

#[test]
fn test_error_category() {
    assert_eq!(Error::config("test").category(), "configuration");
    assert_eq!(Error::spec("test").category(), "specification");
    assert_eq!(Error::connection("test").category(), "connection");
    assert_eq!(Error::execution("test").category(), "execution");
    assert_eq!(Error::validation("test").category(), "validation");

    let io_err = Error::from(std::io::Error::new(std::io::ErrorKind::NotFound, "test"));
    assert_eq!(io_err.category(), "io");

    let json_err = Error::Serialization("expected value at line 1 column 1".to_string());
    assert_eq!(json_err.category(), "serialization");
}

#[test]
fn error_texts_of_every_kind() {
    assert_eq!(Error::Mcp("x".to_string()).to_string(), "MCP protocol error: x");
    assert_eq!(Error::dependency("x").to_string(), "Dependency resolution error: x");
    assert_eq!(Error::Yaml("x".to_string()).to_string(), "YAML parsing error: x");
    assert_eq!(Error::Mcp("x".to_string()).category(), "protocol");
    assert!(Error::Mcp("x".to_string()).is_retryable());
    assert!(!Error::Io("x".to_string()).is_retryable());
}

#[test]
fn errors_test_error_context_creation() {
    let context = ErrorContext::new("test_operation").with_test("sample_test").with_server("test_server");
    assert_eq!(context.operation, "test_operation");
    assert_eq!(context.test_name, Some("sample_test".to_string()));
    assert_eq!(context.server_name, Some("test_server".to_string()));
}

#[test]
fn test_error_context_with_data() {
    let mut context = ErrorContext::new("test_operation");
    context.add_data("key1".to_string(), string_value("value1"));
    context.add_data("key2".to_string(), serde_json::Value::Number(42.into()));

    let value_of = |k: &str| context.user_data.iter().rev().find(|(n, _)| n == k).map(|(_, v)| v.clone());
    assert_eq!(context.user_data.len(), 2, "Should have 2 items");
    assert_eq!(value_of("key1").unwrap(), "value1");
    assert_eq!(value_of("key2").unwrap(), 42);
}

#[test]
fn test_mcp_client_error_serialization() {
    let error = McpClientError::ConnectionFailed {
        server_name: "test-server".to_string(),
        message: "Connection refused".to_string(),
        retry_count: 2,
        last_attempt: 1736937045000,
        underlying_error: Some("TCP connection failed".to_string()),
    };
    match error.clone() {
        McpClientError::ConnectionFailed { server_name, retry_count, .. } => {
            assert_eq!(server_name, "test-server");
            assert_eq!(retry_count, 2);
        }
        _ => panic!("Unexpected error type after copying"),
    }
    assert!(error.to_string().contains("test-server"));
}

#[test]
fn test_test_execution_error_display() {
    let error = TestExecutionError::AssertionFailed {
        test_name: "test_example".to_string(),
        step: 3,
        message: "Expected 'success' but got 'failure'".to_string(),
        expected: Some(string_value("success")),
        actual: Some(string_value("failure")),
    };
    let error_message = error.to_string();
    assert!(error_message.contains("test_example"));
    assert!(error_message.contains("step: 3"));
    assert!(error_message.contains("Expected 'success' but got 'failure'"));
}

#[test]
fn test_validation_error_creation() {
    let error = ValidationError::SchemaValidation {
        path: "$.response.data".to_string(),
        message: "Expected string, got number".to_string(),
        expected_schema: Some("string".to_string()),
        actual_value: Some(serde_json::Value::Number(42.into())),
    };
    assert!(error.to_string().contains("$.response.data"));
    assert!(error.to_string().contains("Expected string, got number"));
}

#[test]
fn test_error_conversion() {
    let mcp_error = McpClientError::RequestTimeout {
        method: "tools/list".to_string(),
        duration_ms: 5000,
        timeout_ms: 3000,
        request_id: Some("req-123".to_string()),
    };
    let harness_error: TestHarnessError = mcp_error.into();
    match harness_error {
        TestHarnessError::Client(McpClientError::RequestTimeout { method, .. }) => {
            assert_eq!(method, "tools/list");
        }
        _ => panic!("Unexpected error type after conversion"),
    }
}

#[test]
fn test_error_collector_creation() {
    let collector = ErrorCollector::new();
    assert_eq!(collector.event_count(), 0, "Should have 0 items");
    assert_eq!(collector.get_statistics().total_errors, 0);
}

#[test]
fn test_error_collector_record_error() {
    let mut collector = ErrorCollector::new();
    let error = TestHarnessError::Configuration(ConfigurationError::MissingConfig {
        field: "test_field".to_string(),
        config_file: Some("test.yaml".to_string()),
    });
    collector.record_error(error, ErrorContext::new("test_operation"));

    assert_eq!(collector.event_count(), 1, "Should have 1 items");
    let stats = collector.get_statistics();
    assert_eq!(stats.total_errors, 1);
    assert_eq!(stats.errors_by_category.get("configuration"), 1);
}

#[test]
fn test_error_summary_generation() {
    let mut collector = ErrorCollector::new();
    collector.record_error(network_timeout("localhost:8080", 5000), ErrorContext::new("network_test"));

    let summary = collector.generate_summary(1200);
    assert_eq!(summary.total_errors, 1);
    assert_eq!(summary.errors_by_category.get("network"), 1);
    assert_eq!(summary.most_common_error, Some("network".to_string()));
    assert_eq!(summary.execution_duration_ms, 1200);
}

#[test]
fn logging_test_error_categorization() {
    let client_error = TestHarnessError::Client(connection_failed("test", "failed", 0));
    assert_eq!(categorize_error(&client_error), "client");
    let validation_error = TestHarnessError::Validation(schema_error("Invalid"));
    assert_eq!(categorize_error(&validation_error), "validation");
}

#[test]
fn test_error_analyzer_creation() {
    let analyzer = ErrorAnalyzer::new();
    assert_eq!(analyzer.get_metrics().total_errors, 0);
    assert_eq!(analyzer.event_count(), 0);
}

#[test]
fn test_error_recording() {
    let mut analyzer = ErrorAnalyzer::new();
    let error = TestHarnessError::Client(connection_failed("test-server", "Connection failed", 1));
    let context = ErrorContext::new("test_operation").with_test("sample_test").with_server("test_server");
    analyzer.record_error(error, context);

    let metrics = analyzer.get_metrics();
    assert_eq!(metrics.total_errors, 1);
    assert_eq!(analyzer.event_count(), 1);
    assert_eq!(metrics.errors_by_category.get("client"), 1);
    assert_eq!(metrics.errors_by_test.get("sample_test"), 1);
    assert_eq!(metrics.errors_by_server.get("test_server"), 1);
}

#[test]
fn test_recovery_metrics() {
    let mut analyzer = ErrorAnalyzer::new();
    analyzer.record_error(network_timeout("test-endpoint", 5000), ErrorContext::new("test_operation"));
    analyzer.record_recovery_attempt(true);

    let (attempts, successes) = analyzer.recovery_counts();
    assert_eq!(attempts, 1);
    assert_eq!(successes as f64 / attempts as f64, 1.0);
}

#[test]
fn metrics_test_error_categorization() {
    let client_error = TestHarnessError::Client(McpClientError::RequestTimeout {
        method: "test_method".to_string(),
        duration_ms: 5000,
        timeout_ms: 3000,
        request_id: None,
    });
    assert_eq!(categorize_error(&client_error), "client");
    let validation_error = TestHarnessError::Validation(schema_error("Invalid schema"));
    assert_eq!(categorize_error(&validation_error), "validation");
}

#[test]
fn test_most_frequent_error() {
    let mut analyzer = ErrorAnalyzer::new();
    for _ in 0..3 {
        analyzer.record_error(network_timeout("test", 1000), ErrorContext::new("test"));
    }
    let error = TestHarnessError::Client(connection_failed("test", "failed", 0));
    analyzer.record_error(error, ErrorContext::new("test"));

    assert_eq!(analyzer.find_most_frequent_error(), Some("network".to_string()));
}

#[test]
fn most_problematic_test_counts() {
    let mut analyzer = ErrorAnalyzer::new();
    assert_eq!(analyzer.find_most_problematic_test(), None);
    analyzer.record_error(network_timeout("a", 1), ErrorContext::new("op").with_test("alpha"));
    analyzer.record_error(network_timeout("a", 1), ErrorContext::new("op").with_test("beta"));
    analyzer.record_error(network_timeout("a", 1), ErrorContext::new("op").with_test("beta"));
    assert_eq!(analyzer.find_most_problematic_test(), Some(("beta".to_string(), 2)));
    analyzer.record_recovery_attempt(false);
    assert_eq!(analyzer.recovery_counts(), (1, 0));
}

#[test]
fn test_pattern_generation() {
    let error = TestHarnessError::Client(connection_failed("test", "failed", 0));
    let pattern_key = generate_pattern_key(&error);
    assert!(pattern_key.starts_with("client_"));
    let description = generate_pattern_description(&error);
    assert!(description.contains("MCP client"));
}

#[test]
fn test_error_classifier_retryable_errors() {
    let classifier = ErrorClassifier::new();
    let connection_error = TestHarnessError::Client(connection_failed("test-server", "Connection refused", 0));
    assert!(classifier.is_retryable(&connection_error));

    let protocol_error = TestHarnessError::Client(McpClientError::ProtocolViolation {
        method: "tools/list".to_string(),
        message: "Invalid JSON-RPC format".to_string(),
        request_id: Some("123".to_string()),
        invalid_payload: None,
    });
    assert!(!classifier.is_retryable(&protocol_error));
}

#[test]
fn test_error_classifier_categorization() {
    let classifier = ErrorClassifier::new();
    let client_error = TestHarnessError::Client(connection_failed("test", "Failed", 0));
    assert_eq!(classifier.categorize(&client_error), ErrorCategory::Connection);
    let validation_error = TestHarnessError::Validation(schema_error("Invalid"));
    assert_eq!(classifier.categorize(&validation_error), ErrorCategory::Validation);
}

#[test]
fn test_error_classifier_get_retry_config() {
    let classifier = ErrorClassifier::new();
    let connection_error = TestHarnessError::Client(connection_failed("test", "failed", 0));
    assert_eq!(classifier.get_retry_policy(&connection_error), Some(RetryPolicy::Connection));

    let validation_error = TestHarnessError::Validation(schema_error("Invalid"));
    assert!(classifier.get_retry_policy(&validation_error).is_none());

    assert_eq!(classifier.get_retry_policy(&network_timeout("x", 1)), Some(RetryPolicy::Request));
}

#[test]
fn server_error_codes_decide_retry() {
    let classifier = ErrorClassifier::new();
    let server_error = |code: i32| {
        TestHarnessError::Client(McpClientError::ServerError {
            code,
            error: "boom".to_string(),
            data: None,
            method: None,
        })
    };
    assert!(classifier.is_retryable(&server_error(503)));
    assert!(classifier.is_retryable(&server_error(500)));
    assert!(!classifier.is_retryable(&server_error(404)));
    assert!(!classifier.is_retryable(&server_error(600)));
}

fn create_test_config() -> TestConfig {
    TestConfig {
        max_concurrency: 4,
        fail_fast: false,
        filter: None,
        test_timeout_ms: 30_000,
        server_timeout_ms: 10_000,
        retry_attempts: 2,
    }
}

fn create_sample_test_case() -> TestCase {
    TestCase {
        name: "test_tool_call".to_string(),
        description: Some("Test basic tool calling".to_string()),
        test_type: TestType::ToolCall { tool_name: "echo".to_string() },
        parameters: object_with("message", string_value("hello")),
        expected: ExpectedResult {
            should_succeed: true,
            content_patterns: vec!["hello".to_string()],
            performance: Some(PerformanceExpectation { max_response_time_ms: 1000, max_memory_usage: None }),
        },
        timeout_ms: None,
        retry_attempts: None,
    }
}

#[test]
fn test_result_validation_success() {
    let runner = TestRunner::new(create_test_config());
    let response = object_with("content", string_value("hello world"));
    let expected = ExpectedResult { should_succeed: true, content_patterns: vec!["hello".to_string()], performance: None };
    let validation = runner.validate_test_result(&response, &expected, 100);
    assert!(validation.passed);
    assert!(validation.error_message.is_none());
}

#[test]
fn test_result_validation_content_failure() {
    let runner = TestRunner::new(create_test_config());
    let response = object_with("content", string_value("goodbye world"));
    let expected = ExpectedResult { should_succeed: true, content_patterns: vec!["hello".to_string()], performance: None };
    let validation = runner.validate_test_result(&response, &expected, 100);
    assert!(!validation.passed);
    assert!(validation.error_message.is_some());
    assert!(validation.error_message.unwrap().contains("hello"));
}

#[test]
fn test_result_validation_performance_failure() {
    let runner = TestRunner::new(create_test_config());
    let response = object_with("content", string_value("hello"));
    let expected = ExpectedResult {
        should_succeed: true,
        content_patterns: vec![],
        performance: Some(PerformanceExpectation { max_response_time_ms: 100, max_memory_usage: None }),
    };
    let validation = runner.validate_test_result(&response, &expected, 200);
    assert!(!validation.passed);
    assert!(validation.error_message.is_some());
    assert!(validation.error_message.unwrap().contains("Response time"));
}

#[test]
fn response_text_messages_are_joined() {
    let runner = TestRunner::new(create_test_config());
    let expected = ExpectedResult {
        should_succeed: true,
        content_patterns: vec!["alpha".to_string(), "beta".to_string()],
        performance: Some(PerformanceExpectation { max_response_time_ms: 100, max_memory_usage: None }),
    };
    let validation = runner.validate_response_text("nothing here", &expected, 250);
    assert!(!validation.passed);
    assert_eq!(
        validation.error_message,
        Some(
            "Response time 250ms exceeded maximum 100ms; Response does not contain expected pattern: alpha; Response does not contain expected pattern: beta"
                .to_string()
        )
    );
}

#[test]
fn test_should_execute_test_with_filter() {
    let mut config = create_test_config();
    config.filter = Some("tool".to_string());
    let runner = TestRunner::new(config);

    let test_case = create_sample_test_case();
    assert!(runner.should_execute_test(&test_case));

    let mut other_test = test_case.clone();
    other_test.name = "health_check".to_string();
    assert!(!runner.should_execute_test(&other_test));
}

#[test]
fn test_should_execute_test_without_filter() {
    let runner = TestRunner::new(create_test_config());
    assert!(runner.should_execute_test(&create_sample_test_case()));
}

fn percentage(tracker: &ProgressTracker) -> f64 {
    if tracker.total_tests == 0 {
        0.0
    } else {
        (tracker.completed_tests as f64 / tracker.total_tests as f64) * 100.0
    }
}

#[test]
fn test_progress_tracker() {
    let mut tracker = ProgressTracker::new();
    tracker.initialize(3);
    assert_eq!(tracker.total_tests, 3);
    assert_eq!(percentage(&tracker), 0.0);

    let passed_result = TestResult {
        test_name: "test1".to_string(),
        suite_name: "suite".to_string(),
        status: TestStatus::Passed,
        error_message: None,
        start_time: 1736937045000,
        duration_ms: 100,
        response_data: None,
        performance: PerformanceMetrics { response_time_ms: 100, memory_usage_bytes: None, retry_attempts: 0 },
    };

    tracker.record_result(&passed_result);
    assert_eq!(tracker.passed_tests, 1);
    assert_eq!(tracker.completed_tests, 1);
    assert!((percentage(&tracker) - 33.333333333333336).abs() < 0.0000001);

    let mut failed_result = passed_result.clone();
    failed_result.status = TestStatus::Failed;
    tracker.record_result(&failed_result);
    assert_eq!(tracker.failed_tests, 1);
    assert_eq!(tracker.completed_tests, 2);

    let skipped_result = TestResult::skipped("test3".to_string(), "suite".to_string(), "Filtered".to_string());
    tracker.record_result(&skipped_result);
    assert_eq!(tracker.skipped_tests, 1);
    assert_eq!(tracker.completed_tests, 3);
    assert_eq!(percentage(&tracker), 100.0);
}

#[test]
fn test_test_result_constructors() {
    let skipped = TestResult::skipped("test1".to_string(), "suite".to_string(), "Filtered".to_string());
    assert_eq!(skipped.status, TestStatus::Skipped);
    assert_eq!(skipped.error_message, Some("Filtered".to_string()));

    let error = TestResult::error("test2".to_string(), "Connection failed".to_string());
    assert_eq!(error.status, TestStatus::Error);
    assert_eq!(error.error_message, Some("Connection failed".to_string()));

    let timeout = TestResult::timeout("test3".to_string());
    assert_eq!(timeout.status, TestStatus::Timeout);
    assert_eq!(timeout.error_message, Some("Test execution timed out".to_string()));
}

#[test]
fn test_suite_result_creation() {
    let test_results = vec![
        TestResult::skipped("test1".to_string(), "suite".to_string(), "Filtered".to_string()),
        TestResult::error("test2".to_string(), "Failed".to_string()),
        TestResult::timeout("test3".to_string()),
    ];
    let mut passed_result = test_results[0].clone();
    passed_result.status = TestStatus::Passed;

    let results = vec![passed_result, test_results[1].clone(), test_results[2].clone()];
    let suite_result = SuiteResult::from_test_results("test_suite".to_string(), results);

    assert_eq!(suite_result.suite_name, "test_suite");
    assert_eq!(suite_result.total_tests, 3);
    assert_eq!(suite_result.passed, 1);
    assert_eq!(suite_result.failed, 2);
    assert_eq!(suite_result.skipped, 0);
    assert!(!suite_result.is_successful());
    let rate = suite_result.passed as f64 / suite_result.total_tests as f64 * 100.0;
    assert!((rate - 33.333333333333336).abs() < 0.0000001);
}

#[test]
fn every_recorded_error_has_one_category() {
    let mut collector = ErrorCollector::new();
    collector.record_error(network_timeout("a:1", 10), ErrorContext::new("one"));
    collector.record_error(TestHarnessError::Validation(schema_error("bad")), ErrorContext::new("two"));
    collector.record_error(network_timeout("b:2", 20), ErrorContext::new("three"));
    let stats = collector.get_statistics();
    let per_category: u64 = stats.errors_by_category.to_vec().iter().map(|(_, n)| *n).sum();
    assert_eq!(stats.total_errors, 3);
    assert_eq!(per_category, stats.total_errors);
    assert_eq!(stats.errors_by_category.get("network"), 2);
    assert_eq!(stats.errors_by_category.get("validation"), 1);
    assert_eq!(collector.generate_summary(0).most_common_error, Some("network".to_string()));
}

#[test]
fn every_finished_test_is_counted_once() {
    let mut tracker = ProgressTracker::new();
    tracker.initialize(5);
    let results = vec![
        TestResult::skipped("a".to_string(), "suite".to_string(), "Filtered".to_string()),
        TestResult::error("b".to_string(), "Failed".to_string()),
        TestResult::timeout("c".to_string()),
        TestResult::skipped("d".to_string(), "suite".to_string(), "Filtered".to_string()),
    ];
    for r in &results {
        tracker.record_result(r);
        assert_eq!(
            tracker.passed_tests + tracker.failed_tests + tracker.skipped_tests,
            tracker.completed_tests
        );
    }
    assert_eq!((tracker.failed_tests, tracker.skipped_tests), (2, 2));
}
