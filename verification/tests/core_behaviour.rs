use gcore::ast::{Language, NodeId, NodeKind, Span};
use gcore::branding::BrandingConfig;
use gcore::errors::Result;
use gcore::executor::{TestConfig, TestRunner, TestStatus};
use gcore::logging::{LogFormat, LogLevel, LoggingConfig};
use gcore::prompts::PromptCapabilities;
use gcore::recovery::{CircuitBreaker, CircuitBreakerConfig, CircuitBreakerState, ErrorClassifier};
use gcore::resources::detect_mime_type;
use gcore::transport::{JsonRpcNotification, TransportMessage};
use gcore::validation::ValidationEngine;
use gcore::{DEFAULT_MAX_CONCURRENCY, DEFAULT_TIMEOUT_SECS, FULL_NAME, MCP_PROTOCOL_VERSION, NAME};

#[test]
fn test_prompt_capabilities() {
    let capabilities = PromptCapabilities { list_changed: Some(false) };
    assert_eq!(capabilities.list_changed, Some(false));
}

#[test]
fn test_mime_type_detection() {
    assert_eq!(detect_mime_type("test.js"), "application/javascript");
    assert_eq!(detect_mime_type("test.py"), "text/x-python");
    assert_eq!(detect_mime_type("test.java"), "text/x-java-source");
    assert_eq!(detect_mime_type("test.unknown"), "text/plain");
}

#[test]
fn test_additional_mime_types() {
    assert_eq!(detect_mime_type("config.json"), "application/json");
    assert_eq!(detect_mime_type("README.md"), "text/markdown");
    assert_eq!(detect_mime_type("data.xml"), "application/xml");
    assert_eq!(detect_mime_type("config.yaml"), "application/yaml");
    assert_eq!(detect_mime_type("config.yml"), "application/yaml");
    assert_eq!(detect_mime_type("Cargo.toml"), "application/toml");
    assert_eq!(detect_mime_type("index.html"), "text/html");
    assert_eq!(detect_mime_type("styles.css"), "text/css");
    assert_eq!(detect_mime_type("notes.txt"), "text/plain");
}

#[test]
fn test_transport_message_notification() {
    let notification = JsonRpcNotification::new("test_notification".to_string(), None);
    let msg = TransportMessage::Notification(notification);

    assert_eq!(msg.jsonrpc_version(), "2.0");
    assert_eq!(msg.method(), Some("test_notification"));
    assert_eq!(msg.id(), None);
}

#[test]
fn test_node_id_generation() {
    let span = Span::new(0, 10, 1, 1, 1, 11);
    let id1 = NodeId::new("repo1", "file.js", &span, &NodeKind::Function);
    let id2 = NodeId::new("repo1", "file.js", &span, &NodeKind::Function);
    assert_eq!(id1, id2);

    let id3 = NodeId::new("repo2", "file.js", &span, &NodeKind::Function);
    assert_ne!(id1, id3);
}

#[test]
fn test_language_detection() {
    assert_eq!(Language::from_extension("js"), Language::JavaScript);
    assert_eq!(Language::from_extension("ts"), Language::TypeScript);
    assert_eq!(Language::from_extension("py"), Language::Python);
    assert_eq!(Language::from_extension("java"), Language::Java);
    assert_eq!(Language::from_extension("unknown"), Language::Unknown);
}

#[test]
fn test_language_detection_edge_cases() {
    // Case insensitive
    assert_eq!(Language::from_extension("JS"), Language::JavaScript);
    assert_eq!(Language::from_extension("Py"), Language::Python);

    // Multiple extensions
    assert_eq!(Language::from_extension("mjs"), Language::JavaScript);
    assert_eq!(Language::from_extension("cjs"), Language::JavaScript);
    assert_eq!(Language::from_extension("tsx"), Language::TypeScript);

    // C++ variations
    assert_eq!(Language::from_extension("cpp"), Language::Cpp);
    assert_eq!(Language::from_extension("cc"), Language::Cpp);
    assert_eq!(Language::from_extension("cxx"), Language::Cpp);
    assert_eq!(Language::from_extension("hpp"), Language::Cpp);

    // Empty and unknown
    assert_eq!(Language::from_extension(""), Language::Unknown);
    assert_eq!(Language::from_extension("xyz"), Language::Unknown);
}

#[test]
fn test_span_utilities() {
    let span = Span::new(10, 20, 2, 3, 5, 15);
    assert_eq!(span.len(), 10);
    assert!(!span.is_empty());

    let empty_span = Span::new(10, 10, 2, 2, 5, 5);
    assert_eq!(empty_span.len(), 0);
    assert!(empty_span.is_empty());
}

#[test]
fn test_branding_config_default_creation() {
    let result = BrandingConfig::default();
    assert!(result.company_name.is_none());
    assert!(result.custom_css_file.is_none());
}

#[test]
fn test_branding_config_validation() {
    let config = BrandingConfig::default();
    // Nothing references a file, so what exists on disk does not matter.
    let result = config.validate(false, false);
    assert!(result.is_ok(), "Should validate branding config: {:?}", result.err());
}

#[test]
fn test_branding_config_to_branding_info_conversion() {
    let config = BrandingConfig::default();
    let branding_info = config.to_branding_info(None);
    assert!(branding_info.company_name.is_none());
    assert!(branding_info.css_overrides.is_none());
}

#[test]
fn test_validation_engine_initialization() {
    let result = ValidationEngine::new();
    assert!(result.is_ok(), "Should create ValidationEngine successfully");
}

#[test]
fn test_result_type_alias() {
    fn returns_result() -> Result<String> {
        Ok("success".to_string())
    }

    let result = returns_result();
    assert!(result.is_ok());
    assert_eq!(result.unwrap(), "success");
}

#[test]
fn test_logging_config_default() {
    let config = LoggingConfig::default();
    assert!(matches!(config.level, LogLevel::Info));
    assert!(matches!(config.format, LogFormat::Pretty));
    assert_eq!(config.outputs.len(), 1, "Should have 1 items");
    assert!(config.enable_colors);
}

#[test]
fn test_log_level_conversion() {
    assert_eq!(LogLevel::Error.to_tracing_level(), tracing::Level::ERROR);
    assert_eq!(LogLevel::Warn.to_tracing_level(), tracing::Level::WARN);
    assert_eq!(LogLevel::Info.to_tracing_level(), tracing::Level::INFO);
    assert_eq!(LogLevel::Debug.to_tracing_level(), tracing::Level::DEBUG);
    assert_eq!(LogLevel::Trace.to_tracing_level(), tracing::Level::TRACE);
}

#[test]
fn test_error_classifier_custom_rules() {
    let mut classifier = ErrorClassifier::new();
    classifier.add_custom_rule("timeout".to_string(), true);
    classifier.add_custom_rule("auth".to_string(), false);

    assert!(classifier.has_custom_rule("timeout"));
    assert!(classifier.has_custom_rule("auth"));
    assert_eq!(classifier.custom_rule("timeout"), Some(true));
    assert_eq!(classifier.custom_rule("auth"), Some(false));
}

#[test]
fn test_circuit_breaker_creation() {
    let config = CircuitBreakerConfig::default();
    let breaker = CircuitBreaker::new(config);

    assert_eq!(breaker.get_state(), &CircuitBreakerState::Closed);
    assert_eq!(breaker.get_failure_count(), 0);
}

fn create_test_config() -> TestConfig {
    TestConfig {
        max_concurrency: 4,
        fail_fast: false,
        filter: None,
        test_timeout_ms: 30_000,
        server_timeout_ms: 10_000,
        retry_attempts: 2,
    }
}

#[test]
fn test_runner_creation() {
    let config = create_test_config();
    let runner = TestRunner::new(config);
    assert_eq!(runner.progress_tracker().total_tests, 0);
}

#[test]
fn test_config_default() {
    let config = TestConfig::default();
    assert_eq!(config.max_concurrency, 4);
    assert!(!config.fail_fast);
    assert!(config.filter.is_none());
    // Thirty and ten seconds, in milliseconds.
    assert_eq!(config.test_timeout_ms, 30_000);
    assert_eq!(config.server_timeout_ms, 10_000);
    assert_eq!(config.retry_attempts, 2);
}

#[test]
fn test_test_status_equality() {
    assert_eq!(TestStatus::Passed, TestStatus::Passed);
    assert_eq!(TestStatus::Failed, TestStatus::Failed);
    assert_eq!(TestStatus::Skipped, TestStatus::Skipped);
    assert_eq!(TestStatus::Timeout, TestStatus::Timeout);
    assert_eq!(TestStatus::Error, TestStatus::Error);

    assert_ne!(TestStatus::Passed, TestStatus::Failed);
    assert_ne!(TestStatus::Error, TestStatus::Timeout);
}

#[test]
fn test_constants() {
    assert_eq!(NAME, "MOTH");
    assert_eq!(FULL_NAME, "MOdel context protocol Test Harness");
    assert_eq!(MCP_PROTOCOL_VERSION, "2025-06-18");
    assert_eq!(DEFAULT_TIMEOUT_SECS, 30);
    assert_eq!(DEFAULT_MAX_CONCURRENCY, 4);
}
