use gcore::args::{OrganizationStrategy, ReportFormat, TemplateName, TimestampFormat};
use gcore::branding::{BrandingInfo, FileManager, Moment};
use gcore::environment::{CiSystem, EnvironmentDetector};
use gcore::validation::{
    BuiltInTemplate, ConfigFacts, InputFileFacts, ReportConfig, TemplateFacts,
    TemplateSource, ValidationEngine,
};

fn a_moment() -> Moment {
    Moment {
        year: 2025,
        month: 1,
        day: 15,
        hour: 10,
        minute: 30,
        second: 45,
        unix_seconds: 1736937045,
    }
}

fn env_of(pairs: &[(&str, &str)]) -> Vec<(String, String)> {
    pairs.iter().map(|(k, v)| (k.to_string(), v.to_string())).collect()
}

#[test]
fn test_file_manager_initialization() {
    let manager = FileManager::new(
        "/tmp/reports".to_string(),
        OrganizationStrategy::Flat,
        TimestampFormat::Iso,
    );
    let path = manager.generate_output_path(ReportFormat::Json, None, "suite", &a_moment());
    assert_eq!(path, vec!["suite_2025-01-15T10-30-45Z.json".to_string()]);
}

#[test]
fn test_file_manager_path_generation_flat() {
    let manager = FileManager::new(
        "/tmp/reports".to_string(),
        OrganizationStrategy::Flat,
        TimestampFormat::NoTimestamp,
    );
    let path = manager.generate_output_path(ReportFormat::Json, None, "test_suite", &a_moment());
    assert!(path.last().unwrap().ends_with("test_suite.json"));
}

#[test]
fn test_file_manager_path_generation_by_format() {
    let manager = FileManager::new(
        "/tmp/reports".to_string(),
        OrganizationStrategy::ByFormat,
        TimestampFormat::NoTimestamp,
    );
    let path = manager.generate_output_path(
        ReportFormat::Html,
        Some(TemplateName::Professional),
        "test_suite",
        &a_moment(),
    );
    assert!(path.join("/").contains("html"));
    assert!(path.last().unwrap().ends_with("test_suite.html"));
}

#[test]
fn test_file_manager_path_generation_by_date() {
    let manager = FileManager::new(
        "/tmp/reports".to_string(),
        OrganizationStrategy::ByDate,
        TimestampFormat::Human,
    );
    let path = manager.generate_output_path(ReportFormat::Junit, None, "test_suite", &a_moment());
    let path_str = path.join("/");
    assert!(path_str.contains("20"));
    assert!(path_str.ends_with(".xml"));
    assert_eq!(
        path,
        vec![
            "2025".to_string(),
            "01".to_string(),
            "15".to_string(),
            "test_suite_2025-01-15_10-30-45.xml".to_string(),
        ]
    );
}

#[test]
fn file_manager_by_template_and_unix_timestamps() {
    let manager = FileManager::new(
        "/tmp/reports".to_string(),
        OrganizationStrategy::ByTemplate,
        TimestampFormat::Unix,
    );
    let path = manager.generate_output_path(
        ReportFormat::Markdown,
        Some(TemplateName::Executive),
        "nightly",
        &a_moment(),
    );
    assert_eq!(path, vec!["executive".to_string(), "nightly_1736937045.md".to_string()]);
    let no_template = manager.generate_output_path(ReportFormat::Json, None, "nightly", &a_moment());
    assert_eq!(no_template, vec!["nightly_1736937045.json".to_string()]);
}

fn input_facts(content: &str) -> InputFileFacts {
    InputFileFacts {
        path: "results.json".to_string(),
        exists: true,
        metadata: Ok(600),
        extension: Some("json".to_string()),
        content: Some(content.to_string()),
    }
}

const VALID_RESULTS: &str = r#"{
    "suite_name": "Test Suite",
    "start_time": "2025-01-15T10:30:45Z",
    "duration": 5000,
    "test_results": [
        {
            "test_name": "test_example",
            "suite_name": "Test Suite",
            "status": "Passed",
            "start_time": "2025-01-15T10:30:45Z",
            "duration": 1000,
            "performance": {
                "response_time_ms": 100,
                "retry_attempts": 0
            }
        }
    ],
    "passed": 1,
    "failed": 0,
    "errors": 0,
    "skipped": 0,
    "total_tests": 1
}"#;

#[test]
fn test_input_file_schema_validation() {
    let engine = ValidationEngine::new().expect("Should create validation engine");

    let valid = input_facts(VALID_RESULTS);
    let validation_result = engine.validate_input_file(&valid);
    assert!(validation_result.is_valid, "Should validate valid input file");
    assert!(validation_result.errors.is_empty(), "Should have no validation errors");

    let invalid = input_facts(
        r#"{
            "suite_name": "Test Suite",
            "invalid_field": "should_not_be_here",
            "test_results": "invalid_type_should_be_array"
        }"#,
    );
    let invalid_result = engine.validate_input_file(&invalid);
    assert!(!invalid_result.is_valid, "Should detect invalid input file");
    assert!(!invalid_result.errors.is_empty(), "Should have validation errors");
    assert!(
        invalid_result.errors.iter().any(|e| e.message.contains("test_results")),
        "Should detect test_results type error"
    );
}

#[test]
fn input_file_missing_and_unparsable() {
    let engine = ValidationEngine::new().unwrap();
    let mut missing = input_facts(VALID_RESULTS);
    missing.exists = false;
    let r = engine.validate_input_file(&missing);
    assert!(!r.is_valid);
    assert!(!r.errors.is_empty());

    let broken = input_facts("not json");
    let r = engine.validate_input_file(&broken);
    assert!(!r.is_valid);
    assert!(r.errors.iter().any(|e| e.field == "json_format" && e.message.starts_with("Invalid JSON format: ")));

    let mut yaml = input_facts("key: [unclosed");
    yaml.extension = Some("yaml".to_string());
    let r = engine.validate_input_file(&yaml);
    assert!(r.errors.iter().any(|e| e.field == "yaml_format"));
    let mut good_yaml = input_facts("suite_name: nightly\ntest_results: []\n");
    good_yaml.extension = Some("yml".to_string());
    assert!(engine.validate_input_file(&good_yaml).is_valid);
}

const VALID_TEMPLATE: &str = "<!DOCTYPE html>
<html>
<head>
    <title>{{report_id}} - Test Report</title>
</head>
<body>
    <h1>{{summary.total_tests}} Tests</h1>
    <p>Success Rate: {{summary.success_rate}}%</p>
</body>
</html>";

const INVALID_TEMPLATE: &str = "<html>
<title>{{undefined_variable}}</title>
<body>
    <h1>{{summary.nonexistent_field}}</h1>
    <unclosed_tag>
</body>
</html>";

#[test]
fn test_template_validation() {
    let engine = ValidationEngine::new().expect("Should create validation engine");

    let source = TemplateSource::Custom { path: "valid-template.html".to_string() };
    let facts = TemplateFacts { exists: true, content: Some(VALID_TEMPLATE.to_string()) };
    let validation_result = engine.validate_template(&source, &facts);
    assert!(validation_result.is_valid, "Should validate valid template");
    assert!(validation_result.errors.is_empty(), "Should have no validation errors");

    let invalid_source = TemplateSource::Custom { path: "invalid-template.html".to_string() };
    let invalid_facts = TemplateFacts { exists: true, content: Some(INVALID_TEMPLATE.to_string()) };
    let invalid_result = engine.validate_template(&invalid_source, &invalid_facts);
    assert!(!invalid_result.is_valid, "Should detect invalid template");
    assert!(!invalid_result.errors.is_empty(), "Should have validation errors");
    assert!(
        invalid_result.errors.iter().any(|e| e.message.contains("undefined variable")),
        "Should detect undefined variable"
    );
}

#[test]
fn template_builtin_missing_and_inline() {
    let engine = ValidationEngine::new().unwrap();
    let no_file = TemplateFacts { exists: false, content: None };
    let r = engine.validate_template(&TemplateSource::BuiltIn(BuiltInTemplate::Minimal), &no_file);
    assert!(r.is_valid);
    assert!(r.errors.is_empty());

    let r = engine.validate_template(&TemplateSource::Custom { path: "gone.html".to_string() }, &no_file);
    assert!(!r.is_valid);
    assert!(!r.errors.is_empty());

    let r = engine.validate_template(&TemplateSource::Inline { content: String::new() }, &no_file);
    assert!(!r.is_valid);
}

fn config_facts(logo_exists: bool, output_parent_exists: Option<bool>) -> ConfigFacts {
    ConfigFacts {
        logo_exists,
        output_parent_exists,
        template: TemplateFacts { exists: false, content: None },
    }
}

#[test]
fn test_configuration_validation() {
    let engine = ValidationEngine::new().expect("Should create validation engine");

    let valid_config = ReportConfig {
        include_performance_metrics: true,
        include_validation_details: true,
        template_source: Some(TemplateSource::BuiltIn(BuiltInTemplate::Professional)),
        branding: BrandingInfo {
            company_name: Some("Test Corp".to_string()),
            primary_color: Some("ff6600".to_string()),
            secondary_color: Some("ffcc99".to_string()),
            ..Default::default()
        },
        custom_fields: vec![("version".to_string(), "1.0.0".to_string())],
        output_directory: Some("./reports".to_string()),
    };
    let validation_result = engine.validate_configuration(&valid_config, &config_facts(false, Some(true)));
    assert!(validation_result.is_valid, "Should validate valid configuration");
    assert!(validation_result.errors.is_empty(), "Should have no validation errors");

    let invalid_config = ReportConfig {
        branding: BrandingInfo {
            primary_color: Some("invalid_color_format".to_string()),
            logo_path: Some("/nonexistent/logo.png".to_string()),
            ..Default::default()
        },
        output_directory: Some("/invalid/readonly/path".to_string()),
        ..Default::default()
    };
    let invalid_result = engine.validate_configuration(&invalid_config, &config_facts(false, Some(false)));
    assert!(!invalid_result.is_valid, "Should detect invalid configuration");
    assert!(!invalid_result.errors.is_empty(), "Should have validation errors");
    assert!(
        invalid_result.errors.iter().any(|e| e.message.contains("color")),
        "Should detect invalid color format"
    );
}

#[test]
fn report_config_default_is_empty() {
    let config = ReportConfig::default();
    assert!(!config.include_performance_metrics);
    assert!(!config.include_validation_details);
    assert!(config.template_source.is_none());
    assert!(config.branding.company_name.is_none());
    assert!(config.custom_fields.is_empty());
    assert!(config.output_directory.is_none());
}

#[test]
fn test_ci_system_detection() {
    let detector = EnvironmentDetector::new();

    let env = env_of(&[("GITHUB_ACTIONS", "true"), ("GITHUB_WORKFLOW", "CI")]);
    assert_eq!(detector.detect_ci_system(&env), Some(CiSystem::GitHubActions), "Should detect GitHub Actions");

    let env = env_of(&[("JENKINS_URL", "http://jenkins.example.com"), ("BUILD_NUMBER", "123")]);
    assert_eq!(detector.detect_ci_system(&env), Some(CiSystem::Jenkins), "Should detect Jenkins");

    let env = env_of(&[("GITLAB_CI", "true"), ("CI_JOB_ID", "456")]);
    assert_eq!(detector.detect_ci_system(&env), Some(CiSystem::GitLabCI), "Should detect GitLab CI");

    assert_eq!(detector.detect_ci_system(&Vec::new()), None);
    let jenkins_without_build = env_of(&[("JENKINS_URL", "http://jenkins.example.com")]);
    assert_eq!(detector.detect_ci_system(&jenkins_without_build), None);
}

#[test]
fn test_ci_specific_configuration() {
    let detector = EnvironmentDetector::new();
    let env = env_of(&[
        ("GITHUB_ACTIONS", "true"),
        ("GITHUB_WORKSPACE", "/github/workspace"),
        ("RUNNER_TEMP", "/tmp/runner"),
    ]);

    let ci_config = detector.get_ci_specific_config(&env).expect("Should get CI config");
    assert!(ci_config.output_directory.contains("tmp"), "Should use CI temp directory");
    assert!(ci_config.formats.contains(&ReportFormat::Junit), "Should include JUnit format for CI");
    assert!(ci_config.fail_on_errors, "Should fail on errors in CI");
}

#[test]
fn test_environment_variable_integration() {
    let detector = EnvironmentDetector::new();
    let env = env_of(&[
        ("PATH", "/usr/bin"),
        ("BUILD_VERSION", "v1.2.3"),
        ("TEAM_NAME", "QA Team"),
        ("ENVIRONMENT", "staging"),
    ]);

    let env_vars = detector.get_environment_variables(&env);
    let get = |k: &str| env_vars.iter().find(|(n, _)| n == k).map(|(_, v)| v.clone());
    assert!(get("BUILD_VERSION").is_some(), "Should include BUILD_VERSION");
    assert_eq!(get("BUILD_VERSION"), Some("v1.2.3".to_string()));
    assert!(get("TEAM_NAME").is_some(), "Should include TEAM_NAME");
    assert_eq!(get("TEAM_NAME"), Some("QA Team".to_string()));
}

#[test]
fn only_safe_environment_variables_are_kept() {
    let vars: Vec<(String, String)> = [
        ("PATH", "/bin"),
        ("RUST_LOG", "info"),
        ("CARGO_REGISTRY_TOKEN", "x"),
        ("HOME", "/root"),
        ("USER_api_key", "x"),
        ("AWS_REGION", "eu"),
        ("PWD", "/tmp"),
    ]
    .iter()
    .map(|(k, v)| (k.to_string(), v.to_string()))
    .collect();
    let kept: Vec<String> = gcore::environment::safe_env_vars(&vars).into_iter().map(|(k, _)| k).collect();
    assert_eq!(kept, vec!["PATH", "RUST_LOG", "HOME", "PWD"]);
}

#[test]
fn repeated_custom_field_keeps_its_last_value() {
    let args = gcore::args::ReportArgs {
        input: "in.json".to_string(),
        output: "out".to_string(),
        formats: vec![],
        template: None,
        branding_config: None,
        custom_fields: vec![
            ("team".to_string(), "a".to_string()),
            ("env".to_string(), "ci".to_string()),
            ("team".to_string(), "b".to_string()),
        ],
        organize_by: gcore::args::OrganizationStrategy::Flat,
        timestamp: gcore::args::TimestampFormat::Iso,
        fail_on_errors: false,
        include_performance: true,
        include_validation: false,
    };
    let config = gcore::cli::report_config_from_args(&args, gcore::branding::BrandingInfo::default());
    let mut fields = config.custom_fields.clone();
    fields.sort();
    assert_eq!(fields, vec![("env".to_string(), "ci".to_string()), ("team".to_string(), "b".to_string())]);
}

#[test]
fn color_formats() {
    assert!(gcore::validation::is_valid_color_format("#1a2B3c"));
    assert!(gcore::validation::is_valid_color_format("1a2B3c"));
    assert!(gcore::validation::is_valid_color_format("Purple"));
    assert!(!gcore::validation::is_valid_color_format("#1a2B3"));
    assert!(!gcore::validation::is_valid_color_format("##1a2B3c"));
    assert!(!gcore::validation::is_valid_color_format("#1a2B3g"));
    assert!(!gcore::validation::is_valid_color_format("1a2B3c\n"));
}

#[test]
fn extensions_ignore_ascii_case() {
    assert_eq!(gcore::ast::Language::from_extension("JS"), gcore::ast::Language::JavaScript);
    assert_eq!(gcore::ast::Language::from_extension("Py"), gcore::ast::Language::Python);
    assert_eq!(gcore::ast::Language::from_extension("TXT"), gcore::ast::Language::Unknown);
}
