//! Error types of the test harness: the general error with its category and
//! retry rule, and the hierarchical harness error that the recovery policy
//! classifies.  Timestamps are milliseconds since the Unix epoch.

use crate::text::{decimal, push_str, u64_to_string};
use vstd::prelude::*;

verus! {

/// `chrono::Utc::now()` in milliseconds since the Unix epoch.  Nothing is
/// claimed of the value: it is the clock's.
#[verifier::external_body]
pub(crate) fn now_millis() -> i64 {
    chrono::Utc::now().timestamp_millis()
}

/// The text of an I/O error, as `std::io::Error` displays it.  Nothing is
/// claimed of the text.
#[verifier::external_body]
fn io_error_text(e: &std::io::Error) -> String {
    e.to_string()
}

#[verifier::external_type_specification]
#[verifier::external_body]
pub struct ExIoError(std::io::Error);


/// Comprehensive error type of the harness; outside errors (protocol, I/O,
/// JSON, YAML) are carried by their message.
#[derive(Clone, Debug, PartialEq, Eq)]
pub enum Error {
    /// MCP protocol errors from the SDK
    Mcp(String),
    /// Configuration related errors
    Config(String),
    /// Test specification validation errors
    Spec(String),
    /// Dependency resolution errors
    Dependency(String),
    /// Server connection errors
    Connection(String),
    /// Test execution errors
    Execution(String),
    /// Test validation errors
    Validation(String),
    /// I/O errors
    Io(String),
    /// Serialization errors
    Serialization(String),
    /// YAML parsing errors
    Yaml(String),
}

/// How an error reads.
pub open spec fn error_text(e: Error) -> Seq<char> {
    match e {
        Error::Mcp(m) => "MCP protocol error: "@ + m@,
        Error::Config(m) => "Configuration error: "@ + m@,
        Error::Spec(m) => "Test specification error: "@ + m@,
        Error::Dependency(m) => "Dependency resolution error: "@ + m@,
        Error::Connection(m) => "Server connection error: "@ + m@,
        Error::Execution(m) => "Test execution error: "@ + m@,
        Error::Validation(m) => "Validation error: "@ + m@,
        Error::Io(m) => "I/O error: "@ + m@,
        Error::Serialization(m) => "Serialization error: "@ + m@,
        Error::Yaml(m) => "YAML parsing error: "@ + m@,
    }
}

fn concat(a: &str, b: &str) -> (r: String)
    ensures
        r@ == a@ + b@,
{
    let mut r = String::new();
    push_str(&mut r, a);
    push_str(&mut r, b);
    r
}

impl Error {
    /// How the error reads.
    pub fn to_string(&self) -> (r: String)
        ensures
            r@ == error_text(*self),
    {
        match self {
            Error::Mcp(m) => concat("MCP protocol error: ", m.as_str()),
            Error::Config(m) => concat("Configuration error: ", m.as_str()),
            Error::Spec(m) => concat("Test specification error: ", m.as_str()),
            Error::Dependency(m) => concat("Dependency resolution error: ", m.as_str()),
            Error::Connection(m) => concat("Server connection error: ", m.as_str()),
            Error::Execution(m) => concat("Test execution error: ", m.as_str()),
            Error::Validation(m) => concat("Validation error: ", m.as_str()),
            Error::Io(m) => concat("I/O error: ", m.as_str()),
            Error::Serialization(m) => concat("Serialization error: ", m.as_str()),
            Error::Yaml(m) => concat("YAML parsing error: ", m.as_str()),
        }
    }
}

impl From<std::io::Error> for Error {
    /// An I/O error, carried by its text.
    fn from(e: std::io::Error) -> (r: Self)
        ensures
            r is Io,
    {
        Error::Io(io_error_text(&e))
    }
}

impl vstd::std_specs::convert::FromSpecImpl<std::io::Error> for Error {
    /// The text of an I/O error is not known here, so the conversion is
    /// not described.
    open spec fn obeys_from_spec() -> bool {
        false
    }

    open spec fn from_spec(e: std::io::Error) -> Self {
        Error::Io(arbitrary())
    }
}


/// Result type alias for harness operations.
pub type Result<T> = core::result::Result<T, Error>;

/// The reporting category of an error.
pub open spec fn category_of(e: Error) -> Seq<char> {
    match e {
        Error::Mcp(_) => "protocol"@,
        Error::Config(_) => "configuration"@,
        Error::Spec(_) => "specification"@,
        Error::Dependency(_) => "dependency"@,
        Error::Connection(_) => "connection"@,
        Error::Execution(_) => "execution"@,
        Error::Validation(_) => "validation"@,
        Error::Io(_) => "io"@,
        Error::Serialization(_) => "serialization"@,
        Error::Yaml(_) => "yaml"@,
    }
}

impl Error {
    /// A configuration error.
    pub fn config(msg: &str) -> (r: Self)
        ensures
            r matches Error::Config(m) && m@ == msg@,
    {
        Error::Config(msg.to_owned())
    }

    /// A test specification error.
    pub fn spec(msg: &str) -> (r: Self)
        ensures
            r matches Error::Spec(m) && m@ == msg@,
    {
        Error::Spec(msg.to_owned())
    }

    /// A dependency resolution error.
    pub fn dependency(msg: &str) -> (r: Self)
        ensures
            r matches Error::Dependency(m) && m@ == msg@,
    {
        Error::Dependency(msg.to_owned())
    }

    /// A server connection error.
    pub fn connection(msg: &str) -> (r: Self)
        ensures
            r matches Error::Connection(m) && m@ == msg@,
    {
        Error::Connection(msg.to_owned())
    }

    /// A test execution error.
    pub fn execution(msg: &str) -> (r: Self)
        ensures
            r matches Error::Execution(m) && m@ == msg@,
    {
        Error::Execution(msg.to_owned())
    }

    /// A validation error.
    pub fn validation(msg: &str) -> (r: Self)
        ensures
            r matches Error::Validation(m) && m@ == msg@,
    {
        Error::Validation(msg.to_owned())
    }

    /// Connection and protocol errors are worth retrying.
    pub fn is_retryable(&self) -> (r: bool)
        ensures
            r == (self is Connection || self is Mcp),
    {
        match self {
            Error::Connection(_) | Error::Mcp(_) => true,
            _ => false,
        }
    }

    /// The error's category for reporting.
    pub fn category(&self) -> (r: &'static str)
        ensures
            r@ == category_of(*self),
    {
        match self {
            Error::Mcp(_) => "protocol",
            Error::Config(_) => "configuration",
            Error::Spec(_) => "specification",
            Error::Dependency(_) => "dependency",
            Error::Connection(_) => "connection",
            Error::Execution(_) => "execution",
            Error::Validation(_) => "validation",
            Error::Io(_) => "io",
            Error::Serialization(_) => "serialization",
            Error::Yaml(_) => "yaml",
        }
    }
}

/// Root error type for all test harness operations.
#[derive(Clone, Debug)]
pub enum TestHarnessError {
    Client(McpClientError),
    Execution(TestExecutionError),
    Validation(ValidationError),
    Configuration(ConfigurationError),
    Io(IoError),
    Reporting(ReportingError),
    Network(NetworkError),
    Performance(PerformanceError),
    Security(SecurityError),
}

/// MCP client-specific errors.
#[derive(Clone, Debug)]
pub enum McpClientError {
    ConnectionFailed {
        server_name: String,
        message: String,
        retry_count: u32,
        /// Milliseconds since the Unix epoch.
        last_attempt: i64,
        underlying_error: Option<String>,
    },
    ProtocolViolation {
        method: String,
        message: String,
        request_id: Option<String>,
        invalid_payload: Option<serde_json::Value>,
    },
    RequestTimeout {
        method: String,
        duration_ms: u64,
        timeout_ms: u64,
        request_id: Option<String>,
    },
    ServerError { code: i32, error: String, data: Option<serde_json::Value>, method: Option<String> },
    TransportError { message: String, recoverable: bool, transport_type: String },
    AuthenticationError { message: String, retry_allowed: bool, auth_type: String },
}

/// Test execution errors.
#[derive(Clone, Debug)]
pub enum TestExecutionError {
    SetupFailed { test_name: String, message: String, phase: String },
    AssertionFailed {
        test_name: String,
        step: u32,
        message: String,
        expected: Option<serde_json::Value>,
        actual: Option<serde_json::Value>,
    },
    TestTimeout { test_name: String, timeout_seconds: u64, elapsed_seconds: u64 },
    DependencyFailed { test_name: String, dependency: String, dependency_error: String },
    ScriptExecutionFailed {
        test_name: String,
        script_name: String,
        message: String,
        exit_code: Option<i32>,
    },
}

/// Validation errors.
#[derive(Clone, Debug)]
pub enum ValidationError {
    SchemaValidation {
        path: String,
        message: String,
        expected_schema: Option<String>,
        actual_value: Option<serde_json::Value>,
    },
    JsonPathValidation {
        path: String,
        message: String,
        expected: Option<serde_json::Value>,
        actual: Option<serde_json::Value>,
    },
    ResponseFormat { message: String, response_type: String, validation_rule: String },
}

/// Configuration errors.
#[derive(Clone, Debug)]
pub enum ConfigurationError {
    InvalidConfig { field: String, message: String, provided_value: Option<String> },
    MissingConfig { field: String, config_file: Option<String> },
    ParsingFailed { message: String, file_path: String, line_number: Option<u32> },
}

/// I/O errors with additional context.
#[derive(Clone, Debug)]
pub enum IoError {
    FileNotFound { path: String, operation: String },
    PermissionDenied { path: String, operation: String },
    OperationFailed { path: String, operation: String, message: String },
}

/// Reporting errors.
#[derive(Clone, Debug)]
pub enum ReportingError {
    GenerationFailed { format: String, message: String, output_path: Option<String> },
    TemplateError { template: String, message: String, line_number: Option<u32> },
}

/// Network errors.
#[derive(Clone, Debug)]
pub enum NetworkError {
    ConnectionTimeout { endpoint: String, timeout_ms: u64 },
    DnsResolutionFailed { hostname: String, error_message: String },
}

/// Performance errors.
#[derive(Clone, Debug)]
pub enum PerformanceError {
    OperationTooSlow { operation: String, duration_ms: u64, limit_ms: u64 },
    MemoryExceeded { usage_mb: u64, limit_mb: u64, operation: String },
}

/// Security errors.
#[derive(Clone, Debug)]
pub enum SecurityError {
    AccessDenied { resource: String, message: String, required_permission: String },
    PolicyViolation { policy: String, message: String, violation_type: String },
}

/// A signed number in decimal.
pub open spec fn signed_decimal(x: int) -> Seq<char> {
    if x < 0 {
        "-"@ + decimal((-x) as nat)
    } else {
        decimal(x as nat)
    }
}

fn push_i32(s: &mut String, x: i32)
    ensures
        final(s)@ == old(s)@ + signed_decimal(x as int),
{
    if x < 0 {
        push_str(s, "-");
        proof {
            reveal_strlit("-");
        }
        let m: i64 = -(x as i64);
        let d = u64_to_string(m as u64);
        push_str(s, d.as_str());
    } else {
        let d = u64_to_string(x as u64);
        push_str(s, d.as_str());
    }
}

fn push_u64(s: &mut String, x: u64)
    ensures
        final(s)@ == old(s)@ + decimal(x as nat),
{
    let d = u64_to_string(x);
    push_str(s, d.as_str());
}

/// How a client error reads.
pub open spec fn client_error_text(e: McpClientError) -> Seq<char> {
    match e {
        McpClientError::ConnectionFailed { server_name, message, .. } => "Connection failed: "@
            + message@ + " (server: "@ + server_name@ + ")"@,
        McpClientError::ProtocolViolation { method, message, .. } => "Protocol violation: "@
            + message@ + " (method: "@ + method@ + ")"@,
        McpClientError::RequestTimeout { method, duration_ms, timeout_ms, .. } => "Request timeout: "@
            + method@ + " took "@ + decimal(duration_ms as nat) + "ms (limit: "@ + decimal(
            timeout_ms as nat,
        ) + "ms)"@,
        McpClientError::ServerError { code, error, .. } => "Server error: "@ + error@ + " (code: "@
            + signed_decimal(code as int) + ")"@,
        McpClientError::TransportError { message, .. } => "Transport error: "@ + message@,
        McpClientError::AuthenticationError { message, .. } => "Authentication error: "@ + message@,
    }
}

/// How a test execution error reads.
pub open spec fn execution_error_text(e: TestExecutionError) -> Seq<char> {
    match e {
        TestExecutionError::SetupFailed { test_name, message, .. } => "Test setup failed: "@
            + message@ + " (test: "@ + test_name@ + ")"@,
        TestExecutionError::AssertionFailed { test_name, step, message, .. } =>
            "Test assertion failed: "@ + message@ + " (test: "@ + test_name@ + ", step: "@ + decimal(
            step as nat,
        ) + ")"@,
        TestExecutionError::TestTimeout { test_name, timeout_seconds, .. } => "Test timeout: "@
            + test_name@ + " exceeded "@ + decimal(timeout_seconds as nat) + "s"@,
        TestExecutionError::DependencyFailed { test_name, dependency, .. } =>
            "Test dependency failed: "@ + test_name@ + " depends on "@ + dependency@,
        TestExecutionError::ScriptExecutionFailed { test_name, message, .. } =>
            "Script execution failed: "@ + message@ + " (test: "@ + test_name@ + ")"@,
    }
}

/// How a validation error reads.
pub open spec fn validation_error_text(e: ValidationError) -> Seq<char> {
    match e {
        ValidationError::SchemaValidation { path, message, .. } => "Schema validation failed: "@
            + message@ + " (path: "@ + path@ + ")"@,
        ValidationError::JsonPathValidation { path, message, .. } =>
            "JSONPath validation failed: "@ + message@ + " (path: "@ + path@ + ")"@,
        ValidationError::ResponseFormat { message, .. } => "Response format invalid: "@ + message@,
    }
}

impl McpClientError {
    /// How the error reads.
    pub fn to_string(&self) -> (r: String)
        ensures
            r@ == client_error_text(*self),
    {
        let mut s = String::new();
        match self {
            McpClientError::ConnectionFailed { server_name, message, .. } => {
                push_str(&mut s, "Connection failed: ");
                push_str(&mut s, message.as_str());
                push_str(&mut s, " (server: ");
                push_str(&mut s, server_name.as_str());
                push_str(&mut s, ")");
            },
            McpClientError::ProtocolViolation { method, message, .. } => {
                push_str(&mut s, "Protocol violation: ");
                push_str(&mut s, message.as_str());
                push_str(&mut s, " (method: ");
                push_str(&mut s, method.as_str());
                push_str(&mut s, ")");
            },
            McpClientError::RequestTimeout { method, duration_ms, timeout_ms, .. } => {
                push_str(&mut s, "Request timeout: ");
                push_str(&mut s, method.as_str());
                push_str(&mut s, " took ");
                push_u64(&mut s, *duration_ms);
                push_str(&mut s, "ms (limit: ");
                push_u64(&mut s, *timeout_ms);
                push_str(&mut s, "ms)");
            },
            McpClientError::ServerError { code, error, .. } => {
                push_str(&mut s, "Server error: ");
                push_str(&mut s, error.as_str());
                push_str(&mut s, " (code: ");
                push_i32(&mut s, *code);
                push_str(&mut s, ")");
            },
            McpClientError::TransportError { message, .. } => {
                push_str(&mut s, "Transport error: ");
                push_str(&mut s, message.as_str());
            },
            McpClientError::AuthenticationError { message, .. } => {
                push_str(&mut s, "Authentication error: ");
                push_str(&mut s, message.as_str());
            },
        }
        assert(s@ =~= client_error_text(*self));
        s
    }
}

impl TestExecutionError {
    /// How the error reads.
    pub fn to_string(&self) -> (r: String)
        ensures
            r@ == execution_error_text(*self),
    {
        let mut s = String::new();
        match self {
            TestExecutionError::SetupFailed { test_name, message, .. } => {
                push_str(&mut s, "Test setup failed: ");
                push_str(&mut s, message.as_str());
                push_str(&mut s, " (test: ");
                push_str(&mut s, test_name.as_str());
                push_str(&mut s, ")");
            },
            TestExecutionError::AssertionFailed { test_name, step, message, .. } => {
                push_str(&mut s, "Test assertion failed: ");
                push_str(&mut s, message.as_str());
                push_str(&mut s, " (test: ");
                push_str(&mut s, test_name.as_str());
                push_str(&mut s, ", step: ");
                push_u64(&mut s, *step as u64);
                push_str(&mut s, ")");
            },
            TestExecutionError::TestTimeout { test_name, timeout_seconds, .. } => {
                push_str(&mut s, "Test timeout: ");
                push_str(&mut s, test_name.as_str());
                push_str(&mut s, " exceeded ");
                push_u64(&mut s, *timeout_seconds);
                push_str(&mut s, "s");
            },
            TestExecutionError::DependencyFailed { test_name, dependency, .. } => {
                push_str(&mut s, "Test dependency failed: ");
                push_str(&mut s, test_name.as_str());
                push_str(&mut s, " depends on ");
                push_str(&mut s, dependency.as_str());
            },
            TestExecutionError::ScriptExecutionFailed { test_name, message, .. } => {
                push_str(&mut s, "Script execution failed: ");
                push_str(&mut s, message.as_str());
                push_str(&mut s, " (test: ");
                push_str(&mut s, test_name.as_str());
                push_str(&mut s, ")");
            },
        }
        assert(s@ =~= execution_error_text(*self));
        s
    }
}

impl ValidationError {
    /// How the error reads.
    pub fn to_string(&self) -> (r: String)
        ensures
            r@ == validation_error_text(*self),
    {
        let mut s = String::new();
        match self {
            ValidationError::SchemaValidation { path, message, .. } => {
                push_str(&mut s, "Schema validation failed: ");
                push_str(&mut s, message.as_str());
                push_str(&mut s, " (path: ");
                push_str(&mut s, path.as_str());
                push_str(&mut s, ")");
            },
            ValidationError::JsonPathValidation { path, message, .. } => {
                push_str(&mut s, "JSONPath validation failed: ");
                push_str(&mut s, message.as_str());
                push_str(&mut s, " (path: ");
                push_str(&mut s, path.as_str());
                push_str(&mut s, ")");
            },
            ValidationError::ResponseFormat { message, .. } => {
                push_str(&mut s, "Response format invalid: ");
                push_str(&mut s, message.as_str());
            },
        }
        assert(s@ =~= validation_error_text(*self));
        s
    }
}

impl From<McpClientError> for TestHarnessError {
    fn from(e: McpClientError) -> (r: Self)
        ensures
            r == TestHarnessError::Client(e),
    {
        TestHarnessError::Client(e)
    }
}

impl vstd::std_specs::convert::FromSpecImpl<McpClientError> for TestHarnessError {
    open spec fn obeys_from_spec() -> bool {
        true
    }

    open spec fn from_spec(e: McpClientError) -> Self {
        TestHarnessError::Client(e)
    }
}

impl From<TestExecutionError> for TestHarnessError {
    fn from(e: TestExecutionError) -> (r: Self)
        ensures
            r == TestHarnessError::Execution(e),
    {
        TestHarnessError::Execution(e)
    }
}

impl vstd::std_specs::convert::FromSpecImpl<TestExecutionError> for TestHarnessError {
    open spec fn obeys_from_spec() -> bool {
        true
    }

    open spec fn from_spec(e: TestExecutionError) -> Self {
        TestHarnessError::Execution(e)
    }
}

impl From<ValidationError> for TestHarnessError {
    fn from(e: ValidationError) -> (r: Self)
        ensures
            r == TestHarnessError::Validation(e),
    {
        TestHarnessError::Validation(e)
    }
}

impl vstd::std_specs::convert::FromSpecImpl<ValidationError> for TestHarnessError {
    open spec fn obeys_from_spec() -> bool {
        true
    }

    open spec fn from_spec(e: ValidationError) -> Self {
        TestHarnessError::Validation(e)
    }
}

/// Context of an error: the test, server and operation it concerns, trace
/// identifiers, user data, and when it happened (milliseconds since the
/// Unix epoch).
#[derive(Clone, Debug)]
pub struct ErrorContext {
    pub test_name: Option<String>,
    pub server_name: Option<String>,
    pub operation: String,
    pub span_id: Option<String>,
    pub trace_id: Option<String>,
    /// User data, as (key, value) pairs; a later value replaces an earlier
    /// one of the same key
    pub user_data: Vec<(String, serde_json::Value)>,
    pub timestamp_ms: i64,
}

impl ErrorContext {
    /// A context for an operation, stamped with the current time.
    pub fn new(operation: &str) -> (r: Self)
        ensures
            r.operation@ == operation@,
            r.test_name is None,
            r.server_name is None,
            r.span_id is None,
            r.trace_id is None,
            r.user_data@.len() == 0,
    {
        ErrorContext {
            test_name: None,
            server_name: None,
            operation: operation.to_string(),
            span_id: None,
            trace_id: None,
            user_data: Vec::new(),
            timestamp_ms: now_millis(),
        }
    }

    /// The same context for a test.
    pub fn with_test(self, test_name: &str) -> (r: Self)
        ensures
            r.test_name matches Some(t) && t@ == test_name@,
            r.server_name == self.server_name,
            r.operation == self.operation,
            r.span_id == self.span_id,
            r.trace_id == self.trace_id,
            r.user_data == self.user_data,
            r.timestamp_ms == self.timestamp_ms,
    {
        ErrorContext { test_name: Some(test_name.to_string()), ..self }
    }

    /// The same context for a server.
    pub fn with_server(self, server_name: &str) -> (r: Self)
        ensures
            r.server_name matches Some(t) && t@ == server_name@,
            r.test_name == self.test_name,
            r.operation == self.operation,
            r.span_id == self.span_id,
            r.trace_id == self.trace_id,
            r.user_data == self.user_data,
            r.timestamp_ms == self.timestamp_ms,
    {
        ErrorContext { server_name: Some(server_name.to_string()), ..self }
    }

    /// The same context within a span.
    pub fn with_span_id(self, span_id: &str) -> (r: Self)
        ensures
            r.span_id matches Some(t) && t@ == span_id@,
            r.test_name == self.test_name,
            r.server_name == self.server_name,
            r.operation == self.operation,
            r.trace_id == self.trace_id,
            r.user_data == self.user_data,
            r.timestamp_ms == self.timestamp_ms,
    {
        ErrorContext { span_id: Some(span_id.to_string()), ..self }
    }

    /// The same context within a trace.
    pub fn with_trace_id(self, trace_id: &str) -> (r: Self)
        ensures
            r.trace_id matches Some(t) && t@ == trace_id@,
            r.test_name == self.test_name,
            r.server_name == self.server_name,
            r.operation == self.operation,
            r.span_id == self.span_id,
            r.user_data == self.user_data,
            r.timestamp_ms == self.timestamp_ms,
    {
        ErrorContext { trace_id: Some(trace_id.to_string()), ..self }
    }

    /// The user data value of a key, if any.
    pub open spec fn data_of(&self, key: Seq<char>) -> Option<serde_json::Value> {
        data_value(self.user_data@, key)
    }

    /// Adds user data under a key, replacing what the key held.
    pub fn add_data(&mut self, key: String, value: serde_json::Value)
        ensures
            final(self).data_of(key@) == Some(value),
            forall|k: Seq<char>| k != key@ ==> #[trigger] final(self).data_of(k) == old(self).data_of(k),
            final(self).test_name == old(self).test_name,
            final(self).operation == old(self).operation,
    {
        let ghost before = self.user_data@;
        self.user_data.push((key, value));
        assert(self.user_data@.drop_last() =~= before);
    }
}

/// The last value stored under `key`.
pub open spec fn data_value(d: Seq<(String, serde_json::Value)>, key: Seq<char>) -> Option<
    serde_json::Value,
>
    decreases d.len(),
{
    if d.len() == 0 {
        None
    } else if d.last().0@ == key {
        Some(d.last().1)
    } else {
        data_value(d.drop_last(), key)
    }
}

} // verus!
