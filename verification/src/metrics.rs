//! Error analysis: grouping errors into patterns with a description and a
//! suggested fix, counting errors by category, test and server, recovery
//! attempts, and the trend of each category between the last two hours.
//! Times are milliseconds since the Unix epoch.

use crate::counts::NamedCounts;
use crate::errors::{
    now_millis, ErrorContext, McpClientError, NetworkError, TestHarnessError, ValidationError,
};
use crate::logging::{categorize_error, error_category};
use vstd::prelude::*;

verus! {

/// Direction of an error trend.
#[derive(Clone, Copy, Debug, PartialEq, Eq, Structural)]
pub enum TrendDirection {
    Increasing,
    Decreasing,
    Stable,
}

/// Priority of a recommendation.
#[derive(Clone, Copy, Debug, PartialEq, Eq, Structural)]
pub enum RecommendationPriority {
    High,
    Medium,
    Low,
}

/// An error improvement recommendation.
#[derive(Clone, Debug)]
pub struct ErrorRecommendation {
    pub priority: RecommendationPriority,
    pub category: String,
    pub title: String,
    pub description: String,
    pub action: String,
    pub estimated_impact: String,
}

/// Distributed trace information of an error.
#[derive(Clone, Debug)]
pub struct TraceInfo {
    pub trace_id: Option<String>,
    pub span_id: Option<String>,
    pub parent_span_id: Option<String>,
    /// Baggage items, as (key, value) pairs
    pub baggage: Vec<(String, String)>,
    pub sampled: bool,
}

/// The key under which similar errors are grouped.
pub open spec fn pattern_key_of(e: TestHarnessError) -> Seq<char> {
    match e {
        TestHarnessError::Client(c) => match c {
            McpClientError::ConnectionFailed { .. } => "client_connection_failed"@,
            McpClientError::ProtocolViolation { .. } => "client_protocol_violation"@,
            McpClientError::RequestTimeout { .. } => "client_request_timeout"@,
            McpClientError::ServerError { .. } => "client_server_error"@,
            McpClientError::TransportError { .. } => "client_transport_error"@,
            McpClientError::AuthenticationError { .. } => "client_authentication_error"@,
        },
        TestHarnessError::Network(n) => match n {
            NetworkError::ConnectionTimeout { .. } => "network_connection_timeout"@,
            NetworkError::DnsResolutionFailed { .. } => "network_dns_resolution_failed"@,
        },
        TestHarnessError::Validation(v) => match v {
            ValidationError::SchemaValidation { .. } => "validation_schema_validation"@,
            ValidationError::JsonPathValidation { .. } => "validation_jsonpath_validation"@,
            ValidationError::ResponseFormat { .. } => "validation_response_format"@,
        },
        TestHarnessError::Execution(_) => "execution"@,
        TestHarnessError::Configuration(_) => "configuration"@,
        TestHarnessError::Io(_) => "io"@,
        TestHarnessError::Reporting(_) => "reporting"@,
        TestHarnessError::Performance(_) => "performance"@,
        TestHarnessError::Security(_) => "security"@,
    }
}

/// The key under which similar errors are grouped: the kind of error and,
/// for client, network and validation errors, its variant.
pub fn generate_pattern_key(error: &TestHarnessError) -> (r: &'static str)
    ensures
        r@ == pattern_key_of(*error),
{
    match error {
        TestHarnessError::Client(c) => match c {
            McpClientError::ConnectionFailed { .. } => "client_connection_failed",
            McpClientError::ProtocolViolation { .. } => "client_protocol_violation",
            McpClientError::RequestTimeout { .. } => "client_request_timeout",
            McpClientError::ServerError { .. } => "client_server_error",
            McpClientError::TransportError { .. } => "client_transport_error",
            McpClientError::AuthenticationError { .. } => "client_authentication_error",
        },
        TestHarnessError::Network(n) => match n {
            NetworkError::ConnectionTimeout { .. } => "network_connection_timeout",
            NetworkError::DnsResolutionFailed { .. } => "network_dns_resolution_failed",
        },
        TestHarnessError::Validation(v) => match v {
            ValidationError::SchemaValidation { .. } => "validation_schema_validation",
            ValidationError::JsonPathValidation { .. } => "validation_jsonpath_validation",
            ValidationError::ResponseFormat { .. } => "validation_response_format",
        },
        TestHarnessError::Execution(_) => "execution",
        TestHarnessError::Configuration(_) => "configuration",
        TestHarnessError::Io(_) => "io",
        TestHarnessError::Reporting(_) => "reporting",
        TestHarnessError::Performance(_) => "performance",
        TestHarnessError::Security(_) => "security",
    }
}

/// The description of an error pattern.
pub open spec fn pattern_description_of(e: TestHarnessError) -> Seq<char> {
    match e {
        TestHarnessError::Client(_) => "MCP client connection or communication issues"@,
        TestHarnessError::Network(_) => "Network connectivity or timeout problems"@,
        TestHarnessError::Validation(_) => "Response validation or schema compliance failures"@,
        TestHarnessError::Execution(_) => "Test execution failures or assertion errors"@,
        TestHarnessError::Configuration(_) => "Configuration or setup issues"@,
        TestHarnessError::Io(_) => "File system or I/O operation failures"@,
        TestHarnessError::Reporting(_) => "Report generation or output issues"@,
        TestHarnessError::Performance(_) => "Performance threshold violations or timeouts"@,
        TestHarnessError::Security(_) => "Security policy violations or access issues"@,
    }
}

/// A human-readable description of the pattern an error belongs to.
pub fn generate_pattern_description(error: &TestHarnessError) -> (r: &'static str)
    ensures
        r@ == pattern_description_of(*error),
{
    match error {
        TestHarnessError::Client(_) => "MCP client connection or communication issues",
        TestHarnessError::Network(_) => "Network connectivity or timeout problems",
        TestHarnessError::Validation(_) => "Response validation or schema compliance failures",
        TestHarnessError::Execution(_) => "Test execution failures or assertion errors",
        TestHarnessError::Configuration(_) => "Configuration or setup issues",
        TestHarnessError::Io(_) => "File system or I/O operation failures",
        TestHarnessError::Reporting(_) => "Report generation or output issues",
        TestHarnessError::Performance(_) => "Performance threshold violations or timeouts",
        TestHarnessError::Security(_) => "Security policy violations or access issues",
    }
}

/// The fix suggested for an error, if any.
pub open spec fn fix_of(e: TestHarnessError) -> Option<Seq<char>> {
    match e {
        TestHarnessError::Client(_) => Some("Check MCP server connectivity and configuration"@),
        TestHarnessError::Network(_) => Some(
            "Verify network connectivity and increase timeout values"@,
        ),
        TestHarnessError::Validation(_) => Some("Review response schema and validation rules"@),
        TestHarnessError::Execution(_) => Some("Check test logic and expected outcomes"@),
        TestHarnessError::Configuration(_) => Some(
            "Verify configuration file format and required fields"@,
        ),
        TestHarnessError::Performance(_) => Some(
            "Optimize operations or increase performance thresholds"@,
        ),
        _ => None,
    }
}

/// The fix suggested for common errors; I/O, reporting and security
/// errors get none.
pub fn suggest_fix(error: &TestHarnessError) -> (r: Option<&'static str>)
    ensures
        match fix_of(*error) {
            Some(f) => r matches Some(s) && s@ == f,
            None => r is None,
        },
{
    match error {
        TestHarnessError::Client(_) => Some("Check MCP server connectivity and configuration"),
        TestHarnessError::Network(_) => Some(
            "Verify network connectivity and increase timeout values",
        ),
        TestHarnessError::Validation(_) => Some("Review response schema and validation rules"),
        TestHarnessError::Execution(_) => Some("Check test logic and expected outcomes"),
        TestHarnessError::Configuration(_) => Some(
            "Verify configuration file format and required fields",
        ),
        TestHarnessError::Performance(_) => Some(
            "Optimize operations or increase performance thresholds",
        ),
        _ => None,
    }
}

/// The trend of a count from the previous window to the current one.
pub fn trend_direction(current: u64, previous: u64) -> (r: TrendDirection)
    ensures
        r == (if current > previous {
            TrendDirection::Increasing
        } else if current < previous {
            TrendDirection::Decreasing
        } else {
            TrendDirection::Stable
        }),
{
    if current > previous {
        TrendDirection::Increasing
    } else if current < previous {
        TrendDirection::Decreasing
    } else {
        TrendDirection::Stable
    }
}

/// An analyzed error event: when it happened (milliseconds since the Unix
/// epoch), the error, its context, and what recovery made of it.
#[derive(Clone, Debug)]
pub struct AnalyzedEvent {
    pub timestamp_ms: i64,
    pub error: TestHarnessError,
    pub context: ErrorContext,
    pub recovery_attempted: bool,
    pub recovery_successful: bool,
}

/// The trends of the errors recorded.
pub struct ErrorTrends {
    pub hourly_error_counts: Vec<crate::buckets::BucketCount>,
    pub daily_error_counts: Vec<crate::buckets::BucketCount>,
    pub error_patterns: Vec<crate::patterns::ErrorPattern>,
    pub trending_errors: Vec<crate::trends::TrendingError>,
}

/// Error counts of an analysis.
pub struct ErrorMetrics {
    pub total_errors: u64,
    pub errors_by_category: NamedCounts,
    pub errors_by_test: NamedCounts,
    pub errors_by_server: NamedCounts,
    pub recovery_attempts: u64,
    pub successful_recoveries: u64,
}

/// The error analyzer: the events recorded and their counts.
pub struct ErrorAnalyzer {
    events: Vec<AnalyzedEvent>,
    metrics: ErrorMetrics,
}

/// The number of events whose recovery was attempted (and, if `success`,
/// succeeded).
pub open spec fn recoveries(s: Seq<AnalyzedEvent>, success: bool) -> nat
    decreases s.len(),
{
    if s.len() == 0 {
        0
    } else {
        recoveries(s.drop_last(), success) + if s.last().recovery_attempted && (!success
            || s.last().recovery_successful) {
            1nat
        } else {
            0nat
        }
    }
}

impl ErrorAnalyzer {
    pub closed spec fn events(&self) -> Seq<AnalyzedEvent> {
        self.events@
    }

    pub closed spec fn metrics(&self) -> &ErrorMetrics {
        &self.metrics
    }

    /// The counts agree with the events.
    pub open spec fn wf(&self) -> bool {
        &&& self.metrics().errors_by_category.wf()
        &&& self.metrics().errors_by_test.wf()
        &&& self.metrics().errors_by_server.wf()
        &&& self.metrics().total_errors == self.events().len()
        &&& forall|c: Seq<char>| #[trigger] self.metrics().errors_by_category.count(c) <= self.metrics().total_errors
        &&& forall|c: Seq<char>| #[trigger] self.metrics().errors_by_test.count(c) <= self.metrics().total_errors
        &&& forall|c: Seq<char>| #[trigger] self.metrics().errors_by_server.count(c) <= self.metrics().total_errors
        &&& self.metrics().recovery_attempts == recoveries(self.events(), false)
        &&& self.metrics().successful_recoveries == recoveries(self.events(), true)
    }

    /// No events, and nothing counted.
    pub fn new() -> (r: Self)
        ensures
            r.wf(),
            r.events().len() == 0,
            r.metrics().total_errors == 0,
            r.metrics().errors_by_category.entries().len() == 0,
            r.metrics().errors_by_test.entries().len() == 0,
            r.metrics().errors_by_server.entries().len() == 0,
            r.metrics().recovery_attempts == 0,
            r.metrics().successful_recoveries == 0,
    {
        ErrorAnalyzer {
            events: Vec::new(),
            metrics: ErrorMetrics {
                total_errors: 0,
                errors_by_category: NamedCounts::new(),
                errors_by_test: NamedCounts::new(),
                errors_by_server: NamedCounts::new(),
                recovery_attempts: 0,
                successful_recoveries: 0,
            },
        }
    }

    /// Records an error with its context, stamped with the current time: it
    /// is counted in the total, under its category, and under the test and
    /// server of its context.
    pub fn record_error(&mut self, error: TestHarnessError, context: ErrorContext)
        requires
            old(self).wf(),
            old(self).events().len() < u64::MAX,
        ensures
            final(self).wf(),
            final(self).events().len() == old(self).events().len() + 1,
            final(self).events().drop_last() == old(self).events(),
            final(self).events().last().error == error,
            final(self).events().last().context == context,
            !final(self).events().last().recovery_attempted,
            final(self).metrics().errors_by_category.count(error_category(error)) == old(
                self).metrics().errors_by_category.count(error_category(error)) + 1,
            forall|c: Seq<char>|
                c != error_category(error) ==> #[trigger] final(self).metrics().errors_by_category.count(c)
                    == old(self).metrics().errors_by_category.count(c),
            match context.test_name {
                Some(t) => final(self).metrics().errors_by_test.count(t@) == old(self).metrics().errors_by_test.count(t@) + 1,
                None => final(self).metrics().errors_by_test.entries() == old(self).metrics().errors_by_test.entries(),
            },
            match context.server_name {
                Some(t) => final(self).metrics().errors_by_server.count(t@) == old(self).metrics().errors_by_server.count(t@) + 1,
                None => final(self).metrics().errors_by_server.entries() == old(self).metrics().errors_by_server.entries(),
            },
    {
        let ghost old_events = self.events@;
        self.metrics.total_errors = self.metrics.total_errors + 1;
        let category = categorize_error(&error);
        self.metrics.errors_by_category.increment(category);
        if let Some(t) = &context.test_name {
            self.metrics.errors_by_test.increment(t.as_str());
        }
        if let Some(s) = &context.server_name {
            self.metrics.errors_by_server.increment(s.as_str());
        }
        let event = AnalyzedEvent {
            timestamp_ms: now_millis(),
            error,
            context,
            recovery_attempted: false,
            recovery_successful: false,
        };
        self.events.push(event);
        assert(self.events@.drop_last() =~= old_events);
    }

    /// Records a recovery attempt on the latest event, and whether it
    /// succeeded; without events nothing changes.
    pub fn record_recovery_attempt(&mut self, successful: bool)
        requires
            old(self).wf(),
        ensures
            final(self).wf(),
            final(self).events().len() == old(self).events().len(),
            old(self).events().len() > 0 ==> {
                &&& final(self).events().last().recovery_attempted
                &&& final(self).events().last().recovery_successful == successful
                &&& final(self).events().drop_last() == old(self).events().drop_last()
            },
            old(self).events().len() == 0 ==> final(self).events() == old(self).events(),
    {
        let n = self.events.len();
        if n == 0 {
            return;
        }
        let ghost before = self.events@;
        let mut e = self.events.pop().unwrap();
        let was_attempted = e.recovery_attempted;
        let was_successful = e.recovery_successful;
        e.recovery_attempted = true;
        e.recovery_successful = successful;
        self.events.push(e);
        proof {
            assert(self.events@.drop_last() =~= before.drop_last());
        }
        let ghost rest = before.drop_last();
        assert(recoveries(before, false) == recoveries(rest, false) + if was_attempted {
            1nat
        } else {
            0nat
        });
        assert(recoveries(before, true) == recoveries(rest, true) + if was_attempted
            && was_successful {
            1nat
        } else {
            0nat
        });
        assert(recoveries(self.events@, false) == recoveries(rest, false) + 1);
        assert(recoveries(self.events@, true) == recoveries(rest, true) + if successful {
            1nat
        } else {
            0nat
        });
        proof {
            lemma_recoveries_bound(rest);
        }
        if !was_attempted {
            self.metrics.recovery_attempts = self.metrics.recovery_attempts + 1;
        }
        if was_attempted && was_successful && !successful {
            self.metrics.successful_recoveries = self.metrics.successful_recoveries - 1;
        } else if !(was_attempted && was_successful) && successful {
            self.metrics.successful_recoveries = self.metrics.successful_recoveries + 1;
        }
    }

    /// The error counts.
    pub fn get_metrics(&self) -> (r: &ErrorMetrics)
        ensures
            r == self.metrics(),
    {
        &self.metrics
    }

    /// How many events were recorded.
    pub fn event_count(&self) -> (r: usize)
        ensures
            r == self.events().len(),
    {
        self.events.len()
    }

    /// The error patterns among the recorded events: each pattern key seen
    /// at least twice, most frequent first.
    pub fn identify_error_patterns(&self) -> (r: Vec<crate::patterns::ErrorPattern>)
        requires
            self.wf(),
        ensures
            crate::patterns::patterns_of(self.events(), r@),
    {
        crate::patterns::identify_error_patterns(&self.events)
    }

    /// The trending errors of the recorded events at `now_ms` (milliseconds
    /// since the Unix epoch).
    pub fn trending_at(&self, now_ms: i64) -> (r: Vec<crate::trends::TrendingError>)
        requires
            self.wf(),
        ensures
            crate::trends::trending_of(self.events(), now_ms, r@),
    {
        crate::trends::calculate_trending_errors(&self.events, now_ms)
    }

    /// The trending errors of the recorded events now, by the clock.
    pub fn calculate_trending_errors(&self) -> (r: Vec<crate::trends::TrendingError>)
        requires
            self.wf(),
        ensures
            exists|now: i64| crate::trends::trending_of(self.events(), now, r@),
    {
        let now = now_millis();
        self.trending_at(now)
    }

    /// The error counts of the recorded events per hour, in time order.
    pub fn calculate_hourly_error_counts(&self) -> (r: Vec<crate::buckets::BucketCount>)
        requires
            self.wf(),
        ensures
            crate::buckets::buckets_of(self.events(), true, r@),
    {
        crate::buckets::error_counts_by_bucket(&self.events, true)
    }

    /// The error counts of the recorded events per day, in time order.
    pub fn calculate_daily_error_counts(&self) -> (r: Vec<crate::buckets::BucketCount>)
        requires
            self.wf(),
        ensures
            crate::buckets::buckets_of(self.events(), false, r@),
    {
        crate::buckets::error_counts_by_bucket(&self.events, false)
    }

    /// The trends of the recorded events: counts per hour and per day,
    /// patterns, and the errors trending now.
    pub fn analyze_trends(&self) -> (r: ErrorTrends)
        requires
            self.wf(),
        ensures
            crate::buckets::buckets_of(self.events(), true, r.hourly_error_counts@),
            crate::buckets::buckets_of(self.events(), false, r.daily_error_counts@),
            crate::patterns::patterns_of(self.events(), r.error_patterns@),
            exists|now: i64| #[trigger] crate::trends::trending_of(self.events(), now, r.trending_errors@),
    {
        let now = now_millis();
        let trending_errors = self.trending_at(now);
        let r = ErrorTrends {
            hourly_error_counts: self.calculate_hourly_error_counts(),
            daily_error_counts: self.calculate_daily_error_counts(),
            error_patterns: self.identify_error_patterns(),
            trending_errors,
        };
        assert(crate::trends::trending_of(self.events(), now, r.trending_errors@));
        r
    }

    /// The category with the most errors, if any.
    pub fn find_most_frequent_error(&self) -> (r: Option<String>)
        requires
            self.wf(),
        ensures
            match r {
                Some(n) => self.metrics().errors_by_category.has(n@) && forall|m: Seq<char>|
                    self.metrics().errors_by_category.has(m) ==> #[trigger] self.metrics().errors_by_category.count(m)
                        <= self.metrics().errors_by_category.count(n@),
                None => forall|m: Seq<char>| !self.metrics().errors_by_category.has(m),
            },
    {
        self.metrics.errors_by_category.most_common()
    }

    /// The test with the most errors, with its count, if any.
    pub fn find_most_problematic_test(&self) -> (r: Option<(String, u64)>)
        requires
            self.wf(),
        ensures
            match r {
                Some((n, c)) => self.metrics().errors_by_test.has(n@) && c
                    == self.metrics().errors_by_test.count(n@) && forall|m: Seq<char>|
                    self.metrics().errors_by_test.has(m) ==> #[trigger] self.metrics().errors_by_test.count(m)
                        <= c,
                None => forall|m: Seq<char>| !self.metrics().errors_by_test.has(m),
            },
    {
        match self.metrics.errors_by_test.most_common() {
            Some(n) => {
                let c = self.metrics.errors_by_test.get(n.as_str());
                Some((n, c))
            },
            None => None,
        }
    }

    /// The number of recovery attempts and of successful ones.
    pub fn recovery_counts(&self) -> (r: (u64, u64))
        requires
            self.wf(),
        ensures
            r.0 == recoveries(self.events(), false),
            r.1 == recoveries(self.events(), true),
    {
        (self.metrics.recovery_attempts, self.metrics.successful_recoveries)
    }
}

/// Successful recoveries never outnumber attempts, and attempts never
/// outnumber events.
pub proof fn lemma_recoveries_bound(s: Seq<AnalyzedEvent>)
    ensures
        recoveries(s, true) <= recoveries(s, false),
        recoveries(s, false) <= s.len(),
    decreases s.len(),
{
    if s.len() > 0 {
        lemma_recoveries_bound(s.drop_last());
    }
}

} // verus!
