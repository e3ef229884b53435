//! Test execution bookkeeping: test configuration and cases, results and
//! their statuses, progress tracking, suite summaries, test filtering,
//! result validation and the retry decision after each attempt.
//! Durations are milliseconds; times are milliseconds since the Unix epoch.

use crate::errors::now_millis;
use crate::recovery::instant_now;
use crate::text::{contains_seq, decimal, push_str, str_contains, usize_to_string};
use std::time::Instant;
use vstd::prelude::*;

verus! {


/// The compact JSON text of a value, as `serde_json::Value` displays it.
pub uninterp spec fn json_text_of(v: serde_json::Value) -> Seq<char>;

/// Serializes a JSON value with `serde_json::Value::to_string`.  The
/// contract claims that the text is a function of the value alone, named
/// `json_text_of`; the serialization is not written out.
#[verifier::external_body]
fn json_text(v: &serde_json::Value) -> (r: String)
    ensures
        r@ == json_text_of(*v),
{
    v.to_string()
}

/// Configuration for test execution behavior.
#[derive(Clone, Debug)]
pub struct TestConfig {
    /// Maximum number of concurrent tests
    pub max_concurrency: usize,
    /// Stop execution on first failure
    pub fail_fast: bool,
    /// Test filter pattern
    pub filter: Option<String>,
    /// Timeout for individual tests, in milliseconds
    pub test_timeout_ms: u64,
    /// Timeout for server startup, in milliseconds
    pub server_timeout_ms: u64,
    /// Number of retry attempts for failed tests
    pub retry_attempts: u32,
}

impl TestConfig {
    /// Four concurrent tests, no fail-fast, no filter, thirty seconds per
    /// test, ten seconds for server startup, two retries.
    pub fn default() -> (r: Self)
        ensures
            r.max_concurrency == 4,
            !r.fail_fast,
            r.filter is None,
            r.test_timeout_ms == 30000,
            r.server_timeout_ms == 10000,
            r.retry_attempts == 2,
    {
        TestConfig {
            max_concurrency: 4,
            fail_fast: false,
            filter: None,
            test_timeout_ms: 30000,
            server_timeout_ms: 10000,
            retry_attempts: 2,
        }
    }
}

/// Different types of tests that can be executed.
#[derive(Clone, Debug)]
pub enum TestType {
    /// Test tool functionality
    ToolCall { tool_name: String },
    /// Test resource access
    ResourceRead { resource_uri: String },
    /// Test server capabilities
    CapabilityCheck,
    /// Test connection health
    HealthCheck,
}

/// Performance expectations for tests.
#[derive(Clone, Copy, Debug)]
pub struct PerformanceExpectation {
    /// Maximum allowed response time, in milliseconds
    pub max_response_time_ms: u64,
    /// Expected memory usage limits
    pub max_memory_usage: Option<u64>,
}

/// Expected test results for validation.
#[derive(Clone, Debug)]
pub struct ExpectedResult {
    /// Whether the test should succeed or fail
    pub should_succeed: bool,
    /// Expected response content patterns
    pub content_patterns: Vec<String>,
    /// Performance expectations
    pub performance: Option<PerformanceExpectation>,
}

/// Individual test case definition.
#[derive(Clone, Debug)]
pub struct TestCase {
    pub name: String,
    pub description: Option<String>,
    pub test_type: TestType,
    pub parameters: serde_json::Value,
    pub expected: ExpectedResult,
    /// Test-specific timeout, in milliseconds
    pub timeout_ms: Option<u64>,
    pub retry_attempts: Option<u32>,
}

/// Test execution status.
#[derive(Clone, Copy, Debug, PartialEq, Eq, Structural)]
pub enum TestStatus {
    /// Test passed all validations
    Passed,
    /// Test failed validation or execution
    Failed,
    /// Test was skipped due to filter or dependency
    Skipped,
    /// Test execution timed out
    Timeout,
    /// Test encountered an error during execution
    Error,
}

/// Failed, errored and timed-out tests count as failures.
pub open spec fn is_failure(s: TestStatus) -> bool {
    s == TestStatus::Failed || s == TestStatus::Error || s == TestStatus::Timeout
}

/// Performance metrics collected during test execution.
#[derive(Clone, Copy, Debug, PartialEq, Eq, Structural)]
pub struct PerformanceMetrics {
    /// Response time in milliseconds
    pub response_time_ms: u64,
    /// Memory usage during test (if available)
    pub memory_usage_bytes: Option<u64>,
    /// Number of retry attempts made
    pub retry_attempts: u32,
}

/// Result of test execution.
#[derive(Clone, Debug)]
pub struct TestResult {
    pub test_name: String,
    pub suite_name: String,
    pub status: TestStatus,
    pub error_message: Option<String>,
    /// Start time, in milliseconds since the Unix epoch
    pub start_time: i64,
    /// Duration, in milliseconds
    pub duration_ms: u64,
    pub response_data: Option<serde_json::Value>,
    pub performance: PerformanceMetrics,
}

/// A result that took no time and has no data or metrics.
pub open spec fn blank_result(r: TestResult, name: Seq<char>, suite: Seq<char>, status: TestStatus, message: Seq<char>) -> bool {
    &&& r.test_name@ == name
    &&& r.suite_name@ == suite
    &&& r.status == status
    &&& r.error_message is Some
    &&& r.error_message->0@ == message
    &&& r.duration_ms == 0
    &&& r.response_data is None
    &&& r.performance == (PerformanceMetrics {
        response_time_ms: 0,
        memory_usage_bytes: None,
        retry_attempts: 0,
    })
}

impl TestResult {
    /// A skipped test, with the reason as its message.
    pub fn skipped(test_name: String, suite_name: String, reason: String) -> (r: Self)
        ensures
            blank_result(r, test_name@, suite_name@, TestStatus::Skipped, reason@),
    {
        TestResult {
            test_name,
            suite_name,
            status: TestStatus::Skipped,
            error_message: Some(reason),
            start_time: now_millis(),
            duration_ms: 0,
            response_data: None,
            performance: PerformanceMetrics {
                response_time_ms: 0,
                memory_usage_bytes: None,
                retry_attempts: 0,
            },
        }
    }

    /// An errored test of the suite "default".
    pub fn error(test_name: String, error_message: String) -> (r: Self)
        ensures
            blank_result(r, test_name@, "default"@, TestStatus::Error, error_message@),
    {
        TestResult {
            test_name,
            suite_name: "default".to_owned(),
            status: TestStatus::Error,
            error_message: Some(error_message),
            start_time: now_millis(),
            duration_ms: 0,
            response_data: None,
            performance: PerformanceMetrics {
                response_time_ms: 0,
                memory_usage_bytes: None,
                retry_attempts: 0,
            },
        }
    }

    /// A timed-out test of the suite "default".
    pub fn timeout(test_name: String) -> (r: Self)
        ensures
            blank_result(r, test_name@, "default"@, TestStatus::Timeout, "Test execution timed out"@),
    {
        TestResult {
            test_name,
            suite_name: "default".to_owned(),
            status: TestStatus::Timeout,
            error_message: Some("Test execution timed out".to_owned()),
            start_time: now_millis(),
            duration_ms: 0,
            response_data: None,
            performance: PerformanceMetrics {
                response_time_ms: 0,
                memory_usage_bytes: None,
                retry_attempts: 0,
            },
        }
    }
}

/// Progress tracking for test execution.
pub struct ProgressTracker {
    /// Total number of tests to execute
    pub total_tests: usize,
    /// Number of completed tests
    pub completed_tests: usize,
    /// Number of passed tests
    pub passed_tests: usize,
    /// Number of failed tests
    pub failed_tests: usize,
    /// Number of skipped tests
    pub skipped_tests: usize,
    /// Execution start time
    pub start_time: Instant,
}

impl ProgressTracker {
    /// Every completed test is counted once, as passed, failed or skipped.
    pub open spec fn counts_agree(&self) -> bool {
        self.completed_tests == self.passed_tests + self.failed_tests + self.skipped_tests
    }

    /// A tracker with all counts zero.
    pub fn new() -> (r: Self)
        ensures
            r.counts_agree(),
            r.total_tests == 0,
            r.completed_tests == 0,
            r.passed_tests == 0,
            r.failed_tests == 0,
            r.skipped_tests == 0,
    {
        ProgressTracker {
            total_tests: 0,
            completed_tests: 0,
            passed_tests: 0,
            failed_tests: 0,
            skipped_tests: 0,
            start_time: instant_now(),
        }
    }

    /// Sets the number of tests to run and restarts the clock.
    pub fn initialize(&mut self, total_tests: usize)
        ensures
            final(self).total_tests == total_tests,
            final(self).completed_tests == old(self).completed_tests,
            final(self).passed_tests == old(self).passed_tests,
            final(self).failed_tests == old(self).failed_tests,
            final(self).skipped_tests == old(self).skipped_tests,
    {
        self.total_tests = total_tests;
        self.start_time = instant_now();
    }

    /// Counts a finished test: one more completed, and one more passed,
    /// failed (failed, errored or timed out) or skipped.
    pub fn record_result(&mut self, result: &TestResult)
        requires
            old(self).completed_tests < usize::MAX,
            old(self).passed_tests < usize::MAX,
            old(self).failed_tests < usize::MAX,
            old(self).skipped_tests < usize::MAX,
        ensures
            final(self).total_tests == old(self).total_tests,
            final(self).completed_tests == old(self).completed_tests + 1,
            final(self).passed_tests == old(self).passed_tests + if result.status
                == TestStatus::Passed {
                1int
            } else {
                0int
            },
            final(self).failed_tests == old(self).failed_tests + if is_failure(result.status) {
                1int
            } else {
                0int
            },
            final(self).skipped_tests == old(self).skipped_tests + if result.status
                == TestStatus::Skipped {
                1int
            } else {
                0int
            },
            old(self).counts_agree() ==> final(self).counts_agree(),
    {
        self.completed_tests = self.completed_tests + 1;
        match result.status {
            TestStatus::Passed => self.passed_tests = self.passed_tests + 1,
            TestStatus::Failed | TestStatus::Error | TestStatus::Timeout => self.failed_tests =
            self.failed_tests + 1,
            TestStatus::Skipped => self.skipped_tests = self.skipped_tests + 1,
        }
    }
}

/// The number of results with a status that satisfies `f`.
pub open spec fn count_status(s: Seq<TestResult>, f: spec_fn(TestStatus) -> bool) -> nat
    decreases s.len(),
{
    if s.len() == 0 {
        0
    } else {
        count_status(s.drop_last(), f) + if f(s.last().status) {
            1nat
        } else {
            0nat
        }
    }
}

/// The total duration of the results, in milliseconds.
pub open spec fn total_duration(s: Seq<TestResult>) -> nat
    decreases s.len(),
{
    if s.len() == 0 {
        0
    } else {
        total_duration(s.drop_last()) + s.last().duration_ms as nat
    }
}

pub open spec fn passed_pred() -> spec_fn(TestStatus) -> bool {
    |s: TestStatus| s == TestStatus::Passed
}

pub open spec fn failed_pred() -> spec_fn(TestStatus) -> bool {
    |s: TestStatus| is_failure(s)
}

pub open spec fn skipped_pred() -> spec_fn(TestStatus) -> bool {
    |s: TestStatus| s == TestStatus::Skipped
}

/// Complete test suite execution result.
pub struct SuiteResult {
    pub suite_name: String,
    pub total_tests: usize,
    pub passed: usize,
    pub failed: usize,
    pub skipped: usize,
    /// Total duration, in milliseconds
    pub duration_ms: u64,
    pub test_results: Vec<TestResult>,
}

pub proof fn lemma_count_bound(s: Seq<TestResult>, f: spec_fn(TestStatus) -> bool)
    ensures
        count_status(s, f) <= s.len(),
    decreases s.len(),
{
    if s.len() > 0 {
        lemma_count_bound(s.drop_last(), f);
    }
}

impl SuiteResult {
    /// Summarizes the results of a suite: counts of all, passed, failed
    /// (failed, errored or timed out) and skipped tests, and their total
    /// duration.
    pub fn from_test_results(suite_name: String, test_results: Vec<TestResult>) -> (r: Self)
        requires
            total_duration(test_results@) <= u64::MAX,
        ensures
            r.suite_name == suite_name,
            r.total_tests == test_results@.len(),
            r.passed == count_status(test_results@, passed_pred()),
            r.failed == count_status(test_results@, failed_pred()),
            r.skipped == count_status(test_results@, skipped_pred()),
            r.duration_ms == total_duration(test_results@),
            r.test_results@ == test_results@,
    {
        let mut passed: usize = 0;
        let mut failed: usize = 0;
        let mut skipped: usize = 0;
        let mut duration_ms: u64 = 0;
        let mut i: usize = 0;
        while i < test_results.len()
            invariant
                i <= test_results@.len(),
                total_duration(test_results@) <= u64::MAX,
                passed == count_status(test_results@.subrange(0, i as int), passed_pred()),
                failed == count_status(test_results@.subrange(0, i as int), failed_pred()),
                skipped == count_status(test_results@.subrange(0, i as int), skipped_pred()),
                duration_ms == total_duration(test_results@.subrange(0, i as int)),
            decreases test_results@.len() - i,
        {
            let ghost pre = test_results@.subrange(0, i as int);
            let ghost post = test_results@.subrange(0, i + 1);
            assert(post.drop_last() =~= pre);
            proof {
                lemma_count_bound(pre, passed_pred());
                lemma_count_bound(pre, failed_pred());
                lemma_count_bound(pre, skipped_pred());
                lemma_total_duration_prefix(test_results@, i + 1);
            }
            let status = test_results[i].status;
            match status {
                TestStatus::Passed => passed = passed + 1,
                TestStatus::Failed | TestStatus::Error | TestStatus::Timeout => failed = failed
                    + 1,
                TestStatus::Skipped => skipped = skipped + 1,
            }
            duration_ms = duration_ms + test_results[i].duration_ms;
            i = i + 1;
        }
        assert(test_results@.subrange(0, test_results@.len() as int) =~= test_results@);
        let total_tests = test_results.len();
        SuiteResult { suite_name, total_tests, passed, failed, skipped, duration_ms, test_results }
    }

    /// The suite succeeded when no test failed.
    pub fn is_successful(&self) -> (r: bool)
        ensures
            r == (self.failed == 0),
    {
        self.failed == 0
    }
}

/// A prefix's total duration is at most the whole's.
pub proof fn lemma_total_duration_prefix(s: Seq<TestResult>, n: int)
    requires
        0 <= n <= s.len(),
    ensures
        total_duration(s.subrange(0, n)) <= total_duration(s),
    decreases s.len(),
{
    if n < s.len() {
        lemma_total_duration_prefix(s.drop_last(), n);
        assert(s.drop_last().subrange(0, n) =~= s.subrange(0, n));
    } else {
        assert(s.subrange(0, n) =~= s);
    }
}

/// Every result is counted once: passed, failed and skipped add up to all.
pub proof fn lemma_counts_partition(s: Seq<TestResult>)
    ensures
        count_status(s, passed_pred()) + count_status(s, failed_pred()) + count_status(
            s,
            skipped_pred(),
        ) == s.len(),
    decreases s.len(),
{
    if s.len() > 0 {
        lemma_counts_partition(s.drop_last());
    }
}

/// Validation result for test expectations.
#[derive(Debug)]
pub struct ValidationResult {
    pub passed: bool,
    pub error_message: Option<String>,
}

/// The message for a response that took too long.
pub open spec fn slow_message(duration_ms: nat, max_ms: nat) -> Seq<char> {
    "Response time "@ + decimal(duration_ms) + "ms exceeded maximum "@ + decimal(max_ms) + "ms"@
}

/// The message for a missing content pattern.
pub open spec fn missing_message(p: Seq<char>) -> Seq<char> {
    "Response does not contain expected pattern: "@ + p
}

/// The messages for the content patterns (from index `from` on) that the
/// response lacks, in order.
pub open spec fn missing_messages(text: Seq<char>, patterns: Seq<Seq<char>>) -> Seq<Seq<char>>
    decreases patterns.len(),
{
    if patterns.len() == 0 {
        Seq::empty()
    } else {
        let rest = missing_messages(text, patterns.drop_last());
        if contains_seq(text, patterns.last()) {
            rest
        } else {
            rest.push(missing_message(patterns.last()))
        }
    }
}

/// All validation messages: the response time first, then missing patterns.
pub open spec fn validation_messages(
    text: Seq<char>,
    expected: ExpectedResult,
    duration_ms: nat,
) -> Seq<Seq<char>> {
    let perf = match expected.performance {
        Some(p) => if duration_ms > p.max_response_time_ms {
            seq![slow_message(duration_ms, p.max_response_time_ms as nat)]
        } else {
            Seq::empty()
        },
        None => Seq::empty(),
    };
    perf + missing_messages(text, expected.content_patterns@.map_values(|s: String| s@))
}

/// Messages joined with "; ".
pub open spec fn join_messages(ms: Seq<Seq<char>>) -> Seq<char>
    decreases ms.len(),
{
    if ms.len() == 0 {
        Seq::empty()
    } else if ms.len() == 1 {
        ms[0]
    } else {
        join_messages(ms.drop_last()) + "; "@ + ms.last()
    }
}

/// Test execution decision after one attempt.
pub enum AttemptOutcome {
    /// The attempt ran and produced a result.
    Completed(TestResult),
    /// The attempt failed with an execution error (its message).
    Failed(String),
    /// The attempt did not finish in time.
    TimedOut,
}

/// What to do after an attempt.
pub enum RetryStep {
    /// Stop with this result.
    Done(TestResult),
    /// Try again.
    Retry,
}

/// Main test execution framework (decision part).
pub struct TestRunner {
    config: TestConfig,
    progress_tracker: ProgressTracker,
}

impl TestRunner {
    /// The runner's configuration.
    pub closed spec fn config_view(&self) -> TestConfig {
        self.config
    }

    /// A runner with the given configuration and a fresh progress tracker.
    pub fn new(config: TestConfig) -> (r: Self)
        ensures
            r.config_view() == config,
            r.progress().total_tests == 0,
            r.progress().completed_tests == 0,
            r.progress().passed_tests == 0,
            r.progress().failed_tests == 0,
            r.progress().skipped_tests == 0,
    {
        TestRunner { config, progress_tracker: ProgressTracker::new() }
    }

    /// The progress tracker.
    pub closed spec fn progress(&self) -> &ProgressTracker {
        &self.progress_tracker
    }

    /// The progress tracker.
    pub fn progress_tracker(&self) -> (r: &ProgressTracker)
        ensures
            r == self.progress(),
    {
        &self.progress_tracker
    }

    /// The configuration.
    pub fn config(&self) -> (r: &TestConfig)
        ensures
            *r == self.config_view(),
    {
        &self.config
    }

    /// A test runs when there is no filter or its name contains the filter.
    pub fn should_execute_test(&self, test: &TestCase) -> (r: bool)
        ensures
            r == match self.config_view().filter {
                Some(f) => contains_seq(test.name@, f@),
                None => true,
            },
    {
        match &self.config.filter {
            Some(filter) => str_contains(test.name.as_str(), filter.as_str()),
            None => true,
        }
    }

    /// Checks a serialized response against the expectations: the response
    /// time must not exceed the expected maximum and every content pattern
    /// must occur; the messages of the failed checks are joined with "; ".
    pub fn validate_response_text(
        &self,
        response_text: &str,
        expected: &ExpectedResult,
        duration_ms: u64,
    ) -> (r: ValidationResult)
        ensures
            r.passed == (validation_messages(response_text@, *expected, duration_ms as nat).len()
                == 0),
            r.passed ==> r.error_message is None,
            !r.passed ==> r.error_message is Some && r.error_message->0@ == join_messages(
                validation_messages(response_text@, *expected, duration_ms as nat),
            ),
    {
        let mut errors: Vec<String> = Vec::new();
        let ghost pats = expected.content_patterns@.map_values(|s: String| s@);
        match expected.performance {
            Some(perf) => {
                if duration_ms > perf.max_response_time_ms {
                    let mut m = "Response time ".to_owned();
                    let a = usize_to_string_u64(duration_ms);
                    push_str(&mut m, a.as_str());
                    push_str(&mut m, "ms exceeded maximum ");
                    let b = usize_to_string_u64(perf.max_response_time_ms);
                    push_str(&mut m, b.as_str());
                    push_str(&mut m, "ms");
                    errors.push(m);
                }
            },
            None => {},
        }
        let ghost perf_part = errors@.map_values(|s: String| s@);
        let mut i: usize = 0;
        while i < expected.content_patterns.len()
            invariant
                i <= expected.content_patterns@.len(),
                pats == expected.content_patterns@.map_values(|s: String| s@),
                errors@.map_values(|s: String| s@) == perf_part + missing_messages(
                    response_text@,
                    pats.subrange(0, i as int),
                ),
            decreases expected.content_patterns@.len() - i,
        {
            let ghost before = errors@.map_values(|s: String| s@);
            assert(pats.subrange(0, i + 1).drop_last() =~= pats.subrange(0, i as int));
            let pattern = &expected.content_patterns[i];
            if !str_contains(response_text, pattern.as_str()) {
                let mut m = "Response does not contain expected pattern: ".to_owned();
                push_str(&mut m, pattern.as_str());
                errors.push(m);
                assert(errors@.map_values(|s: String| s@) =~= before.push(missing_message(pattern@)));
            } else {
                assert(errors@.map_values(|s: String| s@) =~= before);
            }
            i = i + 1;
        }
        assert(pats.subrange(0, pats.len() as int) =~= pats);
        assert(errors@.map_values(|s: String| s@) =~= validation_messages(
            response_text@,
            *expected,
            duration_ms as nat,
        ));
        if errors.len() == 0 {
            ValidationResult { passed: true, error_message: None }
        } else {
            let joined = join_strings(&errors);
            ValidationResult { passed: false, error_message: Some(joined) }
        }
    }

    /// Checks a response value against the expectations (see
    /// `validate_response_text`, applied to its JSON text).
    pub fn validate_test_result(
        &self,
        response_data: &serde_json::Value,
        expected: &ExpectedResult,
        duration_ms: u64,
    ) -> (r: ValidationResult)
        ensures
            r.passed == (validation_messages(
                json_text_of(*response_data),
                *expected,
                duration_ms as nat,
            ).len() == 0),
            r.passed ==> r.error_message is None,
            !r.passed ==> r.error_message is Some && r.error_message->0@ == join_messages(
                validation_messages(json_text_of(*response_data), *expected, duration_ms as nat),
            ),
    {
        let text = json_text(response_data);
        self.validate_response_text(text.as_str(), expected, duration_ms)
    }

    /// Counts a result in the runner's progress.
    pub fn record(&mut self, result: &TestResult)
        requires
            old(self).progress().completed_tests < usize::MAX,
            old(self).progress().passed_tests < usize::MAX,
            old(self).progress().failed_tests < usize::MAX,
            old(self).progress().skipped_tests < usize::MAX,
        ensures
            final(self).config_view() == old(self).config_view(),
            final(self).progress().completed_tests == old(self).progress().completed_tests + 1,
    {
        self.progress_tracker.record_result(result);
    }

    /// Whether execution stops after this result (fail-fast on a failure).
    pub fn stops_after(&self, result: &TestResult) -> (r: bool)
        ensures
            r == (self.config_view().fail_fast && result.status == TestStatus::Failed),
    {
        self.config.fail_fast && result.status == TestStatus::Failed
    }

    /// The number of attempts beyond the first: the test's own, else the
    /// configuration's.
    pub fn max_attempts(&self, test: &TestCase) -> (r: u32)
        ensures
            r == match test.retry_attempts {
                Some(n) => n,
                None => self.config_view().retry_attempts,
            },
    {
        match test.retry_attempts {
            Some(n) => n,
            None => self.config.retry_attempts,
        }
    }

    /// The decision after attempt number `attempt` (counted from zero) of at
    /// most `max_attempts + 1`: a passing result, or any outcome of the last
    /// attempt, ends the test (an execution error as an error result, a
    /// timeout as a timeout result); otherwise the test is tried again.
    pub fn after_attempt(test_name: &str, attempt: u32, max_attempts: u32, outcome: AttemptOutcome) -> (r:
        RetryStep)
        requires
            attempt <= max_attempts,
        ensures
            match outcome {
                AttemptOutcome::Completed(res) => if res.status == TestStatus::Passed || attempt
                    == max_attempts {
                    r matches RetryStep::Done(x) && x.test_name == res.test_name && x.status
                        == res.status
                } else {
                    r is Retry
                },
                AttemptOutcome::Failed(e) => if attempt == max_attempts {
                    r matches RetryStep::Done(x) && blank_result(
                        x,
                        test_name@,
                        "default"@,
                        TestStatus::Error,
                        "Execution error: "@ + e@,
                    )
                } else {
                    r is Retry
                },
                AttemptOutcome::TimedOut => if attempt == max_attempts {
                    r matches RetryStep::Done(x) && blank_result(
                        x,
                        test_name@,
                        "default"@,
                        TestStatus::Timeout,
                        "Test execution timed out"@,
                    )
                } else {
                    r is Retry
                },
            },
    {
        match outcome {
            AttemptOutcome::Completed(res) => {
                if res.status == TestStatus::Passed || attempt == max_attempts {
                    RetryStep::Done(res)
                } else {
                    RetryStep::Retry
                }
            },
            AttemptOutcome::Failed(e) => {
                if attempt == max_attempts {
                    let mut m = "Execution error: ".to_owned();
                    push_str(&mut m, e.as_str());
                    RetryStep::Done(TestResult::error(test_name.to_owned(), m))
                } else {
                    RetryStep::Retry
                }
            },
            AttemptOutcome::TimedOut => {
                if attempt == max_attempts {
                    RetryStep::Done(TestResult::timeout(test_name.to_owned()))
                } else {
                    RetryStep::Retry
                }
            },
        }
    }
}

/// Formats a `u64` in decimal.
pub fn usize_to_string_u64(n: u64) -> (r: String)
    ensures
        r@ == decimal(n as nat),
    decreases n,
{
    let d: u8 = (n % 10) as u8;
    let c: char = (48u8 + d) as char;
    if n < 10 {
        let mut r = String::new();
        crate::text::push_char(&mut r, c);
        assert(r@ =~= seq![crate::text::digit_char(n as nat)]);
        r
    } else {
        let mut r = usize_to_string_u64(n / 10);
        crate::text::push_char(&mut r, c);
        r
    }
}

/// Joins strings with "; ".
pub fn join_strings(ms: &Vec<String>) -> (r: String)
    ensures
        r@ == join_messages(ms@.map_values(|s: String| s@)),
{
    let ghost v = ms@.map_values(|s: String| s@);
    let mut r = String::new();
    let mut i: usize = 0;
    while i < ms.len()
        invariant
            i <= ms@.len(),
            v == ms@.map_values(|s: String| s@),
            r@ == join_messages(v.subrange(0, i as int)),
        decreases ms@.len() - i,
    {
        assert(v.subrange(0, i + 1).drop_last() =~= v.subrange(0, i as int));
        if i > 0 {
            push_str(&mut r, "; ");
        }
        push_str(&mut r, ms[i].as_str());
        i = i + 1;
    }
    assert(v.subrange(0, v.len() as int) =~= v);
    r
}

} // verus!
