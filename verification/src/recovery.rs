//! Error recovery policy: which harness errors are worth retrying and how
//! they are categorized, custom classification rules, and a circuit breaker
//! that stops calling a failing service.

use crate::errors::{McpClientError, TestHarnessError};
use crate::text::str_eq;
use std::time::Instant;
use vstd::prelude::*;

verus! {

/// `std::time::Instant`, carried opaquely (the time of the last failure).
#[verifier::external_type_specification]
#[verifier::external_body]
pub struct ExInstant(Instant);

/// `Instant::now()`.  Nothing is claimed of the value: it is the clock's.
#[verifier::external_body]
pub(crate) fn instant_now() -> Instant {
    Instant::now()
}

/// `Instant::elapsed().as_millis()`: the milliseconds since the instant.
/// Nothing is claimed of the value: it depends on the clock.
#[verifier::external_body]
fn millis_since(t: &Instant) -> u128 {
    t.elapsed().as_millis()
}

/// Error categories for classification and recovery strategies.
#[derive(Clone, Copy, Debug, PartialEq, Eq, Hash, Structural)]
pub enum ErrorCategory {
    Connection,
    Protocol,
    Execution,
    Configuration,
    Io,
    Validation,
    Reporting,
    Network,
    Performance,
    Security,
    Unknown,
}

/// Whether an error is worth retrying: connection failures, timeouts,
/// server errors with a 5xx code, recoverable transport errors and
/// authentication errors that allow a retry; network, I/O and performance
/// errors; nothing else.
pub open spec fn retryable(e: TestHarnessError) -> bool {
    match e {
        TestHarnessError::Client(c) => match c {
            McpClientError::ConnectionFailed { .. } => true,
            McpClientError::RequestTimeout { .. } => true,
            McpClientError::ServerError { code, .. } => 500 <= code <= 599,
            McpClientError::ProtocolViolation { .. } => false,
            McpClientError::TransportError { recoverable, .. } => recoverable,
            McpClientError::AuthenticationError { retry_allowed, .. } => retry_allowed,
        },
        TestHarnessError::Network(_) => true,
        TestHarnessError::Io(_) => true,
        TestHarnessError::Performance(_) => true,
        TestHarnessError::Execution(_) => false,
        TestHarnessError::Configuration(_) => false,
        TestHarnessError::Validation(_) => false,
        TestHarnessError::Reporting(_) => false,
        TestHarnessError::Security(_) => false,
    }
}

/// The category of an error.
pub open spec fn category(e: TestHarnessError) -> ErrorCategory {
    match e {
        TestHarnessError::Client(_) => ErrorCategory::Connection,
        TestHarnessError::Network(_) => ErrorCategory::Network,
        TestHarnessError::Execution(_) => ErrorCategory::Execution,
        TestHarnessError::Configuration(_) => ErrorCategory::Configuration,
        TestHarnessError::Io(_) => ErrorCategory::Io,
        TestHarnessError::Validation(_) => ErrorCategory::Validation,
        TestHarnessError::Reporting(_) => ErrorCategory::Reporting,
        TestHarnessError::Performance(_) => ErrorCategory::Performance,
        TestHarnessError::Security(_) => ErrorCategory::Security,
    }
}

/// Which retry policy applies to a retryable error: connection errors use
/// the connection policy; network, I/O and performance errors the request
/// policy; other errors have none.
#[derive(Clone, Copy, Debug, PartialEq, Eq, Structural)]
pub enum RetryPolicy {
    Connection,
    Request,
}

/// The retry policy of an error, if it is retried at all.
pub open spec fn retry_policy(e: TestHarnessError) -> Option<RetryPolicy> {
    if !retryable(e) {
        None
    } else {
        match category(e) {
            ErrorCategory::Connection => Some(RetryPolicy::Connection),
            ErrorCategory::Network => Some(RetryPolicy::Request),
            ErrorCategory::Io => Some(RetryPolicy::Request),
            ErrorCategory::Performance => Some(RetryPolicy::Request),
            _ => None,
        }
    }
}

/// Error classifier for determining retry and recovery strategies.
#[derive(Clone, Debug)]
pub struct ErrorClassifier {
    custom_rules: Vec<(String, bool)>,
}

/// The custom rules as a map from pattern to retryability.
pub open spec fn rules_map(rules: Seq<(String, bool)>) -> Map<Seq<char>, bool>
    decreases rules.len(),
{
    if rules.len() == 0 {
        Map::empty()
    } else {
        rules_map(rules.drop_last()).insert(rules.last().0@, rules.last().1)
    }
}

/// No pattern occurs twice.
pub open spec fn rules_unique(rules: Seq<(String, bool)>) -> bool {
    forall|i: int, j: int| 0 <= i < j < rules.len() ==> rules[i].0@ != rules[j].0@
}

proof fn lemma_rules_map_index(rules: Seq<(String, bool)>, i: int)
    requires
        rules_unique(rules),
        0 <= i < rules.len(),
    ensures
        rules_map(rules).contains_key(rules[i].0@),
        rules_map(rules)[rules[i].0@] == rules[i].1,
    decreases rules.len(),
{
    if i < rules.len() - 1 {
        lemma_rules_map_index(rules.drop_last(), i);
    }
}

proof fn lemma_rules_map_keys(rules: Seq<(String, bool)>, k: Seq<char>)
    requires
        rules_map(rules).contains_key(k),
    ensures
        exists|i: int| 0 <= i < rules.len() && rules[i].0@ == k,
    decreases rules.len(),
{
    if rules.len() > 0 && rules.last().0@ != k {
        lemma_rules_map_keys(rules.drop_last(), k);
        let i = choose|i: int| 0 <= i < rules.len() - 1 && rules.drop_last()[i].0@ == k;
        assert(rules[i].0@ == k);
    } else if rules.len() > 0 {
        assert(rules[rules.len() - 1].0@ == k);
    }
}

impl ErrorClassifier {
    /// The custom rules: pattern to retryability.
    pub closed spec fn rules(&self) -> Map<Seq<char>, bool> {
        rules_map(self.custom_rules@)
    }

    /// The rule list holds each pattern once.
    pub closed spec fn wf(&self) -> bool {
        rules_unique(self.custom_rules@)
    }

    /// A classifier without custom rules.
    pub fn new() -> (r: Self)
        ensures
            r.wf(),
            r.rules() == Map::<Seq<char>, bool>::empty(),
    {
        ErrorClassifier { custom_rules: Vec::new() }
    }

    /// Whether an error is worth retrying.
    pub fn is_retryable(&self, error: &TestHarnessError) -> (r: bool)
        ensures
            r == retryable(*error),
    {
        match error {
            TestHarnessError::Client(client_error) => match client_error {
                McpClientError::ConnectionFailed { .. } => true,
                McpClientError::RequestTimeout { .. } => true,
                McpClientError::ServerError { code, .. } => 500 <= *code && *code <= 599,
                McpClientError::ProtocolViolation { .. } => false,
                McpClientError::TransportError { recoverable, .. } => *recoverable,
                McpClientError::AuthenticationError { retry_allowed, .. } => *retry_allowed,
            },
            TestHarnessError::Network(_) => true,
            TestHarnessError::Io(_) => true,
            TestHarnessError::Performance(_) => true,
            TestHarnessError::Execution(_) => false,
            TestHarnessError::Configuration(_) => false,
            TestHarnessError::Validation(_) => false,
            TestHarnessError::Reporting(_) => false,
            TestHarnessError::Security(_) => false,
        }
    }

    /// The category of an error.
    pub fn categorize(&self, error: &TestHarnessError) -> (r: ErrorCategory)
        ensures
            r == category(*error),
    {
        match error {
            TestHarnessError::Client(_) => ErrorCategory::Connection,
            TestHarnessError::Network(_) => ErrorCategory::Network,
            TestHarnessError::Execution(_) => ErrorCategory::Execution,
            TestHarnessError::Configuration(_) => ErrorCategory::Configuration,
            TestHarnessError::Io(_) => ErrorCategory::Io,
            TestHarnessError::Validation(_) => ErrorCategory::Validation,
            TestHarnessError::Reporting(_) => ErrorCategory::Reporting,
            TestHarnessError::Performance(_) => ErrorCategory::Performance,
            TestHarnessError::Security(_) => ErrorCategory::Security,
        }
    }

    /// Which retry policy applies to an error (`None`: no retry).
    pub fn get_retry_policy(&self, error: &TestHarnessError) -> (r: Option<RetryPolicy>)
        ensures
            r == retry_policy(*error),
    {
        if !self.is_retryable(error) {
            return None;
        }
        match self.categorize(error) {
            ErrorCategory::Connection => Some(RetryPolicy::Connection),
            ErrorCategory::Network => Some(RetryPolicy::Request),
            ErrorCategory::Io => Some(RetryPolicy::Request),
            ErrorCategory::Performance => Some(RetryPolicy::Request),
            _ => None,
        }
    }

    /// Whether a failed attempt is followed by another: the error is worth
    /// retrying and attempts remain (`attempt` counts from one).
    pub fn should_retry(&self, error: &TestHarnessError, attempt: u32, max_attempts: u32) -> (r: bool)
        ensures
            r == (retryable(*error) && attempt < max_attempts),
    {
        self.is_retryable(error) && attempt < max_attempts
    }

    /// Adds (or replaces) a custom rule for a pattern.
    pub fn add_custom_rule(&mut self, pattern: String, is_retryable: bool)
        requires
            old(self).wf(),
        ensures
            final(self).wf(),
            final(self).rules() == old(self).rules().insert(pattern@, is_retryable),
    {
        let ghost old_rules = self.custom_rules@;
        let mut i: usize = 0;
        while i < self.custom_rules.len()
            invariant
                self.custom_rules@ == old_rules,
                old_rules == old(self).custom_rules@,
                rules_unique(old_rules),
                i <= old_rules.len(),
                forall|j: int| 0 <= j < i ==> old_rules[j].0@ != pattern@,
            decreases old_rules.len() - i,
        {
            if str_eq(self.custom_rules[i].0.as_str(), pattern.as_str()) {
                let ghost before = self.custom_rules@;
                self.custom_rules.set(i, (pattern, is_retryable));
                proof {
                    let after = self.custom_rules@;
                    assert forall|a: int, b: int| 0 <= a < b < after.len() implies after[a].0@
                        != after[b].0@ by {
                        assert(after[a].0@ == before[a].0@);
                        assert(after[b].0@ == before[b].0@);
                    }
                    assert forall|k: Seq<char>| #[trigger] rules_map(after).contains_key(k) <==> rules_map(
                        before,
                    ).insert(pattern@, is_retryable).contains_key(k) by {
                        if rules_map(after).contains_key(k) {
                            lemma_rules_map_keys(after, k);
                            let j = choose|j: int| 0 <= j < after.len() && after[j].0@ == k;
                            if j != i {
                                lemma_rules_map_index(before, j);
                            }
                        }
                        if rules_map(before).contains_key(k) {
                            lemma_rules_map_keys(before, k);
                            let j = choose|j: int| 0 <= j < before.len() && before[j].0@ == k;
                            lemma_rules_map_index(after, j);
                        }
                        if k == pattern@ {
                            lemma_rules_map_index(after, i as int);
                        }
                    }
                    assert forall|k: Seq<char>| #[trigger] rules_map(after).contains_key(k) implies rules_map(
                        after,
                    )[k] == rules_map(before).insert(pattern@, is_retryable)[k] by {
                        lemma_rules_map_keys(after, k);
                        let j = choose|j: int| 0 <= j < after.len() && after[j].0@ == k;
                        lemma_rules_map_index(after, j);
                        if j != i {
                            lemma_rules_map_index(before, j);
                        }
                    }
                    assert(rules_map(after) =~= rules_map(before).insert(pattern@, is_retryable));
                    assert(before == old_rules);
                    assert(old(self).custom_rules@ == old_rules);
                    assert(self.rules() == rules_map(after));
                    assert(old(self).rules() == rules_map(old_rules));
                }
                return;
            }
            i = i + 1;
        }
        self.custom_rules.push((pattern, is_retryable));
        proof {
            let after = self.custom_rules@;
            assert(after.drop_last() =~= old_rules);
        }
    }

    /// The custom rule for a pattern, if any.
    pub fn custom_rule(&self, pattern: &str) -> (r: Option<bool>)
        requires
            self.wf(),
        ensures
            self.rules().contains_key(pattern@) ==> r == Some(self.rules()[pattern@]),
            !self.rules().contains_key(pattern@) ==> r is None,
    {
        let mut i: usize = 0;
        while i < self.custom_rules.len()
            invariant
                rules_unique(self.custom_rules@),
                i <= self.custom_rules@.len(),
                forall|j: int| 0 <= j < i ==> self.custom_rules@[j].0@ != pattern@,
            decreases self.custom_rules@.len() - i,
        {
            if str_eq(self.custom_rules[i].0.as_str(), pattern) {
                proof {
                    lemma_rules_map_index(self.custom_rules@, i as int);
                }
                return Some(self.custom_rules[i].1);
            }
            i = i + 1;
        }
        proof {
            if rules_map(self.custom_rules@).contains_key(pattern@) {
                lemma_rules_map_keys(self.custom_rules@, pattern@);
            }
        }
        None
    }

    /// Whether there is a custom rule for a pattern.
    pub fn has_custom_rule(&self, pattern: &str) -> (r: bool)
        requires
            self.wf(),
        ensures
            r == self.rules().contains_key(pattern@),
    {
        self.custom_rule(pattern).is_some()
    }

    /// The number of custom rules.
    pub fn custom_rule_count(&self) -> (r: usize)
        requires
            self.wf(),
        ensures
            r == self.rules().len(),
    {
        proof {
            lemma_rules_map_len(self.custom_rules@);
        }
        self.custom_rules.len()
    }
}

proof fn lemma_rules_map_len(rules: Seq<(String, bool)>)
    requires
        rules_unique(rules),
    ensures
        rules_map(rules).dom().finite(),
        rules_map(rules).len() == rules.len(),
    decreases rules.len(),
{
    if rules.len() > 0 {
        let rest = rules.drop_last();
        lemma_rules_map_len(rest);
        if rules_map(rest).contains_key(rules.last().0@) {
            lemma_rules_map_keys(rest, rules.last().0@);
            let i = choose|i: int| 0 <= i < rest.len() && rest[i].0@ == rules.last().0@;
            assert(rules[i].0@ == rules[rules.len() - 1].0@);
        }
    }
}

/// Circuit breaker configuration for preventing cascading failures.
#[derive(Clone, Copy, Debug, PartialEq, Eq, Structural)]
pub struct CircuitBreakerConfig {
    pub failure_threshold: u32,
    pub success_threshold: u32,
    pub timeout_ms: u64,
    pub half_open_max_calls: u32,
}

impl CircuitBreakerConfig {
    /// Five failures open the circuit, three successes close it again, it
    /// stays open for a minute and lets two trial calls through half open.
    pub fn default() -> (r: Self)
        ensures
            r == (CircuitBreakerConfig {
                failure_threshold: 5,
                success_threshold: 3,
                timeout_ms: 60000,
                half_open_max_calls: 2,
            }),
    {
        CircuitBreakerConfig {
            failure_threshold: 5,
            success_threshold: 3,
            timeout_ms: 60000,
            half_open_max_calls: 2,
        }
    }
}

/// Circuit breaker states.
#[derive(Clone, Copy, Debug, PartialEq, Eq, Structural)]
pub enum CircuitBreakerState {
    Closed,
    Open,
    HalfOpen,
}

/// Why a call through the circuit breaker did not succeed.
#[derive(Debug)]
pub enum CircuitBreakerError {
    /// The circuit is open: the call was not made.
    CircuitOpen,
    /// The call was made and failed.
    OperationFailed(TestHarnessError),
}

/// The counters and state of a circuit breaker.
pub struct BreakerView {
    pub config: CircuitBreakerConfig,
    pub state: CircuitBreakerState,
    pub failure_count: u32,
    pub success_count: u32,
    pub half_open_calls: u32,
    /// Whether a failure time has been recorded.
    pub failed_before: bool,
}

/// The breaker after a successful call.
pub open spec fn after_success(b: BreakerView) -> BreakerView {
    match b.state {
        CircuitBreakerState::HalfOpen => if b.success_count + 1 >= b.config.success_threshold {
            BreakerView {
                state: CircuitBreakerState::Closed,
                failure_count: 0,
                success_count: 0,
                ..b
            }
        } else {
            BreakerView { success_count: (b.success_count + 1) as u32, ..b }
        },
        CircuitBreakerState::Closed => BreakerView { failure_count: 0, ..b },
        CircuitBreakerState::Open => b,
    }
}

/// The breaker after a failed call (the failure time is recorded).
pub open spec fn after_failure(b: BreakerView) -> BreakerView {
    let n = (b.failure_count + 1) as u32;
    match b.state {
        CircuitBreakerState::Closed => if n >= b.config.failure_threshold {
            BreakerView { state: CircuitBreakerState::Open, failure_count: n, failed_before: true, ..b }
        } else {
            BreakerView { failure_count: n, failed_before: true, ..b }
        },
        CircuitBreakerState::HalfOpen => BreakerView {
            state: CircuitBreakerState::Open,
            failure_count: n,
            success_count: 0,
            failed_before: true,
            ..b
        },
        CircuitBreakerState::Open => BreakerView { failure_count: n, failed_before: true, ..b },
    }
}

/// Whether a call is let through, given the milliseconds since the last
/// failure (`None` when no failure was recorded).
pub open spec fn admits(b: BreakerView, elapsed_ms: Option<u128>) -> bool {
    match b.state {
        CircuitBreakerState::Open => match elapsed_ms {
            Some(ms) => ms > b.config.timeout_ms,
            None => true,
        },
        CircuitBreakerState::HalfOpen => b.half_open_calls < b.config.half_open_max_calls,
        CircuitBreakerState::Closed => true,
    }
}

/// The breaker after it was asked to let a call through.
pub open spec fn after_admission(b: BreakerView, elapsed_ms: Option<u128>) -> BreakerView {
    match b.state {
        CircuitBreakerState::Open => match elapsed_ms {
            Some(ms) => if ms > b.config.timeout_ms {
                BreakerView { state: CircuitBreakerState::HalfOpen, half_open_calls: 0, ..b }
            } else {
                b
            },
            None => b,
        },
        CircuitBreakerState::HalfOpen => if b.half_open_calls < b.config.half_open_max_calls {
            BreakerView { half_open_calls: (b.half_open_calls + 1) as u32, ..b }
        } else {
            b
        },
        CircuitBreakerState::Closed => b,
    }
}

/// A fresh breaker.
pub open spec fn fresh_breaker(config: CircuitBreakerConfig) -> BreakerView {
    BreakerView {
        config,
        state: CircuitBreakerState::Closed,
        failure_count: 0,
        success_count: 0,
        half_open_calls: 0,
        failed_before: false,
    }
}

/// Circuit breaker for preventing cascading failures.
pub struct CircuitBreaker {
    config: CircuitBreakerConfig,
    state: CircuitBreakerState,
    failure_count: u32,
    success_count: u32,
    last_failure_time: Option<Instant>,
    half_open_calls: u32,
}

impl View for CircuitBreaker {
    type V = BreakerView;

    closed spec fn view(&self) -> BreakerView {
        BreakerView {
            config: self.config,
            state: self.state,
            failure_count: self.failure_count,
            success_count: self.success_count,
            half_open_calls: self.half_open_calls,
            failed_before: self.last_failure_time is Some,
        }
    }
}

impl CircuitBreaker {
    /// A closed breaker with no failures.
    pub fn new(config: CircuitBreakerConfig) -> (r: Self)
        ensures
            r@ == fresh_breaker(config),
    {
        CircuitBreaker {
            config,
            state: CircuitBreakerState::Closed,
            failure_count: 0,
            success_count: 0,
            last_failure_time: None,
            half_open_calls: 0,
        }
    }

    /// Decides whether to let a call through, given the milliseconds since
    /// the last failure (`None` when none was recorded): an open breaker
    /// turns half open once the timeout has passed; a half-open breaker lets
    /// a limited number of trial calls through.
    pub fn admit_call(&mut self, elapsed_ms: Option<u128>) -> (r: core::result::Result<(), CircuitBreakerError>)
        requires
            old(self)@.failed_before == (elapsed_ms is Some),
        ensures
            final(self)@ == after_admission(old(self)@, elapsed_ms),
            r is Ok <==> admits(old(self)@, elapsed_ms),
            r is Err ==> r->Err_0 is CircuitOpen,
    {
        match self.state {
            CircuitBreakerState::Open => {
                match elapsed_ms {
                    Some(ms) => {
                        if ms > self.config.timeout_ms as u128 {
                            self.state = CircuitBreakerState::HalfOpen;
                            self.half_open_calls = 0;
                        } else {
                            return Err(CircuitBreakerError::CircuitOpen);
                        }
                    },
                    None => {},
                }
            },
            CircuitBreakerState::HalfOpen => {
                if self.half_open_calls >= self.config.half_open_max_calls {
                    return Err(CircuitBreakerError::CircuitOpen);
                }
                self.half_open_calls = self.half_open_calls + 1;
            },
            CircuitBreakerState::Closed => {},
        }
        Ok(())
    }

    /// Asks to let a call through now: the time since the last failure is
    /// read from the clock and `admit_call` decides.
    pub fn before_call(&mut self) -> (r: core::result::Result<(), CircuitBreakerError>)
        ensures
            exists|elapsed_ms: Option<u128>|
                (elapsed_ms is Some) == old(self)@.failed_before && final(self)@ == after_admission(
                    old(self)@,
                    elapsed_ms,
                ) && (r is Ok <==> admits(old(self)@, elapsed_ms)),
            r is Err ==> r->Err_0 is CircuitOpen,
    {
        let elapsed = match &self.last_failure_time {
            Some(t) => Some(millis_since(t)),
            None => None,
        };
        self.admit_call(elapsed)
    }

    /// Records a successful call: a closed breaker forgets its failures; a
    /// half-open one closes after enough successes.
    pub fn on_success(&mut self)
        requires
            old(self)@.success_count < u32::MAX,
        ensures
            final(self)@ == after_success(old(self)@),
    {
        match self.state {
            CircuitBreakerState::HalfOpen => {
                self.success_count = self.success_count + 1;
                if self.success_count >= self.config.success_threshold {
                    self.state = CircuitBreakerState::Closed;
                    self.failure_count = 0;
                    self.success_count = 0;
                }
            },
            CircuitBreakerState::Closed => {
                self.failure_count = 0;
            },
            CircuitBreakerState::Open => {},
        }
    }

    /// Records a failed call and its time: a closed breaker opens once the
    /// failures reach the threshold; a half-open one opens again.
    pub fn on_failure(&mut self)
        requires
            old(self)@.failure_count < u32::MAX,
        ensures
            final(self)@ == after_failure(old(self)@),
    {
        self.failure_count = self.failure_count + 1;
        self.last_failure_time = Some(instant_now());
        match self.state {
            CircuitBreakerState::Closed => {
                if self.failure_count >= self.config.failure_threshold {
                    self.state = CircuitBreakerState::Open;
                }
            },
            CircuitBreakerState::HalfOpen => {
                self.state = CircuitBreakerState::Open;
                self.success_count = 0;
            },
            CircuitBreakerState::Open => {},
        }
    }

    /// The current state.
    pub fn get_state(&self) -> (r: &CircuitBreakerState)
        ensures
            *r == self@.state,
    {
        &self.state
    }

    /// The number of failures counted.
    pub fn get_failure_count(&self) -> (r: u32)
        ensures
            r == self@.failure_count,
    {
        self.failure_count
    }

    /// The number of successes counted while half open.
    pub fn get_success_count(&self) -> (r: u32)
        ensures
            r == self@.success_count,
    {
        self.success_count
    }
}

} // verus!
