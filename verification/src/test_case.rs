//! The decisions of executing one test case, as a step function from state
//! and event to next state and action: which validation scripts run before
//! and after the tool call, when a failed script stops the test, whether
//! the test succeeded, and the metrics of its execution.
//! Durations are milliseconds.

use crate::text::str_eq;
use vstd::prelude::*;

verus! {

/// When a validation script runs.
#[derive(Clone, Copy, Debug, PartialEq, Eq, Structural)]
pub enum ExecutionPhase {
    Before,
    After,
    Both,
}

/// The phase a script is being executed in.
#[derive(Clone, Copy, Debug, PartialEq, Eq, Structural)]
pub enum ScriptExecutionPhase {
    Before,
    After,
}

/// Languages validation scripts are written in.
#[derive(Clone, Copy, Debug, PartialEq, Eq, Structural)]
pub enum ScriptLanguage {
    JavaScript,
    Python,
    Lua,
}

/// A validation script of a test specification.
#[derive(Clone, Debug)]
pub struct ValidationScript {
    pub name: String,
    pub language: ScriptLanguage,
    pub execution_phase: ExecutionPhase,
    pub required: bool,
    pub source: String,
    /// The script's own timeout, if it has one
    pub timeout_ms: Option<u64>,
}

/// A test specification with its validation scripts.
#[derive(Clone, Debug)]
pub struct TestSpec {
    pub name: String,
    pub version: String,
    pub validation_scripts: Option<Vec<ValidationScript>>,
}

/// The result of running one validation script.
#[derive(Clone, Debug)]
pub struct ScriptValidationResult {
    pub script_name: String,
    pub success: bool,
    pub execution_time_ms: u64,
    /// Messages of the errors the script reported
    pub errors: Vec<String>,
    pub logs: Vec<String>,
    pub phase: ScriptExecutionPhase,
}

/// Configuration of the test case executor.
#[derive(Clone, Copy, Debug)]
pub struct ExecutorConfig {
    pub timeout_ms: u64,
    pub retry_attempts: u32,
    pub performance_monitoring: bool,
}

impl Default for ExecutorConfig {
    /// Thirty seconds, three retries, performance monitoring on.
    fn default() -> (r: Self)
        ensures
            r.timeout_ms == 30000,
            r.retry_attempts == 3,
            r.performance_monitoring,
    {
        ExecutorConfig { timeout_ms: 30000, retry_attempts: 3, performance_monitoring: true }
    }
}

/// Metrics of one test case execution.
#[derive(Clone, Copy, Debug)]
pub struct ExecutionMetrics {
    pub duration_ms: u64,
    pub memory_usage: Option<u64>,
    pub network_latency_ms: Option<u64>,
    pub retry_count: u32,
    pub script_execution_time_ms: u64,
    pub script_count: u32,
}

/// Errors that can occur during test case execution.
#[derive(Clone, Debug)]
pub enum ExecutorError {
    ConnectionError(String),
    TimeoutError { timeout_ms: u64 },
    ToolCallError(String),
    ValidationError(String),
    MetricsError(String),
    ConfigError(String),
}

/// The result of one test case.
#[derive(Clone, Debug)]
pub struct TestCaseResult {
    pub test_name: String,
    pub tool_name: String,
    pub success: bool,
    pub execution_time_ms: u64,
    /// Whether the response met the expected output
    pub validation_valid: bool,
    pub script_results: Vec<ScriptValidationResult>,
    pub metrics: ExecutionMetrics,
    pub error: Option<String>,
}

/// Whether a script of the given phase runs in an execution phase.
pub open spec fn runs_in(s: ExecutionPhase, p: ScriptExecutionPhase) -> bool {
    match p {
        ScriptExecutionPhase::Before => s == ExecutionPhase::Before || s == ExecutionPhase::Both,
        ScriptExecutionPhase::After => s == ExecutionPhase::After || s == ExecutionPhase::Both,
    }
}

/// The scripts that run in a phase, in order.
pub open spec fn phase_scripts(s: Seq<ValidationScript>, p: ScriptExecutionPhase) -> Seq<ValidationScript>
    decreases s.len(),
{
    if s.len() == 0 {
        seq![]
    } else {
        phase_scripts(s.drop_last(), p) + if runs_in(s.last().execution_phase, p) {
            seq![s.last()]
        } else {
            seq![]
        }
    }
}

/// The scripts that run in a phase, in order: those of that phase and
/// those of both phases.
pub fn scripts_for_phase(scripts: &Vec<ValidationScript>, p: ScriptExecutionPhase) -> (r: Vec<
    ValidationScript,
>)
    ensures
        r@ == phase_scripts(scripts@, p),
{
    let mut r: Vec<ValidationScript> = Vec::new();
    let mut i: usize = 0;
    while i < scripts.len()
        invariant
            i <= scripts@.len(),
            r@ == phase_scripts(scripts@.subrange(0, i as int), p),
        decreases scripts@.len() - i,
    {
        let ghost prev = scripts@.subrange(0, i as int);
        let ghost next = scripts@.subrange(0, i + 1);
        assert(next.drop_last() =~= prev);
        let s = &scripts[i];
        let keep = match p {
            ScriptExecutionPhase::Before => match s.execution_phase {
                ExecutionPhase::Before | ExecutionPhase::Both => true,
                ExecutionPhase::After => false,
            },
            ScriptExecutionPhase::After => match s.execution_phase {
                ExecutionPhase::After | ExecutionPhase::Both => true,
                ExecutionPhase::Before => false,
            },
        };
        if keep {
            let c = ValidationScript {
                name: s.name.clone(),
                language: s.language,
                execution_phase: s.execution_phase,
                required: s.required,
                source: s.source.clone(),
                timeout_ms: s.timeout_ms,
            };
            assert(c == scripts@[i as int]);
            r.push(c);
        }
        assert(r@ =~= phase_scripts(next, p));
        i = i + 1;
    }
    assert(scripts@.subrange(0, scripts@.len() as int) =~= scripts@);
    r
}

/// Some required script failed: the scripts and their results are paired
/// in order (up to the shorter of the two).
pub open spec fn required_failed(s: Seq<ValidationScript>, r: Seq<ScriptValidationResult>) -> bool {
    exists|i: int| 0 <= i < s.len() && i < r.len() && (#[trigger] s[i]).required && !r[i].success
}

/// Whether a required script among those run failed.
pub fn any_required_failed(scripts: &Vec<ValidationScript>, results: &Vec<ScriptValidationResult>) -> (r:
    bool)
    ensures
        r == required_failed(scripts@, results@),
{
    let mut i: usize = 0;
    while i < scripts.len() && i < results.len()
        invariant
            i <= scripts@.len(),
            i <= results@.len(),
            forall|k: int| 0 <= k < i ==> !((#[trigger] scripts@[k]).required && !results@[k].success),
        decreases scripts@.len() - i,
    {
        if scripts[i].required && !results[i].success {
            return true;
        }
        i = i + 1;
    }
    false
}

/// Whether `name` is among `names`.
pub open spec fn named(names: Seq<String>, name: Seq<char>) -> bool {
    exists|i: int| 0 <= i < names.len() && (#[trigger] names[i])@ == name
}

fn is_named(names: &Vec<String>, name: &str) -> (r: bool)
    ensures
        r == named(names@, name@),
{
    let mut i: usize = 0;
    while i < names.len()
        invariant
            i <= names@.len(),
            forall|k: int| 0 <= k < i ==> (#[trigger] names@[k])@ != name@,
        decreases names@.len() - i,
    {
        if str_eq(names[i].as_str(), name) {
            return true;
        }
        i = i + 1;
    }
    false
}

/// Every script result succeeded or belongs to a script that is not
/// required.
pub open spec fn scripts_ok(r: Seq<ScriptValidationResult>, required: Seq<String>) -> bool {
    forall|i: int|
        0 <= i < r.len() ==> (#[trigger] r[i]).success || !named(required, r[i].script_name@)
}

/// Whether every script passed that had to: a failed script counts only
/// when its name is among the required ones.
pub fn scripts_succeeded(results: &Vec<ScriptValidationResult>, required: &Vec<String>) -> (r: bool)
    ensures
        r == scripts_ok(results@, required@),
{
    let mut i: usize = 0;
    while i < results.len()
        invariant
            i <= results@.len(),
            forall|k: int|
                0 <= k < i ==> (#[trigger] results@[k]).success || !named(
                    required@,
                    results@[k].script_name@,
                ),
        decreases results@.len() - i,
    {
        if !results[i].success && is_named(required, results[i].script_name.as_str()) {
            return false;
        }
        i = i + 1;
    }
    true
}

/// The total execution time of the scripts.
pub open spec fn script_time(r: Seq<ScriptValidationResult>) -> nat
    decreases r.len(),
{
    if r.len() == 0 {
        0
    } else {
        script_time(r.drop_last()) + r.last().execution_time_ms as nat
    }
}

/// The metrics of an execution that took `duration_ms`: with monitoring,
/// memory is estimated as twice the length of the response text (a
/// kibibyte without a response) and network latency as a tenth of the
/// duration; script times are summed and counted.
pub fn collect_metrics_with_scripts(
    config: &ExecutorConfig,
    duration_ms: u64,
    response_text_len: Option<u64>,
    script_results: &Vec<ScriptValidationResult>,
) -> (r: ExecutionMetrics)
    requires
        match response_text_len {
            Some(n) => 2 * n <= u64::MAX,
            None => true,
        },
        script_time(script_results@) <= u64::MAX,
        script_results@.len() <= u32::MAX,
    ensures
        r.duration_ms == duration_ms,
        r.memory_usage == if config.performance_monitoring {
            Some(
                match response_text_len {
                    Some(n) => (2 * n) as u64,
                    None => 1024u64,
                },
            )
        } else {
            None
        },
        r.network_latency_ms == if config.performance_monitoring {
            Some(duration_ms / 10)
        } else {
            None
        },
        r.retry_count == 0,
        r.script_execution_time_ms == script_time(script_results@),
        r.script_count == script_results@.len(),
{
    let memory_usage = if config.performance_monitoring {
        match response_text_len {
            Some(n) => Some(n * 2),
            None => Some(1024),
        }
    } else {
        None
    };
    let network_latency_ms = if config.performance_monitoring {
        Some(duration_ms / 10)
    } else {
        None
    };
    let mut total: u64 = 0;
    let mut i: usize = 0;
    while i < script_results.len()
        invariant
            i <= script_results@.len(),
            script_time(script_results@) <= u64::MAX,
            total == script_time(script_results@.subrange(0, i as int)),
        decreases script_results@.len() - i,
    {
        assert(script_results@.subrange(0, i + 1).drop_last() =~= script_results@.subrange(
            0,
            i as int,
        ));
        proof {
            lemma_script_time_prefix(script_results@, i + 1);
        }
        total = total + script_results[i].execution_time_ms;
        i = i + 1;
    }
    assert(script_results@.subrange(0, script_results@.len() as int) =~= script_results@);
    ExecutionMetrics {
        duration_ms,
        memory_usage,
        network_latency_ms,
        retry_count: 0,
        script_execution_time_ms: total,
        script_count: script_results.len() as u32,
    }
}

/// The script time of a prefix is at most that of the whole.
pub proof fn lemma_script_time_prefix(r: Seq<ScriptValidationResult>, n: int)
    requires
        0 <= n <= r.len(),
    ensures
        script_time(r.subrange(0, n)) <= script_time(r),
    decreases r.len(),
{
    if n < r.len() {
        assert(r.drop_last().subrange(0, n) =~= r.subrange(0, n));
        lemma_script_time_prefix(r.drop_last(), n);
    } else {
        assert(r.subrange(0, n) =~= r);
    }
}

/// The timeout a script runs under: its own, or the executor's.
pub fn script_timeout(script: &ValidationScript, config: &ExecutorConfig) -> (r: u64)
    ensures
        r == match script.timeout_ms {
            Some(t) => t,
            None => config.timeout_ms,
        },
{
    match script.timeout_ms {
        Some(t) => t,
        None => config.timeout_ms,
    }
}

/// The message of a test that stopped because a required script that runs
/// before the tool call failed.
pub open spec fn before_failed_message() -> Seq<char> {
    "Required 'before' script validation failed"@
}

/// The result of a test case stopped before the tool call because a
/// required script failed.
pub fn stopped_before_call(
    test_name: &str,
    tool_name: &str,
    script_results: Vec<ScriptValidationResult>,
    metrics: ExecutionMetrics,
) -> (r: TestCaseResult)
    ensures
        r.test_name@ == test_name@,
        r.tool_name@ == tool_name@,
        !r.success,
        !r.validation_valid,
        r.execution_time_ms == metrics.duration_ms,
        r.script_results == script_results,
        r.metrics == metrics,
        r.error matches Some(e) && e@ == before_failed_message(),
{
    TestCaseResult {
        test_name: test_name.to_string(),
        tool_name: tool_name.to_string(),
        success: false,
        execution_time_ms: metrics.duration_ms,
        validation_valid: false,
        script_results,
        metrics,
        error: Some("Required 'before' script validation failed".to_string()),
    }
}

/// The result of a test case that ran to the end: it succeeded when the
/// response was valid and every required script passed.
pub fn completed(
    test_name: &str,
    tool_name: &str,
    validation_valid: bool,
    script_results: Vec<ScriptValidationResult>,
    required: &Vec<String>,
    metrics: ExecutionMetrics,
) -> (r: TestCaseResult)
    ensures
        r.test_name@ == test_name@,
        r.tool_name@ == tool_name@,
        r.success == (validation_valid && scripts_ok(script_results@, required@)),
        r.validation_valid == validation_valid,
        r.execution_time_ms == metrics.duration_ms,
        r.script_results == script_results,
        r.metrics == metrics,
        r.success ==> r.error is None,
        !r.success ==> (r.error matches Some(e) && e@ == "Test case validation failed"@),
{
    let ok = scripts_succeeded(&script_results, required);
    let success = validation_valid && ok;
    TestCaseResult {
        test_name: test_name.to_string(),
        tool_name: tool_name.to_string(),
        success,
        execution_time_ms: metrics.duration_ms,
        validation_valid,
        script_results,
        metrics,
        error: if success {
            None
        } else {
            Some("Test case validation failed".to_string())
        },
    }
}

/// Where the execution of a test case stands.
#[derive(Clone, Copy, Debug, PartialEq, Eq, Structural)]
pub enum TestCasePhase {
    /// Not started
    Start,
    /// The scripts that run before the tool call are running
    BeforeScripts,
    /// The tool is being called
    ToolCall,
    /// The scripts that run after the tool call are running
    AfterScripts,
    /// The response is being validated against the expected output
    Validation,
    /// The test case has its result
    Finished,
}

/// The state of one test case's execution: its phase, the validation
/// scripts the test case names, and the script results so far.
pub struct TestCaseState {
    pub phase: TestCasePhase,
    pub scripts: Vec<ValidationScript>,
    pub script_results: Vec<ScriptValidationResult>,
}

/// What happened outside since the last step.
pub enum TestCaseEvent {
    /// The test case starts, with the scripts it names (none without
    /// script validation).
    Begin(Vec<ValidationScript>),
    /// The scripts asked for ran, with these results in their order.
    ScriptsRan(Vec<ScriptValidationResult>),
    /// The tool answered.
    ToolResponded,
    /// The response was validated: whether it met the expected output.
    Validated(bool),
}

/// What the executor is asked to do next.
pub enum TestCaseAction {
    /// Run these scripts in this phase.
    RunScripts(ScriptExecutionPhase, Vec<ValidationScript>),
    /// Call the tool with the test case's input.
    CallTool,
    /// Validate the response against the expected output.
    Validate,
    /// Stop without calling the tool: a required script that runs before
    /// the call failed, so the test case failed.
    StopBeforeCall,
    /// The test case ran to the end; whether it succeeded.
    Complete(bool),
    /// The event does not belong to this phase; nothing to do.
    Ignore,
}

/// The abstract value of an action.
pub enum TestCaseActionView {
    RunScripts(ScriptExecutionPhase, Seq<ValidationScript>),
    CallTool,
    Validate,
    StopBeforeCall,
    Complete(bool),
    Ignore,
}

/// The abstract value of an action.
pub open spec fn action_view(a: TestCaseAction) -> TestCaseActionView {
    match a {
        TestCaseAction::RunScripts(p, s) => TestCaseActionView::RunScripts(p, s@),
        TestCaseAction::CallTool => TestCaseActionView::CallTool,
        TestCaseAction::Validate => TestCaseActionView::Validate,
        TestCaseAction::StopBeforeCall => TestCaseActionView::StopBeforeCall,
        TestCaseAction::Complete(b) => TestCaseActionView::Complete(b),
        TestCaseAction::Ignore => TestCaseActionView::Ignore,
    }
}

/// The abstract value of a state: its phase, scripts and results.
pub open spec fn state_view(s: TestCaseState) -> (
    TestCasePhase,
    Seq<ValidationScript>,
    Seq<ScriptValidationResult>,
) {
    (s.phase, s.scripts@, s.script_results@)
}

/// The names of the required scripts, in order.
pub open spec fn required_names(s: Seq<ValidationScript>) -> Seq<Seq<char>>
    decreases s.len(),
{
    if s.len() == 0 {
        Seq::empty()
    } else if s.last().required {
        required_names(s.drop_last()).push(s.last().name@)
    } else {
        required_names(s.drop_last())
    }
}

/// Every script result succeeded or belongs to a script that is not
/// required.
pub open spec fn results_ok(r: Seq<ScriptValidationResult>, s: Seq<ValidationScript>) -> bool {
    forall|i: int|
        0 <= i < r.len() ==> (#[trigger] r[i]).success || !required_names(s).contains(
            r[i].script_name@,
        )
}

/// The next state and action of a test case's execution.  The scripts
/// that run before the call come first; a required one that fails stops
/// the test case, failed, without calling the tool.  Then the tool is
/// called, the scripts that run after it run, and the response is
/// validated; the test case succeeds when the response is valid and every
/// required script passed.  A phase without scripts is skipped.
pub open spec fn test_case_next(
    s: (TestCasePhase, Seq<ValidationScript>, Seq<ScriptValidationResult>),
    e: TestCaseEvent,
) -> ((TestCasePhase, Seq<ValidationScript>, Seq<ScriptValidationResult>), TestCaseActionView) {
    let (phase, scripts, results) = s;
    match (phase, e) {
        (TestCasePhase::Start, TestCaseEvent::Begin(sc)) => {
            let before = phase_scripts(sc@, ScriptExecutionPhase::Before);
            if before.len() > 0 {
                (
                    (TestCasePhase::BeforeScripts, sc@, results),
                    TestCaseActionView::RunScripts(ScriptExecutionPhase::Before, before),
                )
            } else {
                ((TestCasePhase::ToolCall, sc@, results), TestCaseActionView::CallTool)
            }
        },
        (TestCasePhase::BeforeScripts, TestCaseEvent::ScriptsRan(rs)) => {
            let before = phase_scripts(scripts, ScriptExecutionPhase::Before);
            if required_failed(before, rs@) {
                (
                    (TestCasePhase::Finished, scripts, results + rs@),
                    TestCaseActionView::StopBeforeCall,
                )
            } else {
                ((TestCasePhase::ToolCall, scripts, results + rs@), TestCaseActionView::CallTool)
            }
        },
        (TestCasePhase::ToolCall, TestCaseEvent::ToolResponded) => {
            let after = phase_scripts(scripts, ScriptExecutionPhase::After);
            if after.len() > 0 {
                (
                    (TestCasePhase::AfterScripts, scripts, results),
                    TestCaseActionView::RunScripts(ScriptExecutionPhase::After, after),
                )
            } else {
                ((TestCasePhase::Validation, scripts, results), TestCaseActionView::Validate)
            }
        },
        (TestCasePhase::AfterScripts, TestCaseEvent::ScriptsRan(rs)) => {
            ((TestCasePhase::Validation, scripts, results + rs@), TestCaseActionView::Validate)
        },
        (TestCasePhase::Validation, TestCaseEvent::Validated(valid)) => {
            (
                (TestCasePhase::Finished, scripts, results),
                TestCaseActionView::Complete(valid && results_ok(results, scripts)),
            )
        },
        _ => (s, TestCaseActionView::Ignore),
    }
}

/// The names of the required scripts.
pub fn required_script_names(scripts: &Vec<ValidationScript>) -> (r: Vec<String>)
    ensures
        r@.map_values(|n: String| n@) == required_names(scripts@),
{
    let mut r: Vec<String> = Vec::new();
    let mut i: usize = 0;
    while i < scripts.len()
        invariant
            i <= scripts@.len(),
            r@.map_values(|n: String| n@) == required_names(scripts@.subrange(0, i as int)),
        decreases scripts@.len() - i,
    {
        assert(scripts@.subrange(0, i + 1).drop_last() =~= scripts@.subrange(0, i as int));
        if scripts[i].required {
            let ghost before = r@;
            r.push(scripts[i].name.clone());
            assert(r@.map_values(|n: String| n@) =~= before.map_values(|n: String| n@).push(
                scripts@[i as int].name@,
            ));
        }
        i = i + 1;
    }
    assert(scripts@.subrange(0, scripts@.len() as int) =~= scripts@);
    r
}

proof fn lemma_named_required(names: Seq<String>, s: Seq<ValidationScript>, n: Seq<char>)
    requires
        names.map_values(|x: String| x@) == required_names(s),
    ensures
        named(names, n) == required_names(s).contains(n),
{
    if named(names, n) {
        let i = choose|i: int| 0 <= i < names.len() && (#[trigger] names[i])@ == n;
        assert(names.map_values(|x: String| x@)[i] == n);
    }
    if required_names(s).contains(n) {
        let i = choose|i: int| 0 <= i < required_names(s).len() && required_names(s)[i] == n;
        assert(names.map_values(|x: String| x@)[i] == n);
        assert(names[i]@ == n);
    }
}

/// Whether every script result succeeded or belongs to a script that is
/// not required.
fn results_succeeded(results: &Vec<ScriptValidationResult>, scripts: &Vec<ValidationScript>) -> (r:
    bool)
    ensures
        r == results_ok(results@, scripts@),
{
    let names = required_script_names(scripts);
    let ok = scripts_succeeded(results, &names);
    proof {
        assert forall|x: Seq<char>| named(names@, x) == required_names(scripts@).contains(x) by {
            lemma_named_required(names@, scripts@, x);
        }
        if ok {
            assert forall|i: int| 0 <= i < results@.len() implies (#[trigger] results@[i]).success
                || !required_names(scripts@).contains(results@[i].script_name@) by {
                assert(results@[i].success || !named(names@, results@[i].script_name@));
            }
        } else {
            let i = choose|i: int|
                0 <= i < results@.len() && !((#[trigger] results@[i]).success || !named(
                    names@,
                    results@[i].script_name@,
                ));
            assert(!(results@[i].success || !required_names(scripts@).contains(
                results@[i].script_name@,
            )));
        }
    }
    ok
}

/// One step of a test case's execution: from its state and what happened,
/// the next state and what to do.
pub fn test_case_step(state: TestCaseState, event: TestCaseEvent) -> (r: (
    TestCaseState,
    TestCaseAction,
))
    ensures
        (state_view(r.0), action_view(r.1)) == test_case_next(state_view(state), event),
{
    let TestCaseState { phase, scripts, script_results } = state;
    match (phase, event) {
        (TestCasePhase::Start, TestCaseEvent::Begin(sc)) => {
            let before = scripts_for_phase(&sc, ScriptExecutionPhase::Before);
            if before.len() > 0 {
                (
                    TestCaseState { phase: TestCasePhase::BeforeScripts, scripts: sc, script_results },
                    TestCaseAction::RunScripts(ScriptExecutionPhase::Before, before),
                )
            } else {
                (
                    TestCaseState { phase: TestCasePhase::ToolCall, scripts: sc, script_results },
                    TestCaseAction::CallTool,
                )
            }
        },
        (TestCasePhase::BeforeScripts, TestCaseEvent::ScriptsRan(rs)) => {
            let before = scripts_for_phase(&scripts, ScriptExecutionPhase::Before);
            let failed = any_required_failed(&before, &rs);
            let mut all = script_results;
            let mut rs = rs;
            let ghost rs0 = rs@;
            let ghost all0 = all@;
            all.append(&mut rs);
            assert(all@ == all0 + rs0);
            if failed {
                (
                    TestCaseState { phase: TestCasePhase::Finished, scripts, script_results: all },
                    TestCaseAction::StopBeforeCall,
                )
            } else {
                (
                    TestCaseState { phase: TestCasePhase::ToolCall, scripts, script_results: all },
                    TestCaseAction::CallTool,
                )
            }
        },
        (TestCasePhase::ToolCall, TestCaseEvent::ToolResponded) => {
            let after = scripts_for_phase(&scripts, ScriptExecutionPhase::After);
            if after.len() > 0 {
                (
                    TestCaseState { phase: TestCasePhase::AfterScripts, scripts, script_results },
                    TestCaseAction::RunScripts(ScriptExecutionPhase::After, after),
                )
            } else {
                (
                    TestCaseState { phase: TestCasePhase::Validation, scripts, script_results },
                    TestCaseAction::Validate,
                )
            }
        },
        (TestCasePhase::AfterScripts, TestCaseEvent::ScriptsRan(rs)) => {
            let mut all = script_results;
            let mut rs = rs;
            let ghost rs0 = rs@;
            let ghost all0 = all@;
            all.append(&mut rs);
            assert(all@ == all0 + rs0);
            (
                TestCaseState { phase: TestCasePhase::Validation, scripts, script_results: all },
                TestCaseAction::Validate,
            )
        },
        (TestCasePhase::Validation, TestCaseEvent::Validated(valid)) => {
            let ok = results_succeeded(&script_results, &scripts);
            (
                TestCaseState { phase: TestCasePhase::Finished, scripts, script_results },
                TestCaseAction::Complete(valid && ok),
            )
        },
        (phase, _) => (TestCaseState { phase, scripts, script_results }, TestCaseAction::Ignore),
    }
}

/// The state of a test case not yet started.
pub fn test_case_start() -> (r: TestCaseState)
    ensures
        state_view(r) == (TestCasePhase::Start, Seq::<ValidationScript>::empty(), Seq::<
            ScriptValidationResult,
        >::empty()),
{
    TestCaseState { phase: TestCasePhase::Start, scripts: Vec::new(), script_results: Vec::new() }
}

} // verus!
