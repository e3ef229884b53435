use gcore::test_case::{
    test_case_start, test_case_step, ExecutionPhase, ScriptExecutionPhase, ScriptLanguage,
    ScriptValidationResult, TestCaseAction, TestCaseEvent, TestCasePhase, ValidationScript,
};

fn script(name: &str, phase: ExecutionPhase, required: bool) -> ValidationScript {
    ValidationScript {
        name: name.to_string(),
        language: ScriptLanguage::Lua,
        execution_phase: phase,
        required,
        source: "return true".to_string(),
        timeout_ms: None,
    }
}

fn outcome(name: &str, success: bool, phase: ScriptExecutionPhase) -> ScriptValidationResult {
    ScriptValidationResult {
        script_name: name.to_string(),
        success,
        execution_time_ms: 5,
        errors: vec![],
        logs: vec![],
        phase,
    }
}

#[test]
fn failed_required_before_script_stops_without_tool_call() {
    let scripts = vec![script("pre", ExecutionPhase::Before, true), script("post", ExecutionPhase::After, false)];
    let (s, a) = test_case_step(test_case_start(), TestCaseEvent::Begin(scripts));
    match a {
        TestCaseAction::RunScripts(ScriptExecutionPhase::Before, run) => {
            assert_eq!(run.len(), 1);
            assert_eq!(run[0].name, "pre");
        }
        _ => panic!("before scripts run first"),
    }
    let (s, a) = test_case_step(s, TestCaseEvent::ScriptsRan(vec![outcome("pre", false, ScriptExecutionPhase::Before)]));
    assert!(matches!(a, TestCaseAction::StopBeforeCall));
    assert_eq!(s.phase, TestCasePhase::Finished);
    assert_eq!(s.script_results.len(), 1);
}

#[test]
fn full_run_with_scripts_on_both_sides() {
    let scripts = vec![
        script("both", ExecutionPhase::Both, false),
        script("post", ExecutionPhase::After, true),
    ];
    let (s, a) = test_case_step(test_case_start(), TestCaseEvent::Begin(scripts));
    assert!(matches!(a, TestCaseAction::RunScripts(ScriptExecutionPhase::Before, _)));
    let (s, a) = test_case_step(s, TestCaseEvent::ScriptsRan(vec![outcome("both", false, ScriptExecutionPhase::Before)]));
    assert!(matches!(a, TestCaseAction::CallTool));
    let (s, a) = test_case_step(s, TestCaseEvent::ToolResponded);
    match &a {
        TestCaseAction::RunScripts(ScriptExecutionPhase::After, run) => assert_eq!(run.len(), 2),
        _ => panic!("after scripts run after the call"),
    }
    let (s, a) = test_case_step(
        s,
        TestCaseEvent::ScriptsRan(vec![
            outcome("both", true, ScriptExecutionPhase::After),
            outcome("post", true, ScriptExecutionPhase::After),
        ]),
    );
    assert!(matches!(a, TestCaseAction::Validate));
    let (s, a) = test_case_step(s, TestCaseEvent::Validated(true));
    // The failed "both" script is not required, so the test case succeeds.
    assert!(matches!(a, TestCaseAction::Complete(true)));
    assert_eq!(s.script_results.len(), 3);
}

#[test]
fn required_after_script_failure_fails_the_test() {
    let scripts = vec![script("post", ExecutionPhase::After, true)];
    let (s, a) = test_case_step(test_case_start(), TestCaseEvent::Begin(scripts));
    assert!(matches!(a, TestCaseAction::CallTool));
    let (s, _) = test_case_step(s, TestCaseEvent::ToolResponded);
    let (s, a) = test_case_step(s, TestCaseEvent::ScriptsRan(vec![outcome("post", false, ScriptExecutionPhase::After)]));
    assert!(matches!(a, TestCaseAction::Validate));
    let (_, a) = test_case_step(s, TestCaseEvent::Validated(true));
    assert!(matches!(a, TestCaseAction::Complete(false)));
}

#[test]
fn no_scripts_goes_straight_to_the_call_and_validation() {
    let (s, a) = test_case_step(test_case_start(), TestCaseEvent::Begin(vec![]));
    assert!(matches!(a, TestCaseAction::CallTool));
    let (s, a) = test_case_step(s, TestCaseEvent::ToolResponded);
    assert!(matches!(a, TestCaseAction::Validate));
    let (s, a) = test_case_step(s, TestCaseEvent::Validated(false));
    assert!(matches!(a, TestCaseAction::Complete(false)));
    let (_, a) = test_case_step(s, TestCaseEvent::ToolResponded);
    assert!(matches!(a, TestCaseAction::Ignore));
}
