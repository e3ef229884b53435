use gcore::scripts::ScriptManager;
use gcore::test_case::{
    any_required_failed, scripts_for_phase, ExecutionPhase, ScriptExecutionPhase, ScriptLanguage,
    ValidationScript,
};

fn create_test_validation_script(name: &str, phase: Option<&str>, required: bool) -> ValidationScript {
    ValidationScript {
        name: name.to_string(),
        language: ScriptLanguage::Lua,
        execution_phase: phase.map_or(ExecutionPhase::After, |p| match p {
            "before" => ExecutionPhase::Before,
            "both" => ExecutionPhase::Both,
            _ => ExecutionPhase::After,
        }),
        required,
        source: format!("-- Test script: {}\nreturn true\n", name),
        timeout_ms: None,
    }
}

/// The script references of a test case (none when the list is empty).
fn create_test_case_with_scripts(script_refs: Vec<&str>) -> Option<Vec<String>> {
    if script_refs.is_empty() {
        None
    } else {
        Some(script_refs.iter().map(|s| s.to_string()).collect())
    }
}

#[test]
fn test_script_manager_creation() {
    let scripts = vec![
        create_test_validation_script("validator1", Some("before"), true),
        create_test_validation_script("validator2", Some("after"), false),
    ];

    let result = ScriptManager::new(scripts);
    assert!(result.is_ok(), "Operation should succeed");

    let manager = result.unwrap();
    assert_eq!(manager.available_scripts.len(), 2, "Should have 2 items");
    assert!(manager.available_scripts.contains_key("validator1"));
    assert!(manager.available_scripts.contains_key("validator2"));
}

#[test]
fn test_script_manager_get_scripts_for_test_case() {
    let scripts = vec![
        create_test_validation_script("validator1", Some("before"), true),
        create_test_validation_script("validator2", Some("after"), false),
        create_test_validation_script("validator3", Some("after"), true),
    ];

    let manager = ScriptManager::new(scripts).unwrap();

    // The test case names validator1 and validator3
    let test_case = create_test_case_with_scripts(vec!["validator1", "validator3"]);

    let matching_scripts = manager.get_scripts_for_test_case(&test_case);
    assert_eq!(matching_scripts.len(), 2, "Should have 2 items");

    let script_names: Vec<&str> = matching_scripts.iter().map(|s| s.name.as_str()).collect();
    assert!(script_names.contains(&"validator1"));
    assert!(script_names.contains(&"validator3"));
    assert!(!script_names.contains(&"validator2"));
}

#[test]
fn test_script_manager_filter_by_execution_phase() {
    let scripts = vec![
        create_test_validation_script("before_script", Some("before"), true),
        create_test_validation_script("after_script", Some("after"), false),
        create_test_validation_script("default_script", None, false), // defaults to "after"
    ];

    let manager = ScriptManager::new(scripts).unwrap();
    let test_case = create_test_case_with_scripts(vec!["before_script", "after_script", "default_script"]);
    let all_scripts = manager.get_scripts_for_test_case(&test_case);

    // Filter before phase scripts
    let before_scripts: Vec<_> = all_scripts
        .iter()
        .filter(|s| matches!(s.execution_phase, ExecutionPhase::Before))
        .collect();
    assert_eq!(before_scripts.len(), 1, "Should have 1 items");
    assert_eq!(before_scripts[0].name, "before_script");

    // Filter after phase scripts (including default)
    let after_scripts: Vec<_> = all_scripts
        .iter()
        .filter(|s| !matches!(s.execution_phase, ExecutionPhase::Before))
        .collect();
    assert_eq!(after_scripts.len(), 2, "Should have 2 items");
}

#[test]
fn later_script_of_a_name_replaces_earlier() {
    let scripts = vec![
        create_test_validation_script("check", Some("before"), true),
        create_test_validation_script("other", Some("after"), false),
        create_test_validation_script("check", Some("after"), false),
    ];
    let manager = ScriptManager::new(scripts).unwrap();
    assert_eq!(manager.available_scripts.len(), 2);
    let check = manager.available_scripts.get("check").unwrap();
    assert_eq!(check.execution_phase, ExecutionPhase::After);
    assert!(!manager.is_script_required("check"));
    assert!(!manager.is_script_required("missing"));
}

#[test]
fn scripts_follow_the_test_case_order_and_skip_unknown_names() {
    let scripts = vec![
        create_test_validation_script("a", Some("both"), true),
        create_test_validation_script("b", Some("before"), false),
    ];
    let manager = ScriptManager::new(scripts).unwrap();
    assert!(manager.is_script_required("a"));
    let picked = manager.get_scripts_for_test_case(&create_test_case_with_scripts(vec!["b", "zzz", "a"]));
    let names: Vec<&str> = picked.iter().map(|s| s.name.as_str()).collect();
    assert_eq!(names, vec!["b", "a"]);
    assert!(manager.get_scripts_for_test_case(&create_test_case_with_scripts(vec![])).is_empty());
    let before = scripts_for_phase(&picked, ScriptExecutionPhase::Before);
    assert_eq!(before.len(), 2);
    let after = scripts_for_phase(&picked, ScriptExecutionPhase::After);
    assert_eq!(after.len(), 1);
    assert_eq!(after[0].name, "a");
    assert!(!any_required_failed(&after, &vec![]));
}
