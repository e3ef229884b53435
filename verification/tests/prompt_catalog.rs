use gcore::prompts::{GetPromptParams, ListPromptsParams, PromptContent, PromptManager, RepositoryInfo};

fn manager() -> PromptManager {
    PromptManager::new(Some(RepositoryInfo { path: "/tmp/test-repo".to_string(), file_count: 3 }))
}

fn params(name: &str, args: &[(&str, &str)]) -> GetPromptParams {
    GetPromptParams {
        name: name.to_string(),
        arguments: Some(args.iter().map(|(k, v)| (k.to_string(), v.to_string())).collect()),
    }
}

fn prompt_text(p: &GetPromptParams) -> String {
    let result = manager().get_prompt(p).expect("prompt should be served");
    assert_eq!(result.messages.len(), 1);
    assert_eq!(result.messages[0].role, "user");
    match &result.messages[0].content {
        PromptContent::Text { text } => text.clone(),
        _ => panic!("Expected text content"),
    }
}

#[test]
fn test_list_prompts() {
    let result = manager().list_prompts(ListPromptsParams { cursor: None });
    assert_eq!(result.prompts.len(), 5);
    assert!(result.next_cursor.is_none());
    let names: Vec<String> = result.prompts.iter().map(|p| p.name.clone()).collect();
    for expected in ["repository_overview", "code_analysis", "debug_assistance", "debug_issue", "refactoring_guidance"] {
        assert!(names.contains(&expected.to_string()));
    }
    for prompt in result.prompts {
        assert!(!prompt.name.is_empty());
        assert!(!prompt.description.is_empty());
        if let Some(args) = prompt.arguments {
            for arg in args {
                assert!(!arg.name.is_empty());
                assert!(!arg.description.is_empty());
            }
        }
    }
}

#[test]
fn test_repository_overview_prompt() {
    let text = prompt_text(&params("repository_overview", &[("focus_area", "architecture")]));
    assert!(text.contains("architecture"));
    assert!(text.contains("repository"));
    assert!(text.contains("analyze"));
}

#[test]
fn test_repository_overview_prompt_default_focus() {
    let p = GetPromptParams { name: "repository_overview".to_string(), arguments: None };
    assert!(prompt_text(&p).contains("general"));
}

#[test]
fn test_code_analysis_prompt() {
    let text = prompt_text(&params("code_analysis", &[("file_pattern", "*.py"), ("analysis_type", "security")]));
    assert!(text.contains("security"));
    assert!(text.contains("*.py"));
    assert!(text.contains("analysis"));
}

#[test]
fn test_debug_assistance_prompt() {
    let text = prompt_text(&params(
        "debug_assistance",
        &[("issue_description", "Authentication is failing for some users"), ("affected_files", "main.py, database.py")],
    ));
    assert!(text.contains("Authentication is failing"));
    assert!(text.contains("main.py, database.py"));
    assert!(text.contains("debugging"));
}

#[test]
fn test_debug_assistance_prompt_missing_required_arg() {
    let error = manager().get_prompt(&params("debug_assistance", &[("affected_files", "main.py")])).unwrap_err();
    assert!(error.contains("issue_description"));
    assert!(error.contains("required"));
}

#[test]
fn test_debug_issue_prompt() {
    let text = prompt_text(&params(
        "debug_issue",
        &[
            ("error_location", "main.py:25"),
            ("error_message", "AttributeError: 'NoneType' object has no attribute 'verify_password'"),
        ],
    ));
    assert!(text.contains("main.py:25"));
    assert!(text.contains("AttributeError"));
    assert!(text.contains("verify_password"));
}

#[test]
fn test_debug_issue_prompt_missing_required_arg() {
    let error = manager().get_prompt(&params("debug_issue", &[("error_message", "Some error")])).unwrap_err();
    assert!(error.contains("error_location"));
    assert!(error.contains("required"));
}

#[test]
fn test_refactoring_guidance_prompt() {
    let text = prompt_text(&params(
        "refactoring_guidance",
        &[("target_area", "UserService class"), ("refactoring_goal", "improve testability")],
    ));
    assert!(text.contains("UserService class"));
    assert!(text.contains("improve testability"));
    assert!(text.contains("refactoring"));
}

#[test]
fn test_refactoring_guidance_prompt_missing_required_arg() {
    let error = manager().get_prompt(&params("refactoring_guidance", &[("refactoring_goal", "improve performance")])).unwrap_err();
    assert!(error.contains("target_area"));
    assert!(error.contains("required"));
}

#[test]
fn test_unknown_prompt() {
    let p = GetPromptParams { name: "unknown_prompt".to_string(), arguments: None };
    let error = manager().get_prompt(&p).unwrap_err();
    assert!(error.contains("Unknown prompt"));
    assert!(error.contains("unknown_prompt"));
}
