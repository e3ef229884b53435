//! MCP prompts: the catalog of prompts the server offers, and the text of
//! each prompt filled from its arguments and the loaded repository.

use crate::text::{decimal, push_str, str_eq, usize_to_string};
use vstd::prelude::*;

verus! {

/// Prompt capabilities as defined by MCP.
#[derive(Clone, Debug)]
pub struct PromptCapabilities {
    /// Whether the server emits notifications when the list changes
    pub list_changed: Option<bool>,
}

/// An MCP prompt.
#[derive(Clone, Debug)]
pub struct Prompt {
    /// Unique identifier for the prompt
    pub name: String,
    /// Optional human-readable title
    pub title: Option<String>,
    /// Human-readable description
    pub description: String,
    /// Arguments the prompt takes
    pub arguments: Option<Vec<PromptArgument>>,
}

/// A prompt argument.
#[derive(Clone, Debug)]
pub struct PromptArgument {
    /// Argument name
    pub name: String,
    /// Human-readable description
    pub description: String,
    /// Whether the argument is required
    pub required: bool,
}

/// A prompt message.
#[derive(Clone, Debug)]
pub struct PromptMessage {
    /// Role of the message (user, assistant, system)
    pub role: String,
    /// Content of the message
    pub content: PromptContent,
}

/// Prompt content.
#[derive(Clone, Debug)]
pub enum PromptContent {
    /// Text content
    Text { text: String },
    /// Base64-encoded image data and its MIME type
    Image { data: String, mime_type: String },
}

/// Parameters for getting a prompt.  The arguments are those of string
/// value, as (name, value) pairs; where a name occurs twice the first
/// counts.
#[derive(Clone, Debug)]
pub struct GetPromptParams {
    /// Name of the prompt to get
    pub name: String,
    /// Arguments for the prompt
    pub arguments: Option<Vec<(String, String)>>,
}

/// Result of getting a prompt.
#[derive(Clone, Debug)]
pub struct GetPromptResult {
    /// Description of the prompt
    pub description: Option<String>,
    /// Messages that make up the prompt
    pub messages: Vec<PromptMessage>,
}

/// Parameters for listing prompts.
#[derive(Clone, Debug)]
pub struct ListPromptsParams {
    /// Optional cursor for pagination
    pub cursor: Option<String>,
}

/// Result of listing prompts.
#[derive(Clone, Debug)]
pub struct ListPromptsResult {
    /// Available prompts
    pub prompts: Vec<Prompt>,
    /// Optional cursor for pagination
    pub next_cursor: Option<String>,
}

/// What the prompts know of the loaded repository.
#[derive(Clone, Debug)]
pub struct RepositoryInfo {
    /// The repository's path, as displayed
    pub path: String,
    /// How many files were discovered in it
    pub file_count: usize,
}

/// A fixed piece of prompt text.
pub const OVERVIEW_HEAD: &'static str = "Please provide a comprehensive overview of this repository with the following context:\n\n";

/// A fixed piece of prompt text.
pub const OVERVIEW_MIDDLE: &'static str = "\n\nPlease analyze and provide:\n1. Repository structure and organization\n2. Main technologies and frameworks used\n3. Key entry points and important files\n4. Dependencies and external libraries\n5. Code patterns and architectural decisions\n6. Areas for potential improvement\n\nFocus particularly on: ";

/// A fixed piece of prompt text.
pub const OVERVIEW_TAIL: &'static str = "\n\nUse the repository resources and tools available to gather detailed information about the codebase.";

/// A fixed piece of prompt text.
pub const ANALYSIS_HEAD: &'static str = "Please perform a ";

/// A fixed piece of prompt text.
pub const ANALYSIS_CONTEXT: &'static str = " analysis of the codebase with the following context:\n\n";

/// A fixed piece of prompt text.
pub const ANALYSIS_PATTERN: &'static str = "\n\nFile pattern: ";

/// A fixed piece of prompt text.
pub const ANALYSIS_FOCUS: &'static str = "\nAnalysis focus: ";

/// A fixed piece of prompt text.
pub const ANALYSIS_TAIL: &'static str = "\n\nPlease analyze and provide:\n1. Code quality assessment\n2. Potential issues and vulnerabilities\n3. Best practices compliance\n4. Performance considerations\n5. Maintainability factors\n6. Specific recommendations for improvement\n\nUse the available tools to gather detailed information about the code structure and patterns.";

/// A fixed piece of prompt text.
pub const ASSISTANCE_HEAD: &'static str = "I need help debugging the following issue:\n\nIssue Description: ";

/// A fixed piece of prompt text.
pub const ASSISTANCE_FILES: &'static str = "\nAffected Files: ";

/// A fixed piece of prompt text.
pub const ASSISTANCE_TAIL: &'static str = "\n\nPlease help me:\n1. Understand the root cause of this issue\n2. Identify related code that might be contributing to the problem\n3. Suggest debugging steps and approaches\n4. Provide potential solutions or workarounds\n5. Recommend best practices to prevent similar issues\n\nUse the repository tools to examine the relevant code and dependencies.";

/// A fixed piece of prompt text.
pub const ISSUE_HEAD: &'static str = "Please analyze the following error:\n\nError Location: ";

/// A fixed piece of prompt text.
pub const ISSUE_MESSAGE: &'static str = "\nError Message: ";

/// A fixed piece of prompt text.
pub const ISSUE_TAIL: &'static str = "\n\nPlease provide:\n1. Analysis of the error's source and potential impact\n2. Suggestions for debugging and resolving the issue\n3. Recommendations for preventing similar errors in the future\n\nUse the repository tools to understand the code and dependencies related to this error.";

/// A fixed piece of prompt text.
pub const REFACTORING_HEAD: &'static str = "I need guidance for refactoring the following area of the codebase:\n\nTarget Area: ";

/// A fixed piece of prompt text.
pub const REFACTORING_GOAL: &'static str = "\nRefactoring Goal: ";

/// A fixed piece of prompt text.
pub const REFACTORING_TAIL: &'static str = "\n\nPlease provide:\n1. Analysis of the current code structure and patterns\n2. Identification of code smells or areas for improvement\n3. Recommended refactoring approach and strategy\n4. Step-by-step refactoring plan\n5. Potential risks and mitigation strategies\n6. Testing considerations during refactoring\n\nUse the repository tools to understand the current implementation and its dependencies.";

/// The value of the first argument named `key`.
pub open spec fn lookup_arg(args: Seq<(String, String)>, key: Seq<char>) -> Option<Seq<char>>
    decreases args.len(),
{
    if args.len() == 0 {
        None
    } else if args[0].0@ == key {
        Some(args[0].1@)
    } else {
        lookup_arg(args.drop_first(), key)
    }
}

/// The value of argument `key`, if the arguments hold it.
pub open spec fn arg_of(args: Option<Vec<(String, String)>>, key: Seq<char>) -> Option<Seq<char>> {
    match args {
        Some(v) => lookup_arg(v@, key),
        None => None,
    }
}

/// The value of argument `key`, or `default`.
pub open spec fn arg_or(
    args: Option<Vec<(String, String)>>,
    key: Seq<char>,
    default: Seq<char>,
) -> Seq<char> {
    match arg_of(args, key) {
        Some(v) => v,
        None => default,
    }
}

/// The value of argument `key` of the given arguments.
pub fn find_arg<'a>(args: &'a Option<Vec<(String, String)>>, key: &str) -> (r: Option<&'a str>)
    ensures
        match arg_of(*args, key@) {
            Some(v) => r matches Some(s) && s@ == v,
            None => r is None,
        },
{
    match args {
        None => None,
        Some(v) => {
            let mut i: usize = 0;
            assert(v@.subrange(0, v@.len() as int) =~= v@);
            while i < v.len()
                invariant
                    i <= v@.len(),
                    arg_of(*args, key@) == lookup_arg(v@, key@),
                    lookup_arg(v@, key@) == lookup_arg(v@.subrange(i as int, v@.len() as int), key@),
                decreases v@.len() - i,
            {
                assert(v@.subrange(i as int, v@.len() as int).drop_first() =~= v@.subrange(
                    i + 1,
                    v@.len() as int,
                ));
                assert(v@.subrange(i as int, v@.len() as int)[0] == v@[i as int]);
                if str_eq(v[i].0.as_str(), key) {
                    let ghost sub = v@.subrange(i as int, v@.len() as int);
                    assert(sub.len() > 0 && sub[0].0@ == key@);
                    assert(lookup_arg(sub, key@) == Some(sub[0].1@));
                    assert(arg_of(*args, key@) == Some(v@[i as int].1@));
                    return Some(v[i].1.as_str());
                }
                i = i + 1;
            }
            assert(v@.subrange(i as int, v@.len() as int).len() == 0);
            None
        },
    }
}

fn str_or<'a>(v: Option<&'a str>, default: &'a str) -> (r: &'a str)
    ensures
        r@ == match v {
            Some(s) => s@,
            None => default@,
        },
{
    match v {
        Some(s) => s,
        None => default,
    }
}

/// The context line of the repository overview.
pub open spec fn overview_context(repo: Option<RepositoryInfo>, focus: Seq<char>) -> Seq<char> {
    match repo {
        Some(r) => "Repository: "@ + r.path@ + "\nTotal files: "@ + decimal(r.file_count as nat)
            + "\nFocus area: "@ + focus,
        None => "No repository currently loaded"@,
    }
}

/// The context line of the code analysis.
pub open spec fn analysis_context(repo: Option<RepositoryInfo>) -> Seq<char> {
    match repo {
        Some(r) => "Repository: "@ + r.path@,
        None => "No repository currently loaded"@,
    }
}

/// The description and text of a prompt, or the message of its refusal.
pub open spec fn prompt_outcome(
    name: Seq<char>,
    args: Option<Vec<(String, String)>>,
    repo: Option<RepositoryInfo>,
) -> Result<(Seq<char>, Seq<char>), Seq<char>> {
    if name == "repository_overview"@ {
        let focus = arg_or(args, "focus_area"@, "general"@);
        Ok(
            (
                "Repository overview and analysis prompt"@,
                OVERVIEW_HEAD@ + overview_context(repo, focus) + OVERVIEW_MIDDLE@ + focus
                    + OVERVIEW_TAIL@,
            ),
        )
    } else if name == "code_analysis"@ {
        let pattern = arg_or(args, "file_pattern"@, "*"@);
        let kind = arg_or(args, "analysis_type"@, "quality"@);
        Ok(
            (
                "Code analysis and quality assessment prompt"@,
                ANALYSIS_HEAD@ + kind + ANALYSIS_CONTEXT@ + analysis_context(repo)
                    + ANALYSIS_PATTERN@ + pattern + ANALYSIS_FOCUS@ + kind + ANALYSIS_TAIL@,
            ),
        )
    } else if name == "debug_assistance"@ {
        match arg_of(args, "issue_description"@) {
            None => Err("issue_description argument is required"@),
            Some(issue) => Ok(
                (
                    "Debug assistance with repository context"@,
                    ASSISTANCE_HEAD@ + issue + ASSISTANCE_FILES@ + arg_or(
                        args,
                        "affected_files"@,
                        "unknown"@,
                    ) + ASSISTANCE_TAIL@,
                ),
            ),
        }
    } else if name == "debug_issue"@ {
        match arg_of(args, "error_location"@) {
            None => Err("error_location argument is required"@),
            Some(location) => Ok(
                (
                    "Debug issue analysis prompt"@,
                    ISSUE_HEAD@ + location + ISSUE_MESSAGE@ + arg_or(
                        args,
                        "error_message"@,
                        "No error message provided"@,
                    ) + ISSUE_TAIL@,
                ),
            ),
        }
    } else if name == "refactoring_guidance"@ {
        match arg_of(args, "target_area"@) {
            None => Err("target_area argument is required"@),
            Some(target) => Ok(
                (
                    "Refactoring guidance with repository analysis"@,
                    REFACTORING_HEAD@ + target + REFACTORING_GOAL@ + arg_or(
                        args,
                        "refactoring_goal"@,
                        "improve maintainability"@,
                    ) + REFACTORING_TAIL@,
                ),
            ),
        }
    } else {
        Err("Unknown prompt: "@ + name)
    }
}

/// A prompt result with the given description and one user message of
/// the given text.
pub open spec fn single_user_message(g: GetPromptResult, d: Seq<char>, t: Seq<char>) -> bool {
    &&& g.description matches Some(gd) && gd@ == d
    &&& g.messages@.len() == 1
    &&& g.messages@[0].role@ == "user"@
    &&& g.messages@[0].content matches PromptContent::Text { text } && text@ == t
}

/// The names of the prompts offered, in order.
pub open spec fn prompt_names() -> Seq<Seq<char>> {
    seq![
        "repository_overview"@,
        "code_analysis"@,
        "debug_assistance"@,
        "debug_issue"@,
        "refactoring_guidance"@,
    ]
}

/// The arguments of each prompt, by name and whether required.
pub open spec fn prompt_arguments(i: int) -> Seq<(Seq<char>, bool)> {
    if i == 0 {
        seq![("focus_area"@, false)]
    } else if i == 1 {
        seq![("file_pattern"@, false), ("analysis_type"@, false)]
    } else if i == 2 {
        seq![("issue_description"@, true), ("affected_files"@, false)]
    } else if i == 3 {
        seq![("error_location"@, true), ("error_message"@, false)]
    } else {
        seq![("target_area"@, true), ("refactoring_goal"@, false)]
    }
}

/// The prompt's arguments are, in order, the given names and flags.
pub open spec fn arguments_match(p: Prompt, expected: Seq<(Seq<char>, bool)>) -> bool {
    p.arguments matches Some(a) && a@.len() == expected.len() && forall|j: int|
        0 <= j < expected.len() ==> #[trigger] a@[j].name@ == expected[j].0 && a@[j].required
            == expected[j].1
}

fn argument(name: &str, description: &str, required: bool) -> (r: PromptArgument)
    ensures
        r.name@ == name@,
        r.description@ == description@,
        r.required == required,
{
    PromptArgument { name: name.to_string(), description: description.to_string(), required }
}

fn prompt(name: &str, title: &str, description: &str, arguments: Vec<PromptArgument>) -> (r:
    Prompt)
    ensures
        r.name@ == name@,
        r.title matches Some(t) && t@ == title@,
        r.description@ == description@,
        r.arguments == Some(arguments),
{
    Prompt {
        name: name.to_string(),
        title: Some(title.to_string()),
        description: description.to_string(),
        arguments: Some(arguments),
    }
}

fn user_text(description: &str, text: String) -> (r: GetPromptResult)
    ensures
        r.description matches Some(d) && d@ == description@,
        r.messages@.len() == 1,
        r.messages@[0].role@ == "user"@,
        r.messages@[0].content == (PromptContent::Text { text }),
{
    proof {
        reveal_strlit("user");
    }
    GetPromptResult {
        description: Some(description.to_string()),
        messages: vec![PromptMessage { role: "user".to_string(), content: PromptContent::Text { text } }],
    }
}

/// Serves the prompts over what is known of the loaded repository.
pub struct PromptManager {
    repository: Option<RepositoryInfo>,
}

impl PromptManager {
    /// A prompt manager for the given repository, if one is loaded.
    pub fn new(repository: Option<RepositoryInfo>) -> (r: Self)
        ensures
            r.repository() == repository,
    {
        PromptManager { repository }
    }

    /// The repository the prompts speak of.
    pub closed spec fn repository(&self) -> Option<RepositoryInfo> {
        self.repository
    }

    /// The prompts offered: five, with their arguments.
    pub fn list_prompts(&self, params: ListPromptsParams) -> (r: ListPromptsResult)
        ensures
            r.next_cursor is None,
            r.prompts@.len() == 5,
            forall|i: int|
                0 <= i < 5 ==> #[trigger] r.prompts@[i].name@ == prompt_names()[i]
                    && arguments_match(r.prompts@[i], prompt_arguments(i)),
    {
        proof {
            reveal_strlit("repository_overview");
            reveal_strlit("code_analysis");
            reveal_strlit("debug_assistance");
            reveal_strlit("debug_issue");
            reveal_strlit("refactoring_guidance");
            reveal_strlit("focus_area");
            reveal_strlit("file_pattern");
            reveal_strlit("analysis_type");
            reveal_strlit("issue_description");
            reveal_strlit("affected_files");
            reveal_strlit("error_location");
            reveal_strlit("error_message");
            reveal_strlit("target_area");
            reveal_strlit("refactoring_goal");
        }
        let p0 = prompt(
            "repository_overview",
            "Repository Overview",
            "Generate a comprehensive overview of the repository structure and contents",
            vec![
                argument(
                    "focus_area",
                    "Optional area to focus on (architecture, dependencies, entry_points, etc.)",
                    false,
                ),
            ],
        );
        let p1 = prompt(
            "code_analysis",
            "Code Analysis",
            "Analyze code quality, patterns, and potential improvements",
            vec![
                argument("file_pattern", "Optional file pattern to focus analysis on", false),
                argument(
                    "analysis_type",
                    "Type of analysis (quality, security, performance, architecture)",
                    false,
                ),
            ],
        );
        let p2 = prompt(
            "debug_assistance",
            "Debug Assistance",
            "Help debug issues in the codebase with contextual information",
            vec![
                argument("issue_description", "Description of the issue or error", true),
                argument("affected_files", "Files related to the issue", false),
            ],
        );
        let p3 = prompt(
            "debug_issue",
            "Debug Issue",
            "Analyze potential bug sources and dependencies for debugging",
            vec![
                argument("error_location", "File and line where error occurs", true),
                argument("error_message", "Error message or description", false),
            ],
        );
        let p4 = prompt(
            "refactoring_guidance",
            "Refactoring Guidance",
            "Provide guidance for refactoring code with repository context",
            vec![
                argument("target_area", "Area of code to refactor", true),
                argument(
                    "refactoring_goal",
                    "Goal of the refactoring (performance, maintainability, etc.)",
                    false,
                ),
            ],
        );
        let prompts = vec![p0, p1, p2, p3, p4];
        assert forall|i: int|
            0 <= i < 5 implies #[trigger] prompts@[i].name@ == prompt_names()[i]
                && arguments_match(prompts@[i], prompt_arguments(i)) by {}
        ListPromptsResult { prompts, next_cursor: None }
    }

    /// The prompt of the given name, filled from its arguments; a missing
    /// required argument or an unknown name is refused.
    pub fn get_prompt(&self, params: &GetPromptParams) -> (r: Result<GetPromptResult, String>)
        ensures
            match prompt_outcome(params.name@, params.arguments, self.repository()) {
                Ok((d, t)) => r matches Ok(g) && single_user_message(g, d, t),
                Err(m) => r matches Err(e) && e@ == m,
            },
    {
        proof {
            reveal_strlit("repository_overview");
            reveal_strlit("code_analysis");
            reveal_strlit("debug_assistance");
            reveal_strlit("debug_issue");
            reveal_strlit("refactoring_guidance");
            reveal_strlit("Repository: ");
            reveal_strlit("\nTotal files: ");
            reveal_strlit("\nFocus area: ");
            reveal_strlit("No repository currently loaded");
        }
        let name = params.name.as_str();
        let args = &params.arguments;
        if str_eq(name, "repository_overview") {
            let focus = str_or(find_arg(args, "focus_area"), "general");
            let mut text = String::new();
            push_str(&mut text, OVERVIEW_HEAD);
            match &self.repository {
                Some(repo) => {
                    push_str(&mut text, "Repository: ");
                    push_str(&mut text, repo.path.as_str());
                    push_str(&mut text, "\nTotal files: ");
                    let n = usize_to_string(repo.file_count);
                    push_str(&mut text, n.as_str());
                    push_str(&mut text, "\nFocus area: ");
                    push_str(&mut text, focus);
                },
                None => {
                    push_str(&mut text, "No repository currently loaded");
                },
            }
            push_str(&mut text, OVERVIEW_MIDDLE);
            push_str(&mut text, focus);
            push_str(&mut text, OVERVIEW_TAIL);
            assert(text@ =~= OVERVIEW_HEAD@ + overview_context(self.repository, focus@)
                + OVERVIEW_MIDDLE@ + focus@ + OVERVIEW_TAIL@);
            Ok(user_text("Repository overview and analysis prompt", text))
        } else if str_eq(name, "code_analysis") {
            let pattern = str_or(find_arg(args, "file_pattern"), "*");
            let kind = str_or(find_arg(args, "analysis_type"), "quality");
            let mut text = String::new();
            push_str(&mut text, ANALYSIS_HEAD);
            push_str(&mut text, kind);
            push_str(&mut text, ANALYSIS_CONTEXT);
            match &self.repository {
                Some(repo) => {
                    push_str(&mut text, "Repository: ");
                    push_str(&mut text, repo.path.as_str());
                },
                None => {
                    push_str(&mut text, "No repository currently loaded");
                },
            }
            push_str(&mut text, ANALYSIS_PATTERN);
            push_str(&mut text, pattern);
            push_str(&mut text, ANALYSIS_FOCUS);
            push_str(&mut text, kind);
            push_str(&mut text, ANALYSIS_TAIL);
            assert(text@ =~= ANALYSIS_HEAD@ + kind@ + ANALYSIS_CONTEXT@ + analysis_context(
                self.repository,
            ) + ANALYSIS_PATTERN@ + pattern@ + ANALYSIS_FOCUS@ + kind@ + ANALYSIS_TAIL@);
            Ok(user_text("Code analysis and quality assessment prompt", text))
        } else if str_eq(name, "debug_assistance") {
            match find_arg(args, "issue_description") {
                None => Err("issue_description argument is required".to_string()),
                Some(issue) => {
                    let files = str_or(find_arg(args, "affected_files"), "unknown");
                    let mut text = String::new();
                    push_str(&mut text, ASSISTANCE_HEAD);
                    push_str(&mut text, issue);
                    push_str(&mut text, ASSISTANCE_FILES);
                    push_str(&mut text, files);
                    push_str(&mut text, ASSISTANCE_TAIL);
                    assert(text@ =~= ASSISTANCE_HEAD@ + issue@ + ASSISTANCE_FILES@ + files@
                        + ASSISTANCE_TAIL@);
                    Ok(user_text("Debug assistance with repository context", text))
                },
            }
        } else if str_eq(name, "debug_issue") {
            match find_arg(args, "error_location") {
                None => Err("error_location argument is required".to_string()),
                Some(location) => {
                    let message = str_or(find_arg(args, "error_message"), "No error message provided");
                    let mut text = String::new();
                    push_str(&mut text, ISSUE_HEAD);
                    push_str(&mut text, location);
                    push_str(&mut text, ISSUE_MESSAGE);
                    push_str(&mut text, message);
                    push_str(&mut text, ISSUE_TAIL);
                    assert(text@ =~= ISSUE_HEAD@ + location@ + ISSUE_MESSAGE@ + message@
                        + ISSUE_TAIL@);
                    Ok(user_text("Debug issue analysis prompt", text))
                },
            }
        } else if str_eq(name, "refactoring_guidance") {
            match find_arg(args, "target_area") {
                None => Err("target_area argument is required".to_string()),
                Some(target) => {
                    let goal = str_or(find_arg(args, "refactoring_goal"), "improve maintainability");
                    let mut text = String::new();
                    push_str(&mut text, REFACTORING_HEAD);
                    push_str(&mut text, target);
                    push_str(&mut text, REFACTORING_GOAL);
                    push_str(&mut text, goal);
                    push_str(&mut text, REFACTORING_TAIL);
                    assert(text@ =~= REFACTORING_HEAD@ + target@ + REFACTORING_GOAL@ + goal@
                        + REFACTORING_TAIL@);
                    Ok(user_text("Refactoring guidance with repository analysis", text))
                },
            }
        } else {
            let mut m = String::new();
            push_str(&mut m, "Unknown prompt: ");
            push_str(&mut m, name);
            Err(m)
        }
    }
}

} // verus!
