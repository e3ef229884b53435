//! Detection of the CI system the harness runs under, and the report
//! settings and metadata that each CI system calls for.  The environment is
//! read by the caller and handed in as (name, value) pairs.

use crate::args::ReportFormat;
use crate::prompts::lookup_arg;
use crate::text::{
    all_ascii, ascii_upper, chars_of, chars_contains, contains_seq, push_str, to_uppercase,
    uppercase_of,
};
use crate::resources::{has_prefix, starts_with};
use vstd::prelude::*;

verus! {

/// CI systems that can be detected.
#[derive(Clone, Copy, Debug, PartialEq, Eq, Structural)]
pub enum CiSystem {
    GitHubActions,
    Jenkins,
    GitLabCI,
    CircleCI,
    Travis,
    BuildKite,
    TeamCity,
}

/// Report settings for a CI system.
#[derive(Clone, Debug)]
pub struct CiConfig {
    /// Where reports go
    pub output_directory: String,
    /// Which formats are generated
    pub formats: Vec<ReportFormat>,
    /// Whether a failed test fails the run
    pub fail_on_errors: bool,
    /// Metadata of the CI run, as (name, value) pairs in the order found
    pub environment_metadata: Vec<(String, String)>,
}

/// The value of a variable of the environment (the first pair of that
/// name).
pub open spec fn env_var(env: Seq<(String, String)>, name: Seq<char>) -> Option<Seq<char>> {
    lookup_arg(env, name)
}

pub open spec fn is_set(env: Seq<(String, String)>, name: Seq<char>) -> bool {
    env_var(env, name) is Some
}

/// The CI system that the environment shows.
pub open spec fn ci_system_of(env: Seq<(String, String)>) -> Option<CiSystem> {
    if is_set(env, "GITHUB_ACTIONS"@) {
        Some(CiSystem::GitHubActions)
    } else if is_set(env, "JENKINS_URL"@) && is_set(env, "BUILD_NUMBER"@) {
        Some(CiSystem::Jenkins)
    } else if is_set(env, "GITLAB_CI"@) {
        Some(CiSystem::GitLabCI)
    } else if is_set(env, "CIRCLECI"@) {
        Some(CiSystem::CircleCI)
    } else if is_set(env, "TRAVIS"@) {
        Some(CiSystem::Travis)
    } else if is_set(env, "BUILDKITE"@) {
        Some(CiSystem::BuildKite)
    } else if is_set(env, "TEAMCITY_VERSION"@) {
        Some(CiSystem::TeamCity)
    } else {
        None
    }
}

/// `base` joined with the component `c`, as `Path::join` does on Unix: an
/// absolute `c` replaces `base`; otherwise a separator is put between them
/// unless `base` is empty or already ends with one.
pub open spec fn join_path(base: Seq<char>, c: Seq<char>) -> Seq<char> {
    if c.len() > 0 && c[0] == '/' {
        c
    } else if base.len() == 0 {
        c
    } else if base.last() == '/' {
        base + c
    } else {
        base + "/"@ + c
    }
}

pub(crate) fn join(base: &str, c: &str) -> (r: String)
    ensures
        r@ == join_path(base@, c@),
{
    if c.unicode_len() > 0 && c.get_char(0) == '/' {
        return c.to_string();
    }
    let n = base.unicode_len();
    let mut r = String::new();
    push_str(&mut r, base);
    if n > 0 && base.get_char(n - 1) != '/' {
        push_str(&mut r, "/");
        proof {
            reveal_strlit("/");
        }
    }
    push_str(&mut r, c);
    r
}

/// The metadata pairs whose variables are set, in the given order.
pub open spec fn metadata_of(env: Seq<(String, String)>, keys: Seq<(Seq<char>, Seq<char>)>) -> Seq<
    (Seq<char>, Seq<char>),
>
    decreases keys.len(),
{
    if keys.len() == 0 {
        seq![]
    } else {
        metadata_of(env, keys.drop_last()) + match env_var(env, keys.last().1) {
            Some(v) => seq![(keys.last().0, v)],
            None => seq![],
        }
    }
}

/// The metadata recorded for each CI system: (name, variable) pairs.
pub open spec fn metadata_keys(ci: Option<CiSystem>) -> Seq<(Seq<char>, Seq<char>)> {
    match ci {
        Some(CiSystem::GitHubActions) => seq![
            ("workflow"@, "GITHUB_WORKFLOW"@),
            ("run_id"@, "GITHUB_RUN_ID"@),
            ("actor"@, "GITHUB_ACTOR"@),
        ],
        Some(CiSystem::Jenkins) => seq![
            ("build_number"@, "BUILD_NUMBER"@),
            ("job_name"@, "JOB_NAME"@),
        ],
        Some(CiSystem::GitLabCI) => seq![
            ("pipeline_id"@, "CI_PIPELINE_ID"@),
            ("job_id"@, "CI_JOB_ID"@),
        ],
        _ => seq![],
    }
}

/// Where reports go under each CI system.
pub open spec fn ci_output_directory(env: Seq<(String, String)>, ci: Option<CiSystem>) -> Seq<
    char,
> {
    match ci {
        Some(CiSystem::GitHubActions) => match env_var(env, "RUNNER_TEMP"@) {
            Some(t) => t,
            None => "/tmp"@,
        },
        Some(CiSystem::Jenkins) => match env_var(env, "WORKSPACE"@) {
            Some(w) => join_path(w, "reports"@),
            None => "./reports"@,
        },
        Some(CiSystem::GitLabCI) => match env_var(env, "CI_PROJECT_DIR"@) {
            Some(d) => join_path(d, "reports"@),
            None => "./reports"@,
        },
        _ => "/tmp/reports"@,
    }
}

/// The formats generated under each CI system.
pub open spec fn ci_formats(ci: Option<CiSystem>) -> Seq<ReportFormat> {
    match ci {
        Some(CiSystem::GitHubActions) => seq![
            ReportFormat::Junit,
            ReportFormat::Html,
            ReportFormat::Json,
        ],
        _ => seq![ReportFormat::Json, ReportFormat::Junit],
    }
}

pub open spec fn pairs_view(v: Seq<(String, String)>) -> Seq<(Seq<char>, Seq<char>)> {
    v.map_values(|p: (String, String)| (p.0@, p.1@))
}

/// The variables worth recording about a run, in the order they are
/// collected.
pub open spec fn relevant_vars() -> Seq<Seq<char>> {
    seq![
        "BUILD_VERSION"@,
        "TEAM_NAME"@,
        "ENVIRONMENT"@,
        "BRANCH_NAME"@,
        "COMMIT_SHA"@,
        "BUILD_NUMBER"@,
        "JOB_NAME"@,
        "PIPELINE_ID"@,
        "GITHUB_WORKFLOW"@,
        "GITHUB_RUN_ID"@,
        "GITHUB_ACTOR"@,
        "GITLAB_CI"@,
        "CI_PIPELINE_ID"@,
        "CI_JOB_ID"@,
        "JENKINS_URL"@,
        "WORKSPACE"@,
        "CIRCLECI"@,
        "TRAVIS"@,
        "BUILDKITE"@,
        "TEAMCITY_VERSION"@,
        "HOSTNAME"@,
        "USER"@,
    ]
}

/// The set variables among `names`, with their values, in order.
pub open spec fn collected(env: Seq<(String, String)>, names: Seq<Seq<char>>) -> Seq<
    (Seq<char>, Seq<char>),
>
    decreases names.len(),
{
    if names.len() == 0 {
        seq![]
    } else {
        collected(env, names.drop_last()) + match env_var(env, names.last()) {
            Some(v) => seq![(names.last(), v)],
            None => seq![],
        }
    }
}

/// The value of the first pair named `name`.
fn find_in<'a>(env: &'a Vec<(String, String)>, name: &str) -> (r: Option<&'a str>)
    ensures
        match env_var(env@, name@) {
            Some(v) => r matches Some(s) && s@ == v,
            None => r is None,
        },
{
    let mut i: usize = 0;
    assert(env@.subrange(0, env@.len() as int) =~= env@);
    while i < env.len()
        invariant
            i <= env@.len(),
            lookup_arg(env@, name@) == lookup_arg(env@.subrange(i as int, env@.len() as int), name@),
        decreases env@.len() - i,
    {
        assert(env@.subrange(i as int, env@.len() as int).drop_first() =~= env@.subrange(
            i + 1,
            env@.len() as int,
        ));
        assert(env@.subrange(i as int, env@.len() as int)[0] == env@[i as int]);
        if crate::text::str_eq(env[i].0.as_str(), name) {
            return Some(env[i].1.as_str());
        }
        i = i + 1;
    }
    assert(env@.subrange(i as int, env@.len() as int).len() == 0);
    None
}

/// Detects the CI system and derives report settings from the
/// environment.
pub struct EnvironmentDetector {}

impl EnvironmentDetector {
    /// A detector.
    pub fn new() -> (r: Self) {
        EnvironmentDetector {  }
    }

    /// The CI system that the environment shows, checked in a fixed order:
    /// GitHub Actions, Jenkins (URL and build number), GitLab CI, CircleCI,
    /// Travis, BuildKite, TeamCity.
    pub fn detect_ci_system(&self, env: &Vec<(String, String)>) -> (r: Option<CiSystem>)
        ensures
            r == ci_system_of(env@),
    {
        if find_in(env, "GITHUB_ACTIONS").is_some() {
            return Some(CiSystem::GitHubActions);
        }
        if find_in(env, "JENKINS_URL").is_some() && find_in(env, "BUILD_NUMBER").is_some() {
            return Some(CiSystem::Jenkins);
        }
        if find_in(env, "GITLAB_CI").is_some() {
            return Some(CiSystem::GitLabCI);
        }
        if find_in(env, "CIRCLECI").is_some() {
            return Some(CiSystem::CircleCI);
        }
        if find_in(env, "TRAVIS").is_some() {
            return Some(CiSystem::Travis);
        }
        if find_in(env, "BUILDKITE").is_some() {
            return Some(CiSystem::BuildKite);
        }
        if find_in(env, "TEAMCITY_VERSION").is_some() {
            return Some(CiSystem::TeamCity);
        }
        None
    }

    /// The report settings for the CI system the environment shows: its
    /// output directory, formats and run metadata; failing on errors always.
    pub fn get_ci_specific_config(&self, env: &Vec<(String, String)>) -> (r: Result<
        CiConfig,
        crate::errors::Error,
    >)
        ensures
            r matches Ok(c) && c.output_directory@ == ci_output_directory(
                env@,
                ci_system_of(env@),
            ) && c.formats@ == ci_formats(ci_system_of(env@)) && c.fail_on_errors && pairs_view(
                c.environment_metadata@,
            ) == metadata_of(env@, metadata_keys(ci_system_of(env@))),
    {
        proof {
            reveal_strlit("/tmp");
            reveal_strlit("./reports");
            reveal_strlit("/tmp/reports");
        }
        let ci = self.detect_ci_system(env);
        let output_directory: String = match ci {
            Some(CiSystem::GitHubActions) => match find_in(env, "RUNNER_TEMP") {
                Some(t) => t.to_string(),
                None => "/tmp".to_string(),
            },
            Some(CiSystem::Jenkins) => match find_in(env, "WORKSPACE") {
                Some(w) => join(w, "reports"),
                None => "./reports".to_string(),
            },
            Some(CiSystem::GitLabCI) => match find_in(env, "CI_PROJECT_DIR") {
                Some(d) => join(d, "reports"),
                None => "./reports".to_string(),
            },
            _ => "/tmp/reports".to_string(),
        };
        let formats = match ci {
            Some(CiSystem::GitHubActions) => vec![
                ReportFormat::Junit,
                ReportFormat::Html,
                ReportFormat::Json,
            ],
            _ => vec![ReportFormat::Json, ReportFormat::Junit],
        };
        let keys: Vec<(&str, &str)> = match ci {
            Some(CiSystem::GitHubActions) => vec![
                ("workflow", "GITHUB_WORKFLOW"),
                ("run_id", "GITHUB_RUN_ID"),
                ("actor", "GITHUB_ACTOR"),
            ],
            Some(CiSystem::Jenkins) => vec![("build_number", "BUILD_NUMBER"), ("job_name", "JOB_NAME")],
            Some(CiSystem::GitLabCI) => vec![("pipeline_id", "CI_PIPELINE_ID"), ("job_id", "CI_JOB_ID")],
            _ => Vec::new(),
        };
        let ghost kv = keys@.map_values(|p: (&str, &str)| (p.0@, p.1@));
        assert(kv =~= metadata_keys(ci));
        let mut metadata: Vec<(String, String)> = Vec::new();
        let mut i: usize = 0;
        while i < keys.len()
            invariant
                i <= keys@.len(),
                kv == keys@.map_values(|p: (&str, &str)| (p.0@, p.1@)),
                pairs_view(metadata@) == metadata_of(env@, kv.subrange(0, i as int)),
            decreases keys@.len() - i,
        {
            assert(kv.subrange(0, i + 1).drop_last() =~= kv.subrange(0, i as int));
            let (name, var) = keys[i];
            let ghost before = metadata@;
            match find_in(env, var) {
                Some(v) => {
                    metadata.push((name.to_string(), v.to_string()));
                },
                None => {},
            }
            assert(pairs_view(metadata@) =~= metadata_of(env@, kv.subrange(0, i + 1)));
            i = i + 1;
        }
        assert(kv.subrange(0, keys@.len() as int) =~= kv);
        Ok(CiConfig { output_directory, formats, fail_on_errors: true, environment_metadata: metadata })
    }

    /// The variables worth recording about a run that are set, with their
    /// values, in a fixed order.
    pub fn get_environment_variables(&self, env: &Vec<(String, String)>) -> (r: Vec<(String, String)>)
        ensures
            pairs_view(r@) == collected(env@, relevant_vars()),
    {
        let names: Vec<&str> = vec![
            "BUILD_VERSION",
            "TEAM_NAME",
            "ENVIRONMENT",
            "BRANCH_NAME",
            "COMMIT_SHA",
            "BUILD_NUMBER",
            "JOB_NAME",
            "PIPELINE_ID",
            "GITHUB_WORKFLOW",
            "GITHUB_RUN_ID",
            "GITHUB_ACTOR",
            "GITLAB_CI",
            "CI_PIPELINE_ID",
            "CI_JOB_ID",
            "JENKINS_URL",
            "WORKSPACE",
            "CIRCLECI",
            "TRAVIS",
            "BUILDKITE",
            "TEAMCITY_VERSION",
            "HOSTNAME",
            "USER",
        ];
        let ghost nv = names@.map_values(|s: &str| s@);
        assert(nv =~= relevant_vars());
        let mut r: Vec<(String, String)> = Vec::new();
        let mut i: usize = 0;
        while i < names.len()
            invariant
                i <= names@.len(),
                nv == names@.map_values(|s: &str| s@),
                pairs_view(r@) == collected(env@, nv.subrange(0, i as int)),
            decreases names@.len() - i,
        {
            assert(nv.subrange(0, i + 1).drop_last() =~= nv.subrange(0, i as int));
            let name = names[i];
            match find_in(env, name) {
                Some(v) => {
                    r.push((name.to_string(), v.to_string()));
                },
                None => {},
            }
            assert(pairs_view(r@) =~= collected(env@, nv.subrange(0, i + 1)));
            i = i + 1;
        }
        assert(nv.subrange(0, names@.len() as int) =~= nv);
        r
    }
}

/// An environment variable that may be recorded with an error: its name
/// starts with `PATH`, `RUST_`, `CARGO_`, `PWD`, `HOME` or `USER`, and its
/// name in upper case holds none of `PASSWORD`, `SECRET`, `KEY`, `TOKEN`,
/// `CREDENTIAL`.
pub open spec fn safe_key(k: Seq<char>) -> bool {
    &&& (has_prefix(k, "PATH"@) || has_prefix(k, "RUST_"@) || has_prefix(k, "CARGO_"@)
        || has_prefix(k, "PWD"@) || has_prefix(k, "HOME"@) || has_prefix(k, "USER"@))
    &&& !(contains_seq(uppercase_of(k), "PASSWORD"@) || contains_seq(uppercase_of(k), "SECRET"@)
        || contains_seq(uppercase_of(k), "KEY"@) || contains_seq(uppercase_of(k), "TOKEN"@)
        || contains_seq(uppercase_of(k), "CREDENTIAL"@))
}

/// A name, in upper case, holds none of the sensitive words.
pub open spec fn no_sensitive_word(u: Seq<char>) -> bool {
    !(contains_seq(u, "PASSWORD"@) || contains_seq(u, "SECRET"@) || contains_seq(u, "KEY"@)
        || contains_seq(u, "TOKEN"@) || contains_seq(u, "CREDENTIAL"@))
}

/// The variables with a safe name, in order.
pub open spec fn safe_vars(v: Seq<(String, String)>) -> Seq<(String, String)>
    decreases v.len(),
{
    if v.len() == 0 {
        Seq::empty()
    } else if safe_key(v.last().0@) {
        safe_vars(v.drop_last()).push(v.last())
    } else {
        safe_vars(v.drop_last())
    }
}

fn is_safe_key(k: &str) -> (r: bool)
    ensures
        r == safe_key(k@),
        r && all_ascii(k@) ==> no_sensitive_word(ascii_upper(k@)),
{
    let safe_prefix = starts_with(k, "PATH") || starts_with(k, "RUST_") || starts_with(k, "CARGO_")
        || starts_with(k, "PWD") || starts_with(k, "HOME") || starts_with(k, "USER");
    if !safe_prefix {
        return false;
    }
    let up = to_uppercase(k);
    let u = chars_of(up.as_str());
    let p1 = chars_of("PASSWORD");
    let p2 = chars_of("SECRET");
    let p3 = chars_of("KEY");
    let p4 = chars_of("TOKEN");
    let p5 = chars_of("CREDENTIAL");
    !(chars_contains(u.as_slice(), p1.as_slice()) || chars_contains(u.as_slice(), p2.as_slice())
        || chars_contains(u.as_slice(), p3.as_slice()) || chars_contains(u.as_slice(), p4.as_slice())
        || chars_contains(u.as_slice(), p5.as_slice()))
}

/// The environment variables that may be recorded with an error context:
/// those with a safe name (see `safe_key`), in order.  An ASCII name that
/// is kept holds no sensitive word, in any case.
pub fn safe_env_vars(vars: &Vec<(String, String)>) -> (r: Vec<(String, String)>)
    ensures
        r@ == safe_vars(vars@),
        forall|i: int|
            0 <= i < r@.len() && all_ascii((#[trigger] r@[i]).0@) ==> no_sensitive_word(
                ascii_upper(r@[i].0@),
            ),
{
    let mut r: Vec<(String, String)> = Vec::new();
    let mut i: usize = 0;
    while i < vars.len()
        invariant
            i <= vars@.len(),
            r@ == safe_vars(vars@.subrange(0, i as int)),
            forall|j: int|
                0 <= j < r@.len() && all_ascii((#[trigger] r@[j]).0@) ==> no_sensitive_word(
                    ascii_upper(r@[j].0@),
                ),
        decreases vars@.len() - i,
    {
        assert(vars@.subrange(0, i + 1).drop_last() =~= vars@.subrange(0, i as int));
        if is_safe_key(vars[i].0.as_str()) {
            let pair = (vars[i].0.clone(), vars[i].1.clone());
            assert(pair == vars@[i as int]);
            let ghost r0 = r@;
            r.push(pair);
            assert(forall|j: int| 0 <= j < r0.len() ==> r@[j] == r0[j]);
        }
        i = i + 1;
    }
    assert(vars@.subrange(0, vars@.len() as int) =~= vars@);
    r
}

} // verus!
