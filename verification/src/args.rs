//! The command line of the test harness, as plain data: the commands and
//! their arguments, the report formats, templates, file organization and
//! timestamp styles, and the parsing of `key=value` custom fields.
//! Paths are held as strings.

use crate::text::{chars_of, find_from, occurs_at, push_str, string_from_chars};
use vstd::prelude::*;

verus! {

/// The parsed command line.
#[derive(Clone, Debug)]
pub struct Cli {
    pub command: Commands,
    /// How many times `-v` was given
    pub verbose: u8,
    /// Suppress non-essential output
    pub quiet: bool,
    /// Use named configuration profile
    pub profile: Option<String>,
    /// Auto-detect CI environment and apply optimizations
    pub detect_ci: bool,
    /// Override environment detection
    pub simulate_ci: Option<CiSystem>,
    /// Configuration directory for profiles and settings
    pub config_dir: String,
}

/// The subcommands.
#[derive(Clone, Debug)]
pub enum Commands {
    /// Generate test reports from execution results
    Report(ReportArgs),
    /// Run tests and generate reports
    Run(RunArgs),
    /// Validate configuration files
    Validate(ValidateArgs),
    /// Manage configuration profiles
    Profile(ProfileArgs),
    /// Watch files and auto-generate reports
    Watch(WatchArgs),
}

/// Arguments of `report`.
#[derive(Clone, Debug)]
pub struct ReportArgs {
    /// Input file containing test results (JSON format)
    pub input: String,
    /// Output directory for generated reports
    pub output: String,
    /// Report formats to generate
    pub formats: Vec<ReportFormat>,
    /// Built-in template to use
    pub template: Option<TemplateName>,
    /// Custom branding configuration file
    pub branding_config: Option<String>,
    /// Custom fields for metadata (key=value format)
    pub custom_fields: Vec<(String, String)>,
    /// Organization strategy for output files
    pub organize_by: OrganizationStrategy,
    /// Timestamp format for file naming
    pub timestamp: TimestampFormat,
    /// Fail with non-zero exit code if tests failed
    pub fail_on_errors: bool,
    /// Include performance metrics in reports
    pub include_performance: bool,
    /// Include validation details in reports
    pub include_validation: bool,
}

/// Arguments of `run`.
#[derive(Clone, Debug)]
pub struct RunArgs {
    /// Test configuration file
    pub config: String,
    /// Output directory for generated reports
    pub output: Option<String>,
    /// Run tests in parallel
    pub parallel: bool,
    /// Stop execution on first test failure
    pub fail_fast: bool,
}

/// Arguments of `validate`.
#[derive(Clone, Debug)]
pub struct ValidateArgs {
    /// Configuration file to validate
    pub config: String,
    /// Enable strict validation mode (fail on warnings)
    pub strict: bool,
    /// Output directory for validation reports
    pub output: Option<String>,
    /// Report formats to generate for validation results
    pub formats: Vec<ReportFormat>,
    /// Check JSONPath expressions in test cases
    pub check_jsonpath: bool,
    /// Validate JSON schema compliance
    pub check_schema: bool,
    /// Validate MCP protocol compliance
    pub check_protocol: bool,
    /// Enable all validation checks
    pub check_all: bool,
    /// Enable detailed validation diagnostics
    pub detailed: bool,
    /// Only validate, don't suggest fixes
    pub no_suggestions: bool,
}

/// Arguments of `profile`.
#[derive(Clone, Debug)]
pub struct ProfileArgs {
    pub command: ProfileCommand,
}

/// The profile subcommands.
#[derive(Clone, Debug)]
pub enum ProfileCommand {
    /// Save current configuration as a named profile
    Save(ProfileSaveArgs),
    /// Load and apply a named profile
    Load(ProfileLoadArgs),
    /// List all available profiles
    List,
    /// Delete a named profile
    Delete(ProfileDeleteArgs),
    /// Export profile to file
    Export(ProfileExportArgs),
    /// Import profile from file
    Import(ProfileImportArgs),
    /// Show profile details
    Show(ProfileShowArgs),
}

/// Arguments of `profile save`.
#[derive(Clone, Debug)]
pub struct ProfileSaveArgs {
    /// Profile name
    pub name: String,
    /// Profile description
    pub description: Option<String>,
    /// Report formats to include
    pub formats: Vec<ReportFormat>,
    /// Template to use
    pub template: Option<TemplateName>,
    /// Organization strategy
    pub organization: Option<OrganizationStrategy>,
    /// Timestamp format
    pub timestamp: Option<TimestampFormat>,
    /// Include performance metrics
    pub include_performance: Option<bool>,
    /// Include validation details
    pub include_validation: Option<bool>,
    /// Set as default profile
    pub set_default: bool,
}

/// Arguments of `profile load`.
#[derive(Clone, Debug)]
pub struct ProfileLoadArgs {
    /// Profile name to load
    pub name: String,
    /// Apply profile settings globally
    pub global: bool,
}

/// Arguments of `profile delete`.
#[derive(Clone, Debug)]
pub struct ProfileDeleteArgs {
    /// Profile name to delete
    pub name: String,
    /// Skip confirmation prompt
    pub force: bool,
}

/// Arguments of `profile export`.
#[derive(Clone, Debug)]
pub struct ProfileExportArgs {
    /// Profile name to export
    pub name: String,
    /// Output file path
    pub output: String,
    /// Export format
    pub format: ExportFormat,
}

/// Arguments of `profile import`.
#[derive(Clone, Debug)]
pub struct ProfileImportArgs {
    /// Input file path
    pub input: String,
    /// Override profile name
    pub name: Option<String>,
    /// Overwrite existing profile
    pub overwrite: bool,
}

/// Arguments of `profile show`.
#[derive(Clone, Debug)]
pub struct ProfileShowArgs {
    /// Profile name to show
    pub name: String,
    /// Show in detailed format
    pub detailed: bool,
}

/// Arguments of `watch`.
#[derive(Clone, Debug)]
pub struct WatchArgs {
    pub command: WatchCommand,
}

/// The watch subcommands.
#[derive(Clone, Debug)]
pub enum WatchCommand {
    /// Start watching files for changes
    Start(WatchStartArgs),
    /// Stop all watchers
    Stop,
    /// Show watch status
    Status,
}

/// Arguments of `watch start`.
#[derive(Clone, Debug)]
pub struct WatchStartArgs {
    /// Input files or directories to watch
    pub inputs: Vec<String>,
    /// Output directory for generated reports
    pub output: String,
    /// File patterns to watch (glob patterns)
    pub patterns: Vec<String>,
    /// Report formats to generate
    pub formats: Vec<ReportFormat>,
    /// Debounce delay in milliseconds
    pub debounce: u64,
    /// Auto-open reports in browser
    pub auto_open: bool,
    /// Run in background (daemonize)
    pub daemon: bool,
    /// Profile to use for report generation
    pub profile: Option<String>,
}

/// Report output formats.
#[derive(Clone, Copy, Debug, PartialEq, Eq, Structural)]
pub enum ReportFormat {
    Json,
    Junit,
    Html,
    Markdown,
}

/// Built-in report templates.
#[derive(Clone, Copy, Debug, PartialEq, Eq, Structural)]
pub enum TemplateName {
    Professional,
    Executive,
    Technical,
    Minimal,
}

/// How generated files are laid out under the output directory.
#[derive(Clone, Copy, Debug, PartialEq, Eq, Structural)]
pub enum OrganizationStrategy {
    /// All files in output directory
    Flat,
    /// Organized by date: 2025/01/15/reports
    ByDate,
    /// Organized by format: json/, html/, etc.
    ByFormat,
    /// Organized by template: professional/, technical/
    ByTemplate,
}

impl Default for OrganizationStrategy {
    fn default() -> (r: Self)
        ensures
            r == OrganizationStrategy::Flat,
    {
        OrganizationStrategy::Flat
    }
}

/// How timestamps appear in file names.
#[derive(Clone, Copy, Debug, PartialEq, Eq, Structural)]
pub enum TimestampFormat {
    /// 2025-01-15T10-30-45Z
    Iso,
    /// 1736935845
    Unix,
    /// 2025-01-15_10-30-45
    Human,
    /// No timestamp (the variant `None` of the command line)
    NoTimestamp,
}

impl Default for TimestampFormat {
    fn default() -> (r: Self)
        ensures
            r == TimestampFormat::Iso,
    {
        TimestampFormat::Iso
    }
}

/// CI systems that can be simulated from the command line.
#[derive(Clone, Copy, Debug, PartialEq, Eq, Structural)]
pub enum CiSystem {
    GitHubActions,
    Jenkins,
    GitLabCi,
    CircleCi,
    Travis,
    Buildkite,
    TeamCity,
    AzureDevOps,
}

/// Profile export formats.
#[derive(Clone, Copy, Debug, PartialEq, Eq, Structural)]
pub enum ExportFormat {
    Json,
    Yaml,
    Toml,
}

/// `s` holds no `=`.
pub open spec fn no_eq(s: Seq<char>) -> bool {
    forall|j: int| 0 <= j < s.len() ==> s[j] != '='
}

/// `k` is what precedes the first `=` of `s`, and `v` what follows it.
pub open spec fn splits_at_first_eq(s: Seq<char>, k: Seq<char>, v: Seq<char>) -> bool {
    exists|i: int|
        #![trigger s[i]]
        0 <= i < s.len() && s[i] == '=' && no_eq(s.subrange(0, i)) && k == s.subrange(0, i) && v
            == s.subrange(i + 1, s.len() as int)
}

/// The message for a custom field without `=`.
pub open spec fn key_val_error(s: Seq<char>) -> Seq<char> {
    "Invalid key=value format: "@ + s
}

/// Parses a `key=value` custom field: the key is what precedes the first
/// `=`, the value all that follows it (further `=` included).  Without `=`
/// the field is refused with a message that quotes it.
pub fn parse_key_val(s: &str) -> (r: Result<(String, String), String>)
    ensures
        match r {
            Ok((k, v)) => splits_at_first_eq(s@, k@, v@),
            Err(m) => no_eq(s@) && m@ == key_val_error(s@),
        },
{
    let cs = chars_of(s);
    let eq: [char; 1] = ['='];
    match find_from(cs.as_slice(), eq.as_slice(), 0) {
        Some(i) => {
            assert(eq@.len() == 1);
            assert(occurs_at(cs@, eq@, i as int));
            assert(i + 1 <= cs@.len());
            assert(cs@.subrange(i as int, i + 1)[0] == eq@[0]);
            assert forall|j: int| 0 <= j < i implies s@[j] != '=' by {
                if s@[j] == '=' {
                    assert(cs@.subrange(j, j + 1) =~= eq@);
                    assert(occurs_at(cs@, eq@, j));
                }
            }
            let k = string_from_chars(&cs.as_slice()[0..i]);
            let v = string_from_chars(&cs.as_slice()[i + 1..cs.len()]);
            Ok((k, v))
        },
        None => {
            assert forall|j: int| 0 <= j < s@.len() implies s@[j] != '=' by {
                if s@[j] == '=' {
                    assert(cs@.subrange(j, j + 1) =~= eq@);
                    assert(occurs_at(cs@, eq@, j));
                }
            }
            let mut m = String::new();
            push_str(&mut m, "Invalid key=value format: ");
            push_str(&mut m, s);
            proof {
                reveal_strlit("Invalid key=value format: ");
            }
            Err(m)
        },
    }
}

/// The file extension of a report format.
pub open spec fn extension_of(f: ReportFormat) -> Seq<char> {
    match f {
        ReportFormat::Json => "json"@,
        ReportFormat::Junit => "xml"@,
        ReportFormat::Html => "html"@,
        ReportFormat::Markdown => "md"@,
    }
}

/// The directory a report format's files go to.
pub open spec fn format_directory(f: ReportFormat) -> Seq<char> {
    match f {
        ReportFormat::Json => "json"@,
        ReportFormat::Junit => "junit"@,
        ReportFormat::Html => "html"@,
        ReportFormat::Markdown => "markdown"@,
    }
}

/// The directory a template's files go to.
pub open spec fn template_directory(t: TemplateName) -> Seq<char> {
    match t {
        TemplateName::Professional => "professional"@,
        TemplateName::Executive => "executive"@,
        TemplateName::Technical => "technical"@,
        TemplateName::Minimal => "minimal"@,
    }
}

impl ReportFormat {
    /// The file extension of reports in this format.
    pub fn file_extension(&self) -> (r: &'static str)
        ensures
            r@ == extension_of(*self),
    {
        match self {
            ReportFormat::Json => "json",
            ReportFormat::Junit => "xml",
            ReportFormat::Html => "html",
            ReportFormat::Markdown => "md",
        }
    }

    /// The directory name for reports in this format.
    pub fn to_directory_name(&self) -> (r: &'static str)
        ensures
            r@ == format_directory(*self),
    {
        match self {
            ReportFormat::Json => "json",
            ReportFormat::Junit => "junit",
            ReportFormat::Html => "html",
            ReportFormat::Markdown => "markdown",
        }
    }
}

impl TemplateName {
    /// The directory name for reports made with this template.
    pub fn to_directory_name(&self) -> (r: &'static str)
        ensures
            r@ == template_directory(*self),
    {
        match self {
            TemplateName::Professional => "professional",
            TemplateName::Executive => "executive",
            TemplateName::Technical => "technical",
            TemplateName::Minimal => "minimal",
        }
    }
}

} // verus!
