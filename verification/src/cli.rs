//! The command-line application: its parsed arguments, configuration
//! profiles built from `profile save` arguments, watch settings, and the
//! conversions between validation results.

use crate::args::{
    Cli, OrganizationStrategy, ProfileSaveArgs, ReportArgs, ReportFormat, TemplateName,
    TimestampFormat,
};
use crate::branding::BrandingInfo;
use crate::errors::Error;
use crate::text::str_eq;
use crate::validation::{
    BuiltInTemplate, ReportConfig, TemplateSource, ValidationError, ValidationResult,
    ValidationWarning,
};
use vstd::prelude::*;

verus! {

/// The command-line application, over its parsed arguments.
pub struct CliApp {
    args: Cli,
}

impl CliApp {
    /// The application for the given command line.
    pub fn new(args: Cli) -> (r: Result<Self, Error>)
        ensures
            r matches Ok(app) && app.args() == args,
    {
        Ok(CliApp { args })
    }

    /// The parsed command line.
    pub closed spec fn args(&self) -> Cli {
        self.args
    }

    /// The parsed command line.
    pub fn cli(&self) -> (r: &Cli)
        ensures
            *r == self.args(),
    {
        &self.args
    }
}

/// Settings of a file watcher.
#[derive(Clone, Debug)]
pub struct WatchConfig {
    pub input_patterns: Vec<String>,
    pub output_directory: String,
    pub debounce_ms: u64,
    pub formats: Vec<ReportFormat>,
    pub auto_open: bool,
}

/// Where and how report files are laid out.
#[derive(Clone, Debug)]
pub struct FileManagerConfig {
    pub organization: OrganizationStrategy,
    pub timestamp: TimestampFormat,
    pub base_directory: String,
}

impl Default for FileManagerConfig {
    /// Flat layout, ISO timestamps, no base directory.
    fn default() -> (r: Self)
        ensures
            r.organization == OrganizationStrategy::Flat,
            r.timestamp == TimestampFormat::Iso,
            r.base_directory@.len() == 0,
    {
        FileManagerConfig {
            organization: OrganizationStrategy::Flat,
            timestamp: TimestampFormat::Iso,
            base_directory: String::new(),
        }
    }
}

/// A named configuration profile.
#[derive(Clone, Debug)]
pub struct ConfigProfile {
    pub name: String,
    pub description: Option<String>,
    pub report_config: ReportConfig,
    pub file_management: FileManagerConfig,
    pub branding: Option<BrandingInfo>,
    /// Environment variables, as (name, value) pairs
    pub environment_vars: Vec<(String, String)>,
}

/// The built-in template a template name stands for.
pub open spec fn builtin_of(t: TemplateName) -> BuiltInTemplate {
    match t {
        TemplateName::Professional => BuiltInTemplate::Professional,
        TemplateName::Executive => BuiltInTemplate::ExecutiveSummary,
        TemplateName::Technical => BuiltInTemplate::TechnicalDetailed,
        TemplateName::Minimal => BuiltInTemplate::Minimal,
    }
}

fn builtin_template(t: TemplateName) -> (r: BuiltInTemplate)
    ensures
        r == builtin_of(t),
{
    match t {
        TemplateName::Professional => BuiltInTemplate::Professional,
        TemplateName::Executive => BuiltInTemplate::ExecutiveSummary,
        TemplateName::Technical => BuiltInTemplate::TechnicalDetailed,
        TemplateName::Minimal => BuiltInTemplate::Minimal,
    }
}

/// Branding with nothing set.
pub open spec fn no_branding(b: BrandingInfo) -> bool {
    b.company_name is None && b.logo_path is None && b.primary_color is None
        && b.secondary_color is None && b.css_overrides is None
}

impl Default for BrandingInfo {
    /// No branding at all.
    fn default() -> (r: Self)
        ensures
            no_branding(r),
    {
        BrandingInfo {
            company_name: None,
            logo_path: None,
            primary_color: None,
            secondary_color: None,
            css_overrides: None,
        }
    }
}

impl Default for ReportConfig {
    /// Neither performance metrics nor validation details, no template,
    /// no branding, no custom fields and no output directory.
    fn default() -> (r: Self)
        ensures
            !r.include_performance_metrics,
            !r.include_validation_details,
            r.template_source is None,
            no_branding(r.branding),
            r.custom_fields@.len() == 0,
            r.output_directory is None,
    {
        ReportConfig {
            include_performance_metrics: false,
            include_validation_details: false,
            template_source: None,
            branding: BrandingInfo::default(),
            custom_fields: Vec::new(),
            output_directory: None,
        }
    }
}

/// The profile that `profile save` arguments describe: performance and
/// validation details included unless turned off, the chosen built-in
/// template, the chosen layout (flat and ISO timestamps by default) under
/// `./reports`, and nothing else.
pub fn create_profile_from_args(args: &ProfileSaveArgs) -> (r: Result<ConfigProfile, Error>)
    ensures
        r matches Ok(p) && {
            &&& p.name@ == args.name@
            &&& p.description == args.description
            &&& p.report_config.include_performance_metrics == match args.include_performance {
                Some(b) => b,
                None => true,
            }
            &&& p.report_config.include_validation_details == match args.include_validation {
                Some(b) => b,
                None => true,
            }
            &&& match args.template {
                Some(t) => p.report_config.template_source matches Some(TemplateSource::BuiltIn(b))
                    && b == builtin_of(t),
                None => p.report_config.template_source is None,
            }
            &&& no_branding(p.report_config.branding)
            &&& p.report_config.custom_fields@.len() == 0
            &&& p.report_config.output_directory is None
            &&& p.file_management.organization == match args.organization {
                Some(o) => o,
                None => OrganizationStrategy::Flat,
            }
            &&& p.file_management.timestamp == match args.timestamp {
                Some(t) => t,
                None => TimestampFormat::Iso,
            }
            &&& p.file_management.base_directory@ == "./reports"@
            &&& p.branding is None
            &&& p.environment_vars@.len() == 0
        },
{
    let template_source = match args.template {
        Some(t) => Some(TemplateSource::BuiltIn(builtin_template(t))),
        None => None,
    };
    let organization = match args.organization {
        Some(o) => o,
        None => OrganizationStrategy::default(),
    };
    let timestamp = match args.timestamp {
        Some(t) => t,
        None => TimestampFormat::default(),
    };
    let name = args.name.clone();
    let description = match &args.description {
        Some(d) => Some(d.clone()),
        None => None,
    };
    Ok(
        ConfigProfile {
            name,
            description,
            report_config: ReportConfig {
                include_performance_metrics: match args.include_performance {
                    Some(b) => b,
                    None => true,
                },
                include_validation_details: match args.include_validation {
                    Some(b) => b,
                    None => true,
                },
                template_source,
                branding: BrandingInfo::default(),
                custom_fields: Vec::new(),
                output_directory: None,
            },
            file_management: FileManagerConfig {
                organization,
                timestamp,
                base_directory: "./reports".to_string(),
            },
            branding: None,
            environment_vars: Vec::new(),
        },
    )
}

/// The custom fields given, by key: a later value of a key replaces an
/// earlier one.
pub open spec fn fields_map(s: Seq<(String, String)>) -> Map<Seq<char>, Seq<char>>
    decreases s.len(),
{
    if s.len() == 0 {
        Map::empty()
    } else {
        fields_map(s.drop_last()).insert(s.last().0@, s.last().1@)
    }
}

/// A list of fields holds exactly the given map, each key once.
pub open spec fn holds_fields(f: Seq<(String, String)>, m: Map<Seq<char>, Seq<char>>) -> bool {
    &&& forall|i: int, j: int| 0 <= i < j < f.len() ==> (#[trigger] f[i]).0@ != (#[trigger] f[j]).0@
    &&& forall|i: int|
        0 <= i < f.len() ==> m.contains_key((#[trigger] f[i]).0@) && m[f[i].0@] == f[i].1@
    &&& forall|k: Seq<char>| #[trigger] m.contains_key(k) ==> exists|i: int| 0 <= i < f.len() && (#[trigger] f[i]).0@ == k
}

/// The report configuration of a `report` command: the metrics and details
/// asked for, the chosen built-in template (the professional one by
/// default), the given branding, the custom fields (each key once, with
/// its last value), and the output directory.
pub fn report_config_from_args(args: &ReportArgs, branding: BrandingInfo) -> (r: ReportConfig)
    ensures
        r.include_performance_metrics == args.include_performance,
        r.include_validation_details == args.include_validation,
        r.template_source matches Some(TemplateSource::BuiltIn(b)) && b == match args.template {
            Some(t) => builtin_of(t),
            None => BuiltInTemplate::Professional,
        },
        r.branding == branding,
        holds_fields(r.custom_fields@, fields_map(args.custom_fields@)),
        r.output_directory matches Some(d) && d@ == args.output@,
{
    let template = match args.template {
        Some(t) => builtin_template(t),
        None => BuiltInTemplate::Professional,
    };
    let mut fields: Vec<(String, String)> = Vec::new();
    let ghost a = args.custom_fields@;
    let mut i: usize = 0;
    while i < args.custom_fields.len()
        invariant
            a == args.custom_fields@,
            i <= a.len(),
            holds_fields(fields@, fields_map(a.subrange(0, i as int))),
        decreases a.len() - i,
    {
        assert(a.subrange(0, i + 1).drop_last() =~= a.subrange(0, i as int));
        let ghost m0 = fields_map(a.subrange(0, i as int));
        let ghost m1 = fields_map(a.subrange(0, i + 1));
        let k = args.custom_fields[i].0.clone();
        let v = args.custom_fields[i].1.clone();
        let ghost kv = k@;
        let ghost vv = v@;
        assert(m1 == m0.insert(kv, vv));
        let mut j: usize = 0;
        let mut found = false;
        while j < fields.len()
            invariant_except_break
                j <= fields@.len(),
                k@ == kv,
                !found,
                forall|q: int| 0 <= q < j ==> (#[trigger] fields@[q]).0@ != kv,
            ensures
                found ==> j < fields@.len() && fields@[j as int].0@ == kv,
                !found ==> forall|q: int| 0 <= q < fields@.len() ==> (#[trigger] fields@[q]).0@ != kv,
            decreases fields@.len() - j,
        {
            if str_eq(fields[j].0.as_str(), k.as_str()) {
                found = true;
                break;
            }
            j = j + 1;
        }
        let ghost f0 = fields@;
        if found {
            fields.set(j, (k, v));
            proof {
                assert forall|p: int, q: int| 0 <= p < q < fields@.len() implies (#[trigger] fields@[p]).0@
                    != (#[trigger] fields@[q]).0@ by {
                    assert(f0[p].0@ != f0[q].0@);
                }
                assert forall|p: int| 0 <= p < fields@.len() implies m1.contains_key(
                    (#[trigger] fields@[p]).0@,
                ) && m1[fields@[p].0@] == fields@[p].1@ by {
                    if p != j {
                        assert(f0[p] == fields@[p]);
                        assert(f0[p].0@ != f0[j as int].0@ || p == j);
                    }
                }
                assert forall|key: Seq<char>| #[trigger] m1.contains_key(key) implies exists|p: int|
                    0 <= p < fields@.len() && (#[trigger] fields@[p]).0@ == key by {
                    if key == kv {
                        assert(fields@[j as int].0@ == key);
                    } else {
                        let p = choose|p: int| 0 <= p < f0.len() && (#[trigger] f0[p]).0@ == key;
                        assert(fields@[p].0@ == key);
                    }
                }
            }
        } else {
            fields.push((k, v));
            proof {
                assert(!m0.contains_key(kv)) by {
                    if m0.contains_key(kv) {
                        let p = choose|p: int| 0 <= p < f0.len() && (#[trigger] f0[p]).0@ == kv;
                    }
                }
                assert forall|p: int, q: int| 0 <= p < q < fields@.len() implies (#[trigger] fields@[p]).0@
                    != (#[trigger] fields@[q]).0@ by {
                    if q < f0.len() {
                        assert(f0[p].0@ != f0[q].0@);
                    } else {
                        assert(fields@[p] == f0[p]);
                        assert(m0.contains_key(f0[p].0@));
                    }
                }
                assert forall|p: int| 0 <= p < fields@.len() implies m1.contains_key(
                    (#[trigger] fields@[p]).0@,
                ) && m1[fields@[p].0@] == fields@[p].1@ by {
                    if p < f0.len() {
                        assert(fields@[p] == f0[p]);
                        assert(m0.contains_key(f0[p].0@));
                    }
                }
                assert forall|key: Seq<char>| #[trigger] m1.contains_key(key) implies exists|p: int|
                    0 <= p < fields@.len() && (#[trigger] fields@[p]).0@ == key by {
                    if key == kv {
                        assert(fields@[f0.len() as int].0@ == key);
                    } else {
                        let p = choose|p: int| 0 <= p < f0.len() && (#[trigger] f0[p]).0@ == key;
                        assert(fields@[p].0@ == key);
                    }
                }
            }
        }
        i = i + 1;
    }
    assert(a.subrange(0, a.len() as int) =~= a);
    ReportConfig {
        include_performance_metrics: args.include_performance,
        include_validation_details: args.include_validation,
        template_source: Some(TemplateSource::BuiltIn(template)),
        branding,
        custom_fields: fields,
        output_directory: Some(args.output.clone()),
    }
}

/// The formats a profile generates, as shown to the user.
pub fn profile_formats_summary(profile: &ConfigProfile) -> (r: String)
    ensures
        r@ == "HTML, JSON, JUnit"@,
{
    "HTML, JSON, JUnit".to_string()
}

/// The display name of a report format.
pub open spec fn format_name(f: ReportFormat) -> Seq<char> {
    match f {
        ReportFormat::Json => "JSON"@,
        ReportFormat::Html => "HTML"@,
        ReportFormat::Junit => "JUnit"@,
        ReportFormat::Markdown => "Markdown"@,
    }
}

/// The display name of a report format.
pub fn format_to_string(format: &ReportFormat) -> (r: &'static str)
    ensures
        r@ == format_name(*format),
{
    match format {
        ReportFormat::Json => "JSON",
        ReportFormat::Html => "HTML",
        ReportFormat::Junit => "JUnit",
        ReportFormat::Markdown => "Markdown",
    }
}

/// A warning of the MCP protocol validator.
#[derive(Clone, Debug)]
pub struct McpValidationWarning {
    pub message: String,
    pub suggestion: Option<String>,
}

/// The result of the MCP protocol validator: its errors as they display,
/// and its warnings.
#[derive(Clone, Debug)]
pub struct McpValidationResult {
    pub is_valid: bool,
    pub errors: Vec<String>,
    pub warnings: Vec<McpValidationWarning>,
}

/// The protocol validator's result as a command-line validation result:
/// each error and warning under the field `validation`, errors without a
/// location, and no suggestions.
pub fn convert_mcp_to_validation_result(mcp_result: McpValidationResult) -> (r: ValidationResult)
    ensures
        r.is_valid == mcp_result.is_valid,
        r.errors@.len() == mcp_result.errors@.len(),
        forall|i: int|
            0 <= i < r.errors@.len() ==> (#[trigger] r.errors@[i]).field@ == "validation"@
                && r.errors@[i].message@ == mcp_result.errors@[i]@ && r.errors@[i].location is None,
        r.warnings@.len() == mcp_result.warnings@.len(),
        forall|i: int|
            0 <= i < r.warnings@.len() ==> (#[trigger] r.warnings@[i]).field@ == "validation"@
                && r.warnings@[i].message@ == mcp_result.warnings@[i].message@
                && r.warnings@[i].suggestion == mcp_result.warnings@[i].suggestion,
        r.suggestions@.len() == 0,
{
    let mut errors: Vec<ValidationError> = Vec::new();
    let mut i: usize = 0;
    while i < mcp_result.errors.len()
        invariant
            i <= mcp_result.errors@.len(),
            errors@.len() == i,
            forall|k: int|
                0 <= k < i ==> (#[trigger] errors@[k]).field@ == "validation"@
                    && errors@[k].message@ == mcp_result.errors@[k]@ && errors@[k].location is None,
        decreases mcp_result.errors@.len() - i,
    {
        errors.push(
            ValidationError {
                field: "validation".to_string(),
                message: mcp_result.errors[i].clone(),
                location: None,
            },
        );
        i = i + 1;
    }
    let mut warnings: Vec<ValidationWarning> = Vec::new();
    let mut j: usize = 0;
    while j < mcp_result.warnings.len()
        invariant
            j <= mcp_result.warnings@.len(),
            warnings@.len() == j,
            forall|k: int|
                0 <= k < j ==> (#[trigger] warnings@[k]).field@ == "validation"@
                    && warnings@[k].message@ == mcp_result.warnings@[k].message@
                    && warnings@[k].suggestion == mcp_result.warnings@[k].suggestion,
        decreases mcp_result.warnings@.len() - j,
    {
        let suggestion = match &mcp_result.warnings[j].suggestion {
            Some(s) => Some(s.clone()),
            None => None,
        };
        warnings.push(
            ValidationWarning {
                field: "validation".to_string(),
                message: mcp_result.warnings[j].message.clone(),
                suggestion,
            },
        );
        j = j + 1;
    }
    ValidationResult { is_valid: mcp_result.is_valid, errors, warnings, suggestions: Vec::new() }
}

} // verus!
