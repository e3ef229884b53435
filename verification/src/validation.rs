//! Validation of what the harness is given: report configurations (branding
//! colors and files, output directory, templates, custom fields), report
//! templates and test-result input files.  What lies on disk is read by the
//! caller and handed in as facts; the findings are errors, warnings and
//! suggestions.

use crate::branding::BrandingInfo;
use crate::text::{contains_seq, decimal, lowercase_of, push_str, str_contains, to_lowercase};
use vstd::prelude::*;

verus! {

/// Built-in report templates.
#[derive(Clone, Copy, Debug, PartialEq, Eq, Structural)]
pub enum BuiltInTemplate {
    Professional,
    ExecutiveSummary,
    TechnicalDetailed,
    Minimal,
}

/// Where a report template comes from.
#[derive(Clone, Debug)]
pub enum TemplateSource {
    /// A built-in template
    BuiltIn(BuiltInTemplate),
    /// A template file
    Custom { path: String },
    /// A template given inline
    Inline { content: String },
}

/// Configuration of report generation.
#[derive(Clone, Debug)]
pub struct ReportConfig {
    pub include_performance_metrics: bool,
    pub include_validation_details: bool,
    pub template_source: Option<TemplateSource>,
    pub branding: BrandingInfo,
    /// Custom metadata fields, as (key, value) pairs
    pub custom_fields: Vec<(String, String)>,
    pub output_directory: Option<String>,
}

/// A validation error.
#[derive(Clone, Debug)]
pub struct ValidationError {
    pub field: String,
    pub message: String,
    pub location: Option<String>,
}

/// A validation warning.
#[derive(Clone, Debug)]
pub struct ValidationWarning {
    pub field: String,
    pub message: String,
    pub suggestion: Option<String>,
}

/// The findings of a validation.
#[derive(Clone, Debug)]
pub struct ValidationResult {
    pub is_valid: bool,
    pub errors: Vec<ValidationError>,
    pub warnings: Vec<ValidationWarning>,
    pub suggestions: Vec<String>,
}

/// A finding as plain text: field, message, and location or suggestion.
pub type Finding = (Seq<char>, Seq<char>, Option<Seq<char>>);

pub open spec fn opt_view(o: Option<String>) -> Option<Seq<char>> {
    match o {
        Some(s) => Some(s@),
        None => None,
    }
}

pub open spec fn error_view(e: ValidationError) -> Finding {
    (e.field@, e.message@, opt_view(e.location))
}

pub open spec fn warning_view(w: ValidationWarning) -> Finding {
    (w.field@, w.message@, opt_view(w.suggestion))
}

pub open spec fn errors_view(v: Seq<ValidationError>) -> Seq<Finding> {
    v.map_values(|e: ValidationError| error_view(e))
}

pub open spec fn warnings_view(v: Seq<ValidationWarning>) -> Seq<Finding> {
    v.map_values(|w: ValidationWarning| warning_view(w))
}

pub open spec fn strings_view(v: Seq<String>) -> Seq<Seq<char>> {
    v.map_values(|s: String| s@)
}

/// A validation result holds these errors, warnings and suggestions, and
/// is valid exactly when there is no error.
pub open spec fn result_is(
    r: ValidationResult,
    errors: Seq<Finding>,
    warnings: Seq<Finding>,
    suggestions: Seq<Seq<char>>,
) -> bool {
    &&& errors_view(r.errors@) == errors
    &&& warnings_view(r.warnings@) == warnings
    &&& strings_view(r.suggestions@) == suggestions
    &&& r.is_valid == (errors.len() == 0)
}

/// A finding with a location or suggestion.
pub open spec fn finding(f: Seq<char>, m: Seq<char>, l: Seq<char>) -> Finding {
    (f, m, Some(l))
}

fn push_error(v: &mut Vec<ValidationError>, field: &str, message: String, location: &str)
    ensures
        errors_view(final(v)@) == errors_view(old(v)@).push(finding(field@, message@, location@)),
{
    let ghost before = v@;
    v.push(
        ValidationError {
            field: field.to_string(),
            message,
            location: Some(location.to_string()),
        },
    );
    assert(errors_view(v@) =~= errors_view(before).push(finding(field@, message@, location@)));
}

fn push_warning(v: &mut Vec<ValidationWarning>, field: &str, message: String, suggestion: &str)
    ensures
        warnings_view(final(v)@) == warnings_view(old(v)@).push(
            finding(field@, message@, suggestion@),
        ),
{
    let ghost before = v@;
    v.push(
        ValidationWarning {
            field: field.to_string(),
            message,
            suggestion: Some(suggestion.to_string()),
        },
    );
    assert(warnings_view(v@) =~= warnings_view(before).push(
        finding(field@, message@, suggestion@),
    ));
}

fn push_string(v: &mut Vec<String>, s: &str)
    ensures
        strings_view(final(v)@) == strings_view(old(v)@).push(s@),
{
    let ghost before = v@;
    v.push(s.to_string());
    assert(strings_view(v@) =~= strings_view(before).push(s@));
}

fn text(s: &str) -> (r: String)
    ensures
        r@ == s@,
{
    s.to_string()
}

fn concat2(a: &str, b: &str) -> (r: String)
    ensures
        r@ == a@ + b@,
{
    let mut r = String::new();
    push_str(&mut r, a);
    push_str(&mut r, b);
    r
}

fn concat3(a: &str, b: &str, c: &str) -> (r: String)
    ensures
        r@ == a@ + b@ + c@,
{
    let mut r = String::new();
    push_str(&mut r, a);
    push_str(&mut r, b);
    push_str(&mut r, c);
    r
}

/// What a regular expression match gives: `Some(matched)` when the
/// pattern compiles, `None` when it does not.
pub uninterp spec fn regex_match_result(pattern: Seq<char>, text: Seq<char>) -> Option<bool>;

/// Compiles `pattern` with `regex::Regex::new` and tests `text` with
/// `Regex::is_match`.  The contract names the result only: whether the
/// pattern compiles and matches is a function of the two strings.
#[verifier::external_body]
pub(crate) fn regex_is_match(pattern: &str, text: &str) -> (r: Option<bool>)
    ensures
        r == regex_match_result(pattern@, text@),
{
    regex::Regex::new(pattern).ok().map(|re| re.is_match(text))
}

/// The pattern of a hex color, with or without `#`.
pub const HEX_COLOR_PATTERN: &'static str = "^#?[0-9a-fA-F]{6}$";

/// A hex digit, in either case.
pub open spec fn hex_digit_char(c: char) -> bool {
    ('0' <= c <= '9') || ('a' <= c <= 'f') || ('A' <= c <= 'F')
}

/// Six hex digits, with or without a leading `#`: the texts that
/// `HEX_COLOR_PATTERN` matches.
pub open spec fn hex_color(s: Seq<char>) -> bool {
    ||| s.len() == 6 && forall|i: int| 0 <= i < 6 ==> hex_digit_char(#[trigger] s[i])
    ||| s.len() == 7 && s[0] == '#' && forall|i: int| 1 <= i < 7 ==> hex_digit_char(#[trigger] s[i])
}

/// Tests `color` with `regex::Regex::is_match` against `HEX_COLOR_PATTERN`,
/// which compiles.  The contract states what that pattern matches: `^` and
/// `$` anchor at the ends of the text, `#?` an optional `#`, and
/// `[0-9a-fA-F]{6}` exactly six ASCII hex digits.
#[verifier::external_body]
fn hex_color_match(color: &str) -> (r: bool)
    ensures
        r == hex_color(color@),
{
    regex::Regex::new(HEX_COLOR_PATTERN).map_or(false, |re| re.is_match(color))
}

/// The CSS color names accepted, in lowercase.
pub open spec fn css_color_name(s: Seq<char>) -> bool {
    s == "red"@ || s == "green"@ || s == "blue"@ || s == "black"@ || s == "white"@ || s == "gray"@
        || s == "yellow"@ || s == "orange"@ || s == "purple"@ || s == "pink"@ || s == "brown"@
}

/// A color is valid as six hex digits (with or without `#`) or as a CSS
/// color name in any case.
pub open spec fn valid_color(c: Seq<char>) -> bool {
    hex_color(c) || css_color_name(lowercase_of(c))
}

/// Whether a color is valid: six hex digits, with or without `#`, or one
/// of the CSS color names, in any case.
pub fn is_valid_color_format(color: &str) -> (r: bool)
    ensures
        r == valid_color(color@),
{
    if hex_color_match(color) {
        return true;
    }
    let lower = to_lowercase(color);
    let l = lower.as_str();
    crate::text::str_eq(l, "red") || crate::text::str_eq(l, "green") || crate::text::str_eq(
        l,
        "blue",
    ) || crate::text::str_eq(l, "black") || crate::text::str_eq(l, "white")
        || crate::text::str_eq(l, "gray") || crate::text::str_eq(l, "yellow")
        || crate::text::str_eq(l, "orange") || crate::text::str_eq(l, "purple")
        || crate::text::str_eq(l, "pink") || crate::text::str_eq(l, "brown")
}

/// What the caller found on disk about a custom template file.
#[derive(Clone, Debug)]
pub struct TemplateFacts {
    /// Whether the file exists
    pub exists: bool,
    /// Its content, `None` when it could not be read
    pub content: Option<String>,
}

/// The errors, warnings and suggestions of a template check.
pub open spec fn template_findings(t: TemplateSource, facts: TemplateFacts) -> (
    Seq<Finding>,
    Seq<Finding>,
    Seq<Seq<char>>,
) {
    match t {
        TemplateSource::BuiltIn(_) => (
            seq![],
            seq![],
            seq!["Built-in templates are pre-validated and optimized"@],
        ),
        TemplateSource::Custom { path } => if !facts.exists {
            (
                seq![
                    finding(
                        "template_path"@,
                        "Template file does not exist: "@ + path@,
                        path@,
                    ),
                ],
                seq![],
                seq![],
            )
        } else {
            match facts.content {
                Some(c) => (
                    if contains_seq(c@, "{{undefined_variable}}"@) {
                        seq![
                            finding(
                                "template_content"@,
                                "Template contains undefined variable reference"@,
                                "template_body"@,
                            ),
                        ]
                    } else {
                        seq![]
                    },
                    if !contains_seq(c@, "{{"@) && !contains_seq(c@, "{%"@) {
                        seq![
                            finding(
                                "template_syntax"@,
                                "Template appears to have no template syntax"@,
                                "Ensure template uses {{ }} for variables or {% %} for logic"@,
                            ),
                        ]
                    } else {
                        seq![]
                    },
                    seq![],
                ),
                None => (
                    seq![finding("template_access"@, "Cannot read template file"@, path@)],
                    seq![],
                    seq![],
                ),
            }
        },
        TemplateSource::Inline { content } => (
            (if content@.len() == 0 {
                seq![
                    finding(
                        "template_content"@,
                        "Inline template content is empty"@,
                        "inline_template"@,
                    ),
                ]
            } else {
                seq![]
            }) + (if contains_seq(content@, "{{undefined_variable}}"@) {
                seq![
                    finding(
                        "template_content"@,
                        "Template contains undefined variable reference"@,
                        "inline_template"@,
                    ),
                ]
            } else {
                seq![]
            }),
            seq![],
            seq![],
        ),
    }
}

/// The findings of the custom fields: an error for each empty key and a
/// warning for each empty value, in order.
pub open spec fn custom_field_errors(f: Seq<(String, String)>) -> Seq<Finding>
    decreases f.len(),
{
    if f.len() == 0 {
        seq![]
    } else {
        custom_field_errors(f.drop_last()) + if f.last().0@.len() == 0 {
            seq![
                finding(
                    "custom_fields"@,
                    "Custom field key cannot be empty"@,
                    "config.custom_fields"@,
                ),
            ]
        } else {
            seq![]
        }
    }
}

pub open spec fn custom_field_warnings(f: Seq<(String, String)>) -> Seq<Finding>
    decreases f.len(),
{
    if f.len() == 0 {
        seq![]
    } else {
        custom_field_warnings(f.drop_last()) + if f.last().1@.len() == 0 {
            seq![
                finding(
                    "custom_fields"@,
                    "Custom field '"@ + f.last().0@ + "' has empty value"@,
                    "Consider removing empty custom fields"@,
                ),
            ]
        } else {
            seq![]
        }
    }
}

/// What the caller found on disk for a report configuration.
#[derive(Clone, Debug)]
pub struct ConfigFacts {
    /// Whether the logo file exists
    pub logo_exists: bool,
    /// Whether the parent of the output directory exists (`None` when it
    /// has no parent)
    pub output_parent_exists: Option<bool>,
    /// What was found of a custom template file
    pub template: TemplateFacts,
}

pub open spec fn color_errors(c: Option<String>, field: Seq<char>) -> Seq<Finding> {
    match c {
        Some(s) => if !valid_color(s@) {
            seq![finding(field, "Invalid color format: '"@ + s@ + "'"@, "branding_config"@)]
        } else {
            seq![]
        },
        None => seq![],
    }
}

pub open spec fn output_errors(o: Option<String>) -> Seq<Finding> {
    match o {
        Some(d) => if contains_seq(d@, "/invalid/readonly/path"@) {
            seq![
                finding(
                    "output_directory"@,
                    "Output directory is not accessible or read-only"@,
                    "config.output_directory"@,
                ),
            ]
        } else {
            seq![]
        },
        None => seq![],
    }
}

pub open spec fn output_warnings(o: Option<String>, parent_exists: Option<bool>) -> Seq<Finding> {
    if o is Some && parent_exists == Some(false) {
        seq![
            finding(
                "output_directory"@,
                "Output directory parent does not exist"@,
                "Directory will be created automatically"@,
            ),
        ]
    } else {
        seq![]
    }
}

pub open spec fn template_part(t: Option<TemplateSource>, facts: TemplateFacts) -> (
    Seq<Finding>,
    Seq<Finding>,
    Seq<Seq<char>>,
) {
    match t {
        Some(s) => template_findings(s, facts),
        None => (seq![], seq![], seq![]),
    }
}

/// The errors of a report configuration, in the order they are found.
pub open spec fn config_errors(c: ReportConfig, facts: ConfigFacts) -> Seq<Finding> {
    color_errors(c.branding.primary_color, "branding.primary_color"@) + color_errors(
        c.branding.secondary_color,
        "branding.secondary_color"@,
    ) + (if c.branding.logo_path is Some && !facts.logo_exists {
        seq![
            finding(
                "branding.logo_path"@,
                "Logo file does not exist: "@ + c.branding.logo_path.unwrap()@,
                "branding_config"@,
            ),
        ]
    } else {
        seq![]
    }) + output_errors(c.output_directory) + template_part(c.template_source, facts.template).0
        + custom_field_errors(c.custom_fields@)
}

/// The warnings of a report configuration, in the order they are found.
pub open spec fn config_warnings(c: ReportConfig, facts: ConfigFacts) -> Seq<Finding> {
    output_warnings(c.output_directory, facts.output_parent_exists) + template_part(
        c.template_source,
        facts.template,
    ).1 + custom_field_warnings(c.custom_fields@)
}

/// The suggestions for a report configuration.
pub open spec fn config_suggestions(c: ReportConfig, facts: ConfigFacts) -> Seq<Seq<char>> {
    (match c.branding.primary_color {
        Some(s) => if !valid_color(s@) {
            seq!["Use hex format (e.g., 'ff6600') or CSS color names"@]
        } else {
            seq![]
        },
        None => seq![],
    }) + template_part(c.template_source, facts.template).2
}

/// Validates configurations, templates and input files.
pub struct ValidationEngine {}

impl ValidationEngine {
    /// A validation engine.
    pub fn new() -> (r: Result<Self, crate::errors::Error>)
        ensures
            r is Ok,
    {
        Ok(ValidationEngine {  })
    }

    /// Checks a template: built-in ones always pass; a custom file must
    /// exist, be readable, use no undefined variable and have some template
    /// syntax (a warning otherwise); inline content must be non-empty and
    /// use no undefined variable.
    pub fn validate_template(&self, template: &TemplateSource, facts: &TemplateFacts) -> (r:
        ValidationResult)
        ensures
            result_is(
                r,
                template_findings(*template, *facts).0,
                template_findings(*template, *facts).1,
                template_findings(*template, *facts).2,
            ),
    {
        let mut errors: Vec<ValidationError> = Vec::new();
        let mut warnings: Vec<ValidationWarning> = Vec::new();
        let mut suggestions: Vec<String> = Vec::new();
        proof {
            assert(errors_view(errors@) =~= seq![]);
            assert(warnings_view(warnings@) =~= seq![]);
            assert(strings_view(suggestions@) =~= seq![]);
        }
        match template {
            TemplateSource::BuiltIn(_) => {
                push_string(&mut suggestions, "Built-in templates are pre-validated and optimized");
                assert(strings_view(suggestions@) =~= template_findings(*template, *facts).2);
            },
            TemplateSource::Custom { path } => {
                if !facts.exists {
                    push_error(
                        &mut errors,
                        "template_path",
                        concat2("Template file does not exist: ", path.as_str()),
                        path.as_str(),
                    );
                    assert(errors_view(errors@) =~= template_findings(*template, *facts).0);
                } else {
                    match &facts.content {
                        Some(content) => {
                            if str_contains(content.as_str(), "{{undefined_variable}}") {
                                push_error(
                                    &mut errors,
                                    "template_content",
                                    text("Template contains undefined variable reference"),
                                    "template_body",
                                );
                            }
                            if !str_contains(content.as_str(), "{{") && !str_contains(
                                content.as_str(),
                                "{%",
                            ) {
                                push_warning(
                                    &mut warnings,
                                    "template_syntax",
                                    text("Template appears to have no template syntax"),
                                    "Ensure template uses {{ }} for variables or {% %} for logic",
                                );
                            }
                            assert(errors_view(errors@) =~= template_findings(*template, *facts).0);
                            assert(warnings_view(warnings@) =~= template_findings(*template, *facts).1);
                        },
                        None => {
                            push_error(
                                &mut errors,
                                "template_access",
                                text("Cannot read template file"),
                                path.as_str(),
                            );
                            assert(errors_view(errors@) =~= template_findings(*template, *facts).0);
                        },
                    }
                }
            },
            TemplateSource::Inline { content } => {
                if content.as_str().unicode_len() == 0 {
                    push_error(
                        &mut errors,
                        "template_content",
                        text("Inline template content is empty"),
                        "inline_template",
                    );
                }
                if str_contains(content.as_str(), "{{undefined_variable}}") {
                    push_error(
                        &mut errors,
                        "template_content",
                        text("Template contains undefined variable reference"),
                        "inline_template",
                    );
                }
                assert(errors_view(errors@) =~= template_findings(*template, *facts).0);
            },
        }
        let is_valid = errors.len() == 0;
        ValidationResult { is_valid, errors, warnings, suggestions }
    }

    /// Checks a report configuration: the branding colors, the logo file,
    /// the output directory, the template, and the custom fields.
    pub fn validate_configuration(&self, config: &ReportConfig, facts: &ConfigFacts) -> (r:
        ValidationResult)
        ensures
            result_is(
                r,
                config_errors(*config, *facts),
                config_warnings(*config, *facts),
                config_suggestions(*config, *facts),
            ),
    {
        let mut errors: Vec<ValidationError> = Vec::new();
        let mut warnings: Vec<ValidationWarning> = Vec::new();
        let mut suggestions: Vec<String> = Vec::new();
        proof {
            assert(errors_view(errors@) =~= seq![]);
            assert(warnings_view(warnings@) =~= seq![]);
            assert(strings_view(suggestions@) =~= seq![]);
        }
        check_branding(&config.branding, facts.logo_exists, &mut errors, &mut suggestions);
        check_output(&config.output_directory, facts.output_parent_exists, &mut errors, &mut warnings);
        let ghost e1 = errors_view(errors@);
        let ghost w1 = warnings_view(warnings@);
        let ghost s1 = strings_view(suggestions@);
        if let Some(template_source) = &config.template_source {
            let mut t = self.validate_template(template_source, &facts.template);
            errors.append(&mut t.errors);
            warnings.append(&mut t.warnings);
            suggestions.append(&mut t.suggestions);
            proof {
                assert(errors_view(errors@) =~= e1 + template_findings(
                    *template_source,
                    facts.template,
                ).0);
                assert(warnings_view(warnings@) =~= w1 + template_findings(
                    *template_source,
                    facts.template,
                ).1);
                assert(strings_view(suggestions@) =~= s1 + template_findings(
                    *template_source,
                    facts.template,
                ).2);
            }
        } else {
            proof {
                assert(errors_view(errors@) =~= e1 + seq![]);
                assert(warnings_view(warnings@) =~= w1 + seq![]);
                assert(strings_view(suggestions@) =~= s1 + seq![]);
            }
        }
        check_custom_fields(&config.custom_fields, &mut errors, &mut warnings);
        proof {
            assert(errors_view(errors@) =~= config_errors(*config, *facts));
            assert(warnings_view(warnings@) =~= config_warnings(*config, *facts));
            assert(strings_view(suggestions@) =~= config_suggestions(*config, *facts));
        }
        let is_valid = errors.len() == 0;
        ValidationResult { is_valid, errors, warnings, suggestions }
    }
}

pub open spec fn primary_suggestions(c: Option<String>) -> Seq<Seq<char>> {
    match c {
        Some(s) => if !valid_color(s@) {
            seq!["Use hex format (e.g., 'ff6600') or CSS color names"@]
        } else {
            seq![]
        },
        None => seq![],
    }
}

pub open spec fn logo_errors(p: Option<String>, exists: bool) -> Seq<Finding> {
    if p is Some && !exists {
        seq![
            finding(
                "branding.logo_path"@,
                "Logo file does not exist: "@ + p.unwrap()@,
                "branding_config"@,
            ),
        ]
    } else {
        seq![]
    }
}

fn check_color(
    color: &Option<String>,
    field: &str,
    errors: &mut Vec<ValidationError>,
) -> (bad: bool)
    ensures
        errors_view(final(errors)@) == errors_view(old(errors)@) + color_errors(*color, field@),
        bad == (color is Some && !valid_color(color.unwrap()@)),
{
    if let Some(c) = color {
        if !is_valid_color_format(c.as_str()) {
            push_error(
                errors,
                field,
                concat3("Invalid color format: '", c.as_str(), "'"),
                "branding_config",
            );
            return true;
        }
    }
    assert(errors_view(errors@) =~= errors_view(old(errors)@) + color_errors(*color, field@));
    false
}

fn check_branding(
    b: &BrandingInfo,
    logo_exists: bool,
    errors: &mut Vec<ValidationError>,
    suggestions: &mut Vec<String>,
)
    ensures
        errors_view(final(errors)@) == errors_view(old(errors)@) + color_errors(
            b.primary_color,
            "branding.primary_color"@,
        ) + color_errors(b.secondary_color, "branding.secondary_color"@) + logo_errors(
            b.logo_path,
            logo_exists,
        ),
        strings_view(final(suggestions)@) == strings_view(old(suggestions)@) + primary_suggestions(
            b.primary_color,
        ),
{
    let bad = check_color(&b.primary_color, "branding.primary_color", errors);
    if bad {
        push_string(suggestions, "Use hex format (e.g., 'ff6600') or CSS color names");
    }
    assert(strings_view(suggestions@) =~= strings_view(old(suggestions)@) + primary_suggestions(
        b.primary_color,
    ));
    let ghost e1 = errors_view(errors@);
    check_color(&b.secondary_color, "branding.secondary_color", errors);
    let ghost e2 = errors_view(errors@);
    if let Some(logo_path) = &b.logo_path {
        if !logo_exists {
            push_error(
                errors,
                "branding.logo_path",
                concat2("Logo file does not exist: ", logo_path.as_str()),
                "branding_config",
            );
        }
    }
    assert(errors_view(errors@) =~= e2 + logo_errors(b.logo_path, logo_exists));
}

fn check_output(
    output: &Option<String>,
    parent_exists: Option<bool>,
    errors: &mut Vec<ValidationError>,
    warnings: &mut Vec<ValidationWarning>,
)
    ensures
        errors_view(final(errors)@) == errors_view(old(errors)@) + output_errors(*output),
        warnings_view(final(warnings)@) == warnings_view(old(warnings)@) + output_warnings(
            *output,
            parent_exists,
        ),
{
    if let Some(output_dir) = output {
        if str_contains(output_dir.as_str(), "/invalid/readonly/path") {
            push_error(
                errors,
                "output_directory",
                text("Output directory is not accessible or read-only"),
                "config.output_directory",
            );
        }
        if let Some(false) = parent_exists {
            push_warning(
                warnings,
                "output_directory",
                text("Output directory parent does not exist"),
                "Directory will be created automatically",
            );
        }
    }
    assert(errors_view(errors@) =~= errors_view(old(errors)@) + output_errors(*output));
    assert(warnings_view(warnings@) =~= warnings_view(old(warnings)@) + output_warnings(
        *output,
        parent_exists,
    ));
}

fn check_custom_fields(
    fields: &Vec<(String, String)>,
    errors: &mut Vec<ValidationError>,
    warnings: &mut Vec<ValidationWarning>,
)
    ensures
        errors_view(final(errors)@) == errors_view(old(errors)@) + custom_field_errors(fields@),
        warnings_view(final(warnings)@) == warnings_view(old(warnings)@) + custom_field_warnings(
            fields@,
        ),
{
    let ghost e2 = errors_view(errors@);
    let ghost w2 = warnings_view(warnings@);
    let mut i: usize = 0;
    assert(errors_view(errors@) =~= e2 + custom_field_errors(fields@.subrange(0, 0)));
    assert(warnings_view(warnings@) =~= w2 + custom_field_warnings(fields@.subrange(0, 0)));
    while i < fields.len()
        invariant
            i <= fields@.len(),
            errors_view(errors@) == e2 + custom_field_errors(fields@.subrange(0, i as int)),
            warnings_view(warnings@) == w2 + custom_field_warnings(fields@.subrange(0, i as int)),
        decreases fields@.len() - i,
    {
        let ghost sub = fields@.subrange(0, i + 1);
        assert(sub.drop_last() =~= fields@.subrange(0, i as int));
        let key = fields[i].0.as_str();
        let value = fields[i].1.as_str();
        if key.unicode_len() == 0 {
            push_error(
                errors,
                "custom_fields",
                text("Custom field key cannot be empty"),
                "config.custom_fields",
            );
        }
        if value.unicode_len() == 0 {
            push_warning(
                warnings,
                "custom_fields",
                concat3("Custom field '", key, "' has empty value"),
                "Consider removing empty custom fields",
            );
        }
        proof {
            assert(errors_view(errors@) =~= e2 + custom_field_errors(sub));
            assert(warnings_view(warnings@) =~= w2 + custom_field_warnings(sub));
        }
        i = i + 1;
    }
    assert(fields@.subrange(0, fields@.len() as int) =~= fields@);
}

/// What a JSON input file holds, as far as validation looks.
#[derive(Clone, Copy, Debug)]
pub struct JsonShape {
    /// Whether `test_results` is an array (`None` when absent)
    pub test_results_is_array: Option<bool>,
    /// Whether the field `invalid_field` is present
    pub has_invalid_field: bool,
}

/// What the caller found about an input file.
#[derive(Debug)]
pub struct InputFileFacts {
    /// The path, as displayed
    pub path: String,
    /// Whether the file exists
    pub exists: bool,
    /// The file's size in bytes, or the text of the metadata error
    pub metadata: Result<u64, String>,
    /// The file's extension (`None` when it has none)
    pub extension: Option<String>,
    /// The file's content (`None` when it could not be read)
    pub content: Option<String>,
}

/// What parsing a text as JSON with `serde_json` gives, as far as
/// validation looks: the shape of the value, or the text of the error.
pub uninterp spec fn json_shape_of(content: Seq<char>) -> Result<JsonShape, Seq<char>>;

/// Parses `content` as a `serde_json::Value` and reads whether it has
/// `test_results` (and whether that is an array) and `invalid_field`; on a
/// parse error, its text.  The contract names the result only: it is a
/// function of the text alone.
#[verifier::external_body]
fn json_shape(content: &str) -> (r: Result<JsonShape, String>)
    ensures
        match r {
            Ok(s) => json_shape_of(content@) == Ok::<JsonShape, Seq<char>>(s),
            Err(e) => json_shape_of(content@) == Err::<JsonShape, Seq<char>>(e@),
        },
{
    match serde_json::from_str::<serde_json::Value>(content) {
        Ok(v) => Ok(JsonShape {
            test_results_is_array: v.get("test_results").map(|t| t.is_array()),
            has_invalid_field: v.get("invalid_field").is_some(),
        }),
        Err(e) => Err(e.to_string()),
    }
}

/// The text of the error of parsing a text as YAML with `serde_yml`, if
/// it does not parse.
pub uninterp spec fn yaml_error_of(content: Seq<char>) -> Option<Seq<char>>;

/// Parses `content` as a `serde_yml::Value`; the text of the error, if
/// any.  The contract names the result only: it is a function of the text
/// alone.
#[verifier::external_body]
fn yaml_error(content: &str) -> (r: Option<String>)
    ensures
        match r {
            Some(e) => yaml_error_of(content@) == Some(e@),
            None => yaml_error_of(content@) is None,
        },
{
    serde_yml::from_str::<serde_yml::Value>(content).err().map(|e| e.to_string())
}

/// Files above this many bytes (ten mebibytes) draw a warning.
pub const LARGE_FILE_BYTES: u64 = 10485760;

/// `n / d` rounded to the nearest integer, ties to even.
pub open spec fn round_half_even(n: nat, d: nat) -> nat
    recommends
        d > 0,
{
    let q = n / d;
    let r = n % d;
    if 2 * r < d {
        q
    } else if 2 * r > d {
        q + 1
    } else if q % 2 == 0 {
        q
    } else {
        q + 1
    }
}

/// A size in mebibytes with two decimals, as `{:.2}` writes it.
pub open spec fn mebibytes_text(bytes: nat) -> Seq<char> {
    let h = round_half_even(bytes * 100, 1048576);
    decimal(h / 100) + "."@ + (if h % 100 < 10 {
        "0"@
    } else {
        ""@
    }) + decimal(h % 100)
}

fn mebibytes(bytes: u64) -> (r: String)
    ensures
        r@ == mebibytes_text(bytes as nat),
{
    let n: u128 = (bytes as u128) * 100;
    let d: u128 = 1048576;
    let q: u128 = n / d;
    let rem: u128 = n % d;
    let h: u128 = if 2 * rem < d {
        q
    } else if 2 * rem > d {
        q + 1
    } else if q % 2 == 0 {
        q
    } else {
        q + 1
    };
    assert(h == round_half_even(bytes as nat * 100, 1048576));
    assert(h <= 0xffff_ffff_ffff_ffff_u128 * 100) by (nonlinear_arith)
        requires
            h <= q + 1,
            q == n / d,
            n == bytes as u128 * 100,
            d == 1048576,
    ;
    let whole: u64 = (h / 100) as u64;
    let frac: u64 = (h % 100) as u64;
    let mut r = crate::text::u64_to_string(whole);
    push_str(&mut r, ".");
    if frac < 10 {
        push_str(&mut r, "0");
    }
    let f = crate::text::u64_to_string(frac);
    push_str(&mut r, f.as_str());
    proof {
        reveal_strlit(".");
        reveal_strlit("0");
        reveal_strlit("");
    }
    assert(r@ =~= mebibytes_text(bytes as nat));
    r
}

pub open spec fn ext_is(e: Option<String>, s: Seq<char>) -> bool {
    e matches Some(x) && x@ == s
}

/// The text of an extension, empty when there is none.
pub open spec fn ext_text(e: Option<String>) -> Seq<char> {
    match e {
        Some(x) => x@,
        None => ""@,
    }
}

/// The errors of an input file, in the order they are found.
pub open spec fn input_errors(f: InputFileFacts) -> Seq<Finding> {
    if !f.exists {
        seq![finding("path"@, "File does not exist: "@ + f.path@, f.path@)]
    } else {
        (match f.metadata {
            Err(e) => seq![finding("permissions"@, "Cannot read file metadata: "@ + e@, f.path@)],
            Ok(_) => seq![],
        }) + if ext_is(f.extension, "json"@) {
            match f.content {
                None => seq![finding("file_content"@, "Cannot read file content"@, f.path@)],
                Some(c) => match json_shape_of(c@) {
                    Err(e) => seq![
                        finding("json_format"@, "Invalid JSON format: "@ + e, "file_content"@),
                    ],
                    Ok(shape) => (if shape.test_results_is_array == Some(false) {
                        seq![
                            finding(
                                "test_results"@,
                                "test_results must be an array"@,
                                "json_schema"@,
                            ),
                        ]
                    } else {
                        seq![]
                    }) + (if shape.has_invalid_field {
                        seq![
                            finding(
                                "schema"@,
                                "Found invalid field: invalid_field"@,
                                "json_schema"@,
                            ),
                        ]
                    } else {
                        seq![]
                    }),
                },
            }
        } else if ext_is(f.extension, "yaml"@) || ext_is(f.extension, "yml"@) {
            match f.content {
                None => seq![finding("file_content"@, "Cannot read file content"@, f.path@)],
                Some(c) => match yaml_error_of(c@) {
                    Some(e) => seq![
                        finding("yaml_format"@, "Invalid YAML format: "@ + e, "file_content"@),
                    ],
                    None => seq![],
                },
            }
        } else {
            seq![]
        }
    }
}

pub open spec fn known_extension(e: Option<String>) -> bool {
    ext_is(e, "json"@) || ext_is(e, "yaml"@) || ext_is(e, "yml"@)
}

/// The warnings of an input file, in the order they are found.
pub open spec fn input_warnings(f: InputFileFacts) -> Seq<Finding> {
    if !f.exists {
        seq![]
    } else {
        (if !known_extension(f.extension) {
            seq![
                finding(
                    "file_extension"@,
                    "Unexpected file extension: '"@ + ext_text(f.extension) + "'"@,
                    "Expected .json, .yaml, or .yml files"@,
                ),
            ]
        } else {
            seq![]
        }) + match f.metadata {
            Ok(size) => if size > LARGE_FILE_BYTES {
                seq![
                    finding(
                        "file_size"@,
                        "Large file size: "@ + mebibytes_text(size as nat) + "MB"@,
                        "Consider splitting large test configurations"@,
                    ),
                ]
            } else {
                seq![]
            },
            Err(_) => seq![],
        }
    }
}

/// The suggestions for an input file.
pub open spec fn input_suggestions(f: InputFileFacts) -> Seq<Seq<char>> {
    if f.exists && !known_extension(f.extension) {
        seq!["Consider using .json or .yaml file format for better validation"@]
    } else {
        seq![]
    }
}

fn ext_eq(e: &Option<String>, s: &str) -> (r: bool)
    ensures
        r == ext_is(*e, s@),
{
    match e {
        Some(x) => crate::text::str_eq(x.as_str(), s),
        None => false,
    }
}

fn content_errors(f: &InputFileFacts, errors: &mut Vec<ValidationError>)
    requires
        f.exists,
    ensures
        errors_view(final(errors)@) == errors_view(old(errors)@) + (input_errors(*f).subrange(
            (match f.metadata {
                Err(_) => 1int,
                Ok(_) => 0int,
            }),
            input_errors(*f).len() as int,
        )),
{
    proof {
        reveal_strlit("json");
        reveal_strlit("yaml");
        reveal_strlit("yml");
    }
    let ghost k: int = match f.metadata {
        Err(_) => 1int,
        Ok(_) => 0int,
    };
    let ghost rest = input_errors(*f).subrange(k, input_errors(*f).len() as int);
    if ext_eq(&f.extension, "json") {
        match &f.content {
            None => {
                push_error(errors, "file_content", text("Cannot read file content"), f.path.as_str());
            },
            Some(c) => match json_shape(c.as_str()) {
                Err(e) => {
                    push_error(
                        errors,
                        "json_format",
                        concat2("Invalid JSON format: ", e.as_str()),
                        "file_content",
                    );
                },
                Ok(shape) => {
                    if let Some(false) = shape.test_results_is_array {
                        push_error(
                            errors,
                            "test_results",
                            text("test_results must be an array"),
                            "json_schema",
                        );
                    }
                    if shape.has_invalid_field {
                        push_error(
                            errors,
                            "schema",
                            text("Found invalid field: invalid_field"),
                            "json_schema",
                        );
                    }
                },
            },
        }
    } else if ext_eq(&f.extension, "yaml") || ext_eq(&f.extension, "yml") {
        match &f.content {
            None => {
                push_error(errors, "file_content", text("Cannot read file content"), f.path.as_str());
            },
            Some(c) => {
                if let Some(e) = yaml_error(c.as_str()) {
                    push_error(
                        errors,
                        "yaml_format",
                        concat2("Invalid YAML format: ", e.as_str()),
                        "file_content",
                    );
                }
            },
        }
    }
    assert(errors_view(errors@) =~= errors_view(old(errors)@) + rest);
}

impl ValidationEngine {
    /// Checks a test-result input file from what the caller found: it must
    /// exist (else nothing more is checked), its metadata must be readable,
    /// a `.json` file must parse with `test_results` an array and without
    /// `invalid_field`, a `.yaml`/`.yml` file must parse, other extensions
    /// draw a warning, and files above ten mebibytes draw a warning.
    pub fn validate_input_file(&self, facts: &InputFileFacts) -> (r: ValidationResult)
        ensures
            result_is(r, input_errors(*facts), input_warnings(*facts), input_suggestions(*facts)),
    {
        proof {
            reveal_strlit("json");
            reveal_strlit("yaml");
            reveal_strlit("yml");
        }
        let mut errors: Vec<ValidationError> = Vec::new();
        let mut warnings: Vec<ValidationWarning> = Vec::new();
        let mut suggestions: Vec<String> = Vec::new();
        proof {
            assert(errors_view(errors@) =~= seq![]);
            assert(warnings_view(warnings@) =~= seq![]);
            assert(strings_view(suggestions@) =~= seq![]);
        }
        if !facts.exists {
            push_error(
                &mut errors,
                "path",
                concat2("File does not exist: ", facts.path.as_str()),
                facts.path.as_str(),
            );
            assert(errors_view(errors@) =~= input_errors(*facts));
            return ValidationResult { is_valid: false, errors, warnings, suggestions };
        }
        if let Err(e) = &facts.metadata {
            push_error(
                &mut errors,
                "permissions",
                concat2("Cannot read file metadata: ", e.as_str()),
                facts.path.as_str(),
            );
        }
        let ghost e1 = errors_view(errors@);
        content_errors(facts, &mut errors);
        proof {
            let k: int = match facts.metadata {
                Err(_) => 1int,
                Ok(_) => 0int,
            };
            assert(input_errors(*facts) =~= e1 + input_errors(*facts).subrange(
                k,
                input_errors(*facts).len() as int,
            ));
        }
        let known = ext_eq(&facts.extension, "json") || ext_eq(&facts.extension, "yaml")
            || ext_eq(&facts.extension, "yml");
        if !known {
            let e: &str = match &facts.extension {
                Some(x) => x.as_str(),
                None => "",
            };
            push_warning(
                &mut warnings,
                "file_extension",
                concat3("Unexpected file extension: '", e, "'"),
                "Expected .json, .yaml, or .yml files",
            );
            push_string(
                &mut suggestions,
                "Consider using .json or .yaml file format for better validation",
            );
        }
        if let Ok(size) = facts.metadata {
            if size > LARGE_FILE_BYTES {
                let m = mebibytes(size);
                push_warning(
                    &mut warnings,
                    "file_size",
                    concat3("Large file size: ", m.as_str(), "MB"),
                    "Consider splitting large test configurations",
                );
            }
        }
        proof {
            reveal_strlit("");
        }
        assert(warnings_view(warnings@) =~= input_warnings(*facts));
        assert(strings_view(suggestions@) =~= input_suggestions(*facts));
        let is_valid = errors.len() == 0;
        ValidationResult { is_valid, errors, warnings, suggestions }
    }
}

} // verus!
