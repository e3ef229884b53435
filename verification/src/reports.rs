//! Validation reports: the findings of each validated category rendered as
//! HTML, Markdown or JUnit XML, the overall verdict and exit code, and the
//! advice offered for each error.

use crate::text::{contains_seq, decimal, push_str, str_contains, usize_to_string};
use crate::validation::{ValidationError, ValidationResult, ValidationWarning};
use vstd::prelude::*;

verus! {

/// The validated categories with their results, in order.
pub type CategoryResults = Vec<(String, ValidationResult)>;

/// The number of errors over all categories.
pub open spec fn total_errors(rs: Seq<(String, ValidationResult)>) -> nat
    decreases rs.len(),
{
    if rs.len() == 0 {
        0
    } else {
        total_errors(rs.drop_last()) + rs.last().1.errors@.len()
    }
}

/// The number of warnings over all categories.
pub open spec fn total_warnings(rs: Seq<(String, ValidationResult)>) -> nat
    decreases rs.len(),
{
    if rs.len() == 0 {
        0
    } else {
        total_warnings(rs.drop_last()) + rs.last().1.warnings@.len()
    }
}

/// Every category is valid.
pub open spec fn all_valid(rs: Seq<(String, ValidationResult)>) -> bool {
    forall|i: int| 0 <= i < rs.len() ==> (#[trigger] rs[i]).1.is_valid
}

/// The number of invalid categories.
pub open spec fn failures(rs: Seq<(String, ValidationResult)>) -> nat
    decreases rs.len(),
{
    if rs.len() == 0 {
        0
    } else {
        failures(rs.drop_last()) + if rs.last().1.is_valid {
            0nat
        } else {
            1nat
        }
    }
}

/// The totals of some categories: errors, warnings, and whether all are
/// valid.
pub fn totals(rs: &CategoryResults) -> (r: (usize, usize, bool))
    requires
        total_errors(rs@) <= usize::MAX,
        total_warnings(rs@) <= usize::MAX,
    ensures
        r.0 == total_errors(rs@),
        r.1 == total_warnings(rs@),
        r.2 == all_valid(rs@),
{
    let mut e: usize = 0;
    let mut w: usize = 0;
    let mut v = true;
    let mut i: usize = 0;
    while i < rs.len()
        invariant
            i <= rs@.len(),
            total_errors(rs@) <= usize::MAX,
            total_warnings(rs@) <= usize::MAX,
            e == total_errors(rs@.subrange(0, i as int)),
            w == total_warnings(rs@.subrange(0, i as int)),
            v == all_valid(rs@.subrange(0, i as int)),
        decreases rs@.len() - i,
    {
        let ghost sub = rs@.subrange(0, i + 1);
        assert(sub.drop_last() =~= rs@.subrange(0, i as int));
        proof {
            lemma_totals_prefix(rs@, i as int + 1);
        }
        e = e + rs[i].1.errors.len();
        w = w + rs[i].1.warnings.len();
        v = v && rs[i].1.is_valid;
        assert(v == all_valid(sub)) by {
            if !all_valid(sub) {
                let k = choose|k: int| 0 <= k < sub.len() && !(#[trigger] sub[k]).1.is_valid;
                if k < i {
                    assert(rs@.subrange(0, i as int)[k] == sub[k]);
                }
            }
        }
        i = i + 1;
    }
    assert(rs@.subrange(0, rs@.len() as int) =~= rs@);
    (e, w, v)
}

/// The totals of a prefix are at most those of the whole.
pub proof fn lemma_totals_prefix(rs: Seq<(String, ValidationResult)>, n: int)
    requires
        0 <= n <= rs.len(),
    ensures
        total_errors(rs.subrange(0, n)) <= total_errors(rs),
        total_warnings(rs.subrange(0, n)) <= total_warnings(rs),
    decreases rs.len(),
{
    if n < rs.len() {
        assert(rs.drop_last().subrange(0, n) =~= rs.subrange(0, n));
        lemma_totals_prefix(rs.drop_last(), n);
    } else {
        assert(rs.subrange(0, n) =~= rs);
    }
}

/// The number of invalid categories.
pub fn count_failures(rs: &CategoryResults) -> (r: usize)
    ensures
        r == failures(rs@),
{
    let mut f: usize = 0;
    let mut i: usize = 0;
    while i < rs.len()
        invariant
            i <= rs@.len(),
            f == failures(rs@.subrange(0, i as int)),
            f <= i,
        decreases rs@.len() - i,
    {
        assert(rs@.subrange(0, i + 1).drop_last() =~= rs@.subrange(0, i as int));
        if !rs[i].1.is_valid {
            f = f + 1;
        }
        i = i + 1;
    }
    assert(rs@.subrange(0, rs@.len() as int) =~= rs@);
    f
}

/// How an error reads: its field, a colon, and its message.
pub open spec fn error_text(e: ValidationError) -> Seq<char> {
    e.field@ + ": "@ + e.message@
}

/// How a warning reads: its field, a colon, and its message.
pub open spec fn warning_text(w: ValidationWarning) -> Seq<char> {
    w.field@ + ": "@ + w.message@
}

/// The text of an error, as it is displayed.
pub fn display_error(e: &ValidationError) -> (r: String)
    ensures
        r@ == error_text(*e),
{
    let mut r = String::new();
    push_str(&mut r, e.field.as_str());
    push_str(&mut r, ": ");
    push_str(&mut r, e.message.as_str());
    r
}

/// The text of a warning, as it is displayed.
pub fn display_warning(w: &ValidationWarning) -> (r: String)
    ensures
        r@ == warning_text(*w),
{
    let mut r = String::new();
    push_str(&mut r, w.field.as_str());
    push_str(&mut r, ": ");
    push_str(&mut r, w.message.as_str());
    r
}

/// The errors, each between `before` and `after`.
pub open spec fn error_items(es: Seq<ValidationError>, before: Seq<char>, after: Seq<char>) -> Seq<
    char,
>
    decreases es.len(),
{
    if es.len() == 0 {
        seq![]
    } else {
        error_items(es.drop_last(), before, after) + before + error_text(es.last()) + after
    }
}

/// The warnings, each between `before` and `after`.
pub open spec fn warning_items(ws: Seq<ValidationWarning>, before: Seq<char>, after: Seq<char>) -> Seq<
    char,
>
    decreases ws.len(),
{
    if ws.len() == 0 {
        seq![]
    } else {
        warning_items(ws.drop_last(), before, after) + before + warning_text(ws.last()) + after
    }
}

fn push_error_items(s: &mut String, es: &Vec<ValidationError>, before: &str, after: &str)
    ensures
        final(s)@ == old(s)@ + error_items(es@, before@, after@),
{
    let ghost start = s@;
    let mut i: usize = 0;
    assert(s@ =~= start + error_items(es@.subrange(0, 0), before@, after@));
    while i < es.len()
        invariant
            i <= es@.len(),
            s@ == start + error_items(es@.subrange(0, i as int), before@, after@),
        decreases es@.len() - i,
    {
        assert(es@.subrange(0, i + 1).drop_last() =~= es@.subrange(0, i as int));
        push_str(s, before);
        let t = display_error(&es[i]);
        push_str(s, t.as_str());
        push_str(s, after);
        assert(s@ =~= start + error_items(es@.subrange(0, i + 1), before@, after@));
        i = i + 1;
    }
    assert(es@.subrange(0, es@.len() as int) =~= es@);
}

fn push_warning_items(s: &mut String, ws: &Vec<ValidationWarning>, before: &str, after: &str)
    ensures
        final(s)@ == old(s)@ + warning_items(ws@, before@, after@),
{
    let ghost start = s@;
    let mut i: usize = 0;
    assert(s@ =~= start + warning_items(ws@.subrange(0, 0), before@, after@));
    while i < ws.len()
        invariant
            i <= ws@.len(),
            s@ == start + warning_items(ws@.subrange(0, i as int), before@, after@),
        decreases ws@.len() - i,
    {
        assert(ws@.subrange(0, i + 1).drop_last() =~= ws@.subrange(0, i as int));
        push_str(s, before);
        let t = display_warning(&ws[i]);
        push_str(s, t.as_str());
        push_str(s, after);
        assert(s@ =~= start + warning_items(ws@.subrange(0, i + 1), before@, after@));
        i = i + 1;
    }
    assert(ws@.subrange(0, ws@.len() as int) =~= ws@);
}

/// A category with nothing to report.
pub open spec fn clean(r: ValidationResult) -> bool {
    r.is_valid && r.errors@.len() == 0 && r.warnings@.len() == 0
}

/// The overall status line.
pub open spec fn status_text(valid: bool) -> Seq<char> {
    if valid {
        "\u{2705} VALID"@
    } else {
        "\u{274c} INVALID"@
    }
}

fn status(valid: bool) -> (r: &'static str)
    ensures
        r@ == status_text(valid),
{
    if valid {
        "\u{2705} VALID"
    } else {
        "\u{274c} INVALID"
    }
}

// ---------------------------------------------------------------- Markdown

/// The Markdown section of one category.
pub open spec fn markdown_section(category: Seq<char>, r: ValidationResult) -> Seq<char> {
    "### "@ + category + "\n\n"@ + if clean(r) {
        "\u{2705} No issues found\n\n"@
    } else {
        (if r.errors@.len() > 0 {
            "#### Errors\n\n"@ + error_items(r.errors@, "- \u{274c} "@, "\n"@) + "\n"@
        } else {
            seq![]
        }) + (if r.warnings@.len() > 0 {
            "#### Warnings\n\n"@ + warning_items(r.warnings@, "- \u{26a0}\u{fe0f} "@, "\n"@) + "\n"@
        } else {
            seq![]
        })
    }
}

/// The Markdown sections of some categories.
pub open spec fn markdown_sections(rs: Seq<(String, ValidationResult)>) -> Seq<char>
    decreases rs.len(),
{
    if rs.len() == 0 {
        seq![]
    } else {
        markdown_sections(rs.drop_last()) + markdown_section(rs.last().0@, rs.last().1)
    }
}

/// The Markdown validation report.
pub open spec fn markdown_report(rs: Seq<(String, ValidationResult)>) -> Seq<char> {
    "# Configuration Validation Report\n\n## Summary\n\n**Status:** "@ + status_text(all_valid(rs))
        + "\n**Total Categories:** "@ + decimal(rs.len()) + "\n**Errors:** "@ + decimal(
        total_errors(rs),
    ) + "\n**Warnings:** "@ + decimal(total_warnings(rs)) + "\n\n## Validation Results\n\n"@
        + markdown_sections(rs)
}

fn markdown_section_text(category: &str, r: &ValidationResult) -> (s: String)
    ensures
        s@ == markdown_section(category@, *r),
{
    let mut s = String::new();
    push_str(&mut s, "### ");
    push_str(&mut s, category);
    push_str(&mut s, "\n\n");
    let ghost h = s@;
    if r.is_valid && r.errors.len() == 0 && r.warnings.len() == 0 {
        push_str(&mut s, "\u{2705} No issues found\n\n");
    } else {
        if r.errors.len() > 0 {
            push_str(&mut s, "#### Errors\n\n");
            push_error_items(&mut s, &r.errors, "- \u{274c} ", "\n");
            push_str(&mut s, "\n");
        }
        let ghost h2 = s@;
        if r.warnings.len() > 0 {
            push_str(&mut s, "#### Warnings\n\n");
            push_warning_items(&mut s, &r.warnings, "- \u{26a0}\u{fe0f} ", "\n");
            push_str(&mut s, "\n");
        }
        assert(s@ =~= h + (if r.errors@.len() > 0 {
            "#### Errors\n\n"@ + error_items(r.errors@, "- \u{274c} "@, "\n"@) + "\n"@
        } else {
            seq![]
        }) + (if r.warnings@.len() > 0 {
            "#### Warnings\n\n"@ + warning_items(r.warnings@, "- \u{26a0}\u{fe0f} "@, "\n"@)
                + "\n"@
        } else {
            seq![]
        }));
    }
    assert(s@ =~= markdown_section(category@, *r));
    s
}

/// Renders the validation results as a Markdown report: a summary (status,
/// number of categories, errors, warnings), then each category with its
/// errors and warnings.
pub fn generate_markdown_validation_report(rs: &CategoryResults) -> (r: String)
    requires
        total_errors(rs@) <= usize::MAX,
        total_warnings(rs@) <= usize::MAX,
    ensures
        r@ == markdown_report(rs@),
{
    let (te, tw, valid) = totals(rs);
    let mut s = String::new();
    push_str(&mut s, "# Configuration Validation Report\n\n## Summary\n\n**Status:** ");
    push_str(&mut s, status(valid));
    push_str(&mut s, "\n**Total Categories:** ");
    let n = usize_to_string(rs.len());
    push_str(&mut s, n.as_str());
    push_str(&mut s, "\n**Errors:** ");
    let e = usize_to_string(te);
    push_str(&mut s, e.as_str());
    push_str(&mut s, "\n**Warnings:** ");
    let w = usize_to_string(tw);
    push_str(&mut s, w.as_str());
    push_str(&mut s, "\n\n## Validation Results\n\n");
    let ghost head = s@;
    let mut i: usize = 0;
    assert(s@ =~= head + markdown_sections(rs@.subrange(0, 0)));
    while i < rs.len()
        invariant
            i <= rs@.len(),
            s@ == head + markdown_sections(rs@.subrange(0, i as int)),
        decreases rs@.len() - i,
    {
        assert(rs@.subrange(0, i + 1).drop_last() =~= rs@.subrange(0, i as int));
        let t = markdown_section_text(rs[i].0.as_str(), &rs[i].1);
        push_str(&mut s, t.as_str());
        assert(s@ =~= head + markdown_sections(rs@.subrange(0, i + 1)));
        i = i + 1;
    }
    assert(rs@.subrange(0, rs@.len() as int) =~= rs@);
    assert(s@ =~= markdown_report(rs@));
    s
}

// ---------------------------------------------------------------- JUnit

/// The messages of the errors joined by `; `.
pub open spec fn joined_messages(es: Seq<ValidationError>) -> Seq<char>
    decreases es.len(),
{
    if es.len() == 0 {
        seq![]
    } else if es.len() == 1 {
        es[0].message@
    } else {
        joined_messages(es.drop_last()) + "; "@ + es.last().message@
    }
}

fn join_messages(es: &Vec<ValidationError>) -> (r: String)
    ensures
        r@ == joined_messages(es@),
{
    let mut r = String::new();
    let mut i: usize = 0;
    while i < es.len()
        invariant
            i <= es@.len(),
            r@ == joined_messages(es@.subrange(0, i as int)),
        decreases es@.len() - i,
    {
        assert(es@.subrange(0, i + 1).drop_last() =~= es@.subrange(0, i as int));
        if i > 0 {
            push_str(&mut r, "; ");
        }
        push_str(&mut r, es[i].message.as_str());
        assert(r@ =~= joined_messages(es@.subrange(0, i + 1)));
        i = i + 1;
    }
    assert(es@.subrange(0, es@.len() as int) =~= es@);
    r
}

/// The JUnit test case of one category.
pub open spec fn junit_case(category: Seq<char>, r: ValidationResult) -> Seq<char> {
    if r.is_valid {
        "    <testcase name=\""@ + category + "\" classname=\"validation\" time=\"0\"/>"@
    } else {
        "    <testcase name=\""@ + category
            + "\" classname=\"validation\" time=\"0\">\n        <failure message=\"Validation failed\">"@
            + joined_messages(r.errors@) + "</failure>\n    </testcase>\n"@
    }
}

pub open spec fn junit_cases(rs: Seq<(String, ValidationResult)>) -> Seq<char>
    decreases rs.len(),
{
    if rs.len() == 0 {
        seq![]
    } else {
        junit_cases(rs.drop_last()) + junit_case(rs.last().0@, rs.last().1)
    }
}

/// The JUnit validation report.
pub open spec fn junit_report(rs: Seq<(String, ValidationResult)>) -> Seq<char> {
    "<?xml version=\"1.0\" encoding=\"UTF-8\"?>\n<testsuite name=\"Configuration Validation\" tests=\""@
        + decimal(rs.len()) + "\" failures=\""@ + decimal(failures(rs))
        + "\" errors=\"0\" time=\"0\">\n"@ + junit_cases(rs) + "</testsuite>"@
}

fn junit_case_text(category: &str, r: &ValidationResult) -> (s: String)
    ensures
        s@ == junit_case(category@, *r),
{
    let mut s = String::new();
    push_str(&mut s, "    <testcase name=\"");
    push_str(&mut s, category);
    if r.is_valid {
        push_str(&mut s, "\" classname=\"validation\" time=\"0\"/>");
    } else {
        push_str(
            &mut s,
            "\" classname=\"validation\" time=\"0\">\n        <failure message=\"Validation failed\">",
        );
        let m = join_messages(&r.errors);
        push_str(&mut s, m.as_str());
        push_str(&mut s, "</failure>\n    </testcase>\n");
    }
    assert(s@ =~= junit_case(category@, *r));
    s
}

/// Renders the validation results as a JUnit report: one test case per
/// category, failed ones with their error messages.
pub fn generate_junit_validation_report(rs: &CategoryResults) -> (r: String)
    ensures
        r@ == junit_report(rs@),
{
    let failures = count_failures(rs);
    let mut s = String::new();
    push_str(
        &mut s,
        "<?xml version=\"1.0\" encoding=\"UTF-8\"?>\n<testsuite name=\"Configuration Validation\" tests=\"",
    );
    let n = usize_to_string(rs.len());
    push_str(&mut s, n.as_str());
    push_str(&mut s, "\" failures=\"");
    let f = usize_to_string(failures);
    push_str(&mut s, f.as_str());
    push_str(&mut s, "\" errors=\"0\" time=\"0\">\n");
    let ghost head = s@;
    let mut i: usize = 0;
    assert(s@ =~= head + junit_cases(rs@.subrange(0, 0)));
    while i < rs.len()
        invariant
            i <= rs@.len(),
            s@ == head + junit_cases(rs@.subrange(0, i as int)),
        decreases rs@.len() - i,
    {
        assert(rs@.subrange(0, i + 1).drop_last() =~= rs@.subrange(0, i as int));
        let t = junit_case_text(rs[i].0.as_str(), &rs[i].1);
        push_str(&mut s, t.as_str());
        assert(s@ =~= head + junit_cases(rs@.subrange(0, i + 1)));
        i = i + 1;
    }
    assert(rs@.subrange(0, rs@.len() as int) =~= rs@);
    push_str(&mut s, "</testsuite>");
    assert(s@ =~= junit_report(rs@));
    s
}

// ---------------------------------------------------------------- HTML

/// A fixed piece of the HTML validation report.
pub const HTML_HEAD: &'static str = "\n<!DOCTYPE html>\n<html>\n<head>\n    <title>Validation Report</title>\n    <style>\n        body { font-family: Arial, sans-serif; margin: 20px; }\n        .header { background: #f5f5f5; padding: 20px; border-radius: 5px; }\n        .status { font-size: 24px; font-weight: bold; color: ";

/// A fixed piece of the HTML validation report.
pub const HTML_STATUS: &'static str = "; }\n        .summary { margin: 20px 0; }\n        .category { margin: 20px 0; border: 1px solid #ddd; border-radius: 5px; }\n        .category-header { background: #f8f9fa; padding: 10px; font-weight: bold; }\n        .errors { background: #fff5f5; color: #c53030; padding: 10px; }\n        .warnings { background: #fffbf0; color: #dd6b20; padding: 10px; }\n        .valid { background: #f0fff4; color: #38a169; padding: 10px; }\n    </style>\n</head>\n<body>\n    <div class=\"header\">\n        <h1>Configuration Validation Report</h1>\n        <div class=\"status\">";

/// A fixed piece of the HTML validation report.
pub const HTML_CATEGORIES: &'static str = "</div>\n        <div class=\"summary\">\n            Total Categories: ";

/// A fixed piece of the HTML validation report.
pub const HTML_ERRORS: &'static str = " | Errors: ";

/// A fixed piece of the HTML validation report.
pub const HTML_WARNINGS: &'static str = " | Warnings: ";

/// A fixed piece of the HTML validation report.
pub const HTML_HEADER_END: &'static str = "\n        </div>\n    </div>\n";


/// The HTML section of one category.
pub open spec fn html_section(category: Seq<char>, r: ValidationResult) -> Seq<char> {
    "\n    <div class=\"category\">\n        <div class=\"category-header\">"@ + category
        + "</div>\n"@ + (if clean(r) {
        "        <div class=\"valid\">\u{2705} No issues found</div>"@
    } else {
        (if r.errors@.len() > 0 {
            "        <div class=\"errors\"><strong>Errors:</strong><ul>"@ + error_items(
                r.errors@,
                "<li>"@,
                "</li>"@,
            ) + "</ul></div>"@
        } else {
            seq![]
        }) + (if r.warnings@.len() > 0 {
            "        <div class=\"warnings\"><strong>Warnings:</strong><ul>"@ + warning_items(
                r.warnings@,
                "<li>"@,
                "</li>"@,
            ) + "</ul></div>"@
        } else {
            seq![]
        })
    }) + "    </div>"@
}

pub open spec fn html_sections(rs: Seq<(String, ValidationResult)>) -> Seq<char>
    decreases rs.len(),
{
    if rs.len() == 0 {
        seq![]
    } else {
        html_sections(rs.drop_last()) + html_section(rs.last().0@, rs.last().1)
    }
}

/// The HTML validation report.
pub open spec fn html_report(rs: Seq<(String, ValidationResult)>) -> Seq<char> {
    HTML_HEAD@ + (if all_valid(rs) {
        "green"@
    } else {
        "red"@
    }) + HTML_STATUS@ + status_text(all_valid(rs)) + HTML_CATEGORIES@ + decimal(rs.len())
        + HTML_ERRORS@ + decimal(total_errors(rs)) + HTML_WARNINGS@ + decimal(total_warnings(rs))
        + HTML_HEADER_END@ + html_sections(rs) + "\n</body>\n</html>"@
}

fn html_section_text(category: &str, r: &ValidationResult) -> (s: String)
    ensures
        s@ == html_section(category@, *r),
{
    let mut s = String::new();
    push_str(&mut s, "\n    <div class=\"category\">\n        <div class=\"category-header\">");
    push_str(&mut s, category);
    push_str(&mut s, "</div>\n");
    let ghost h = s@;
    if r.is_valid && r.errors.len() == 0 && r.warnings.len() == 0 {
        push_str(&mut s, "        <div class=\"valid\">\u{2705} No issues found</div>");
    } else {
        if r.errors.len() > 0 {
            push_str(&mut s, "        <div class=\"errors\"><strong>Errors:</strong><ul>");
            push_error_items(&mut s, &r.errors, "<li>", "</li>");
            push_str(&mut s, "</ul></div>");
        }
        if r.warnings.len() > 0 {
            push_str(&mut s, "        <div class=\"warnings\"><strong>Warnings:</strong><ul>");
            push_warning_items(&mut s, &r.warnings, "<li>", "</li>");
            push_str(&mut s, "</ul></div>");
        }
        assert(s@ =~= h + (if r.errors@.len() > 0 {
            "        <div class=\"errors\"><strong>Errors:</strong><ul>"@ + error_items(
                r.errors@,
                "<li>"@,
                "</li>"@,
            ) + "</ul></div>"@
        } else {
            seq![]
        }) + (if r.warnings@.len() > 0 {
            "        <div class=\"warnings\"><strong>Warnings:</strong><ul>"@ + warning_items(
                r.warnings@,
                "<li>"@,
                "</li>"@,
            ) + "</ul></div>"@
        } else {
            seq![]
        }));
    }
    push_str(&mut s, "    </div>");
    assert(s@ =~= html_section(category@, *r));
    s
}

/// Renders the validation results as an HTML page: a header with the
/// status (green when all categories are valid) and the totals, then each
/// category with its errors and warnings.
pub fn generate_html_validation_report(rs: &CategoryResults) -> (r: String)
    requires
        total_errors(rs@) <= usize::MAX,
        total_warnings(rs@) <= usize::MAX,
    ensures
        r@ == html_report(rs@),
{
    let (te, tw, valid) = totals(rs);
    let mut s = String::new();
    push_str(&mut s, HTML_HEAD);
    push_str(
        &mut s,
        if valid {
            "green"
        } else {
            "red"
        },
    );
    push_str(&mut s, HTML_STATUS);
    push_str(&mut s, status(valid));
    push_str(&mut s, HTML_CATEGORIES);
    let n = usize_to_string(rs.len());
    push_str(&mut s, n.as_str());
    push_str(&mut s, HTML_ERRORS);
    let e = usize_to_string(te);
    push_str(&mut s, e.as_str());
    push_str(&mut s, HTML_WARNINGS);
    let w = usize_to_string(tw);
    push_str(&mut s, w.as_str());
    push_str(&mut s, HTML_HEADER_END);
    let ghost head = s@;
    let mut i: usize = 0;
    assert(s@ =~= head + html_sections(rs@.subrange(0, 0)));
    while i < rs.len()
        invariant
            i <= rs@.len(),
            s@ == head + html_sections(rs@.subrange(0, i as int)),
        decreases rs@.len() - i,
    {
        assert(rs@.subrange(0, i + 1).drop_last() =~= rs@.subrange(0, i as int));
        let t = html_section_text(rs[i].0.as_str(), &rs[i].1);
        push_str(&mut s, t.as_str());
        assert(s@ =~= head + html_sections(rs@.subrange(0, i + 1)));
        i = i + 1;
    }
    assert(rs@.subrange(0, rs@.len() as int) =~= rs@);
    push_str(&mut s, "\n</body>\n</html>");
    assert(s@ =~= html_report(rs@));
    s
}

// ---------------------------------------------------------------- verdict

/// The verdict of a validation run: valid when there is no error and, in
/// strict mode, no warning; the exit code is 1 exactly when not valid.
pub fn validation_verdict(total_errors: usize, total_warnings: usize, strict_mode: bool) -> (r: (
    bool,
    i32,
))
    ensures
        r.0 == (total_errors == 0 && (!strict_mode || total_warnings == 0)),
        r.1 == (if r.0 {
            0i32
        } else {
            1i32
        }),
{
    let has_errors = total_errors > 0;
    let has_warnings = total_warnings > 0;
    let is_valid = !has_errors && (!strict_mode || !has_warnings);
    let exit_code = if has_errors || (strict_mode && has_warnings) {
        1
    } else {
        0
    };
    (is_valid, exit_code)
}

/// The status mark of a category: clean, warnings only, or errors.
pub open spec fn category_mark(r: ValidationResult) -> Seq<char> {
    if clean(r) {
        "\u{2705}"@
    } else if r.errors@.len() == 0 {
        "\u{26a0}\u{fe0f}"@
    } else {
        "\u{274c}"@
    }
}

/// The status mark of a category.
pub fn category_status(r: &ValidationResult) -> (s: &'static str)
    ensures
        s@ == category_mark(*r),
{
    if r.is_valid && r.errors.len() == 0 && r.warnings.len() == 0 {
        "\u{2705}"
    } else if r.errors.len() == 0 {
        "\u{26a0}\u{fe0f}"
    } else {
        "\u{274c}"
    }
}

/// The advice for an error message.
pub open spec fn advice_for(message: Seq<char>) -> Seq<char> {
    if contains_seq(message, "JSONPath"@) {
        "Check JSONPath syntax: consider using online JSONPath testers"@
    } else if contains_seq(message, "schema"@) {
        "Validate your JSON against the schema specification"@
    } else if contains_seq(message, "protocol"@) {
        "Review MCP protocol documentation for correct format"@
    } else {
        "Review the configuration file structure and format"@
    }
}

/// The advice offered for an error, by what its message mentions.
pub fn suggestion_for(message: &str) -> (r: &'static str)
    ensures
        r@ == advice_for(message@),
{
    if str_contains(message, "JSONPath") {
        "Check JSONPath syntax: consider using online JSONPath testers"
    } else if str_contains(message, "schema") {
        "Validate your JSON against the schema specification"
    } else if str_contains(message, "protocol") {
        "Review MCP protocol documentation for correct format"
    } else {
        "Review the configuration file structure and format"
    }
}

} // verus!
