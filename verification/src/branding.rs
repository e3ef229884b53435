//! Report branding (company name, logo, colors, CSS) and the layout of
//! generated report files under an output directory.  What lies on disk or
//! on the clock is read by the caller and handed in as plain values.

use crate::args::{
    extension_of, format_directory, template_directory, OrganizationStrategy, ReportFormat,
    TemplateName, TimestampFormat,
};
use crate::errors::Error;
use crate::text::{decimal, push_str, usize_to_string};
use vstd::prelude::*;

verus! {

/// Branding as it is read from a configuration file.  Paths are strings.
#[derive(Clone, Debug)]
pub struct BrandingConfig {
    pub company_name: Option<String>,
    pub logo_path: Option<String>,
    pub primary_color: Option<String>,
    pub secondary_color: Option<String>,
    pub css_overrides: Option<String>,
    pub custom_css_file: Option<String>,
}

/// Branding as a report generator uses it.
#[derive(Clone, Debug)]
pub struct BrandingInfo {
    pub company_name: Option<String>,
    pub logo_path: Option<String>,
    pub primary_color: Option<String>,
    pub secondary_color: Option<String>,
    pub css_overrides: Option<String>,
}

/// A color is acceptable when empty or made of ASCII letters and digits.
pub open spec fn color_ok(c: Seq<char>) -> bool {
    forall|i: int|
        0 <= i < c.len() ==> (('0' <= #[trigger] c[i] <= '9') || ('a' <= c[i] <= 'z') || ('A'
            <= c[i] <= 'Z'))
}

/// Whether an optional color is acceptable.
pub open spec fn opt_color_ok(c: Option<String>) -> bool {
    match c {
        Some(s) => color_ok(s@),
        None => true,
    }
}

/// The CSS that a report gets: the inline overrides first, else what the
/// custom CSS file held (`css_file_content`, `None` when it could not be
/// read), else none.
pub open spec fn css_of(b: BrandingConfig, css_file_content: Option<String>) -> Option<String> {
    if b.css_overrides is Some {
        b.css_overrides
    } else if b.custom_css_file is Some {
        css_file_content
    } else {
        None
    }
}

/// The first error of a branding check, if any: the primary color, the
/// secondary color, the logo file, the CSS file, in that order.
pub open spec fn branding_error(
    b: BrandingConfig,
    logo_exists: bool,
    css_file_exists: bool,
) -> Option<Seq<char>> {
    if !opt_color_ok(b.primary_color) {
        Some("Invalid primary color format"@)
    } else if !opt_color_ok(b.secondary_color) {
        Some("Invalid secondary color format"@)
    } else if b.logo_path is Some && !logo_exists {
        Some("Logo file does not exist"@)
    } else if b.custom_css_file is Some && !css_file_exists {
        Some("CSS file does not exist"@)
    } else {
        None
    }
}

/// Whether every character of a string is an ASCII letter or digit.
fn is_ascii_alphanumeric_str(s: &str) -> (r: bool)
    ensures
        r == color_ok(s@),
{
    let n = s.unicode_len();
    let mut i: usize = 0;
    while i < n
        invariant
            n == s@.len(),
            i <= n,
            forall|j: int| 0 <= j < i ==> #[trigger] color_ok(seq![s@[j]]),
        decreases n - i,
    {
        let c = s.get_char(i);
        if !(('0' <= c && c <= '9') || ('a' <= c && c <= 'z') || ('A' <= c && c <= 'Z')) {
            assert(!color_ok(s@)) by {
                assert(s@[i as int] == c);
            }
            return false;
        }
        assert(color_ok(seq![s@[i as int]]));
        i = i + 1;
    }
    assert(color_ok(s@)) by {
        assert forall|j: int| 0 <= j < s@.len() implies ('0' <= #[trigger] s@[j] <= '9') || ('a'
            <= s@[j] <= 'z') || ('A' <= s@[j] <= 'Z') by {
            assert(color_ok(seq![s@[j]]));
            assert(seq![s@[j]][0] == s@[j]);
        }
    }
    true
}

fn check_color(c: &Option<String>) -> (r: bool)
    ensures
        r == opt_color_ok(*c),
{
    match c {
        Some(s) => is_ascii_alphanumeric_str(s.as_str()),
        None => true,
    }
}

impl BrandingConfig {
    /// No branding at all.
    pub fn default() -> (r: Self)
        ensures
            r.company_name is None,
            r.logo_path is None,
            r.primary_color is None,
            r.secondary_color is None,
            r.css_overrides is None,
            r.custom_css_file is None,
    {
        BrandingConfig {
            company_name: None,
            logo_path: None,
            primary_color: None,
            secondary_color: None,
            css_overrides: None,
            custom_css_file: None,
        }
    }

    /// The CSS overrides: inline ones first, then the content of the custom
    /// CSS file as the caller read it.
    pub fn load_css_overrides(&self, css_file_content: Option<String>) -> (r: Option<String>)
        ensures
            r == css_of(*self, css_file_content),
    {
        if let Some(css) = &self.css_overrides {
            return Some(css.clone());
        }
        if self.custom_css_file.is_some() {
            return css_file_content;
        }
        None
    }

    /// The branding a report generator uses; `css_file_content` is what the
    /// custom CSS file held (`None` when it could not be read).
    pub fn to_branding_info(&self, css_file_content: Option<String>) -> (r: BrandingInfo)
        ensures
            r.company_name == self.company_name,
            r.logo_path == self.logo_path,
            r.primary_color == self.primary_color,
            r.secondary_color == self.secondary_color,
            r.css_overrides == css_of(*self, css_file_content),
    {
        BrandingInfo {
            company_name: self.company_name.clone(),
            logo_path: self.logo_path.clone(),
            primary_color: self.primary_color.clone(),
            secondary_color: self.secondary_color.clone(),
            css_overrides: self.load_css_overrides(css_file_content),
        }
    }

    /// Checks the colors and, given whether the logo and CSS files exist,
    /// the file references; the first problem found is a configuration error.
    pub fn validate(&self, logo_exists: bool, css_file_exists: bool) -> (r: Result<(), Error>)
        ensures
            match branding_error(*self, logo_exists, css_file_exists) {
                None => r is Ok,
                Some(m) => r matches Err(Error::Config(e)) && e@ == m,
            },
    {
        if !check_color(&self.primary_color) {
            return Err(Error::config("Invalid primary color format"));
        }
        if !check_color(&self.secondary_color) {
            return Err(Error::config("Invalid secondary color format"));
        }
        if self.logo_path.is_some() && !logo_exists {
            return Err(Error::config("Logo file does not exist"));
        }
        if self.custom_css_file.is_some() && !css_file_exists {
            return Err(Error::config("CSS file does not exist"));
        }
        Ok(())
    }
}

impl Default for BrandingConfig {
    fn default() -> (r: Self)
        ensures
            r.company_name is None && r.logo_path is None && r.primary_color is None
                && r.secondary_color is None && r.css_overrides is None && r.custom_css_file is None,
    {
        BrandingConfig::default()
    }
}

/// A moment of the clock, in UTC, as plain numbers.
#[derive(Clone, Copy, Debug)]
pub struct Moment {
    pub year: u32,
    pub month: u32,
    pub day: u32,
    pub hour: u32,
    pub minute: u32,
    pub second: u32,
    /// Seconds since the Unix epoch
    pub unix_seconds: u64,
}

/// The decimal digits of `n`, padded with zeros on the left to `width`.
pub open spec fn padded(n: nat, width: nat) -> Seq<char>
    decreases width,
{
    if decimal(n).len() >= width {
        decimal(n)
    } else {
        seq!['0'] + padded(n, (width - 1) as nat)
    }
}

/// A moment written as `2025-01-15T10-30-45Z` (`iso`) or
/// `2025-01-15_10-30-45`.
pub open spec fn moment_text(m: Moment, iso: bool) -> Seq<char> {
    padded(m.year as nat, 4) + "-"@ + padded(m.month as nat, 2) + "-"@ + padded(m.day as nat, 2)
        + (if iso { "T"@ } else { "_"@ }) + padded(m.hour as nat, 2) + "-"@ + padded(
        m.minute as nat,
        2,
    ) + "-"@ + padded(m.second as nat, 2) + (if iso { "Z"@ } else { ""@ })
}

/// The timestamp a file name carries in each format.
pub open spec fn timestamp_text(f: TimestampFormat, m: Moment) -> Option<Seq<char>> {
    match f {
        TimestampFormat::Iso => Some(moment_text(m, true)),
        TimestampFormat::Unix => Some(decimal(m.unix_seconds as nat)),
        TimestampFormat::Human => Some(moment_text(m, false)),
        TimestampFormat::NoTimestamp => None,
    }
}

/// Appends `n` padded with zeros to `width` digits.
fn push_padded(s: &mut String, n: u32, width: usize)
    requires
        width <= 4,
    ensures
        final(s)@ == old(s)@ + padded(n as nat, width as nat),
    decreases width,
{
    let d = usize_to_string(n as usize);
    if d.as_str().unicode_len() >= width {
        push_str(s, d.as_str());
    } else {
        push_str(s, "0");
        proof {
            reveal_strlit("0");
        }
        push_padded(s, n, width - 1);
        assert(final(s)@ =~= old(s)@ + padded(n as nat, width as nat)) by {
            assert(padded(n as nat, width as nat) == seq!['0'] + padded(n as nat, (width - 1) as nat));
        }
    }
}

fn push_moment(s: &mut String, m: &Moment, iso: bool)
    ensures
        final(s)@ == old(s)@ + moment_text(*m, iso),
{
    proof {
        reveal_strlit("-");
        reveal_strlit("T");
        reveal_strlit("_");
        reveal_strlit("Z");
        reveal_strlit("");
    }
    push_padded(s, m.year, 4);
    push_str(s, "-");
    push_padded(s, m.month, 2);
    push_str(s, "-");
    push_padded(s, m.day, 2);
    if iso {
        push_str(s, "T");
    } else {
        push_str(s, "_");
    }
    push_padded(s, m.hour, 2);
    push_str(s, "-");
    push_padded(s, m.minute, 2);
    push_str(s, "-");
    push_padded(s, m.second, 2);
    if iso {
        push_str(s, "Z");
    }
    assert(final(s)@ =~= old(s)@ + moment_text(*m, iso));
}

/// Decides where generated reports go: a base directory, an organization
/// strategy and a timestamp style.
pub struct FileManager {
    base_directory: String,
    organization: OrganizationStrategy,
    timestamp: TimestampFormat,
}

/// The directories below the base directory for a report.
pub open spec fn subdirectories(
    o: OrganizationStrategy,
    f: ReportFormat,
    t: Option<TemplateName>,
    m: Moment,
) -> Seq<Seq<char>> {
    match o {
        OrganizationStrategy::Flat => seq![],
        OrganizationStrategy::ByDate => seq![
            padded(m.year as nat, 4),
            padded(m.month as nat, 2),
            padded(m.day as nat, 2),
        ],
        OrganizationStrategy::ByFormat => seq![format_directory(f)],
        OrganizationStrategy::ByTemplate => match t {
            Some(tn) => seq![template_directory(tn)],
            None => seq![],
        },
    }
}

/// The file name of a report: the suite name, the timestamp if any, and
/// the format's extension.
pub open spec fn report_file_name(
    suite: Seq<char>,
    ts: Option<Seq<char>>,
    f: ReportFormat,
) -> Seq<char> {
    match ts {
        Some(t) => suite + "_"@ + t + "."@ + extension_of(f),
        None => suite + "."@ + extension_of(f),
    }
}

impl FileManager {
    /// A file manager over the given base directory (the caller creates
    /// the directory).
    pub fn new(
        base_directory: String,
        organization: OrganizationStrategy,
        timestamp: TimestampFormat,
    ) -> (r: Self)
        ensures
            r.base_directory() == base_directory@,
            r.organization() == organization,
            r.timestamp() == timestamp,
    {
        FileManager { base_directory, organization, timestamp }
    }

    pub closed spec fn base_directory(&self) -> Seq<char> {
        self.base_directory@
    }

    pub closed spec fn organization(&self) -> OrganizationStrategy {
        self.organization
    }

    pub closed spec fn timestamp(&self) -> TimestampFormat {
        self.timestamp
    }

    /// The timestamp for file names at moment `now`, if the format has one.
    pub fn generate_timestamp(&self, now: &Moment) -> (r: Option<String>)
        ensures
            match timestamp_text(self.timestamp(), *now) {
                Some(t) => r matches Some(s) && s@ == t,
                None => r is None,
            },
    {
        match self.timestamp {
            TimestampFormat::Iso => {
                let mut s = String::new();
                push_moment(&mut s, now, true);
                Some(s)
            },
            TimestampFormat::Unix => {
                let mut s = String::new();
                let d = crate::text::u64_to_string(now.unix_seconds);
                push_str(&mut s, d.as_str());
                Some(s)
            },
            TimestampFormat::Human => {
                let mut s = String::new();
                push_moment(&mut s, now, false);
                Some(s)
            },
            TimestampFormat::NoTimestamp => None,
        }
    }

    /// Where a report goes, as the path components after the base
    /// directory (directories, then the file name), at moment `now`.
    pub fn generate_output_path(
        &self,
        format: ReportFormat,
        template: Option<TemplateName>,
        suite_name: &str,
        now: &Moment,
    ) -> (r: Vec<String>)
        ensures
            r@.len() == subdirectories(self.organization(), format, template, *now).len() + 1,
            forall|i: int|
                0 <= i < r@.len() - 1 ==> #[trigger] r@[i]@ == subdirectories(
                    self.organization(),
                    format,
                    template,
                    *now,
                )[i],
            r@[r@.len() - 1]@ == report_file_name(
                suite_name@,
                timestamp_text(self.timestamp(), *now),
                format,
            ),
    {
        let mut parts: Vec<String> = Vec::new();
        match self.organization {
            OrganizationStrategy::Flat => {},
            OrganizationStrategy::ByDate => {
                let mut y = String::new();
                push_padded(&mut y, now.year, 4);
                let mut mo = String::new();
                push_padded(&mut mo, now.month, 2);
                let mut d = String::new();
                push_padded(&mut d, now.day, 2);
                parts.push(y);
                parts.push(mo);
                parts.push(d);
            },
            OrganizationStrategy::ByFormat => {
                parts.push(format.to_directory_name().to_string());
            },
            OrganizationStrategy::ByTemplate => {
                if let Some(t) = template {
                    parts.push(t.to_directory_name().to_string());
                }
            },
        }
        let ts = self.generate_timestamp(now);
        let ext = format.file_extension();
        let mut name = String::new();
        push_str(&mut name, suite_name);
        proof {
            reveal_strlit("_");
            reveal_strlit(".");
        }
        match ts {
            Some(t) => {
                push_str(&mut name, "_");
                push_str(&mut name, t.as_str());
            },
            None => {},
        }
        push_str(&mut name, ".");
        push_str(&mut name, ext);
        parts.push(name);
        let ghost sub = subdirectories(self.organization(), format, template, *now);
        assert(parts@.len() == sub.len() + 1);
        parts
    }
}

} // verus!
