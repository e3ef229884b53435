//! The decisions of watch mode: which changed files concern the watcher,
//! and which report files a change produces.  Watching the file system and
//! writing the files is the caller's part.

use crate::args::{extension_of, ReportFormat};
use crate::cli::WatchConfig;
use crate::environment::{join, join_path};
use crate::text::{contains_seq, push_str, str_contains};
use vstd::prelude::*;

verus! {

/// `s` with every leading occurrence of `prefix` removed, as
/// `str::trim_start_matches` does with a nonempty string pattern.
pub open spec fn trim_leading(s: Seq<char>, prefix: Seq<char>) -> Seq<char>
    decreases s.len(),
{
    if prefix.len() > 0 && s.len() >= prefix.len() && s.subrange(0, prefix.len() as int)
        == prefix {
        trim_leading(s.subrange(prefix.len() as int, s.len() as int), prefix)
    } else {
        s
    }
}

/// A pattern matches a path when the path contains the pattern without its
/// leading `*.` wildcards.
pub open spec fn pattern_matches(pattern: Seq<char>, path: Seq<char>) -> bool {
    contains_seq(path, trim_leading(pattern, "*."@))
}

/// Whether any of the patterns matches the path.
pub open spec fn any_pattern_matches(patterns: Seq<String>, path: Seq<char>) -> bool {
    exists|i: int| 0 <= i < patterns.len() && pattern_matches(#[trigger] patterns[i]@, path)
}

/// The pattern without its leading `*.` wildcards.
fn trim_wildcards(pattern: &str) -> (r: String)
    ensures
        r@ == trim_leading(pattern@, "*."@),
{
    proof {
        reveal_strlit("*.");
    }
    let n = pattern.unicode_len();
    let mut start: usize = 0;
    proof {
        assert(pattern@.subrange(0, n as int) =~= pattern@);
    }
    while n - start >= 2 && pattern.get_char(start) == '*' && pattern.get_char(start + 1) == '.'
        invariant
            start <= n,
            n == pattern@.len(),
            trim_leading(pattern@, "*."@) == trim_leading(
                pattern@.subrange(start as int, n as int),
                "*."@,
            ),
        decreases n - start,
    {
        proof {
            let s = pattern@.subrange(start as int, n as int);
            assert(s[0] == pattern@[start as int]);
            assert(s[1] == pattern@[start + 1]);
            reveal_strlit("*.");
            assert("*."@ =~= seq!['*', '.']);
            assert(s.subrange(0, 2) =~= seq!['*', '.']);
            assert(s.subrange(2, s.len() as int) =~= pattern@.subrange(start + 2, n as int));
        }
        start = start + 2;
    }
    proof {
        let s = pattern@.subrange(start as int, n as int);
        if s.len() >= 2 && s.subrange(0, 2) == "*."@ {
            assert(s.subrange(0, 2)[0] == s[0]);
            assert(s.subrange(0, 2)[1] == s[1]);
        }
    }
    let rest = pattern.substring_char(start, n);
    rest.to_string()
}

/// The file name of the report that watch mode writes in a format.
pub open spec fn watch_report_name(f: ReportFormat) -> Seq<char> {
    "report."@ + extension_of(f)
}

/// Decides what watch mode does with file changes.
pub struct WatchManager {
    config: WatchConfig,
}

impl WatchManager {
    /// A manager for a watch configuration.
    pub fn new(config: WatchConfig) -> (r: Self)
        ensures
            r.config() == config,
    {
        WatchManager { config }
    }

    /// The configuration.
    pub closed spec fn config(&self) -> WatchConfig {
        self.config
    }

    /// The configuration.
    pub fn watch_config(&self) -> (r: &WatchConfig)
        ensures
            *r == self.config(),
    {
        &self.config
    }

    /// Whether a changed path concerns the watcher: some input pattern,
    /// without its leading `*.`, occurs in it.
    pub fn matches_input_patterns(&self, path: &str) -> (r: bool)
        ensures
            r == any_pattern_matches(self.config().input_patterns@, path@),
    {
        let patterns = &self.config.input_patterns;
        let mut i: usize = 0;
        while i < patterns.len()
            invariant
                0 <= i <= patterns@.len(),
                patterns@ == self.config().input_patterns@,
                forall|j: int| 0 <= j < i ==> !pattern_matches(#[trigger] patterns@[j]@, path@),
            decreases patterns.len() - i,
        {
            let trimmed = trim_wildcards(patterns[i].as_str());
            if str_contains(path, trimmed.as_str()) {
                return true;
            }
            i = i + 1;
        }
        false
    }

    /// The report files a change of `path` produces: none when no pattern
    /// matches; else one per configured format, `report.<extension>` in the
    /// output directory, in the order of the formats.
    pub fn reports_for_change(&self, path: &str) -> (r: Vec<String>)
        ensures
            !any_pattern_matches(self.config().input_patterns@, path@) ==> r@.len() == 0,
            any_pattern_matches(self.config().input_patterns@, path@) ==> {
                &&& r@.len() == self.config().formats@.len()
                &&& forall|i: int|
                    0 <= i < r@.len() ==> #[trigger] r@[i]@ == join_path(
                        self.config().output_directory@,
                        watch_report_name(self.config().formats@[i]),
                    )
            },
    {
        let mut out: Vec<String> = Vec::new();
        if !self.matches_input_patterns(path) {
            return out;
        }
        let formats = &self.config.formats;
        let mut i: usize = 0;
        while i < formats.len()
            invariant
                0 <= i <= formats@.len(),
                formats@ == self.config().formats@,
                out@.len() == i,
                forall|j: int|
                    0 <= j < i ==> #[trigger] out@[j]@ == join_path(
                        self.config().output_directory@,
                        watch_report_name(formats@[j]),
                    ),
            decreases formats.len() - i,
        {
            let mut name = String::new();
            push_str(&mut name, "report.");
            push_str(&mut name, formats[i].file_extension());
            proof {
                reveal_strlit("report.");
            }
            let file = join(self.config.output_directory.as_str(), name.as_str());
            out.push(file);
            i = i + 1;
        }
        out
    }
}

} // verus!
