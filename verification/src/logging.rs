//! Logging configuration, and the collection of error statistics: how many
//! errors were recorded and how many fell in each category.

use crate::counts::NamedCounts;
use crate::errors::{now_millis, ErrorContext, TestHarnessError};
use vstd::prelude::*;

verus! {

#[verifier::external_type_specification]
#[verifier::external_body]
pub struct ExTracingLevel(tracing::Level);

/// The name `tracing::Level::as_str` gives a level (`ERROR`, `WARN`,
/// `INFO`, `DEBUG`, `TRACE`).
pub uninterp spec fn level_str(l: tracing::Level) -> Seq<char>;

/// `tracing::Level::ERROR`, whose name is `ERROR`.
#[verifier::external_body]
fn level_error() -> (r: tracing::Level)
    ensures
        level_str(r) == "ERROR"@,
{
    tracing::Level::ERROR
}

/// `tracing::Level::WARN`, whose name is `WARN`.
#[verifier::external_body]
fn level_warn() -> (r: tracing::Level)
    ensures
        level_str(r) == "WARN"@,
{
    tracing::Level::WARN
}

/// `tracing::Level::INFO`, whose name is `INFO`.
#[verifier::external_body]
fn level_info() -> (r: tracing::Level)
    ensures
        level_str(r) == "INFO"@,
{
    tracing::Level::INFO
}

/// `tracing::Level::DEBUG`, whose name is `DEBUG`.
#[verifier::external_body]
fn level_debug() -> (r: tracing::Level)
    ensures
        level_str(r) == "DEBUG"@,
{
    tracing::Level::DEBUG
}

/// `tracing::Level::TRACE`, whose name is `TRACE`.
#[verifier::external_body]
fn level_trace() -> (r: tracing::Level)
    ensures
        level_str(r) == "TRACE"@,
{
    tracing::Level::TRACE
}

/// Logging configuration.
#[derive(Clone, Debug)]
pub struct LoggingConfig {
    pub level: LogLevel,
    pub format: LogFormat,
    pub outputs: Vec<LogOutput>,
    pub enable_colors: bool,
    pub include_timestamps: bool,
    pub include_thread_ids: bool,
    pub enable_span_events: bool,
    pub filter_patterns: Vec<String>,
}

impl Default for LoggingConfig {
    /// Info level, pretty format, to standard output, with colors,
    /// timestamps and span events but no thread ids and no filters.
    fn default() -> (r: Self)
        ensures
            r.level == LogLevel::Info,
            r.format == LogFormat::Pretty,
            r.outputs@ == seq![LogOutput::Stdout],
            r.enable_colors,
            r.include_timestamps,
            !r.include_thread_ids,
            r.enable_span_events,
            r.filter_patterns@.len() == 0,
    {
        LoggingConfig {
            level: LogLevel::Info,
            format: LogFormat::Pretty,
            outputs: vec![LogOutput::Stdout],
            enable_colors: true,
            include_timestamps: true,
            include_thread_ids: false,
            enable_span_events: true,
            filter_patterns: Vec::new(),
        }
    }
}

/// Log levels, from most to least severe.
#[derive(Clone, Copy, Debug, PartialEq, Eq, Structural)]
pub enum LogLevel {
    Error,
    Warn,
    Info,
    Debug,
    Trace,
}

impl LogLevel {
    /// The name of the `tracing` level a log level maps to.
    pub open spec fn tracing_name(self) -> Seq<char> {
        match self {
            LogLevel::Error => "ERROR"@,
            LogLevel::Warn => "WARN"@,
            LogLevel::Info => "INFO"@,
            LogLevel::Debug => "DEBUG"@,
            LogLevel::Trace => "TRACE"@,
        }
    }

    /// The `tracing` level of the same name.
    pub fn to_tracing_level(&self) -> (r: tracing::Level)
        ensures
            level_str(r) == self.tracing_name(),
    {
        match self {
            LogLevel::Error => level_error(),
            LogLevel::Warn => level_warn(),
            LogLevel::Info => level_info(),
            LogLevel::Debug => level_debug(),
            LogLevel::Trace => level_trace(),
        }
    }
}

/// Log output formats.
#[derive(Clone, Copy, Debug, PartialEq, Eq, Structural)]
pub enum LogFormat {
    Json,
    Pretty,
    Compact,
    Full,
}

/// Where logs go.  File paths are strings.
#[derive(Clone, Debug, PartialEq, Eq)]
pub enum LogOutput {
    Stdout,
    Stderr,
    File { path: String, rotation: Option<FileRotation> },
    Network { endpoint: String, format: LogFormat },
}

/// Rotation of log files.
#[derive(Clone, Copy, Debug, PartialEq, Eq, Structural)]
pub struct FileRotation {
    pub max_size_mb: u64,
    pub max_files: u32,
    pub compress: bool,
}

/// The category an error is counted under.
pub open spec fn error_category(e: TestHarnessError) -> Seq<char> {
    match e {
        TestHarnessError::Client(_) => "client"@,
        TestHarnessError::Execution(_) => "execution"@,
        TestHarnessError::Validation(_) => "validation"@,
        TestHarnessError::Configuration(_) => "configuration"@,
        TestHarnessError::Io(_) => "io"@,
        TestHarnessError::Reporting(_) => "reporting"@,
        TestHarnessError::Network(_) => "network"@,
        TestHarnessError::Performance(_) => "performance"@,
        TestHarnessError::Security(_) => "security"@,
    }
}

/// The category an error is counted under.
pub fn categorize_error(error: &TestHarnessError) -> (r: &'static str)
    ensures
        r@ == error_category(*error),
{
    match error {
        TestHarnessError::Client(_) => "client",
        TestHarnessError::Execution(_) => "execution",
        TestHarnessError::Validation(_) => "validation",
        TestHarnessError::Configuration(_) => "configuration",
        TestHarnessError::Io(_) => "io",
        TestHarnessError::Reporting(_) => "reporting",
        TestHarnessError::Network(_) => "network",
        TestHarnessError::Performance(_) => "performance",
        TestHarnessError::Security(_) => "security",
    }
}

/// Error statistics: the total and the count per category.
#[derive(Debug)]
pub struct ErrorStatistics {
    pub total_errors: u64,
    pub errors_by_category: NamedCounts,
}

impl Clone for ErrorStatistics {
    fn clone(&self) -> (r: Self)
        ensures
            r.total_errors == self.total_errors,
            r.errors_by_category.entries() == self.errors_by_category.entries(),
    {
        ErrorStatistics {
            total_errors: self.total_errors,
            errors_by_category: self.errors_by_category.clone(),
        }
    }
}

impl ErrorStatistics {
    /// The counts agree: no category twice, and none above the total.
    pub open spec fn wf(&self) -> bool {
        &&& self.errors_by_category.wf()
        &&& forall|c: Seq<char>| #[trigger] self.errors_by_category.count(c) <= self.total_errors
    }
}

/// The summary of the errors collected.
#[derive(Debug)]
pub struct ErrorSummary {
    pub total_errors: u64,
    pub errors_by_category: NamedCounts,
    pub execution_duration_ms: u64,
    pub most_common_error: Option<String>,
}

/// An error event: when it happened (milliseconds since the Unix epoch),
/// the error, its context, and whether recovery was attempted and
/// succeeded.
#[derive(Clone, Debug)]
pub struct ErrorEvent {
    pub timestamp_ms: i64,
    pub error: TestHarnessError,
    pub context: ErrorContext,
    pub recovery_attempted: bool,
    pub recovery_successful: bool,
}

/// How many of the events have an error of the category `c`.
pub open spec fn category_count(evs: Seq<ErrorEvent>, c: Seq<char>) -> nat
    decreases evs.len(),
{
    if evs.len() == 0 {
        0
    } else {
        category_count(evs.drop_last(), c) + if error_category(evs.last().error) == c {
            1nat
        } else {
            0nat
        }
    }
}

/// Collects error events and keeps their statistics.
pub struct ErrorCollector {
    events: Vec<ErrorEvent>,
    statistics: ErrorStatistics,
}

impl ErrorCollector {
    /// The events recorded, in order.
    pub closed spec fn events(&self) -> Seq<ErrorEvent> {
        self.events@
    }

    /// The statistics kept.
    pub closed spec fn statistics(&self) -> ErrorStatistics {
        self.statistics
    }

    /// The statistics count the events: all of them in the total, and
    /// those of each category under it.
    pub open spec fn wf(&self) -> bool {
        &&& self.statistics().wf()
        &&& self.statistics().total_errors == self.events().len()
        &&& forall|c: Seq<char>|
            #[trigger] self.statistics().errors_by_category.count(c) == category_count(
                self.events(),
                c,
            )
    }

    /// No events and no errors counted.
    pub fn new() -> (r: Self)
        ensures
            r.wf(),
            r.events().len() == 0,
            r.statistics().total_errors == 0,
            forall|c: Seq<char>| !r.statistics().errors_by_category.has(c),
    {
        ErrorCollector {
            events: Vec::new(),
            statistics: ErrorStatistics { total_errors: 0, errors_by_category: NamedCounts::new() },
        }
    }

    /// Records an error with its context, stamped with the current time:
    /// the event is appended and counted in the total and under its
    /// category.
    pub fn record_error(&mut self, error: TestHarnessError, context: ErrorContext)
        requires
            old(self).wf(),
            old(self).events().len() < u64::MAX,
        ensures
            final(self).wf(),
            final(self).events().len() == old(self).events().len() + 1,
            final(self).events().last().error == error,
            final(self).events().last().context == context,
            !final(self).events().last().recovery_attempted,
            final(self).events().subrange(0, old(self).events().len() as int) == old(self).events(),
            final(self).statistics().total_errors == old(self).statistics().total_errors + 1,
            final(self).statistics().errors_by_category.count(error_category(error)) == old(self).statistics().errors_by_category.count(error_category(error)) + 1,
            forall|c: Seq<char>|
                c != error_category(error) ==> #[trigger] final(self).statistics().errors_by_category.count(c) == old(self).statistics().errors_by_category.count(c),
            crate::laws::entries_total(final(self).statistics().errors_by_category.entries())
                == final(self).statistics().total_errors,
    {
        self.update_statistics(&error);
        let timestamp_ms = now_millis();
        let event = ErrorEvent {
            timestamp_ms,
            error,
            context,
            recovery_attempted: false,
            recovery_successful: false,
        };
        self.events.push(event);
        assert(self.events@.subrange(0, old(self).events@.len() as int) =~= old(self).events@);
        assert(self.events@.drop_last() =~= old(self).events@);
        proof {
            crate::laws::law_each_error_in_one_category(*self);
        }
    }

    fn update_statistics(&mut self, error: &TestHarnessError)
        requires
            old(self).statistics().wf(),
            old(self).statistics().total_errors < u64::MAX,
        ensures
            final(self).events() == old(self).events(),
            final(self).statistics().wf(),
            final(self).statistics().total_errors == old(self).statistics().total_errors + 1,
            final(self).statistics().errors_by_category.count(error_category(*error)) == old(self).statistics().errors_by_category.count(error_category(*error)) + 1,
            forall|c: Seq<char>|
                c != error_category(*error) ==> #[trigger] final(self).statistics().errors_by_category.count(c) == old(self).statistics().errors_by_category.count(c),
    {
        self.statistics.total_errors = self.statistics.total_errors + 1;
        let category = categorize_error(error);
        assert(self.statistics.errors_by_category.count(category@) <= old(self).statistics.total_errors);
        self.statistics.errors_by_category.increment(category);
    }

    /// The statistics so far.
    pub fn get_statistics(&self) -> (r: ErrorStatistics)
        ensures
            r.total_errors == self.statistics().total_errors,
            r.errors_by_category.entries() == self.statistics().errors_by_category.entries(),
    {
        self.statistics.clone()
    }

    /// How many events were recorded.
    pub fn event_count(&self) -> (r: usize)
        ensures
            r == self.events().len(),
    {
        self.events.len()
    }

    /// The summary of the errors recorded over `execution_duration_ms`:
    /// the counts and the most common category.
    pub fn generate_summary(&self, execution_duration_ms: u64) -> (r: ErrorSummary)
        requires
            self.wf(),
        ensures
            r.total_errors == self.statistics().total_errors,
            r.errors_by_category.entries() == self.statistics().errors_by_category.entries(),
            r.execution_duration_ms == execution_duration_ms,
            match r.most_common_error {
                Some(n) => self.statistics().errors_by_category.has(n@) && forall|m: Seq<char>|
                    self.statistics().errors_by_category.has(m) ==> #[trigger] self.statistics().errors_by_category.count(m)
                        <= self.statistics().errors_by_category.count(n@),
                None => forall|m: Seq<char>| !self.statistics().errors_by_category.has(m),
            },
    {
        ErrorSummary {
            total_errors: self.statistics.total_errors,
            errors_by_category: self.statistics.errors_by_category.clone(),
            execution_duration_ms,
            most_common_error: self.find_most_common_error(),
        }
    }

    /// A category with the most errors, if any error was recorded.
    pub fn find_most_common_error(&self) -> (r: Option<String>)
        requires
            self.wf(),
        ensures
            match r {
                Some(n) => self.statistics().errors_by_category.has(n@) && forall|m: Seq<char>|
                    self.statistics().errors_by_category.has(m) ==> #[trigger] self.statistics().errors_by_category.count(m)
                        <= self.statistics().errors_by_category.count(n@),
                None => forall|m: Seq<char>| !self.statistics().errors_by_category.has(m),
            },
    {
        self.statistics.errors_by_category.most_common()
    }
}

} // verus!
