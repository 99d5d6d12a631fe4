//! Violations, validation reports and the error type shared by every component.

use vstd::prelude::*;
use crate::bindings::{utc_now, Timestamp};
use crate::numerals::{decimal, push_decimal};
use crate::text::{append, chars_of, string_of};

verus! {

/// Severity levels for code quality violations, from least to most severe.
#[derive(Debug, Clone, Copy, PartialEq, Eq, Structural, PartialOrd, Ord, Hash)]
pub enum Severity {
    /// Informational messages and suggestions.
    Info,
    /// Warnings that should be addressed but do not block builds.
    Warning,
    /// Errors that block commits and fail builds.
    Error,
}

impl Severity {
    /// The position of the level in the order `Info < Warning < Error`.
    pub open spec fn level(self) -> nat {
        match self {
            Severity::Info => 0,
            Severity::Warning => 1,
            Severity::Error => 2,
        }
    }

    /// The lower-case name of the level.
    pub open spec fn name(self) -> Seq<char> {
        match self {
            Severity::Info => "info"@,
            Severity::Warning => "warning"@,
            Severity::Error => "error"@,
        }
    }

    /// The position of the level in the order of severities.
    pub fn rank(self) -> (r: u8)
        ensures
            r == self.level(),
    {
        match self {
            Severity::Info => 0,
            Severity::Warning => 1,
            Severity::Error => 2,
        }
    }

    /// Whether this level is at least as severe as `floor`.
    pub fn at_least(self, floor: Severity) -> (b: bool)
        ensures
            b == (self.level() >= floor.level()),
    {
        self.rank() >= floor.rank()
    }

    /// Whether a finding of this severity fails a validation run.
    pub fn is_blocking(self) -> (b: bool)
        ensures
            b == (self == Severity::Error),
    {
        matches!(self, Severity::Error)
    }

    /// The name used in reports.
    pub fn as_str(self) -> (s: &'static str)
        ensures
            s@ == self.name(),
    {
        match self {
            Severity::Info => "info",
            Severity::Warning => "warning",
            Severity::Error => "error",
        }
    }
}

/// The text of an optional string.
pub open spec fn opt_text(o: Option<String>) -> Option<Seq<char>> {
    match o {
        Some(s) => Some(s@),
        None => None,
    }
}

/// A copy of an optional string.
pub fn copy_opt_text(o: &Option<String>) -> (r: Option<String>)
    ensures
        r == *o,
{
    match o {
        Some(s) => Some(s.clone()),
        None => None,
    }
}

/// A code quality violation detected during analysis.
#[derive(Debug, Clone)]
pub struct Violation {
    /// Identifier of the rule that detected this violation.
    pub rule_id: String,
    pub severity: Severity,
    /// Path of the file in which the violation was found.
    pub file_path: String,
    /// Line number, counted from one.
    pub line_number: Option<u32>,
    /// Column number, counted from one.
    pub column_number: Option<u32>,
    pub message: String,
    /// The source line around the violation.
    pub context: Option<String>,
    pub suggested_fix: Option<String>,
    /// When the violation was detected.
    pub detected_at: Timestamp,
}

/// What a [`Violation`] says.
pub struct ViolationView {
    pub rule_id: Seq<char>,
    pub severity: Severity,
    pub file_path: Seq<char>,
    pub line_number: Option<u32>,
    pub column_number: Option<u32>,
    pub message: Seq<char>,
    pub context: Option<Seq<char>>,
    pub suggested_fix: Option<Seq<char>>,
    pub detected_at: Timestamp,
}

impl View for Violation {
    type V = ViolationView;

    open spec fn view(&self) -> ViolationView {
        ViolationView {
            rule_id: self.rule_id@,
            severity: self.severity,
            file_path: self.file_path@,
            line_number: self.line_number,
            column_number: self.column_number,
            message: self.message@,
            context: opt_text(self.context),
            suggested_fix: opt_text(self.suggested_fix),
            detected_at: self.detected_at,
        }
    }
}

/// A violation without position, context or suggestion.
pub open spec fn bare_violation(
    rule_id: Seq<char>,
    severity: Severity,
    file_path: Seq<char>,
    message: Seq<char>,
    detected_at: Timestamp,
) -> ViolationView {
    ViolationView {
        rule_id,
        severity,
        file_path,
        line_number: None,
        column_number: None,
        message,
        context: None,
        suggested_fix: None,
        detected_at,
    }
}

/// The `:line:column` part of a displayed violation.
pub open spec fn location_suffix(line: Option<u32>, column: Option<u32>) -> Seq<char> {
    match (line, column) {
        (Some(l), Some(c)) => seq![':'] + decimal(l as nat) + seq![':'] + decimal(c as nat),
        (Some(l), None) => seq![':'] + decimal(l as nat),
        _ => Seq::<char>::empty(),
    }
}

/// One violation on one line: `path:line:column [severity] message`.
pub open spec fn display_line(v: ViolationView) -> Seq<char> {
    v.file_path + location_suffix(v.line_number, v.column_number) + seq![' ', '[']
        + v.severity.name() + seq![']', ' '] + v.message
}

impl Violation {
    /// A violation detected at the given time.
    pub fn at(
        rule_id: &str,
        severity: Severity,
        file_path: &str,
        message: &str,
        detected_at: Timestamp,
    ) -> (v: Violation)
        ensures
            v@ == bare_violation(rule_id@, severity, file_path@, message@, detected_at),
    {
        Violation {
            rule_id: rule_id.to_owned(),
            severity,
            file_path: file_path.to_owned(),
            line_number: None,
            column_number: None,
            message: message.to_owned(),
            context: None,
            suggested_fix: None,
            detected_at,
        }
    }

    /// A violation detected now. Only the time of detection is left open.
    pub fn new(rule_id: &str, severity: Severity, file_path: &str, message: &str) -> (v: Violation)
        ensures
            v@ == bare_violation(rule_id@, severity, file_path@, message@, v.detected_at),
    {
        Violation::at(rule_id, severity, file_path, message, utc_now())
    }

    /// Sets line and column.
    pub fn with_position(self, line: u32, column: u32) -> (v: Violation)
        ensures
            v@ == (ViolationView { line_number: Some(line), column_number: Some(column), ..self@ }),
    {
        let mut v = self;
        v.line_number = Some(line);
        v.column_number = Some(column);
        v
    }

    /// Adds the source context.
    pub fn with_context(self, context: &str) -> (v: Violation)
        ensures
            v@ == (ViolationView { context: Some(context@), ..self@ }),
    {
        let mut v = self;
        v.context = Some(context.to_owned());
        v
    }

    /// Adds a suggested fix.
    pub fn with_suggestion(self, suggestion: &str) -> (v: Violation)
        ensures
            v@ == (ViolationView { suggested_fix: Some(suggestion@), ..self@ }),
    {
        let mut v = self;
        v.suggested_fix = Some(suggestion.to_owned());
        v
    }

    /// Whether this violation prevents commits and builds.
    pub fn is_blocking(&self) -> (b: bool)
        ensures
            b == (self.severity == Severity::Error),
    {
        self.severity.is_blocking()
    }

    /// A copy.
    pub fn duplicate(&self) -> (v: Violation)
        ensures
            v == *self,
    {
        Violation {
            rule_id: self.rule_id.clone(),
            severity: self.severity,
            file_path: self.file_path.clone(),
            line_number: self.line_number,
            column_number: self.column_number,
            message: self.message.clone(),
            context: copy_opt_text(&self.context),
            suggested_fix: copy_opt_text(&self.suggested_fix),
            detected_at: self.detected_at,
        }
    }

    /// The violation on one line, for display.
    pub fn format_display(&self) -> (s: String)
        ensures
            s@ == display_line(self@),
    {
        let mut out = chars_of(self.file_path.as_str());
        match (self.line_number, self.column_number) {
            (Some(line), Some(col)) => {
                out.push(':');
                push_decimal(&mut out, line as u64);
                out.push(':');
                push_decimal(&mut out, col as u64);
            },
            (Some(line), None) => {
                out.push(':');
                push_decimal(&mut out, line as u64);
            },
            _ => {},
        }
        assert(out@ =~= self.file_path@ + location_suffix(self.line_number, self.column_number));
        out.push(' ');
        out.push('[');
        let name = chars_of(self.severity.as_str());
        append(&mut out, name.as_slice());
        out.push(']');
        out.push(' ');
        let message = chars_of(self.message.as_str());
        append(&mut out, message.as_slice());
        assert(out@ =~= display_line(self@));
        string_of(out.as_slice())
    }
}

/// Count of violations by severity level.
#[derive(Debug, Clone, Copy, PartialEq, Eq, Structural)]
pub struct ViolationCounts {
    pub error: usize,
    pub warning: usize,
    pub info: usize,
}

impl ViolationCounts {
    /// The counts after one more violation of the given severity.
    pub open spec fn plus(self, severity: Severity) -> (int, int, int) {
        match severity {
            Severity::Error => (self.error + 1, self.warning as int, self.info as int),
            Severity::Warning => (self.error as int, self.warning + 1, self.info as int),
            Severity::Info => (self.error as int, self.warning as int, self.info + 1),
        }
    }

    /// No violations.
    pub fn zero() -> (c: ViolationCounts)
        ensures
            c.error == 0 && c.warning == 0 && c.info == 0,
    {
        ViolationCounts { error: 0, warning: 0, info: 0 }
    }

    /// Total number of violations across all severities.
    pub fn total(&self) -> (n: usize)
        requires
            self.error + self.warning + self.info <= usize::MAX,
        ensures
            n == self.error + self.warning + self.info,
    {
        self.error + self.warning + self.info
    }

    /// Whether there are any blocking violations.
    pub fn has_blocking(&self) -> (b: bool)
        ensures
            b == (self.error > 0),
    {
        self.error > 0
    }

    /// Counts one more violation: the count of its severity grows by one, the
    /// others stay. The count that grows must not be at its largest value.
    pub fn add(&mut self, severity: Severity)
        requires
            match severity {
                Severity::Error => old(self).error < usize::MAX,
                Severity::Warning => old(self).warning < usize::MAX,
                Severity::Info => old(self).info < usize::MAX,
            },
        ensures
            (final(self).error as int, final(self).warning as int, final(self).info as int) == old(
                self,
            ).plus(severity),
    {
        match severity {
            Severity::Error => self.error += 1,
            Severity::Warning => self.warning += 1,
            Severity::Info => self.info += 1,
        }
    }
}

/// Summary statistics of a validation report.
#[derive(Debug, Clone, Copy)]
pub struct ValidationSummary {
    /// Total number of files analyzed.
    pub total_files: usize,
    pub violations_by_severity: ViolationCounts,
    /// Total execution time in milliseconds.
    pub execution_time_ms: u64,
    /// When the validation was performed.
    pub validated_at: Timestamp,
}

/// The violations found by a run, with their summary.
#[derive(Debug, Clone)]
pub struct ValidationReport {
    pub violations: Vec<Violation>,
    pub summary: ValidationSummary,
    /// Fingerprint of the configuration used for the run.
    pub config_fingerprint: Option<String>,
}

/// What each violation of a list says.
pub open spec fn views(vs: Seq<Violation>) -> Seq<ViolationView> {
    vs.map_values(|v: Violation| v@)
}

/// How many of `vs` have the given severity.
pub open spec fn count_of(vs: Seq<Violation>, severity: Severity) -> nat
    decreases vs.len(),
{
    if vs.len() == 0 {
        0
    } else {
        count_of(vs.drop_last(), severity) + (if vs.last().severity == severity {
            1nat
        } else {
            0nat
        })
    }
}

/// Those of `vs` that have the given severity, in order.
pub open spec fn with_severity(vs: Seq<ViolationView>, severity: Severity) -> Seq<ViolationView>
    decreases vs.len(),
{
    if vs.len() == 0 {
        vs
    } else if vs.last().severity == severity {
        with_severity(vs.drop_last(), severity).push(vs.last())
    } else {
        with_severity(vs.drop_last(), severity)
    }
}

proof fn lemma_count_push(vs: Seq<Violation>, v: Violation, severity: Severity)
    ensures
        count_of(vs.push(v), severity) == count_of(vs, severity) + (if v.severity == severity {
            1nat
        } else {
            0nat
        }),
        count_of(vs, severity) <= vs.len(),
    decreases vs.len(),
{
    assert(vs.push(v).drop_last() =~= vs);
    if vs.len() > 0 {
        lemma_count_push(vs.drop_last(), vs.last(), severity);
        assert(vs.drop_last().push(vs.last()) =~= vs);
    }
}

impl ValidationReport {
    /// The summary counts agree with the list of violations.
    pub open spec fn wf(&self) -> bool {
        &&& self.summary.violations_by_severity.error == count_of(self.violations@, Severity::Error)
        &&& self.summary.violations_by_severity.warning == count_of(
            self.violations@,
            Severity::Warning,
        )
        &&& self.summary.violations_by_severity.info == count_of(self.violations@, Severity::Info)
    }

    /// An empty report, stamped with the given time.
    pub fn at(validated_at: Timestamp) -> (r: ValidationReport)
        ensures
            r.wf(),
            r.violations@.len() == 0,
            r.summary.total_files == 0,
            r.summary.execution_time_ms == 0,
            r.summary.validated_at == validated_at,
            r.config_fingerprint is None,
    {
        ValidationReport {
            violations: Vec::new(),
            summary: ValidationSummary {
                total_files: 0,
                violations_by_severity: ViolationCounts::zero(),
                execution_time_ms: 0,
                validated_at,
            },
            config_fingerprint: None,
        }
    }

    /// An empty report, stamped with the current time.
    pub fn new() -> (r: ValidationReport)
        ensures
            r.wf(),
            r.violations@.len() == 0,
            r.summary.total_files == 0,
            r.summary.execution_time_ms == 0,
            r.config_fingerprint is None,
    {
        ValidationReport::at(utc_now())
    }

    /// Adds a violation and counts it.
    pub fn add_violation(&mut self, violation: Violation)
        requires
            old(self).wf(),
        ensures
            final(self).wf(),
            final(self).violations@ == old(self).violations@.push(violation),
            final(self).summary.total_files == old(self).summary.total_files,
            final(self).summary.execution_time_ms == old(self).summary.execution_time_ms,
            final(self).summary.validated_at == old(self).summary.validated_at,
            final(self).config_fingerprint == old(self).config_fingerprint,
    {
        let severity = violation.severity;
        proof {
            lemma_count_push(self.violations@, violation, Severity::Error);
            lemma_count_push(self.violations@, violation, Severity::Warning);
            lemma_count_push(self.violations@, violation, Severity::Info);
        }
        self.violations.push(violation);
        let held: usize = self.violations.len();
        assert(old(self).violations@.len() < held);
        self.summary.violations_by_severity.add(severity);
    }

    /// Whether the report contains any violations.
    pub fn has_violations(&self) -> (b: bool)
        ensures
            b == (self.violations@.len() > 0),
    {
        self.violations.len() > 0
    }

    /// Whether the report counts blocking violations.
    pub fn has_errors(&self) -> (b: bool)
        ensures
            b == (self.summary.violations_by_severity.error > 0),
            self.wf() ==> b == (count_of(self.violations@, Severity::Error) > 0),
    {
        self.summary.violations_by_severity.has_blocking()
    }

    /// Copies of the violations of one severity, in their order in the report.
    pub fn violations_by_severity(&self, severity: Severity) -> (out: Vec<Violation>)
        ensures
            views(out@) == with_severity(views(self.violations@), severity),
    {
        let mut out: Vec<Violation> = Vec::new();
        let mut i: usize = 0;
        assert(views(self.violations@.take(0)) =~= Seq::<ViolationView>::empty());
        while i < self.violations.len()
            invariant
                i <= self.violations.len(),
                views(out@) == with_severity(views(self.violations@.take(i as int)), severity),
            decreases self.violations.len() - i,
        {
            let ghost seen = views(self.violations@.take(i as int));
            let ghost next = views(self.violations@.take(i + 1));
            proof {
                assert(next.drop_last() =~= seen);
                assert(next.last() == self.violations@[i as int]@);
            }
            if self.violations[i].severity == severity {
                let copy = self.violations[i].duplicate();
                assert(views(out@.push(copy)) =~= views(out@).push(copy@));
                out.push(copy);
            }
            i += 1;
        }
        assert(self.violations@.take(self.violations@.len() as int) =~= self.violations@);
        out
    }

    /// Sets the number of files analyzed.
    pub fn set_files_analyzed(&mut self, count: usize)
        ensures
            final(self).summary.total_files == count,
            final(self).violations == old(self).violations,
            final(self).summary.violations_by_severity == old(self).summary.violations_by_severity,
            final(self).summary.execution_time_ms == old(self).summary.execution_time_ms,
            final(self).summary.validated_at == old(self).summary.validated_at,
            final(self).config_fingerprint == old(self).config_fingerprint,
    {
        self.summary.total_files = count;
    }

    /// Sets the execution time.
    pub fn set_execution_time(&mut self, duration_ms: u64)
        ensures
            final(self).summary.execution_time_ms == duration_ms,
            final(self).violations == old(self).violations,
            final(self).summary.violations_by_severity == old(self).summary.violations_by_severity,
            final(self).summary.total_files == old(self).summary.total_files,
            final(self).summary.validated_at == old(self).summary.validated_at,
            final(self).config_fingerprint == old(self).config_fingerprint,
    {
        self.summary.execution_time_ms = duration_ms;
    }

    /// Sets the configuration fingerprint.
    pub fn set_config_fingerprint(&mut self, fingerprint: &str)
        ensures
            opt_text(final(self).config_fingerprint) == Some(fingerprint@),
            final(self).violations == old(self).violations,
            final(self).summary == old(self).summary,
    {
        self.config_fingerprint = Some(fingerprint.to_owned());
    }

    /// Moves the violations of `other` to the end of this report and adds up the
    /// files analyzed.
    pub fn merge(&mut self, other: ValidationReport)
        requires
            old(self).wf(),
            old(self).summary.total_files + other.summary.total_files <= usize::MAX,
        ensures
            final(self).wf(),
            final(self).violations@ == old(self).violations@ + other.violations@,
            final(self).summary.total_files == old(self).summary.total_files
                + other.summary.total_files,
            final(self).summary.execution_time_ms == old(self).summary.execution_time_ms,
            final(self).summary.validated_at == old(self).summary.validated_at,
            final(self).config_fingerprint == old(self).config_fingerprint,
    {
        let total: usize = self.summary.total_files + other.summary.total_files;
        let mut i: usize = 0;
        while i < other.violations.len()
            invariant
                i <= other.violations.len(),
                self.wf(),
                self.violations@ == old(self).violations@ + other.violations@.take(i as int),
                self.summary.total_files == old(self).summary.total_files,
                self.summary.execution_time_ms == old(self).summary.execution_time_ms,
                self.summary.validated_at == old(self).summary.validated_at,
                self.config_fingerprint == old(self).config_fingerprint,
            decreases other.violations.len() - i,
        {
            let copy = other.violations[i].duplicate();
            self.add_violation(copy);
            assert(self.violations@ =~= old(self).violations@ + other.violations@.take(i + 1));
            i += 1;
        }
        assert(other.violations@.take(other.violations@.len() as int) =~= other.violations@);
        self.summary.total_files = total;
    }
}

/// What went wrong.
#[derive(Debug, Clone)]
pub enum GuardianError {
    /// Configuration could not be loaded or is not valid.
    Configuration { message: String },
    /// A file could not be read or written.
    Io { message: String },
    /// A pattern could not be compiled.
    Pattern { message: String },
    /// Analysis failed for a specific file.
    Analysis { file: String, message: String },
    /// A cache operation failed.
    Cache { message: String },
    /// A validation operation failed.
    Validation { message: String },
}

/// What a [`GuardianError`] says.
pub enum ErrorView {
    Configuration { message: Seq<char> },
    Io { message: Seq<char> },
    Pattern { message: Seq<char> },
    Analysis { file: Seq<char>, message: Seq<char> },
    Cache { message: Seq<char> },
    Validation { message: Seq<char> },
}

impl View for GuardianError {
    type V = ErrorView;

    open spec fn view(&self) -> ErrorView {
        match self {
            GuardianError::Configuration { message } => ErrorView::Configuration {
                message: message@,
            },
            GuardianError::Io { message } => ErrorView::Io { message: message@ },
            GuardianError::Pattern { message } => ErrorView::Pattern { message: message@ },
            GuardianError::Analysis { file, message } => ErrorView::Analysis {
                file: file@,
                message: message@,
            },
            GuardianError::Cache { message } => ErrorView::Cache { message: message@ },
            GuardianError::Validation { message } => ErrorView::Validation { message: message@ },
        }
    }
}

/// The one-line description of an error.
pub open spec fn error_text(e: ErrorView) -> Seq<char> {
    match e {
        ErrorView::Configuration { message } => "Configuration error: "@ + message,
        ErrorView::Io { message } => "IO error: "@ + message,
        ErrorView::Pattern { message } => "Pattern error: "@ + message,
        ErrorView::Analysis { file, message } => "Analysis error in "@ + file + ": "@ + message,
        ErrorView::Cache { message } => "Cache error: "@ + message,
        ErrorView::Validation { message } => "Validation error: "@ + message,
    }
}

fn labelled(label: &str, message: &str) -> (s: String)
    ensures
        s@ == label@ + message@,
{
    let mut out = chars_of(label);
    let m = chars_of(message);
    append(&mut out, m.as_slice());
    string_of(out.as_slice())
}

impl GuardianError {
    /// A configuration error.
    pub fn config(message: &str) -> (e: GuardianError)
        ensures
            e@ == (ErrorView::Configuration { message: message@ }),
    {
        GuardianError::Configuration { message: message.to_owned() }
    }

    /// A pattern error.
    pub fn pattern(message: &str) -> (e: GuardianError)
        ensures
            e@ == (ErrorView::Pattern { message: message@ }),
    {
        GuardianError::Pattern { message: message.to_owned() }
    }

    /// An analysis error for one file.
    pub fn analysis(file: &str, message: &str) -> (e: GuardianError)
        ensures
            e@ == (ErrorView::Analysis { file: file@, message: message@ }),
    {
        GuardianError::Analysis { file: file.to_owned(), message: message.to_owned() }
    }

    /// A cache error.
    pub fn cache(message: &str) -> (e: GuardianError)
        ensures
            e@ == (ErrorView::Cache { message: message@ }),
    {
        GuardianError::Cache { message: message.to_owned() }
    }

    /// A validation error.
    pub fn validation(message: &str) -> (e: GuardianError)
        ensures
            e@ == (ErrorView::Validation { message: message@ }),
    {
        GuardianError::Validation { message: message.to_owned() }
    }

    /// The one-line description of the error.
    pub fn to_text(&self) -> (s: String)
        ensures
            s@ == error_text(self@),
    {
        match self {
            GuardianError::Configuration { message } => labelled(
                "Configuration error: ",
                message.as_str(),
            ),
            GuardianError::Io { message } => labelled("IO error: ", message.as_str()),
            GuardianError::Pattern { message } => labelled("Pattern error: ", message.as_str()),
            GuardianError::Analysis { file, message } => {
                let head = labelled("Analysis error in ", file.as_str());
                let head = labelled(head.as_str(), ": ");
                let all = labelled(head.as_str(), message.as_str());
                assert(all@ =~= error_text(self@));
                all
            },
            GuardianError::Cache { message } => labelled("Cache error: ", message.as_str()),
            GuardianError::Validation { message } => labelled(
                "Validation error: ",
                message.as_str(),
            ),
        }
    }
}

} // verus!
