//! Reports as text: for people, for continuous integration, for GitHub.

pub mod human;
pub mod order;

use vstd::prelude::*;
use crate::bindings::{lowercase, to_lowercase};
use crate::domain::violations::{
    opt_text, views, Severity, ValidationReport, Violation, ViolationView,
};
use crate::numerals::{decimal, push_decimal};
use crate::ordering::indices;
use crate::numerals::decimal_text;
use crate::text::{
    append, chars_of, joined, replace, replace_all, same_text, string_of, TextBuilder,
};

verus! {

/// The output formats of reports.
#[derive(Debug, Clone, Copy, PartialEq, Eq, Structural)]
pub enum OutputFormat {
    /// For people, with colours and context.
    Human,
    /// JSON, for programs.
    Json,
    /// JUnit XML, for continuous integration.
    Junit,
    /// SARIF, for security tools.
    Sarif,
    /// Workflow commands of GitHub Actions.
    GitHub,
}

/// The format that a lower-case name stands for.
pub open spec fn format_named(name: Seq<char>) -> Option<OutputFormat> {
    if name == "human"@ {
        Some(OutputFormat::Human)
    } else if name == "json"@ {
        Some(OutputFormat::Json)
    } else if name == "junit"@ {
        Some(OutputFormat::Junit)
    } else if name == "sarif"@ {
        Some(OutputFormat::Sarif)
    } else if name == "github"@ {
        Some(OutputFormat::GitHub)
    } else {
        None
    }
}

impl OutputFormat {
    /// The format that a lower-case name stands for.
    pub fn named(name: &str) -> (r: Option<OutputFormat>)
        ensures
            r == format_named(name@),
    {
        if same_text(name, "human") {
            Some(OutputFormat::Human)
        } else if same_text(name, "json") {
            Some(OutputFormat::Json)
        } else if same_text(name, "junit") {
            Some(OutputFormat::Junit)
        } else if same_text(name, "sarif") {
            Some(OutputFormat::Sarif)
        } else if same_text(name, "github") {
            Some(OutputFormat::GitHub)
        } else {
            None
        }
    }

    /// The format that a name stands for, in any letter case.
    pub fn from_str(s: &str) -> (r: Option<OutputFormat>)
        ensures
            r == format_named(lowercase(s@)),
    {
        let lower = to_lowercase(s);
        OutputFormat::named(lower.as_str())
    }

    /// The names of all formats.
    pub fn all_formats() -> (names: Vec<&'static str>)
        ensures
            names@.len() == 5,
            names@[0]@ == "human"@,
            names@[1]@ == "json"@,
            names@[2]@ == "junit"@,
            names@[3]@ == "sarif"@,
            names@[4]@ == "github"@,
    {
        let mut names: Vec<&'static str> = Vec::new();
        names.push("human");
        names.push("json");
        names.push("junit");
        names.push("sarif");
        names.push("github");
        names
    }
}

/// Options for reports.
#[derive(Debug, Clone, Copy, PartialEq, Eq, Structural)]
pub struct ReportOptions {
    /// Whether to colour the output for people.
    pub use_colors: bool,
    /// Whether to show the source line of a violation.
    pub show_context: bool,
    /// Whether to show suggested fixes.
    pub show_suggestions: bool,
    /// The largest number of violations to show, if there is a limit.
    pub max_violations: Option<usize>,
    /// The least severity to show, if there is one.
    pub min_severity: Option<Severity>,
}

impl Default for ReportOptions {
    fn default() -> (o: ReportOptions)
        ensures
            o == (ReportOptions {
                use_colors: true,
                show_context: true,
                show_suggestions: true,
                max_violations: None,
                min_severity: None,
            }),
    {
        ReportOptions {
            use_colors: true,
            show_context: true,
            show_suggestions: true,
            max_violations: None,
            min_severity: None,
        }
    }
}

/// Formats reports.
#[derive(Debug, Clone, Copy)]
pub struct ReportFormatter {
    pub options: ReportOptions,
}

// ---------------------------------------------------------------------------
// Which violations are shown
// ---------------------------------------------------------------------------

/// Whether a violation is severe enough to be shown.
pub open spec fn is_shown(v: ViolationView, min_severity: Option<Severity>) -> bool {
    match min_severity {
        Some(min) => v.severity.level() >= min.level(),
        None => true,
    }
}

/// The positions among the first `n` of the violations that are severe enough.
pub open spec fn severe_enough(vs: Seq<ViolationView>, min_severity: Option<Severity>, n: int) -> Seq<
    int,
>
    decreases n,
{
    if n <= 0 {
        Seq::<int>::empty()
    } else if is_shown(vs[n - 1], min_severity) {
        severe_enough(vs, min_severity, n - 1).push(n - 1)
    } else {
        severe_enough(vs, min_severity, n - 1)
    }
}

/// The positions of the violations that a report shows: those that are severe
/// enough, in order, up to the largest number allowed.
pub open spec fn shown(vs: Seq<ViolationView>, options: ReportOptions) -> Seq<int> {
    let all = severe_enough(vs, options.min_severity, vs.len() as int);
    match options.max_violations {
        Some(max) => if max < all.len() {
            all.take(max as int)
        } else {
            all
        },
        None => all,
    }
}

// ---------------------------------------------------------------------------
// Escaping
// ---------------------------------------------------------------------------

/// A text with the five special characters of XML replaced by their entities.
pub open spec fn xml_escaped(s: Seq<char>) -> Seq<char> {
    replace_all(
        replace_all(
            replace_all(
                replace_all(replace_all(s, "&"@, "&amp;"@), "<"@, "&lt;"@),
                ">"@,
                "&gt;"@,
            ),
            "\""@,
            "&quot;"@,
        ),
        "'"@,
        "&#39;"@,
    )
}

/// Escapes the special characters of XML.
pub fn escape_xml(s: &str) -> (r: String)
    ensures
        r@ == xml_escaped(s@),
{
    let c = chars_of(s);
    let amp = chars_of("&");
    let amp_to = chars_of("&amp;");
    let lt = chars_of("<");
    let lt_to = chars_of("&lt;");
    let gt = chars_of(">");
    let gt_to = chars_of("&gt;");
    let quot = chars_of("\"");
    let quot_to = chars_of("&quot;");
    let apos = chars_of("'");
    let apos_to = chars_of("&#39;");
    let a = replace(c.as_slice(), amp.as_slice(), amp_to.as_slice());
    let b = replace(a.as_slice(), lt.as_slice(), lt_to.as_slice());
    let d = replace(b.as_slice(), gt.as_slice(), gt_to.as_slice());
    let e = replace(d.as_slice(), quot.as_slice(), quot_to.as_slice());
    let f = replace(e.as_slice(), apos.as_slice(), apos_to.as_slice());
    string_of(f.as_slice())
}

// ---------------------------------------------------------------------------
// GitHub
// ---------------------------------------------------------------------------

/// The level of a workflow command.
pub open spec fn github_level(s: Severity) -> Seq<char> {
    match s {
        Severity::Error => "error"@,
        Severity::Warning => "warning"@,
        Severity::Info => "notice"@,
    }
}

/// The position part of a workflow command.
pub open spec fn github_position(line: Option<u32>, column: Option<u32>) -> Seq<char> {
    match (line, column) {
        (Some(l), Some(c)) => " line="@ + decimal(l as nat) + ",col="@ + decimal(c as nat),
        (Some(l), None) => " line="@ + decimal(l as nat),
        _ => ""@,
    }
}

/// The workflow command for one violation.
pub open spec fn github_line(v: ViolationView) -> Seq<char> {
    "::"@ + github_level(v.severity) + " file="@ + v.file_path + ",title="@ + v.rule_id
        + github_position(v.line_number, v.column_number) + "::"@ + v.message + "\n"@
}

/// The workflow commands for the violations at the first `n` of the given
/// positions.
pub open spec fn github_text(vs: Seq<ViolationView>, at: Seq<int>, n: int) -> Seq<char>
    decreases n,
{
    if n <= 0 {
        Seq::<char>::empty()
    } else {
        github_text(vs, at, n - 1) + github_line(vs[at[n - 1]])
    }
}

// ---------------------------------------------------------------------------
// JUnit
// ---------------------------------------------------------------------------

/// Milliseconds as seconds with three decimals.
pub open spec fn seconds_text(ms: u64) -> Seq<char> {
    joined(
        seq![
            decimal((ms / 1000) as nat),
            "."@,
            decimal(((ms % 1000) / 100) as nat),
            decimal(((ms % 100) / 10) as nat),
            decimal((ms % 10) as nat),
        ],
    )
}

/// How many of the violations at the first `n` positions are errors.
pub open spec fn errors_among(vs: Seq<ViolationView>, at: Seq<int>, n: int) -> int
    decreases n,
{
    if n <= 0 {
        0
    } else {
        errors_among(vs, at, n - 1) + (if vs[at[n - 1]].severity == Severity::Error {
            1int
        } else {
            0int
        })
    }
}

/// A number, or zero when there is none.
pub open spec fn or_zero(n: Option<u32>) -> nat {
    match n {
        Some(x) => x as nat,
        None => 0,
    }
}

/// The line that shows the context of a failure, if there is a context.
pub open spec fn junit_context(context: Option<Seq<char>>) -> Seq<char> {
    match context {
        Some(c) => joined(seq!["      Context: "@, xml_escaped(c), "\n"@]),
        None => ""@,
    }
}

/// The failure that reports an error: where it is, and the line around it.
pub open spec fn junit_failure(v: ViolationView) -> Seq<char> {
    joined(
        seq![
            "    <failure message=\""@,
            xml_escaped(v.message),
            "\">\n"@,
            "      File: "@,
            v.file_path,
            ":"@,
            decimal(or_zero(v.line_number)),
            ":"@,
            decimal(or_zero(v.column_number)),
            "\n"@,
            junit_context(v.context),
            "    </failure>\n"@,
        ],
    )
}

/// The test case for one violation; an error is a failure.
pub open spec fn junit_case(v: ViolationView) -> Seq<char> {
    joined(
        seq![
            "  <testcase classname=\""@,
            v.rule_id,
            "\" name=\""@,
            xml_escaped(v.file_path),
            "\">\n"@,
            if v.severity == Severity::Error {
                junit_failure(v)
            } else {
                ""@
            },
            "  </testcase>\n"@,
        ],
    )
}

/// The test cases for the violations at the first `n` positions.
pub open spec fn junit_cases(vs: Seq<ViolationView>, at: Seq<int>, n: int) -> Seq<char>
    decreases n,
{
    if n <= 0 {
        Seq::<char>::empty()
    } else {
        junit_cases(vs, at, n - 1) + junit_case(vs[at[n - 1]])
    }
}

/// The test suite for the violations at the given positions.
pub open spec fn junit_text(vs: Seq<ViolationView>, at: Seq<int>, time_ms: u64) -> Seq<char> {
    joined(
        seq![
            "<?xml version=\"1.0\" encoding=\"UTF-8\"?>\n"@,
            "<testsuite name=\"rust-guardian\" tests=\""@,
            decimal(at.len()),
            "\" failures=\""@,
            decimal(errors_among(vs, at, at.len() as int) as nat),
            "\" errors=\"0\" time=\""@,
            seconds_text(time_ms),
            "\">\n"@,
            junit_cases(vs, at, at.len() as int),
            "</testsuite>\n"@,
        ],
    )
}

fn push_str(out: &mut Vec<char>, s: &str)
    ensures
        final(out)@ == old(out)@ + s@,
{
    let c = chars_of(s);
    append(out, c.as_slice());
}

fn number(n: u64) -> (s: String)
    ensures
        s@ == decimal(n as nat),
{
    let d = decimal_text(n);
    string_of(d.as_slice())
}

fn junit_context_line(context: &Option<String>) -> (s: String)
    ensures
        s@ == junit_context(opt_text(*context)),
{
    match context {
        Some(c) => {
            let mut b = TextBuilder::new();
            b.push("      Context: ");
            let escaped = escape_xml(c.as_str());
            b.push(escaped.as_str());
            b.push("\n");
            assert(b.parts@ =~= seq!["      Context: "@, xml_escaped(c@), "\n"@]);
            b.finish()
        },
        None => "".to_owned(),
    }
}

fn junit_failure_text(v: &Violation) -> (s: String)
    ensures
        s@ == junit_failure(v@),
{
    let mut b = TextBuilder::new();
    b.push("    <failure message=\"");
    let message = escape_xml(v.message.as_str());
    b.push(message.as_str());
    b.push("\">\n");
    b.push("      File: ");
    b.push(v.file_path.as_str());
    b.push(":");
    let line = number(
        match v.line_number {
            Some(l) => l as u64,
            None => 0,
        },
    );
    b.push(line.as_str());
    b.push(":");
    let column = number(
        match v.column_number {
            Some(c) => c as u64,
            None => 0,
        },
    );
    b.push(column.as_str());
    b.push("\n");
    let context = junit_context_line(&v.context);
    b.push(context.as_str());
    b.push("    </failure>\n");
    assert(b.parts@ =~= seq![
        "    <failure message=\""@,
        xml_escaped(v@.message),
        "\">\n"@,
        "      File: "@,
        v@.file_path,
        ":"@,
        decimal(or_zero(v@.line_number)),
        ":"@,
        decimal(or_zero(v@.column_number)),
        "\n"@,
        junit_context(v@.context),
        "    </failure>\n"@,
    ]);
    b.finish()
}

fn junit_case_text(v: &Violation) -> (s: String)
    ensures
        s@ == junit_case(v@),
{
    let mut b = TextBuilder::new();
    b.push("  <testcase classname=\"");
    b.push(v.rule_id.as_str());
    b.push("\" name=\"");
    let name = escape_xml(v.file_path.as_str());
    b.push(name.as_str());
    b.push("\">\n");
    let failure = if v.severity.is_blocking() {
        junit_failure_text(v)
    } else {
        "".to_owned()
    };
    b.push(failure.as_str());
    b.push("  </testcase>\n");
    assert(b.parts@ =~= seq![
        "  <testcase classname=\""@,
        v@.rule_id,
        "\" name=\""@,
        xml_escaped(v@.file_path),
        "\">\n"@,
        if v@.severity == Severity::Error {
            junit_failure(v@)
        } else {
            ""@
        },
        "  </testcase>\n"@,
    ]);
    b.finish()
}

fn seconds(ms: u64) -> (s: String)
    ensures
        s@ == seconds_text(ms),
{
    let mut b = TextBuilder::new();
    let whole = number(ms / 1000);
    b.push(whole.as_str());
    b.push(".");
    let tenths = number((ms % 1000) / 100);
    b.push(tenths.as_str());
    let hundredths = number((ms % 100) / 10);
    b.push(hundredths.as_str());
    let thousandths = number(ms % 10);
    b.push(thousandths.as_str());
    assert(b.parts@ =~= seq![
        decimal((ms / 1000) as nat),
        "."@,
        decimal(((ms % 1000) / 100) as nat),
        decimal(((ms % 100) / 10) as nat),
        decimal((ms % 10) as nat),
    ]);
    b.finish()
}

impl ReportFormatter {
    /// A formatter with the given options.
    pub fn new(options: ReportOptions) -> (f: ReportFormatter)
        ensures
            f.options == options,
    {
        ReportFormatter { options }
    }

    /// A formatter with the default options.
    pub fn default() -> (f: ReportFormatter)
        ensures
            f.options == (ReportOptions {
                use_colors: true,
                show_context: true,
                show_suggestions: true,
                max_violations: None,
                min_severity: None,
            }),
    {
        ReportFormatter { options: ReportOptions::default() }
    }

    /// The positions of the violations that a report shows.
    pub fn filter_violations(&self, violations: &Vec<Violation>) -> (kept: Vec<usize>)
        ensures
            indices(kept@) == shown(views(violations@), self.options),
            forall|k: int| 0 <= k < kept@.len() ==> (#[trigger] kept@[k]) < violations@.len(),
    {
        let ghost vs = views(violations@);
        let mut kept: Vec<usize> = Vec::new();
        let mut i: usize = 0;
        assert(indices(kept@) =~= severe_enough(vs, self.options.min_severity, 0));
        while i < violations.len()
            invariant
                i <= violations.len(),
                vs == views(violations@),
                indices(kept@) == severe_enough(vs, self.options.min_severity, i as int),
                forall|k: int| 0 <= k < kept@.len() ==> (#[trigger] kept@[k]) < i,
            decreases violations.len() - i,
        {
            assert(vs[i as int] == violations@[i as int]@);
            let enough = match self.options.min_severity {
                Some(min) => violations[i].severity.at_least(min),
                None => true,
            };
            if enough {
                assert(indices(kept@.push(i)) =~= indices(kept@).push(i as int));
                kept.push(i);
            }
            i += 1;
        }
        assert(indices(kept@).len() == kept@.len());
        match self.options.max_violations {
            Some(max) => {
                if max < kept.len() {
                    let ghost all = kept@;
                    kept.truncate(max);
                    assert(indices(kept@) =~= indices(all).take(max as int));
                }
            },
            None => {},
        }
        kept
    }

    /// The report as workflow commands of GitHub Actions, one for each
    /// violation shown.
    pub fn format_github(&self, report: &ValidationReport) -> (s: String)
        ensures
            s@ == github_text(
                views(report.violations@),
                shown(views(report.violations@), self.options),
                shown(views(report.violations@), self.options).len() as int,
            ),
    {
        let ghost vs = views(report.violations@);
        let kept = self.filter_violations(&report.violations);
        let ghost at = indices(kept@);
        assert(at.len() == kept@.len());
        let mut out: Vec<char> = Vec::new();
        let mut k: usize = 0;
        assert(out@ =~= github_text(vs, at, 0));
        while k < kept.len()
            invariant
                k <= kept.len(),
                vs == views(report.violations@),
                at == indices(kept@),
                forall|j: int| 0 <= j < kept@.len() ==> (#[trigger] kept@[j]) < report.violations@.len(),
                out@ == github_text(vs, at, k as int),
            decreases kept.len() - k,
        {
            let ghost before = out@;
            assert(at[k as int] == kept@[k as int]);
            let v = &report.violations[kept[k]];
            assert(vs[at[k as int]] == v@);
            push_str(&mut out, "::");
            push_str(
                &mut out,
                match v.severity {
                    Severity::Error => "error",
                    Severity::Warning => "warning",
                    Severity::Info => "notice",
                },
            );
            push_str(&mut out, " file=");
            push_str(&mut out, v.file_path.as_str());
            push_str(&mut out, ",title=");
            push_str(&mut out, v.rule_id.as_str());
            let ghost head = out@;
            match (v.line_number, v.column_number) {
                (Some(line), Some(column)) => {
                    push_str(&mut out, " line=");
                    push_decimal(&mut out, line as u64);
                    push_str(&mut out, ",col=");
                    push_decimal(&mut out, column as u64);
                },
                (Some(line), None) => {
                    push_str(&mut out, " line=");
                    push_decimal(&mut out, line as u64);
                },
                _ => {
                    push_str(&mut out, "");
                },
            }
            assert(out@ =~= head + github_position(v.line_number, v.column_number));
            push_str(&mut out, "::");
            push_str(&mut out, v.message.as_str());
            push_str(&mut out, "\n");
            assert(out@ =~= before + github_line(v@));
            k += 1;
        }
        string_of(out.as_slice())
    }

    /// The report as a JUnit test suite: one test case for each violation
    /// shown, a failure for each error.
    pub fn format_junit(&self, report: &ValidationReport) -> (s: String)
        ensures
            s@ == junit_text(
                views(report.violations@),
                shown(views(report.violations@), self.options),
                report.summary.execution_time_ms,
            ),
    {
        let ghost vs = views(report.violations@);
        let kept = self.filter_violations(&report.violations);
        let ghost at = indices(kept@);
        assert(at.len() == kept@.len());
        let mut failures: usize = 0;
        let mut cases: Vec<char> = Vec::new();
        let mut k: usize = 0;
        assert(cases@ =~= junit_cases(vs, at, 0));
        while k < kept.len()
            invariant
                k <= kept.len(),
                vs == views(report.violations@),
                at == indices(kept@),
                at.len() == kept@.len(),
                forall|j: int| 0 <= j < kept@.len() ==> (#[trigger] kept@[j]) < report.violations@.len(),
                cases@ == junit_cases(vs, at, k as int),
                failures == errors_among(vs, at, k as int),
                failures <= k,
            decreases kept.len() - k,
        {
            assert(at[k as int] == kept@[k as int]);
            let v = &report.violations[kept[k]];
            assert(vs[at[k as int]] == v@);
            if v.severity.is_blocking() {
                failures += 1;
            }
            let case = junit_case_text(v);
            let chars = chars_of(case.as_str());
            append(&mut cases, chars.as_slice());
            k += 1;
        }
        let ms = report.summary.execution_time_ms;
        let mut b = TextBuilder::new();
        b.push("<?xml version=\"1.0\" encoding=\"UTF-8\"?>\n");
        b.push("<testsuite name=\"rust-guardian\" tests=\"");
        let tests = number(kept.len() as u64);
        b.push(tests.as_str());
        b.push("\" failures=\"");
        let failed = number(failures as u64);
        b.push(failed.as_str());
        b.push("\" errors=\"0\" time=\"");
        let time = seconds(ms);
        b.push(time.as_str());
        b.push("\">\n");
        b.push_chars(cases.as_slice());
        b.push("</testsuite>\n");
        assert(b.parts@ =~= seq![
            "<?xml version=\"1.0\" encoding=\"UTF-8\"?>\n"@,
            "<testsuite name=\"rust-guardian\" tests=\""@,
            decimal(at.len()),
            "\" failures=\""@,
            decimal(errors_among(vs, at, at.len() as int) as nat),
            "\" errors=\"0\" time=\""@,
            seconds_text(ms),
            "\">\n"@,
            junit_cases(vs, at, at.len() as int),
            "</testsuite>\n"@,
        ]);
        b.finish()
    }
}

} // verus!
