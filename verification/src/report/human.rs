//! The report for people: violations grouped by file, then a summary.

use vstd::prelude::*;
use crate::domain::violations::{views, Severity, ValidationReport, Violation, ViolationView};
use crate::numerals::{decimal, decimal_text};
use crate::ordering::{indices, order_by_key, stable_order, text_le};
use crate::paths::{path_segments, segments};
use crate::report::{shown, ReportFormatter, ReportOptions};
use crate::text::{append, chars_of, joined, same_chars, string_of, TextBuilder};
use crate::textlines::texts;

verus! {

/// The key of one segment of a path. A segment `..` comes before every name;
/// names are ordered by their characters, a name before the names that it
/// begins.
pub open spec fn segment_key(segment: Seq<char>) -> Seq<char> {
    if segment == seq!['.', '.'] {
        seq!['\u{3}', '\0']
    } else {
        seq!['\u{4}'] + segment + seq!['\0']
    }
}

/// The keys of the first `n` segments, one after the other.
pub open spec fn closed_segments(s: Seq<Seq<char>>, n: int) -> Seq<char>
    decreases n,
{
    if n <= 0 {
        Seq::<char>::empty()
    } else {
        closed_segments(s, n - 1) + segment_key(s[n - 1])
    }
}

/// Whether a path begins with a segment `.`: it is `.` or begins with `./`.
pub open spec fn begins_here(path: Seq<char>) -> bool {
    path.len() > 0 && path[0] == '.' && (path.len() == 1 || path[1] == '/')
}

/// What stands in front of the segments in the key of a path: the root of an
/// absolute path, which comes first, or the `.` that a path begins with, which
/// comes before `..` and before every name.
pub open spec fn key_lead(path: Seq<char>) -> Seq<char> {
    if path.len() > 0 && path[0] == '/' {
        seq!['\u{1}', '\0']
    } else if begins_here(path) {
        seq!['\u{2}', '\0']
    } else {
        Seq::<char>::empty()
    }
}

/// The key by which paths are grouped and ordered. Paths are compared part by
/// part: the root, a leading `.`, then the segments; a part is ordered as
/// root, `.`, `..`, name, and names by their characters; a path comes before
/// the paths below it. Empty segments and `.` segments behind the first part
/// do not count.
pub open spec fn path_key(path: Seq<char>) -> Seq<char> {
    key_lead(path) + closed_segments(segments(path), segments(path).len() as int)
}

/// The key by which a path is grouped and ordered.
pub fn key_of_path(path: &str) -> (key: Vec<char>)
    ensures
        key@ == path_key(path@),
{
    let p = chars_of(path);
    let s = path_segments(p.as_slice());
    let mut key: Vec<char> = Vec::new();
    if p.len() > 0 && p[0] == '/' {
        key.push('\u{1}');
        key.push('\0');
    } else if p.len() > 0 && p[0] == '.' && (p.len() == 1 || p[1] == '/') {
        key.push('\u{2}');
        key.push('\0');
    }
    assert(key@ =~= key_lead(path@));
    let ghost lead = key@;
    let mut k: usize = 0;
    assert(key@ =~= lead + closed_segments(texts(s@), 0));
    while k < s.len()
        invariant
            k <= s.len(),
            texts(s@) == segments(path@),
            key@ == lead + closed_segments(texts(s@), k as int),
        decreases s.len() - k,
    {
        let ghost before = key@;
        assert(texts(s@)[k as int] == s@[k as int]@);
        let segment = &s[k];
        let is_up = segment.len() == 2 && segment[0] == '.' && segment[1] == '.';
        assert(is_up == (segment@ == seq!['.', '.'])) by {
            if is_up {
                assert(segment@ =~= seq!['.', '.']);
            }
        }
        if is_up {
            key.push('\u{3}');
            key.push('\0');
        } else {
            key.push('\u{4}');
            append(&mut key, segment.as_slice());
            key.push('\0');
        }
        assert(key@ =~= before + segment_key(segment@));
        k += 1;
    }
    assert(texts(s@).len() == s@.len());
    key
}

proof fn lemma_closed_segments_begin(s: Seq<Seq<char>>, n: int)
    requires
        1 <= n,
    ensures
        closed_segments(s, n).len() > 0,
        closed_segments(s, n)[0] == segment_key(s[0])[0],
    decreases n,
{
    if n > 1 {
        lemma_closed_segments_begin(s, n - 1);
    } else {
        assert(closed_segments(s, 0).len() == 0);
        assert(closed_segments(s, 1) =~= segment_key(s[0]));
    }
}

/// A path that begins with `.` comes before every path that begins with `..`
/// or with a name, as `./z` comes before `a`.
pub proof fn lemma_leading_dot_comes_first(a: Seq<char>, b: Seq<char>)
    requires
        begins_here(a),
        b.len() > 0 && b[0] != '/',
        !begins_here(b),
        segments(b).len() > 0,
    ensures
        text_le(path_key(a), path_key(b)),
        !text_le(path_key(b), path_key(a)),
{
    lemma_closed_segments_begin(segments(b), segments(b).len() as int);
    assert(path_key(a)[0] == '\u{2}');
    assert(path_key(b) =~= closed_segments(segments(b), segments(b).len() as int));
}

/// A path that begins with `..` comes before every path that begins with a
/// name, as `../x` comes before `-x`.
pub proof fn lemma_leading_parent_comes_first(a: Seq<char>, b: Seq<char>)
    requires
        key_lead(a).len() == 0,
        key_lead(b).len() == 0,
        segments(a).len() > 0,
        segments(b).len() > 0,
        segments(a)[0] == seq!['.', '.'],
        segments(b)[0] != seq!['.', '.'],
    ensures
        text_le(path_key(a), path_key(b)),
        !text_le(path_key(b), path_key(a)),
{
    lemma_closed_segments_begin(segments(a), segments(a).len() as int);
    lemma_closed_segments_begin(segments(b), segments(b).len() as int);
    assert(path_key(a) =~= closed_segments(segments(a), segments(a).len() as int));
    assert(path_key(b) =~= closed_segments(segments(b), segments(b).len() as int));
}

/// Absolute paths come before all others.
pub proof fn lemma_absolute_comes_first(a: Seq<char>, b: Seq<char>)
    requires
        a.len() > 0 && a[0] == '/',
        b.len() > 0 && b[0] != '/',
        begins_here(b) || segments(b).len() > 0,
    ensures
        text_le(path_key(a), path_key(b)),
        !text_le(path_key(b), path_key(a)),
{
    if !begins_here(b) {
        lemma_closed_segments_begin(segments(b), segments(b).len() as int);
        assert(path_key(b) =~= closed_segments(segments(b), segments(b).len() as int));
    }
    assert(path_key(a)[0] == '\u{1}');
}

/// The keys of the violations at the given positions.
pub open spec fn keys_at(vs: Seq<ViolationView>, at: Seq<int>) -> Seq<Seq<char>> {
    at.map_values(|i: int| path_key(vs[i].file_path))
}

/// The position of a violation as the report shows it.
pub open spec fn human_position(line: Option<u32>, column: Option<u32>) -> Seq<char> {
    match (line, column) {
        (Some(l), Some(c)) => joined(seq![decimal(l as nat), ":"@, decimal(c as nat)]),
        (Some(l), None) => decimal(l as nat),
        _ => "?"@,
    }
}

/// The colour of a severity.
pub open spec fn severity_colour(s: Severity) -> Seq<char> {
    match s {
        Severity::Error => "31"@,
        Severity::Warning => "33"@,
        Severity::Info => "36"@,
    }
}

/// The line that names a violation.
pub open spec fn human_title(v: ViolationView, colours: bool) -> Seq<char> {
    if colours {
        joined(
            seq![
                "  \x1b[2m"@,
                human_position(v.line_number, v.column_number),
                ":"@,
                v.rule_id,
                "\x1b[0m [\x1b["@,
                severity_colour(v.severity),
                "m"@,
                v.severity.name(),
                "\x1b[0m] "@,
                v.message,
                "\n"@,
            ],
        )
    } else {
        joined(
            seq![
                "  "@,
                human_position(v.line_number, v.column_number),
                ":"@,
                v.rule_id,
                " ["@,
                v.severity.name(),
                "] "@,
                v.message,
                "\n"@,
            ],
        )
    }
}

/// The line that shows the context of a violation, if it is to be shown.
pub open spec fn human_context(v: ViolationView, o: ReportOptions) -> Seq<char> {
    match v.context {
        Some(c) => if !o.show_context {
            ""@
        } else if o.use_colors {
            joined(seq!["    \x1b[2m│ "@, c, "\x1b[0m\n"@])
        } else {
            joined(seq!["    │ "@, c, "\n"@])
        },
        None => ""@,
    }
}

/// The line that shows the suggested fix of a violation, if it is to be shown.
pub open spec fn human_suggestion(v: ViolationView, o: ReportOptions) -> Seq<char> {
    match v.suggested_fix {
        Some(s) => if !o.show_suggestions {
            ""@
        } else if o.use_colors {
            joined(seq!["    \x1b[32m💡 "@, s, "\x1b[0m\n"@])
        } else {
            joined(seq!["    💡 "@, s, "\n"@])
        },
        None => ""@,
    }
}

/// What the report shows of one violation.
pub open spec fn human_entry(v: ViolationView, o: ReportOptions) -> Seq<char> {
    joined(seq![human_title(v, o.use_colors), human_context(v, o), human_suggestion(v, o), "\n"@])
}

/// The line that names a file.
pub open spec fn human_file(path: Seq<char>) -> Seq<char> {
    joined(seq!["📁 "@, path, "\n"@])
}

/// What the report shows of the violations at the first `n` places of an order:
/// each violation, and before the first violation of a file the name of the
/// file.
pub open spec fn human_body(
    vs: Seq<ViolationView>,
    at: Seq<int>,
    order: Seq<int>,
    o: ReportOptions,
    n: int,
) -> Seq<char>
    decreases n,
{
    if n <= 0 {
        Seq::<char>::empty()
    } else {
        let v = vs[at[order[n - 1]]];
        let opens_file = n == 1 || path_key(v.file_path) != path_key(
            vs[at[order[n - 2]]].file_path,
        );
        joined(
            seq![
                human_body(vs, at, order, o, n - 1),
                if opens_file {
                    human_file(v.file_path)
                } else {
                    ""@
                },
                human_entry(v, o),
            ],
        )
    }
}

/// The head of the report.
pub open spec fn human_head(nothing_shown: bool, has_errors: bool, colours: bool) -> Seq<char> {
    if nothing_shown {
        if colours {
            "✅ \x1b[32mNo code quality violations found\x1b[0m\n"@
        } else {
            "✅ No code quality violations found\n"@
        }
    } else if colours {
        joined(
            seq![
                if has_errors {
                    "❌"@
                } else {
                    "⚠️"@
                },
                " \x1b["@,
                if has_errors {
                    "31"@
                } else {
                    "33"@
                },
                "mCode Quality Violations Found\x1b[0m\n\n"@,
            ],
        )
    } else {
        joined(
            seq![
                if has_errors {
                    "❌"@
                } else {
                    "⚠️"@
                },
                " Code Quality Violations Found\n\n"@,
            ],
        )
    }
}

/// A count with its noun, coloured if asked for; empty when the count is zero.
pub open spec fn counted_part(n: usize, noun: Seq<char>, plural: bool, colour: Seq<char>, colours: bool)
    -> Seq<char> {
    if n == 0 {
        ""@
    } else {
        let text = joined(
            seq![
                decimal(n as nat),
                " "@,
                noun,
                if plural && n != 1 {
                    "s"@
                } else {
                    ""@
                },
            ],
        );
        if colours {
            joined(seq!["\x1b["@, colour, "m"@, text, "\x1b[0m"@])
        } else {
            text
        }
    }
}

/// A comma between two parts that are both there.
pub open spec fn comma(before: bool, here: bool) -> Seq<char> {
    if before && here {
        ", "@
    } else {
        ""@
    }
}

/// The summary line: the counts by severity, the number of files and the time
/// taken, given as text.
pub open spec fn summary_text(report: ValidationReport, colours: bool, elapsed: Seq<char>) -> Seq<char> {
    let c = report.summary.violations_by_severity;
    let tail = joined(
        seq![" in "@, decimal(report.summary.total_files as nat), " files ("@, elapsed, "s)\n"@],
    );
    joined(
        seq![
            if colours {
                "📊 \x1b[1mSummary:\x1b[0m "@
            } else {
                "📊 Summary: "@
            },
            if c.error == 0 && c.warning == 0 && c.info == 0 {
                if colours {
                    "\x1b[32m0 violations\x1b[0m"@
                } else {
                    "0 violations"@
                }
            } else {
                joined(
                    seq![
                        counted_part(c.error, "error"@, true, "31"@, colours),
                        comma(c.error > 0, c.warning > 0),
                        counted_part(c.warning, "warning"@, true, "33"@, colours),
                        comma(c.error > 0 || c.warning > 0, c.info > 0),
                        counted_part(c.info, "info"@, false, "36"@, colours),
                    ],
                )
            },
            tail,
        ],
    )
}

/// The report for people.
pub open spec fn human_text(report: ValidationReport, o: ReportOptions, elapsed: Seq<char>) -> Seq<
    char,
> {
    let vs = views(report.violations@);
    let at = shown(vs, o);
    let order = stable_order(keys_at(vs, at), at.len());
    joined(
        seq![
            human_head(
                at.len() == 0,
                report.summary.violations_by_severity.error > 0,
                o.use_colors,
            ),
            human_body(vs, at, order, o, at.len() as int),
            summary_text(report, o.use_colors, elapsed),
        ],
    )
}

fn number(n: u64) -> (s: String)
    ensures
        s@ == decimal(n as nat),
{
    let d = decimal_text(n);
    string_of(d.as_slice())
}

fn position_text(line: Option<u32>, column: Option<u32>) -> (s: String)
    ensures
        s@ == human_position(line, column),
{
    match (line, column) {
        (Some(l), Some(c)) => {
            let mut b = TextBuilder::new();
            let lt = number(l as u64);
            b.push(lt.as_str());
            b.push(":");
            let ct = number(c as u64);
            b.push(ct.as_str());
            assert(b.parts@ =~= seq![decimal(l as nat), ":"@, decimal(c as nat)]);
            b.finish()
        },
        (Some(l), None) => number(l as u64),
        _ => "?".to_owned(),
    }
}

fn title_text(v: &Violation, colours: bool) -> (s: String)
    ensures
        s@ == human_title(v@, colours),
{
    let position = position_text(v.line_number, v.column_number);
    let mut b = TextBuilder::new();
    if colours {
        b.push("  \x1b[2m");
        b.push(position.as_str());
        b.push(":");
        b.push(v.rule_id.as_str());
        b.push("\x1b[0m [\x1b[");
        b.push(
            match v.severity {
                Severity::Error => "31",
                Severity::Warning => "33",
                Severity::Info => "36",
            },
        );
        b.push("m");
        b.push(v.severity.as_str());
        b.push("\x1b[0m] ");
        b.push(v.message.as_str());
        b.push("\n");
        assert(b.parts@ =~= seq![
            "  \x1b[2m"@,
            human_position(v@.line_number, v@.column_number),
            ":"@,
            v@.rule_id,
            "\x1b[0m [\x1b["@,
            severity_colour(v@.severity),
            "m"@,
            v@.severity.name(),
            "\x1b[0m] "@,
            v@.message,
            "\n"@,
        ]);
    } else {
        b.push("  ");
        b.push(position.as_str());
        b.push(":");
        b.push(v.rule_id.as_str());
        b.push(" [");
        b.push(v.severity.as_str());
        b.push("] ");
        b.push(v.message.as_str());
        b.push("\n");
        assert(b.parts@ =~= seq![
            "  "@,
            human_position(v@.line_number, v@.column_number),
            ":"@,
            v@.rule_id,
            " ["@,
            v@.severity.name(),
            "] "@,
            v@.message,
            "\n"@,
        ]);
    }
    b.finish()
}

fn framed(lead: &str, text: &str, end: &str) -> (s: String)
    ensures
        s@ == joined(seq![lead@, text@, end@]),
{
    let mut b = TextBuilder::new();
    b.push(lead);
    b.push(text);
    b.push(end);
    assert(b.parts@ =~= seq![lead@, text@, end@]);
    b.finish()
}

fn context_text(v: &Violation, o: &ReportOptions) -> (s: String)
    ensures
        s@ == human_context(v@, *o),
{
    match &v.context {
        Some(c) => {
            if !o.show_context {
                "".to_owned()
            } else if o.use_colors {
                framed("    \x1b[2m│ ", c.as_str(), "\x1b[0m\n")
            } else {
                framed("    │ ", c.as_str(), "\n")
            }
        },
        None => "".to_owned(),
    }
}

fn suggestion_text(v: &Violation, o: &ReportOptions) -> (s: String)
    ensures
        s@ == human_suggestion(v@, *o),
{
    match &v.suggested_fix {
        Some(f) => {
            if !o.show_suggestions {
                "".to_owned()
            } else if o.use_colors {
                framed("    \x1b[32m💡 ", f.as_str(), "\x1b[0m\n")
            } else {
                framed("    💡 ", f.as_str(), "\n")
            }
        },
        None => "".to_owned(),
    }
}

fn entry_text(v: &Violation, o: &ReportOptions) -> (s: String)
    ensures
        s@ == human_entry(v@, *o),
{
    let title = title_text(v, o.use_colors);
    let context = context_text(v, o);
    let suggestion = suggestion_text(v, o);
    let mut b = TextBuilder::new();
    b.push(title.as_str());
    b.push(context.as_str());
    b.push(suggestion.as_str());
    b.push("\n");
    assert(b.parts@ =~= seq![
        human_title(v@, o.use_colors),
        human_context(v@, *o),
        human_suggestion(v@, *o),
        "\n"@,
    ]);
    b.finish()
}

fn head_text(nothing_shown: bool, has_errors: bool, colours: bool) -> (s: String)
    ensures
        s@ == human_head(nothing_shown, has_errors, colours),
{
    if nothing_shown {
        if colours {
            "✅ \x1b[32mNo code quality violations found\x1b[0m\n".to_owned()
        } else {
            "✅ No code quality violations found\n".to_owned()
        }
    } else if colours {
        let mut b = TextBuilder::new();
        b.push(if has_errors { "❌" } else { "⚠️" });
        b.push(" \x1b[");
        b.push(if has_errors { "31" } else { "33" });
        b.push("mCode Quality Violations Found\x1b[0m\n\n");
        assert(b.parts@ =~= seq![
            if has_errors {
                "❌"@
            } else {
                "⚠️"@
            },
            " \x1b["@,
            if has_errors {
                "31"@
            } else {
                "33"@
            },
            "mCode Quality Violations Found\x1b[0m\n\n"@,
        ]);
        b.finish()
    } else {
        let mut b = TextBuilder::new();
        b.push(if has_errors { "❌" } else { "⚠️" });
        b.push(" Code Quality Violations Found\n\n");
        assert(b.parts@ =~= seq![
            if has_errors {
                "❌"@
            } else {
                "⚠️"@
            },
            " Code Quality Violations Found\n\n"@,
        ]);
        b.finish()
    }
}

fn part_text(n: usize, noun: &str, plural: bool, colour: &str, colours: bool) -> (s: String)
    ensures
        s@ == counted_part(n, noun@, plural, colour@, colours),
{
    if n == 0 {
        return "".to_owned();
    }
    let mut b = TextBuilder::new();
    let count = number(n as u64);
    b.push(count.as_str());
    b.push(" ");
    b.push(noun);
    b.push(if plural && n != 1 { "s" } else { "" });
    assert(b.parts@ =~= seq![
        decimal(n as nat),
        " "@,
        noun@,
        if plural && n != 1 {
            "s"@
        } else {
            ""@
        },
    ]);
    let text = b.finish();
    if colours {
        let mut c = TextBuilder::new();
        c.push("\x1b[");
        c.push(colour);
        c.push("m");
        c.push(text.as_str());
        c.push("\x1b[0m");
        assert(c.parts@ =~= seq!["\x1b["@, colour@, "m"@, text@, "\x1b[0m"@]);
        c.finish()
    } else {
        text
    }
}

fn comma_text(before: bool, here: bool) -> (s: &'static str)
    ensures
        s@ == comma(before, here),
{
    if before && here {
        ", "
    } else {
        ""
    }
}

impl ReportFormatter {
    /// The summary line of a report, with the time taken given as text.
    pub fn format_summary(&self, report: &ValidationReport, elapsed: &str) -> (s: String)
        ensures
            s@ == summary_text(*report, self.options.use_colors, elapsed@),
    {
        let colours = self.options.use_colors;
        let c = report.summary.violations_by_severity;
        let mut t = TextBuilder::new();
        t.push(" in ");
        let files = number(report.summary.total_files as u64);
        t.push(files.as_str());
        t.push(" files (");
        t.push(elapsed);
        t.push("s)\n");
        assert(t.parts@ =~= seq![
            " in "@,
            decimal(report.summary.total_files as nat),
            " files ("@,
            elapsed@,
            "s)\n"@,
        ]);
        let tail = t.finish();
        let counts = if c.error == 0 && c.warning == 0 && c.info == 0 {
            if colours {
                "\x1b[32m0 violations\x1b[0m".to_owned()
            } else {
                "0 violations".to_owned()
            }
        } else {
            let errors = part_text(c.error, "error", true, "31", colours);
            let warnings = part_text(c.warning, "warning", true, "33", colours);
            let infos = part_text(c.info, "info", false, "36", colours);
            let mut p = TextBuilder::new();
            p.push(errors.as_str());
            p.push(comma_text(c.error > 0, c.warning > 0));
            p.push(warnings.as_str());
            p.push(comma_text(c.error > 0 || c.warning > 0, c.info > 0));
            p.push(infos.as_str());
            assert(p.parts@ =~= seq![
                counted_part(c.error, "error"@, true, "31"@, colours),
                comma(c.error > 0, c.warning > 0),
                counted_part(c.warning, "warning"@, true, "33"@, colours),
                comma(c.error > 0 || c.warning > 0, c.info > 0),
                counted_part(c.info, "info"@, false, "36"@, colours),
            ]);
            p.finish()
        };
        let mut b = TextBuilder::new();
        b.push(if colours { "📊 \x1b[1mSummary:\x1b[0m " } else { "📊 Summary: " });
        b.push(counts.as_str());
        b.push(tail.as_str());
        assert(b.parts@ =~= seq![
            if colours {
                "📊 \x1b[1mSummary:\x1b[0m "@
            } else {
                "📊 Summary: "@
            },
            counts@,
            tail@,
        ]);
        b.finish()
    }

    /// The report for people: the violations shown, grouped by file in the order
    /// of the paths, and the summary. The time taken is given as text.
    pub fn format_human(&self, report: &ValidationReport, elapsed: &str) -> (s: String)
        ensures
            s@ == human_text(*report, self.options, elapsed@),
    {
        let ghost vs = views(report.violations@);
        let kept = self.filter_violations(&report.violations);
        let ghost at = indices(kept@);
        assert(at.len() == kept@.len());
        let mut keys: Vec<Vec<char>> = Vec::new();
        let mut i: usize = 0;
        while i < kept.len()
            invariant
                i <= kept.len(),
                vs == views(report.violations@),
                at == indices(kept@),
                at.len() == kept@.len(),
                forall|j: int| 0 <= j < kept@.len() ==> (#[trigger] kept@[j]) < report.violations@.len(),
                texts(keys@) == keys_at(vs, at).take(i as int),
            decreases kept.len() - i,
        {
            assert(at[i as int] == kept@[i as int]);
            let v = &report.violations[kept[i]];
            assert(vs[at[i as int]] == v@);
            let key = key_of_path(v.file_path.as_str());
            assert(keys_at(vs, at)[i as int] == key@);
            assert(texts(keys@.push(key)) =~= texts(keys@).push(key@));
            assert(keys_at(vs, at).take(i + 1) =~= keys_at(vs, at).take(i as int).push(key@));
            keys.push(key);
            i += 1;
        }
        assert(keys_at(vs, at).take(at.len() as int) =~= keys_at(vs, at));
        let order = order_by_key(&keys);
        let ghost spec_order = stable_order(keys_at(vs, at), at.len());
        assert(indices(order@) == spec_order);
        let mut body: Vec<char> = Vec::new();
        let mut n: usize = 0;
        assert(body@ =~= human_body(vs, at, spec_order, self.options, 0));
        while n < order.len()
            invariant
                n <= order.len(),
                order@.len() == kept@.len(),
                keys@.len() == kept@.len(),
                vs == views(report.violations@),
                at == indices(kept@),
                at.len() == kept@.len(),
                indices(order@) == spec_order,
                texts(keys@) == keys_at(vs, at),
                forall|j: int| 0 <= j < kept@.len() ==> (#[trigger] kept@[j]) < report.violations@.len(),
                forall|j: int| 0 <= j < order@.len() ==> (#[trigger] order@[j]) < kept@.len(),
                body@ == human_body(vs, at, spec_order, self.options, n as int),
            decreases order.len() - n,
        {
            let here: usize = order[n];
            assert(spec_order[n as int] == here);
            assert(at[here as int] == kept@[here as int]);
            let v = &report.violations[kept[here]];
            assert(vs[at[here as int]] == v@);
            assert(texts(keys@)[here as int] == keys@[here as int]@);
            assert(keys_at(vs, at)[here as int] == path_key(v@.file_path));
            let opens_file = if n == 0 {
                true
            } else {
                let last: usize = order[n - 1];
                assert(spec_order[n - 1] == last);
                assert(texts(keys@)[last as int] == keys@[last as int]@);
                assert(keys_at(vs, at)[last as int] == path_key(vs[at[last as int]].file_path));
                !same_chars(keys[here].as_slice(), keys[last].as_slice())
            };
            let file = if opens_file {
                framed("📁 ", v.file_path.as_str(), "\n")
            } else {
                "".to_owned()
            };
            let entry = entry_text(v, &self.options);
            let mut b = TextBuilder::new();
            b.push_chars(body.as_slice());
            b.push(file.as_str());
            b.push(entry.as_str());
            assert(b.parts@ =~= seq![
                human_body(vs, at, spec_order, self.options, n as int),
                if opens_file {
                    human_file(v@.file_path)
                } else {
                    ""@
                },
                human_entry(v@, self.options),
            ]);
            body = b.chars;
            n += 1;
        }
        let head = head_text(kept.len() == 0, report.has_errors(), self.options.use_colors);
        let summary = self.format_summary(report, elapsed);
        let mut b = TextBuilder::new();
        b.push(head.as_str());
        b.push_chars(body.as_slice());
        b.push(summary.as_str());
        assert(b.parts@ =~= seq![
            human_head(
                at.len() == 0,
                report.summary.violations_by_severity.error > 0,
                self.options.use_colors,
            ),
            human_body(vs, at, spec_order, self.options, at.len() as int),
            summary_text(*report, self.options.use_colors, elapsed@),
        ]);
        b.finish()
    }
}

} // verus!
