//! From raw hits to matches: positions, messages and exclusion.

use vstd::prelude::*;
use crate::bindings::{compile_glob, glob_accepts, glob_compiles, glob_matches};
use crate::config::{ExcludeConditions, ExcludeView, opt_exclude};
use crate::domain::violations::{opt_text, Severity};
use crate::numerals::decimal;
use crate::paths::{is_test_path, test_path};
use crate::patterns::checks::{concat2, concat3, number_text};
use crate::patterns::location::{
    char_position, chars_before, column_number, line_context, line_number, locate,
};
use crate::patterns::outline::{Finding, FindingView, finding_views};
use crate::patterns::structural::{AstPatternType, CheckView};
use crate::text::{chars_of, replace, replace_all, slice_of, string_of};
use crate::textlines::string_texts;

verus! {

/// A match found by a rule.
#[derive(Debug, Clone)]
pub struct PatternMatch {
    pub rule_id: String,
    pub file_path: String,
    pub line_number: Option<u32>,
    pub column_number: Option<u32>,
    pub matched_text: String,
    pub message: String,
    pub severity: Severity,
    pub context: Option<String>,
}

/// What a [`PatternMatch`] says.
pub struct MatchView {
    pub rule_id: Seq<char>,
    pub file_path: Seq<char>,
    pub line_number: Option<u32>,
    pub column_number: Option<u32>,
    pub matched_text: Seq<char>,
    pub message: Seq<char>,
    pub severity: Severity,
    pub context: Option<Seq<char>>,
}

impl View for PatternMatch {
    type V = MatchView;

    open spec fn view(&self) -> MatchView {
        MatchView {
            rule_id: self.rule_id@,
            file_path: self.file_path@,
            line_number: self.line_number,
            column_number: self.column_number,
            matched_text: self.matched_text@,
            message: self.message@,
            severity: self.severity,
            context: opt_text(self.context),
        }
    }
}

/// What each match of a list says.
pub open spec fn match_views(ms: Seq<PatternMatch>) -> Seq<MatchView> {
    ms.map_values(|m: PatternMatch| m@)
}

/// What every rule carries besides its matcher.
pub struct RuleHead {
    pub rule_id: Seq<char>,
    pub template: Seq<char>,
    pub severity: Severity,
}

// ---------------------------------------------------------------------------
// Exclusion by path
// ---------------------------------------------------------------------------

/// Whether one of the patterns compiles and matches the whole path.
pub open spec fn some_glob_accepts(patterns: Seq<Seq<char>>, path: Seq<char>) -> bool {
    exists|k: int|
        0 <= k < patterns.len() && glob_compiles(#[trigger] patterns[k]) && glob_accepts(
            patterns[k],
            path,
        )
}

/// Whether the conditions exclude every match in the file at `path`: the file
/// belongs to tests and the conditions say so, or one of their file patterns
/// matches the path.
pub open spec fn excluded_by_path(conditions: Option<ExcludeView>, path: Seq<char>) -> bool {
    match conditions {
        Some(c) => (c.in_tests && is_test_path(path)) || (match c.file_patterns {
            Some(ps) => some_glob_accepts(ps, path),
            None => false,
        }),
        None => false,
    }
}

/// Whether one of the patterns compiles and matches the whole path.
pub fn any_glob_matches(patterns: &Vec<String>, path: &str) -> (b: bool)
    ensures
        b == some_glob_accepts(string_texts(patterns@), path@),
{
    let mut k: usize = 0;
    while k < patterns.len()
        invariant
            k <= patterns.len(),
            forall|j: int|
                0 <= j < k ==> !(glob_compiles(#[trigger] string_texts(patterns@)[j])
                    && glob_accepts(string_texts(patterns@)[j], path@)),
        decreases patterns.len() - k,
    {
        assert(string_texts(patterns@)[k as int] == patterns@[k as int]@);
        match compile_glob(patterns[k].as_str()) {
            Ok(p) => {
                if glob_matches(&p, path) {
                    return true;
                }
            },
            Err(_) => {},
        }
        k += 1;
    }
    false
}

/// Whether the conditions exclude the matches in the file at `path`.
pub fn should_exclude_match(conditions: &Option<ExcludeConditions>, file_path: &str) -> (b: bool)
    ensures
        b == excluded_by_path(opt_exclude(*conditions), file_path@),
{
    match conditions {
        Some(c) => {
            if c.in_tests && is_test_file(file_path) {
                return true;
            }
            match &c.file_patterns {
                Some(patterns) => any_glob_matches(patterns, file_path),
                None => false,
            }
        },
        None => false,
    }
}

/// Whether a path belongs to tests.
pub fn is_test_file(file_path: &str) -> (b: bool)
    ensures
        b == is_test_path(file_path@),
{
    let chars = chars_of(file_path);
    test_path(chars.as_slice())
}

/// Exclusion of tests does not depend on how a path is written: if a file is
/// excluded because it belongs to tests, it is excluded under every path with
/// the same segments.
pub proof fn lemma_test_exclusion_by_segments(c: ExcludeView, a: Seq<char>, b: Seq<char>)
    requires
        crate::paths::segments(a) == crate::paths::segments(b),
        c.in_tests,
        is_test_path(a),
    ensures
        excluded_by_path(Some(c), a),
        excluded_by_path(Some(c), b),
{
    crate::paths::lemma_test_path_by_segments(a, b);
}

/// Exclusion of tests does not depend on where a file is reached from: if a
/// file is excluded because it belongs to tests, it is excluded with any
/// directory joined in front of its path.
pub proof fn lemma_test_exclusion_under_directory(c: ExcludeView, dir: Seq<char>, path: Seq<char>)
    requires
        c.in_tests,
        is_test_path(path),
    ensures
        excluded_by_path(Some(c), dir.push('/') + path),
{
    crate::paths::lemma_test_path_under_directory(dir, path);
}

// ---------------------------------------------------------------------------
// Text matches
// ---------------------------------------------------------------------------

/// The match that a text rule reports for a hit between two byte offsets of the
/// text: position and context of the first character of the hit, the text of
/// the hit, and the message with `{match}` replaced by that text.
pub open spec fn text_match(head: RuleHead, path: Seq<char>, content: Seq<char>, span: (
    usize,
    usize,
)) -> MatchView {
    let from = chars_before(content, span.0 as int);
    let upto = chars_before(content, span.1 as int);
    let to = if upto < from {
        from
    } else {
        upto
    };
    let matched = content.subrange(from, to);
    MatchView {
        rule_id: head.rule_id,
        file_path: path,
        line_number: Some(line_number(content, from)),
        column_number: Some(column_number(content, from)),
        matched_text: matched,
        message: replace_all(head.template, "{match}"@, matched),
        severity: head.severity,
        context: Some(line_context(content, from)),
    }
}

/// The matches for the first `n` hits.
pub open spec fn text_matches(
    head: RuleHead,
    path: Seq<char>,
    content: Seq<char>,
    spans: Seq<(usize, usize)>,
    n: int,
) -> Seq<MatchView>
    decreases n,
{
    if n <= 0 {
        Seq::<MatchView>::empty()
    } else {
        text_matches(head, path, content, spans, n - 1).push(
            text_match(head, path, content, spans[n - 1]),
        )
    }
}

/// What a text rule reports for a file, given its hits: nothing when the
/// conditions exclude the file, else one match for each hit, in order.
pub open spec fn reported_text_matches(
    head: RuleHead,
    exclude: Option<ExcludeView>,
    path: Seq<char>,
    content: Seq<char>,
    spans: Seq<(usize, usize)>,
) -> Seq<MatchView> {
    if excluded_by_path(exclude, path) {
        Seq::<MatchView>::empty()
    } else {
        text_matches(head, path, content, spans, spans.len() as int)
    }
}

/// The matches of a text rule for the given hits.
pub fn matches_from_spans(
    rule_id: &str,
    message_template: &str,
    severity: Severity,
    exclude_conditions: &Option<ExcludeConditions>,
    file_path: &str,
    content: &str,
    spans: &Vec<(usize, usize)>,
) -> (out: Vec<PatternMatch>)
    ensures
        match_views(out@) == reported_text_matches(
            RuleHead { rule_id: rule_id@, template: message_template@, severity },
            opt_exclude(*exclude_conditions),
            file_path@,
            content@,
            spans@,
        ),
{
    let ghost head = RuleHead { rule_id: rule_id@, template: message_template@, severity };
    let mut out: Vec<PatternMatch> = Vec::new();
    if should_exclude_match(exclude_conditions, file_path) {
        assert(match_views(out@) =~= Seq::<MatchView>::empty());
        return out;
    }
    let text = chars_of(content);
    let template = chars_of(message_template);
    let placeholder = chars_of("{match}");
    let mut i: usize = 0;
    assert(match_views(out@) =~= text_matches(head, file_path@, content@, spans@, 0));
    while i < spans.len()
        invariant
            i <= spans.len(),
            text@ == content@,
            template@ == message_template@,
            placeholder@ == "{match}"@,
            head == (RuleHead { rule_id: rule_id@, template: message_template@, severity }),
            match_views(out@) == text_matches(head, file_path@, content@, spans@, i as int),
        decreases spans.len() - i,
    {
        let span = spans[i];
        let from = char_position(text.as_slice(), span.0);
        let upto = char_position(text.as_slice(), span.1);
        let to = if upto < from {
            from
        } else {
            upto
        };
        let matched = slice_of(text.as_slice(), from, to);
        let (line, column, context) = locate(text.as_slice(), from);
        let message = replace(template.as_slice(), placeholder.as_slice(), matched.as_slice());
        let found = PatternMatch {
            rule_id: rule_id.to_owned(),
            file_path: file_path.to_owned(),
            line_number: Some(line),
            column_number: Some(column),
            matched_text: string_of(matched.as_slice()),
            message: string_of(message.as_slice()),
            severity,
            context: Some(string_of(context.as_slice())),
        };
        assert(found@ == text_match(head, file_path@, content@, spans@[i as int]));
        assert(match_views(out@.push(found)) =~= match_views(out@).push(found@));
        out.push(found);
        i += 1;
    }
    out
}

// ---------------------------------------------------------------------------
// Structural matches
// ---------------------------------------------------------------------------

/// The text that a structural match quotes.
pub open spec fn quoted_text(check: CheckView, f: FindingView) -> Seq<char> {
    match check {
        CheckView::MacroCall(_) => f.subject + "!()"@,
        CheckView::EmptyOkReturn => "Ok(())"@,
        CheckView::MissingArchitecturalHeader => ""@,
        CheckView::EmptyFunctionBody => "fn "@ + f.subject,
        CheckView::UnwrapOrExpectWithoutMessage => "."@ + f.subject + "()"@,
        CheckView::AbstractionLayerViolation { .. } => f.subject,
        CheckView::CyclomaticComplexity(_) => "fn "@ + f.subject,
        CheckView::PublicWithoutDocs => f.subject,
        CheckView::FunctionLinesGt(_) => "fn "@ + f.subject,
        CheckView::NestingDepthGt(_) => "nested block"@,
        CheckView::FunctionArgsGt(_) => "fn "@ + f.subject,
        CheckView::BlockingCallInAsync => f.subject,
        CheckView::FutureNotAwaited => f.subject,
        CheckView::SelectWithoutBiased => "tokio::select!"@,
        CheckView::GenericWithoutBounds => f.subject,
        CheckView::TestFnWithoutAssertion => "fn "@ + f.subject,
        CheckView::ImplWithoutTrait => "impl "@ + f.subject,
        CheckView::UnsafeBlock => "unsafe"@,
        CheckView::IgnoredTestAttribute => "#[ignore] fn "@ + f.subject,
    }
}

/// The message of a structural match: the template, with the placeholder of the
/// check replaced by what was found.
pub open spec fn filled_message(check: CheckView, template: Seq<char>, f: FindingView) -> Seq<
    char,
> {
    match check {
        CheckView::MacroCall(_) => replace_all(template, "{macro_name}"@, f.subject),
        CheckView::EmptyFunctionBody => replace_all(template, "{function_name}"@, f.subject),
        CheckView::UnwrapOrExpectWithoutMessage => replace_all(template, "{method}"@, f.subject),
        CheckView::CyclomaticComplexity(_) => replace_all(
            template,
            "{value}"@,
            decimal(f.value as nat),
        ),
        CheckView::FunctionLinesGt(_) => replace_all(template, "{lines}"@, decimal(f.value as nat)),
        CheckView::NestingDepthGt(_) => replace_all(template, "{depth}"@, decimal(f.value as nat)),
        CheckView::FunctionArgsGt(_) => replace_all(template, "{count}"@, decimal(f.value as nat)),
        _ => template,
    }
}

/// The match that a structural rule reports for a finding. Structural matches
/// stand at line one, column one.
pub open spec fn structural_match(head: RuleHead, check: CheckView, path: Seq<char>, f: FindingView)
    -> MatchView {
    MatchView {
        rule_id: head.rule_id,
        file_path: path,
        line_number: Some(1),
        column_number: Some(1),
        matched_text: quoted_text(check, f),
        message: filled_message(check, head.template, f),
        severity: head.severity,
        context: Some(f.context),
    }
}

/// The matches for the first `n` findings.
pub open spec fn structural_matches(
    head: RuleHead,
    check: CheckView,
    path: Seq<char>,
    fs: Seq<FindingView>,
    n: int,
) -> Seq<MatchView>
    decreases n,
{
    if n <= 0 {
        Seq::<MatchView>::empty()
    } else {
        structural_matches(head, check, path, fs, n - 1).push(
            structural_match(head, check, path, fs[n - 1]),
        )
    }
}

fn fill(template: &str, placeholder: &str, value: &str) -> (s: String)
    ensures
        s@ == replace_all(template@, placeholder@, value@),
{
    let t = chars_of(template);
    let p = chars_of(placeholder);
    let v = chars_of(value);
    let out = replace(t.as_slice(), p.as_slice(), v.as_slice());
    string_of(out.as_slice())
}

fn quote(check: &AstPatternType, f: &Finding) -> (s: String)
    ensures
        s@ == quoted_text(check@, f@),
{
    let subject = f.subject.as_str();
    match check {
        AstPatternType::MacroCall(_) => concat2(subject, "!()"),
        AstPatternType::EmptyOkReturn => "Ok(())".to_owned(),
        AstPatternType::MissingArchitecturalHeader => "".to_owned(),
        AstPatternType::EmptyFunctionBody => concat2("fn ", subject),
        AstPatternType::UnwrapOrExpectWithoutMessage => concat3(".", subject, "()"),
        AstPatternType::AbstractionLayerViolation(_) => subject.to_owned(),
        AstPatternType::CyclomaticComplexity(_) => concat2("fn ", subject),
        AstPatternType::PublicWithoutDocs => subject.to_owned(),
        AstPatternType::FunctionLinesGt(_) => concat2("fn ", subject),
        AstPatternType::NestingDepthGt(_) => "nested block".to_owned(),
        AstPatternType::FunctionArgsGt(_) => concat2("fn ", subject),
        AstPatternType::BlockingCallInAsync => subject.to_owned(),
        AstPatternType::FutureNotAwaited => subject.to_owned(),
        AstPatternType::SelectWithoutBiased => "tokio::select!".to_owned(),
        AstPatternType::GenericWithoutBounds => subject.to_owned(),
        AstPatternType::TestFnWithoutAssertion => concat2("fn ", subject),
        AstPatternType::ImplWithoutTrait => concat2("impl ", subject),
        AstPatternType::UnsafeBlock => "unsafe".to_owned(),
        AstPatternType::IgnoredTestAttribute => concat2("#[ignore] fn ", subject),
    }
}

fn fill_message(check: &AstPatternType, template: &str, f: &Finding) -> (s: String)
    ensures
        s@ == filled_message(check@, template@, f@),
{
    match check {
        AstPatternType::MacroCall(_) => fill(template, "{macro_name}", f.subject.as_str()),
        AstPatternType::EmptyFunctionBody => fill(template, "{function_name}", f.subject.as_str()),
        AstPatternType::UnwrapOrExpectWithoutMessage => fill(
            template,
            "{method}",
            f.subject.as_str(),
        ),
        AstPatternType::CyclomaticComplexity(_) => {
            let n = number_text(f.value);
            fill(template, "{value}", n.as_str())
        },
        AstPatternType::FunctionLinesGt(_) => {
            let n = number_text(f.value);
            fill(template, "{lines}", n.as_str())
        },
        AstPatternType::NestingDepthGt(_) => {
            let n = number_text(f.value);
            fill(template, "{depth}", n.as_str())
        },
        AstPatternType::FunctionArgsGt(_) => {
            let n = number_text(f.value);
            fill(template, "{count}", n.as_str())
        },
        _ => template.to_owned(),
    }
}

/// The matches of a structural rule for the given findings.
pub fn matches_from_findings(
    rule_id: &str,
    message_template: &str,
    severity: Severity,
    check: &AstPatternType,
    file_path: &str,
    found: &Vec<Finding>,
) -> (out: Vec<PatternMatch>)
    ensures
        match_views(out@) == structural_matches(
            RuleHead { rule_id: rule_id@, template: message_template@, severity },
            check@,
            file_path@,
            finding_views(found@),
            found@.len() as int,
        ),
{
    let ghost base = RuleHead { rule_id: rule_id@, template: message_template@, severity };
    let ghost fs = finding_views(found@);
    let mut out: Vec<PatternMatch> = Vec::new();
    let mut i: usize = 0;
    assert(match_views(out@) =~= structural_matches(base, check@, file_path@, fs, 0));
    while i < found.len()
        invariant
            i <= found.len(),
            fs == finding_views(found@),
            base == (RuleHead { rule_id: rule_id@, template: message_template@, severity }),
            match_views(out@) == structural_matches(base, check@, file_path@, fs, i as int),
        decreases found.len() - i,
    {
        let f = &found[i];
        assert(fs[i as int] == f@);
        let m = PatternMatch {
            rule_id: rule_id.to_owned(),
            file_path: file_path.to_owned(),
            line_number: Some(1),
            column_number: Some(1),
            matched_text: quote(check, f),
            message: fill_message(check, message_template, f),
            severity,
            context: Some(f.context.clone()),
        };
        assert(m@ == structural_match(base, check@, file_path@, fs[i as int]));
        assert(match_views(out@.push(m)) =~= match_views(out@).push(m@));
        out.push(m);
        i += 1;
    }
    out
}

} // verus!
