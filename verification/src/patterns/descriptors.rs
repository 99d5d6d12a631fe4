//! The descriptor language of structural rules: a rule's pattern text names the
//! check to run, with its parameter where it has one.

use vstd::prelude::*;
use crate::bindings::regex_compiles;
use crate::patterns::expression::Expression;
use crate::domain::violations::{ErrorView, GuardianError};
use crate::numerals::{parse_u32, parsed_u32};
use crate::patterns::checks::{concat2, concat3};
use crate::patterns::structural::{AstPatternType, CheckView};
use crate::text::{
    append, chars_of, contains, contains_text, has_prefix, replace, replace_all, same_text,
    slice_of, starts_with, string_of,
};
use crate::textlines::{split, split_on, string_texts, texts, trim, trimmed};

verus! {

/// Each text of a list, trimmed.
pub open spec fn all_trimmed(pieces: Seq<Seq<char>>) -> Seq<Seq<char>> {
    pieces.map_values(|p: Seq<char>| trimmed(p))
}

/// The message for a pattern text that names no structural check.
pub open spec fn unknown_ast_message(rule_id: Seq<char>, pattern: Seq<char>) -> Seq<char> {
    "Unknown AST pattern type in rule '"@ + rule_id + "': "@ + pattern
}

/// The message for a threshold that is not a number.
pub open spec fn threshold_message(rule_id: Seq<char>, param: Seq<char>) -> Seq<char> {
    "Invalid threshold in rule '"@ + rule_id + "': "@ + param
}

/// The message for an import pattern that does not compile.
pub open spec fn import_message(rule_id: Seq<char>, pattern: Seq<char>) -> Seq<char> {
    "Invalid import pattern in rule '"@ + rule_id + "': "@ + pattern
}

/// The message for a pattern text that names no semantic check.
pub open spec fn unknown_semantic_message(rule_id: Seq<char>, pattern: Seq<char>) -> Seq<char> {
    "Unknown semantic pattern type in rule '"@ + rule_id + "': "@ + pattern
}

/// The structural check that a pattern text of a syntax rule names, or the
/// message that says why it names none.
pub open spec fn parsed_ast(pattern: Seq<char>, rule_id: Seq<char>) -> Result<CheckView, Seq<char>> {
    if has_prefix(pattern, "macro_call:"@) {
        Ok(CheckView::MacroCall(all_trimmed(split_on(pattern.skip("macro_call:"@.len() as int), '|'))))
    } else if pattern == "return_ok_unit_with_no_logic"@ {
        Ok(CheckView::EmptyOkReturn)
    } else if contains_text(pattern, "Architectural Principle:"@) {
        Ok(CheckView::MissingArchitecturalHeader)
    } else if pattern == "empty_function_body"@ {
        Ok(CheckView::EmptyFunctionBody)
    } else if pattern == "unwrap_or_expect_without_message"@ {
        Ok(CheckView::UnwrapOrExpectWithoutMessage)
    } else if pattern == "unsafe_block"@ {
        Ok(CheckView::UnsafeBlock)
    } else if pattern == "ignored_test_attribute"@ {
        Ok(CheckView::IgnoredTestAttribute)
    } else {
        Err(unknown_ast_message(rule_id, pattern))
    }
}

/// The expression that an import rule is matched with: the pattern itself when
/// it begins with `use`; the pattern without `import:`; or, for a pattern like
/// `direct_X_access`, any import that names `X`.
pub open spec fn import_expression(pattern: Seq<char>) -> Seq<char> {
    if has_prefix(pattern, "use"@) {
        pattern
    } else if has_prefix(pattern, "import:"@) {
        replace_all(pattern, "import:"@, ""@)
    } else {
        r"use\s+.*"@ + replace_all(replace_all(pattern, "direct_"@, ""@), "_access"@, ""@)
    }
}

/// Whether a pattern text looks like an import rule.
pub open spec fn looks_like_import(pattern: Seq<char>) -> bool {
    has_prefix(pattern, "use"@) || has_prefix(pattern, "import:"@) || contains_text(
        pattern,
        "_access"@,
    )
}

/// A threshold check for a parameter text, or the message for a bad threshold.
pub open spec fn with_threshold(
    param: Seq<char>,
    rule_id: Seq<char>,
    make: spec_fn(u32) -> CheckView,
) -> Result<CheckView, Seq<char>> {
    match parsed_u32(param) {
        Some(t) => Ok(make(t)),
        None => Err(threshold_message(rule_id, param)),
    }
}

/// The check that a pattern text of a semantic or import rule names, or the
/// message that says why it names none.
pub open spec fn parsed_semantic(pattern: Seq<char>, rule_id: Seq<char>) -> Result<
    CheckView,
    Seq<char>,
> {
    if has_prefix(pattern, "cyclomatic_complexity_gt:"@) {
        with_threshold(
            pattern.skip("cyclomatic_complexity_gt:"@.len() as int),
            rule_id,
            |t: u32| CheckView::CyclomaticComplexity(t),
        )
    } else if has_prefix(pattern, "function_lines_gt:"@) {
        with_threshold(
            pattern.skip("function_lines_gt:"@.len() as int),
            rule_id,
            |t: u32| CheckView::FunctionLinesGt(t),
        )
    } else if has_prefix(pattern, "nesting_depth_gt:"@) {
        with_threshold(
            pattern.skip("nesting_depth_gt:"@.len() as int),
            rule_id,
            |t: u32| CheckView::NestingDepthGt(t),
        )
    } else if has_prefix(pattern, "function_args_gt:"@) {
        with_threshold(
            pattern.skip("function_args_gt:"@.len() as int),
            rule_id,
            |t: u32| CheckView::FunctionArgsGt(t),
        )
    } else if pattern == "public_without_docs"@ {
        Ok(CheckView::PublicWithoutDocs)
    } else if pattern == "blocking_call_in_async"@ {
        Ok(CheckView::BlockingCallInAsync)
    } else if pattern == "future_not_awaited"@ {
        Ok(CheckView::FutureNotAwaited)
    } else if pattern == "select_without_biased"@ {
        Ok(CheckView::SelectWithoutBiased)
    } else if pattern == "generic_without_bounds"@ {
        Ok(CheckView::GenericWithoutBounds)
    } else if pattern == "test_fn_without_assertion"@ {
        Ok(CheckView::TestFnWithoutAssertion)
    } else if pattern == "impl_without_trait"@ {
        Ok(CheckView::ImplWithoutTrait)
    } else if looks_like_import(pattern) {
        if regex_compiles(import_expression(pattern), false) {
            Ok(
                CheckView::AbstractionLayerViolation {
                    source: import_expression(pattern),
                    fold_case: false,
                },
            )
        } else {
            Err(import_message(rule_id, pattern))
        }
    } else {
        Err(unknown_semantic_message(rule_id, pattern))
    }
}

/// What a parsed descriptor says, for comparison with the specification.
pub open spec fn parse_outcome(r: Result<AstPatternType, GuardianError>) -> Result<
    CheckView,
    Seq<char>,
> {
    match r {
        Ok(t) => Ok(t@),
        Err(GuardianError::Pattern { message }) => Err(message@),
        Err(_) => Err(""@),
    }
}

fn failure(lead: &str, rule_id: &str, text: &str) -> (e: GuardianError)
    ensures
        e@ == (ErrorView::Pattern { message: lead@ + rule_id@ + "': "@ + text@ }),
        e is Pattern,
{
    let head = concat3(lead, rule_id, "': ");
    let message = concat2(head.as_str(), text);
    GuardianError::Pattern { message }
}

fn trimmed_names(list: &[char]) -> (names: Vec<String>)
    ensures
        string_texts(names@) == all_trimmed(split_on(list@, '|')),
{
    let pieces = split(list, '|');
    let mut names: Vec<String> = Vec::new();
    let mut k: usize = 0;
    while k < pieces.len()
        invariant
            k <= pieces.len(),
            texts(pieces@) == split_on(list@, '|'),
            string_texts(names@) == all_trimmed(texts(pieces@)).take(k as int),
        decreases pieces.len() - k,
    {
        let t = trim(pieces[k].as_slice());
        let name = string_of(t.as_slice());
        assert(texts(pieces@)[k as int] == pieces@[k as int]@);
        assert(all_trimmed(texts(pieces@))[k as int] == trimmed(texts(pieces@)[k as int]));
        assert(string_texts(names@.push(name)) =~= string_texts(names@).push(name@));
        assert(all_trimmed(texts(pieces@)).take(k + 1) =~= all_trimmed(texts(pieces@)).take(
            k as int,
        ).push(name@));
        names.push(name);
        k += 1;
    }
    assert(all_trimmed(texts(pieces@)).take(pieces@.len() as int) =~= all_trimmed(texts(pieces@)));
    names
}

/// Reads the pattern text of a syntax rule.
pub fn parse_ast_pattern(pattern: &str, rule_id: &str) -> (r: Result<AstPatternType, GuardianError>)
    ensures
        parse_outcome(r) == parsed_ast(pattern@, rule_id@),
        r matches Err(e) ==> e is Pattern,
{
    let p = chars_of(pattern);
    let lead = chars_of("macro_call:");
    if starts_with(p.as_slice(), lead.as_slice()) {
        let list = slice_of(p.as_slice(), lead.len(), p.len());
        assert(list@ =~= pattern@.skip("macro_call:"@.len() as int));
        return Ok(AstPatternType::MacroCall(trimmed_names(list.as_slice())));
    }
    let header = chars_of("Architectural Principle:");
    if same_text(pattern, "return_ok_unit_with_no_logic") {
        Ok(AstPatternType::EmptyOkReturn)
    } else if contains(p.as_slice(), header.as_slice()) {
        Ok(AstPatternType::MissingArchitecturalHeader)
    } else if same_text(pattern, "empty_function_body") {
        Ok(AstPatternType::EmptyFunctionBody)
    } else if same_text(pattern, "unwrap_or_expect_without_message") {
        Ok(AstPatternType::UnwrapOrExpectWithoutMessage)
    } else if same_text(pattern, "unsafe_block") {
        Ok(AstPatternType::UnsafeBlock)
    } else if same_text(pattern, "ignored_test_attribute") {
        Ok(AstPatternType::IgnoredTestAttribute)
    } else {
        Err(failure("Unknown AST pattern type in rule '", rule_id, pattern))
    }
}

/// The threshold that follows `lead` in `pattern`, when `pattern` begins with it.
fn threshold_after(p: &[char], lead: &str, rule_id: &str) -> (r: Option<Result<u32, GuardianError>>)
    ensures
        r is Some <==> has_prefix(p@, lead@),
        r matches Some(Ok(t)) ==> parsed_u32(p@.skip(lead@.len() as int)) == Some(t),
        r matches Some(Err(e)) ==> parsed_u32(p@.skip(lead@.len() as int)) is None && e@
            == (ErrorView::Pattern {
            message: threshold_message(rule_id@, p@.skip(lead@.len() as int)),
        }) && e is Pattern,
{
    let l = chars_of(lead);
    if !starts_with(p, l.as_slice()) {
        return None;
    }
    let param = slice_of(p, l.len(), p.len());
    assert(param@ =~= p@.skip(lead@.len() as int));
    match parse_u32(param.as_slice()) {
        Some(t) => Some(Ok(t)),
        None => {
            let text = string_of(param.as_slice());
            Some(Err(failure("Invalid threshold in rule '", rule_id, text.as_str())))
        },
    }
}

fn import_pattern(pattern: &str) -> (s: String)
    ensures
        s@ == import_expression(pattern@),
{
    let p = chars_of(pattern);
    let use_lead = chars_of("use");
    let import_lead = chars_of("import:");
    let empty = chars_of("");
    if starts_with(p.as_slice(), use_lead.as_slice()) {
        pattern.to_owned()
    } else if starts_with(p.as_slice(), import_lead.as_slice()) {
        let out = replace(p.as_slice(), import_lead.as_slice(), empty.as_slice());
        string_of(out.as_slice())
    } else {
        let direct = chars_of("direct_");
        let access = chars_of("_access");
        let first = replace(p.as_slice(), direct.as_slice(), empty.as_slice());
        let second = replace(first.as_slice(), access.as_slice(), empty.as_slice());
        let mut out = chars_of(r"use\s+.*");
        append(&mut out, second.as_slice());
        string_of(out.as_slice())
    }
}

/// Reads the pattern text of a semantic or import rule.
pub fn parse_semantic_pattern(pattern: &str, rule_id: &str) -> (r: Result<
    AstPatternType,
    GuardianError,
>)
    ensures
        parse_outcome(r) == parsed_semantic(pattern@, rule_id@),
        r matches Err(e) ==> e is Pattern,
{
    let p = chars_of(pattern);
    match threshold_after(p.as_slice(), "cyclomatic_complexity_gt:", rule_id) {
        Some(Ok(t)) => {
            return Ok(AstPatternType::CyclomaticComplexity(t));
        },
        Some(Err(e)) => {
            return Err(e);
        },
        None => {},
    }
    match threshold_after(p.as_slice(), "function_lines_gt:", rule_id) {
        Some(Ok(t)) => {
            return Ok(AstPatternType::FunctionLinesGt(t));
        },
        Some(Err(e)) => {
            return Err(e);
        },
        None => {},
    }
    match threshold_after(p.as_slice(), "nesting_depth_gt:", rule_id) {
        Some(Ok(t)) => {
            return Ok(AstPatternType::NestingDepthGt(t));
        },
        Some(Err(e)) => {
            return Err(e);
        },
        None => {},
    }
    match threshold_after(p.as_slice(), "function_args_gt:", rule_id) {
        Some(Ok(t)) => {
            return Ok(AstPatternType::FunctionArgsGt(t));
        },
        Some(Err(e)) => {
            return Err(e);
        },
        None => {},
    }
    if same_text(pattern, "public_without_docs") {
        return Ok(AstPatternType::PublicWithoutDocs);
    }
    if same_text(pattern, "blocking_call_in_async") {
        return Ok(AstPatternType::BlockingCallInAsync);
    }
    if same_text(pattern, "future_not_awaited") {
        return Ok(AstPatternType::FutureNotAwaited);
    }
    if same_text(pattern, "select_without_biased") {
        return Ok(AstPatternType::SelectWithoutBiased);
    }
    if same_text(pattern, "generic_without_bounds") {
        return Ok(AstPatternType::GenericWithoutBounds);
    }
    if same_text(pattern, "test_fn_without_assertion") {
        return Ok(AstPatternType::TestFnWithoutAssertion);
    }
    if same_text(pattern, "impl_without_trait") {
        return Ok(AstPatternType::ImplWithoutTrait);
    }
    let use_lead = chars_of("use");
    let import_lead = chars_of("import:");
    let access = chars_of("_access");
    if starts_with(p.as_slice(), use_lead.as_slice()) || starts_with(
        p.as_slice(),
        import_lead.as_slice(),
    ) || contains(p.as_slice(), access.as_slice()) {
        let expression = import_pattern(pattern);
        match Expression::compile(expression.as_str(), false) {
            Ok(re) => Ok(AstPatternType::AbstractionLayerViolation(re)),
            Err(_) => Err(failure("Invalid import pattern in rule '", rule_id, pattern)),
        }
    } else {
        Err(failure("Unknown semantic pattern type in rule '", rule_id, pattern))
    }
}

} // verus!
