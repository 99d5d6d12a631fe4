//! Checks of the engine on itself: small known inputs with known results.

use vstd::prelude::*;
use crate::config::{ExcludeConditions, PatternRule, RuleType, RuleView};
use crate::domain::violations::{GuardianError, Severity};
use crate::patterns::matching::{match_views, MatchView, PatternMatch};
use crate::patterns::outline::plain_finding;
use crate::patterns::structural::{findings, CheckView};
use crate::patterns::{
    report, rule_compiles, with_rule, EngineView, PatternEngine, StructuralRuleView, TextRuleView,
};
use crate::syntax::{
    FunctionInfo, MacroInfo, MacroPosition, NodeKind, StmtShape, SyntaxNode, SyntaxTree,
    well_formed,
};
use crate::text::{chars_of, contains, contains_text, same_text};

verus! {

/// An engine that holds one rule.
pub open spec fn engine_of(rule: RuleView, severity: Severity) -> EngineView {
    with_rule(
        EngineView {
            text: Seq::<TextRuleView>::empty(),
            structural: Seq::<StructuralRuleView>::empty(),
        },
        rule,
        severity,
    )
}

/// The rule that finds the word `TODO`, with or without exclusion in tests.
pub open spec fn todo_rule(id: Seq<char>, in_tests: bool) -> RuleView {
    RuleView {
        id,
        rule_type: RuleType::Regex,
        pattern: r"\bTODO\b"@,
        message: "TODO found: {match}"@,
        severity: None,
        enabled: true,
        case_sensitive: true,
        exclude_if: if in_tests {
            Some(
                crate::config::ExcludeView {
                    attribute: None,
                    in_tests: true,
                    file_patterns: None,
                },
            )
        } else {
            None
        },
    }
}

/// The rule that finds the macros `unimplemented` and `todo`.
pub open spec fn unfinished_rule() -> RuleView {
    RuleView {
        id: "unimplemented_validation"@,
        rule_type: RuleType::Ast,
        pattern: "macro_call:unimplemented|todo"@,
        message: "Unfinished macro: {macro_name}"@,
        severity: None,
        enabled: true,
        case_sensitive: true,
        exclude_if: None,
    }
}

/// Whether a report is one match of the given rule.
pub open spec fn is_single_match(ms: Seq<MatchView>, rule_id: Seq<char>) -> bool {
    ms.len() == 1 && ms[0].rule_id == rule_id
}

fn todo_pattern_rule(id: &str, in_tests: bool) -> (rule: PatternRule)
    ensures
        rule@ == todo_rule(id@, in_tests),
{
    PatternRule {
        id: id.to_owned(),
        rule_type: RuleType::Regex,
        pattern: r"\bTODO\b".to_owned(),
        message: "TODO found: {match}".to_owned(),
        severity: None,
        enabled: true,
        case_sensitive: true,
        exclude_if: if in_tests {
            Some(ExcludeConditions { attribute: None, in_tests: true, file_patterns: None })
        } else {
            None
        },
    }
}

fn single_match(ms: &Vec<PatternMatch>, rule_id: &str) -> (b: bool)
    ensures
        b == is_single_match(match_views(ms@), rule_id@),
{
    if ms.len() != 1 {
        return false;
    }
    assert(match_views(ms@)[0] == ms@[0]@);
    same_text(ms[0].rule_id.as_str(), rule_id)
}

/// Checks that a text rule finds the one `TODO` of a two-line text.
pub fn validate_regex_pattern_functionality() -> (r: Result<(), GuardianError>)
    ensures
        r is Ok <==> rule_compiles(todo_rule("todo_validation"@, false)) && {
            let ms = report(
                engine_of(todo_rule("todo_validation"@, false), Severity::Warning),
                "validation.rs"@,
                "// TODO: implement this\nlet x = 5;"@,
                None,
            );
            is_single_match(ms, "todo_validation"@) && ms[0].matched_text == "TODO"@
        },
        r matches Err(e) ==> e is Pattern,
{
    let mut engine = PatternEngine::new();
    assert(engine@.text =~= Seq::<TextRuleView>::empty());
    assert(engine@.structural =~= Seq::<StructuralRuleView>::empty());
    let rule = todo_pattern_rule("todo_validation", false);
    match engine.add_rule(&rule, Severity::Warning) {
        Ok(()) => {},
        Err(e) => {
            return Err(e);
        },
    }
    let content = "// TODO: implement this\nlet x = 5;";
    let matches = match engine.analyze_file("validation.rs", content, None) {
        Ok(m) => m,
        Err(e) => {
            return Err(e);
        },
    };
    if !single_match(&matches, "todo_validation") {
        return Err(
            GuardianError::pattern("Regex pattern validation failed - incorrect match results"),
        );
    }
    assert(match_views(matches@)[0] == matches@[0]@);
    if !same_text(matches[0].matched_text.as_str(), "TODO") {
        return Err(
            GuardianError::pattern("Regex pattern validation failed - incorrect match results"),
        );
    }
    Ok(())
}

/// Checks that a rule that excludes tests reports the `TODO` of a source file
/// and not that of a test file.
pub fn validate_exclude_conditions_functionality() -> (r: Result<(), GuardianError>)
    ensures
        r is Ok <==> rule_compiles(todo_rule("todo_exclusion_validation"@, true)) && {
            let e = engine_of(todo_rule("todo_exclusion_validation"@, true), Severity::Warning);
            report(e, "src/lib.rs"@, "// TODO: implement this"@, None).len() == 1 && report(
                e,
                "tests/unit.rs"@,
                "// TODO: implement this"@,
                None,
            ).len() == 0
        },
        r matches Err(e) ==> e is Pattern,
{
    let mut engine = PatternEngine::new();
    assert(engine@.text =~= Seq::<TextRuleView>::empty());
    assert(engine@.structural =~= Seq::<StructuralRuleView>::empty());
    let rule = todo_pattern_rule("todo_exclusion_validation", true);
    match engine.add_rule(&rule, Severity::Warning) {
        Ok(()) => {},
        Err(e) => {
            return Err(e);
        },
    }
    let content = "// TODO: implement this";
    let in_source = match engine.analyze_file("src/lib.rs", content, None) {
        Ok(m) => m,
        Err(e) => {
            return Err(e);
        },
    };
    assert(match_views(in_source@).len() == in_source@.len());
    if in_source.len() != 1 {
        return Err(
            GuardianError::pattern(
                "Exclude conditions validation failed - should match in regular file",
            ),
        );
    }
    let in_test = match engine.analyze_file("tests/unit.rs", content, None) {
        Ok(m) => m,
        Err(e) => {
            return Err(e);
        },
    };
    assert(match_views(in_test@).len() == in_test@.len());
    if in_test.len() != 0 {
        return Err(
            GuardianError::pattern(
                "Exclude conditions validation failed - should be excluded in test file",
            ),
        );
    }
    Ok(())
}

/// Whether a list of nodes is the tree of `fn validation() { unimplemented!() }`:
/// the function, its body, and the macro in it.
pub open spec fn is_validation_tree(nodes: Seq<SyntaxNode>) -> bool {
    &&& nodes.len() == 3
    &&& nodes[0].kind is Function
    &&& nodes[1].kind is Block
    &&& nodes[2].kind matches NodeKind::Macro(m) && m.name matches Some(n) && n@ == "unimplemented"@
}

/// The tree of `fn validation() { unimplemented!() }`.
pub fn validation_tree() -> (t: Option<SyntaxTree>)
    ensures
        t is Some,
        is_validation_tree(t->0@),
{
    let function = FunctionInfo {
        name: "validation".to_owned(),
        is_public: false,
        attributes: Vec::new(),
        is_async: false,
        is_unsafe: false,
        arg_count: 0,
        type_params: Vec::new(),
        return_type: None,
        body: 1,
        body_text: "{ unimplemented ! () }".to_owned(),
        statement_count: 1,
        first_statement: Some(StmtShape::Other),
    };
    let invocation = MacroInfo {
        name: Some("unimplemented".to_owned()),
        position: MacroPosition::Statement,
        tokens_empty: true,
        text: "unimplemented ! ()".to_owned(),
    };
    let mut nodes: Vec<SyntaxNode> = Vec::new();
    nodes.push(SyntaxNode { kind: NodeKind::Function(function), parent: None, end: 3 });
    nodes.push(SyntaxNode { kind: NodeKind::Block, parent: Some(0), end: 3 });
    nodes.push(SyntaxNode { kind: NodeKind::Macro(invocation), parent: Some(1), end: 3 });
    assert(well_formed(nodes@));
    SyntaxTree::new(nodes)
}

/// The rule for unfinished macros compiles, and names the macros
/// `unimplemented` and `todo`.
pub proof fn lemma_unfinished_rule_compiles()
    ensures
        rule_compiles(unfinished_rule()),
        crate::patterns::named_check(unfinished_rule()) matches Ok(CheckView::MacroCall(names))
            && names.len() == 2 && names[0] == "unimplemented"@,
{
    let pattern = "macro_call:unimplemented|todo"@;
    let lead = "macro_call:"@;
    reveal_strlit("macro_call:unimplemented|todo");
    reveal_strlit("macro_call:");
    reveal_strlit("unimplemented");
    reveal_strlit("todo");
    assert(pattern.subrange(0, 11) =~= lead);
    assert(crate::text::has_prefix(pattern, lead));
    let list = pattern.skip(11);
    assert forall|j: int| 0 <= j < 13 implies list[j] != '|' by {}
    crate::textlines::lemma_first_index_is(list, '|', 13);
    let first = list.take(13);
    assert(first =~= "unimplemented"@);
    let rest = list.skip(14);
    assert(rest =~= "todo"@);
    assert forall|j: int| 0 <= j < 4 implies rest[j] != '|' by {}
    crate::textlines::lemma_first_index_is(rest, '|', 4);
    assert(crate::textlines::split_on(rest, '|') =~= seq![rest]);
    assert(crate::textlines::split_on(list, '|') =~= seq![first, rest]);
    let names = crate::patterns::descriptors::all_trimmed(crate::textlines::split_on(list, '|'));
    assert(names.len() == 2);
    assert(names[0] == crate::textlines::trimmed(first));
    assert(!crate::textlines::is_whitespace(first[0]));
    assert(!crate::textlines::is_whitespace(first.last()));
    assert(crate::textlines::trim_start(first) == first);
    assert(crate::textlines::trim_end(first) == first);
}

/// The rule for unfinished macros finds the macro of the validation tree: it
/// reports one match, and the message of the match names the macro.
pub proof fn lemma_validation_tree_is_reported(nodes: Seq<SyntaxNode>, content: Seq<char>)
    requires
        is_validation_tree(nodes),
    ensures
        ({
            let ms = report(
                engine_of(unfinished_rule(), Severity::Error),
                "validation.rs"@,
                content,
                Some(nodes),
            );
            is_single_match(ms, "unimplemented_validation"@) && contains_text(
                ms[0].message,
                "unimplemented"@,
            )
        }),
{
    lemma_unfinished_rule_compiles();
    let rule = unfinished_rule();
    let path = "validation.rs"@;
    let check = crate::patterns::named_check(rule)->Ok_0;
    let names = check->MacroCall_0;
    let head = crate::patterns::head_of(rule, Severity::Error);
    let compiled = StructuralRuleView { head, exclude: None, check };
    let e = engine_of(rule, Severity::Error);
    assert(e.structural =~= seq![compiled]);
    assert(e.text =~= Seq::<TextRuleView>::empty());
    // The path names a Rust file.
    reveal_strlit("validation.rs");
    reveal_strlit("rs");
    assert forall|j: int| 0 <= j < 13 implies path[j] != '/' by {}
    crate::textlines::lemma_first_index_is(path, '/', 13);
    assert(crate::textlines::split_on(path, '/') =~= seq![path]);
    assert(path != seq!['.']);
    reveal_with_fuel(crate::paths::counted, 2);
    assert(crate::paths::segments(path) =~= seq![path]);
    assert(crate::paths::base_name(path) == Some(path));
    reveal_with_fuel(crate::paths::last_index, 4);
    assert(crate::paths::last_index(path, '.') == 10);
    assert(path.skip(11) =~= "rs"@);
    assert(crate::paths::is_rust_path(path));
    // The macro is the one finding.
    let found = plain_finding("unimplemented"@, "unimplemented"@ + "!()"@);
    assert(crate::patterns::outline::lists(names, "unimplemented"@));
    reveal_with_fuel(findings, 4);
    let fs = findings(nodes, check, None, 3);
    assert(fs =~= seq![found]);
    reveal_with_fuel(crate::patterns::matching::structural_matches, 2);
    let ms = crate::patterns::structural_rule_report(compiled, path, content, nodes);
    assert(ms.len() == 1);
    reveal_with_fuel(crate::patterns::structural_report, 2);
    reveal_with_fuel(crate::patterns::text_report, 1);
    let all = report(e, path, content, Some(nodes));
    assert(all =~= ms);
    // Its message names the macro.
    reveal_strlit("Unfinished macro: {macro_name}");
    reveal_strlit("{macro_name}");
    let template = "Unfinished macro: {macro_name}"@;
    assert(template.subrange(18, 30) =~= "{macro_name}"@);
    assert(crate::text::occurs_at(template, "{macro_name}"@, 18));
    crate::text::lemma_replacement_occurs(template, "{macro_name}"@, "unimplemented"@);
}

/// Checks that the rule for unfinished macros reports exactly one match in the
/// given tree, with a message that names `unimplemented`.
pub fn validate_ast_pattern_on(tree: &SyntaxTree, content: &str) -> (r: Result<(), GuardianError>)
    ensures
        r is Ok <==> rule_compiles(unfinished_rule()) && {
            let ms = report(
                engine_of(unfinished_rule(), Severity::Error),
                "validation.rs"@,
                content@,
                Some(tree@),
            );
            is_single_match(ms, "unimplemented_validation"@) && contains_text(
                ms[0].message,
                "unimplemented"@,
            )
        },
        r matches Err(e) ==> e is Pattern,
{
    let mut engine = PatternEngine::new();
    assert(engine@.text =~= Seq::<TextRuleView>::empty());
    assert(engine@.structural =~= Seq::<StructuralRuleView>::empty());
    let rule = PatternRule {
        id: "unimplemented_validation".to_owned(),
        rule_type: RuleType::Ast,
        pattern: "macro_call:unimplemented|todo".to_owned(),
        message: "Unfinished macro: {macro_name}".to_owned(),
        severity: None,
        enabled: true,
        case_sensitive: true,
        exclude_if: None,
    };
    assert(rule@ == unfinished_rule());
    match engine.add_rule(&rule, Severity::Error) {
        Ok(()) => {},
        Err(e) => {
            return Err(e);
        },
    }
    let matches = match engine.analyze_file("validation.rs", content, Some(tree)) {
        Ok(m) => m,
        Err(e) => {
            return Err(e);
        },
    };
    if !single_match(&matches, "unimplemented_validation") {
        return Err(GuardianError::pattern("AST pattern validation failed - incorrect match results"));
    }
    assert(match_views(matches@)[0] == matches@[0]@);
    let message = chars_of(matches[0].message.as_str());
    let word = chars_of("unimplemented");
    if !contains(message.as_slice(), word.as_slice()) {
        return Err(GuardianError::pattern("AST pattern validation failed - incorrect match results"));
    }
    Ok(())
}

/// Checks that the rule for unfinished macros reports the one macro of
/// `fn validation() { unimplemented!() }`. The check passes.
pub fn validate_ast_pattern_functionality() -> (r: Result<(), GuardianError>)
    ensures
        r is Ok,
{
    match validation_tree() {
        Some(tree) => {
            proof {
                lemma_unfinished_rule_compiles();
                lemma_validation_tree_is_reported(
                    tree@,
                    "fn validation() {\n    unimplemented!()\n}"@,
                );
            }
            validate_ast_pattern_on(&tree, "fn validation() {\n    unimplemented!()\n}")
        },
        None => Err(GuardianError::pattern("AST pattern validation failed - incorrect match results")),
    }
}

} // verus!
