use rust_guardian::config::{ExcludeConditions, PatternRule, RuleType};
use rust_guardian::patterns::descriptors::{parse_ast_pattern, parse_semantic_pattern};
use rust_guardian::patterns::location::{char_position, locate};
use rust_guardian::patterns::expression::Expression;
use rust_guardian::patterns::matching::{is_test_file, matches_from_spans, should_exclude_match};
use rust_guardian::patterns::structural::AstPatternType;
use rust_guardian::patterns::validation::{
    validate_ast_pattern_functionality, validate_exclude_conditions_functionality,
    validate_regex_pattern_functionality, validation_tree,
};
use rust_guardian::patterns::{PatternEngine, PatternMatch};
use rust_guardian::{GuardianConfig, GuardianError, PatternCategory, Severity};

fn text_rule(id: &str, pattern: &str, message: &str, case_sensitive: bool) -> PatternRule {
    PatternRule {
        id: id.to_string(),
        rule_type: RuleType::Regex,
        pattern: pattern.to_string(),
        message: message.to_string(),
        severity: None,
        enabled: true,
        case_sensitive,
        exclude_if: None,
    }
}

fn engine_with(rule: &PatternRule, severity: Severity) -> PatternEngine {
    let mut engine = PatternEngine::new();
    engine.add_rule(rule, severity).unwrap();
    engine
}

fn cs(s: &str) -> Vec<char> {
    s.chars().collect()
}

#[test]
fn todo_rule_yields_one_match_on_line_one() {
    let rule = text_rule("todo", r"\bTODO\b", "Development marker detected: {match}", false);
    let engine = engine_with(&rule, Severity::Error);
    let matches = engine.analyze_file("src/f.rs", "// TODO: x\nfn f() {}", None).unwrap();
    assert_eq!(matches.len(), 1);
    let m: &PatternMatch = &matches[0];
    assert_eq!(m.rule_id, "todo");
    assert_eq!(m.file_path, "src/f.rs");
    assert_eq!(m.line_number, Some(1));
    assert_eq!(m.column_number, Some(4));
    assert_eq!(m.matched_text, "TODO");
    assert_eq!(m.message, "Development marker detected: TODO");
    assert_eq!(m.severity, Severity::Error);
    assert_eq!(m.context, Some("// TODO: x".to_string()));
}

#[test]
fn case_folding_follows_the_rule() {
    let folded = engine_with(&text_rule("t", r"\bTODO\b", "{match}", false), Severity::Info);
    let exact = engine_with(&text_rule("t", r"\bTODO\b", "{match}", true), Severity::Info);
    assert_eq!(folded.analyze_file("a.txt", "todo Todo TODO", None).unwrap().len(), 3);
    let only = exact.analyze_file("a.txt", "todo Todo TODO", None).unwrap();
    assert_eq!(only.len(), 1);
    assert_eq!(only[0].column_number, Some(11));
}

#[test]
fn repeated_evaluation_reports_the_same() {
    let engine = engine_with(&text_rule("t", r"\p{L}+\d", "{match}", true), Severity::Info);
    let content = "ab1 c2\nxyz9 é7 q";
    let first = engine.analyze_file("a.txt", content, None).unwrap();
    let second = engine.analyze_file("a.txt", content, None).unwrap();
    assert_eq!(first.len(), 4);
    assert_eq!(first.len(), second.len());
    for (a, b) in first.iter().zip(second.iter()) {
        assert_eq!(
            (a.line_number, a.column_number, &a.matched_text),
            (b.line_number, b.column_number, &b.matched_text)
        );
    }
    let texts: Vec<&str> = first.iter().map(|m| m.matched_text.as_str()).collect();
    assert_eq!(texts, vec!["ab1", "c2", "xyz9", "é7"]);
    assert_eq!(first[3].line_number, Some(2));
    assert_eq!(first[3].column_number, Some(6));
}

#[test]
fn positions_count_characters_not_bytes() {
    assert_eq!(char_position(&cs("é TODO"), 3), 2);
    assert_eq!(char_position(&cs("é TODO"), 0), 0);
    assert_eq!(char_position(&cs("abc"), 99), 3);
    assert_eq!(char_position(&cs("✓x"), 3), 1);
    let (line, column, context) = locate(&cs("a\n  bb TODO  \nc"), 7);
    assert_eq!((line, column), (2, 6));
    assert_eq!(context.iter().collect::<String>(), "bb TODO");
    let (line, column, context) = locate(&cs("one\ntwo"), 0);
    assert_eq!((line, column), (1, 1));
    assert_eq!(context.iter().collect::<String>(), "one");
    let (line, column, _) = locate(&cs("one\ntwo"), 4);
    assert_eq!((line, column), (2, 1));
}

#[test]
fn spans_become_matches_with_filled_messages() {
    let spans = vec![(0usize, 2usize), (4, 4), (5, 3)];
    let out = matches_from_spans("r", "[{match}] twice {match}", Severity::Warning, &None, "p", "ab\ncdef", &spans);
    assert_eq!(out.len(), 3);
    assert_eq!(out[0].matched_text, "ab");
    assert_eq!(out[0].message, "[ab] twice ab");
    assert_eq!(out[1].matched_text, "");
    assert_eq!((out[1].line_number, out[1].column_number), (Some(2), Some(2)));
    assert_eq!(out[2].matched_text, "");
    assert_eq!(out[2].context, Some("cdef".to_string()));
}

#[test]
fn exclusion_by_test_path_and_by_pattern() {
    let in_tests = Some(ExcludeConditions { attribute: None, in_tests: true, file_patterns: None });
    assert!(should_exclude_match(&in_tests, "tests/unit.rs"));
    assert!(should_exclude_match(&in_tests, "./tests//unit.rs"));
    assert!(should_exclude_match(&in_tests, "src/foo_test.rs"));
    assert!(!should_exclude_match(&in_tests, "src/lib.rs"));
    let by_pattern = Some(ExcludeConditions {
        attribute: None,
        in_tests: false,
        file_patterns: Some(vec!["[bad".to_string(), "**/examples/**".to_string()]),
    });
    assert!(should_exclude_match(&by_pattern, "a/examples/x.rs"));
    assert!(!should_exclude_match(&by_pattern, "tests/unit.rs"));
    assert!(!should_exclude_match(&None, "tests/unit.rs"));
    assert!(is_test_file("a/test/b.rs"));
    assert!(!is_test_file("a/b.rs"));
}

#[test]
fn excluded_files_report_nothing() {
    let mut rule = text_rule("t", "TODO", "{match}", true);
    rule.exclude_if =
        Some(ExcludeConditions { attribute: None, in_tests: true, file_patterns: None });
    let engine = engine_with(&rule, Severity::Info);
    assert_eq!(engine.analyze_file("src/lib.rs", "TODO TODO", None).unwrap().len(), 2);
    assert_eq!(engine.analyze_file("tests/unit.rs", "TODO TODO", None).unwrap().len(), 0);
    assert_eq!(engine.analyze_file("./tests/unit.rs", "TODO TODO", None).unwrap().len(), 0);
}

#[test]
fn self_checks_pass() {
    assert!(validate_regex_pattern_functionality().is_ok());
    assert!(validate_exclude_conditions_functionality().is_ok());
    assert!(validate_ast_pattern_functionality().is_ok());
    assert_eq!(validation_tree().unwrap().len(), 3);
}

#[test]
fn invalid_regex_is_a_pattern_error() {
    let mut engine = PatternEngine::new();
    let bad = text_rule("bad", "foo(bar", "m", true);
    let r = engine.add_rule(&bad, Severity::Info);
    assert!(matches!(r, Err(GuardianError::Pattern { .. })));
    assert!(engine.regex_patterns.is_empty());
    if let Err(e) = r {
        assert!(e.to_text().starts_with("Pattern error: Invalid regex 'foo(bar' in rule 'bad': "));
    }
    // The engine holds no matcher afterwards.
    assert!(engine.analyze_file("a.rs", "foo(bar foo", None).unwrap().is_empty());
}

#[test]
fn a_rule_takes_the_place_of_the_rule_with_its_identifier() {
    let mut engine = PatternEngine::new();
    engine.add_rule(&text_rule("a", "x", "first", true), Severity::Info).unwrap();
    engine.add_rule(&text_rule("b", "y", "other", true), Severity::Info).unwrap();
    engine.add_rule(&text_rule("a", "z", "second", true), Severity::Error).unwrap();
    assert_eq!(engine.regex_patterns.len(), 2);
    assert_eq!(engine.regex_patterns[0].message_template, "second");
    assert_eq!(engine.regex_patterns[0].severity, Severity::Error);
    assert_eq!(engine.regex_patterns[1].rule_id, "b");
}

#[test]
fn syntax_descriptors() {
    match parse_ast_pattern("macro_call:unimplemented| todo |panic", "r").unwrap() {
        AstPatternType::MacroCall(names) => assert_eq!(names, vec!["unimplemented", "todo", "panic"]),
        _ => panic!("not a macro rule"),
    }
    assert!(matches!(parse_ast_pattern("return_ok_unit_with_no_logic", "r"), Ok(AstPatternType::EmptyOkReturn)));
    assert!(matches!(
        parse_ast_pattern("needs Architectural Principle: header", "r"),
        Ok(AstPatternType::MissingArchitecturalHeader)
    ));
    assert!(matches!(parse_ast_pattern("empty_function_body", "r"), Ok(AstPatternType::EmptyFunctionBody)));
    assert!(matches!(
        parse_ast_pattern("unwrap_or_expect_without_message", "r"),
        Ok(AstPatternType::UnwrapOrExpectWithoutMessage)
    ));
    assert!(matches!(parse_ast_pattern("unsafe_block", "r"), Ok(AstPatternType::UnsafeBlock)));
    assert!(matches!(parse_ast_pattern("ignored_test_attribute", "r"), Ok(AstPatternType::IgnoredTestAttribute)));
    match parse_ast_pattern("nonsense", "my_rule") {
        Err(e) => assert_eq!(e.to_text(), "Pattern error: Unknown AST pattern type in rule 'my_rule': nonsense"),
        Ok(_) => panic!("accepted"),
    }
}

#[test]
fn semantic_descriptors() {
    assert!(matches!(parse_semantic_pattern("cyclomatic_complexity_gt:10", "r"), Ok(AstPatternType::CyclomaticComplexity(10))));
    assert!(matches!(parse_semantic_pattern("function_lines_gt:50", "r"), Ok(AstPatternType::FunctionLinesGt(50))));
    assert!(matches!(parse_semantic_pattern("nesting_depth_gt:4", "r"), Ok(AstPatternType::NestingDepthGt(4))));
    assert!(matches!(parse_semantic_pattern("function_args_gt:+5", "r"), Ok(AstPatternType::FunctionArgsGt(5))));
    assert!(matches!(parse_semantic_pattern("public_without_docs", "r"), Ok(AstPatternType::PublicWithoutDocs)));
    assert!(matches!(parse_semantic_pattern("blocking_call_in_async", "r"), Ok(AstPatternType::BlockingCallInAsync)));
    assert!(matches!(parse_semantic_pattern("future_not_awaited", "r"), Ok(AstPatternType::FutureNotAwaited)));
    assert!(matches!(parse_semantic_pattern("select_without_biased", "r"), Ok(AstPatternType::SelectWithoutBiased)));
    assert!(matches!(parse_semantic_pattern("generic_without_bounds", "r"), Ok(AstPatternType::GenericWithoutBounds)));
    assert!(matches!(parse_semantic_pattern("test_fn_without_assertion", "r"), Ok(AstPatternType::TestFnWithoutAssertion)));
    assert!(matches!(parse_semantic_pattern("impl_without_trait", "r"), Ok(AstPatternType::ImplWithoutTrait)));
    match parse_semantic_pattern("nesting_depth_gt:deep", "r7") {
        Err(e) => assert_eq!(e.to_text(), "Pattern error: Invalid threshold in rule 'r7': deep"),
        Ok(_) => panic!("accepted"),
    }
    match parse_semantic_pattern("mystery", "r8") {
        Err(e) => assert_eq!(e.to_text(), "Pattern error: Unknown semantic pattern type in rule 'r8': mystery"),
        Ok(_) => panic!("accepted"),
    }
    match parse_semantic_pattern("import:foo(", "r9") {
        Err(e) => assert_eq!(e.to_text(), "Pattern error: Invalid import pattern in rule 'r9': import:foo("),
        Ok(_) => panic!("accepted"),
    }
    match parse_semantic_pattern("direct_database_access", "r").unwrap() {
        AstPatternType::AbstractionLayerViolation(re) => {
            assert_eq!(re.as_str(), r"use\s+.*database");
            assert!(re.is_match("use crate :: database :: Pool ;"));
        }
        _ => panic!("not an import rule"),
    }
    match parse_semantic_pattern("import:concrete", "r").unwrap() {
        AstPatternType::AbstractionLayerViolation(re) => assert_eq!(re.as_str(), "concrete"),
        _ => panic!("not an import rule"),
    }
    match parse_semantic_pattern("use.*implementation", "r").unwrap() {
        AstPatternType::AbstractionLayerViolation(re) => assert_eq!(re.as_str(), "use.*implementation"),
        _ => panic!("not an import rule"),
    }
}

fn category(rules: Vec<PatternRule>) -> PatternCategory {
    PatternCategory { severity: Severity::Warning, enabled: true, rules }
}

#[test]
fn registry_with_a_repeated_identifier_in_a_category_fails() {
    let mut config = GuardianConfig::with_defaults();
    config.patterns.clear();
    config.patterns.push(rust_guardian::config::CategoryEntry {
        name: "c".to_string(),
        category: category(vec![text_rule("same", "a", "m", true), text_rule("same", "b", "m", true)]),
    });
    let r = PatternEngine::compile(&config);
    match r {
        Err(e) => assert_eq!(e.to_text(), "Configuration error: Duplicate rule ID 'same' in category 'c'"),
        Ok(_) => panic!("a registry was built"),
    }
    assert!(config.validate().is_err());
}

#[test]
fn registry_of_the_built_in_rules() {
    let config = GuardianConfig::with_defaults();
    let engine = PatternEngine::compile(&config).unwrap();
    let text_ids: Vec<&str> = engine.regex_patterns.iter().map(|r| r.rule_id.as_str()).collect();
    assert_eq!(text_ids, vec!["todo_comments", "temporary_markers", "hardcoded_paths"]);
    let structural_ids: Vec<&str> = engine.ast_patterns.iter().map(|r| r.rule_id.as_str()).collect();
    assert_eq!(structural_ids, vec!["unimplemented_macros", "empty_ok_return"]);
    assert_eq!(engine.regex_patterns[0].severity, Severity::Error);
    assert_eq!(engine.regex_patterns[2].severity, Severity::Warning);
}

#[test]
fn one_bad_rule_fails_the_whole_registry() {
    let mut config = GuardianConfig::with_defaults();
    config.patterns.push(rust_guardian::config::CategoryEntry {
        name: "extra".to_string(),
        category: category(vec![PatternRule {
            id: "odd".to_string(),
            rule_type: RuleType::Ast,
            pattern: "no_such_check".to_string(),
            message: "m".to_string(),
            severity: None,
            enabled: true,
            case_sensitive: true,
            exclude_if: None,
        }]),
    });
    match PatternEngine::compile(&config) {
        Err(e) => assert_eq!(
            e.to_text(),
            "Configuration error: Failed to add rule 'odd' in category 'extra': Pattern error: Unknown AST pattern type in rule 'odd': no_such_check"
        ),
        Ok(_) => panic!("a registry was built"),
    }
    config.patterns[3].category.rules[0].enabled = false;
    assert!(PatternEngine::compile(&config).is_ok());
}

#[test]
fn matches_become_violations() {
    let engine = PatternEngine::new();
    let matches = vec![
        PatternMatch {
            rule_id: "r".to_string(),
            file_path: "p.rs".to_string(),
            line_number: Some(3),
            column_number: Some(4),
            matched_text: "x".to_string(),
            message: "m".to_string(),
            severity: Severity::Warning,
            context: Some("ctx".to_string()),
        },
        PatternMatch {
            rule_id: "q".to_string(),
            file_path: "p.rs".to_string(),
            line_number: Some(3),
            column_number: None,
            matched_text: "x".to_string(),
            message: "n".to_string(),
            severity: Severity::Error,
            context: None,
        },
    ];
    let violations = engine.matches_to_violations(matches);
    assert_eq!(violations.len(), 2);
    assert_eq!(violations[0].rule_id, "r");
    assert_eq!((violations[0].line_number, violations[0].column_number), (Some(3), Some(4)));
    assert_eq!(violations[0].context, Some("ctx".to_string()));
    assert_eq!(violations[0].suggested_fix, None);
    assert_eq!((violations[1].line_number, violations[1].column_number), (None, None));
    assert_eq!(violations[1].severity, Severity::Error);
    assert_eq!(violations[1].context, None);
}

#[test]
fn a_test_path_is_one_from_wherever_it_is_reached() {
    let relative = ["tests/unit.rs", "src/test/helper.rs", "src/my_test.rs", "test_util.rs"];
    let directories = ["", ".", "/", "/home/user/project", "a/b", "../..", "./x/."];
    for p in relative {
        assert!(is_test_file(p));
        for d in directories {
            assert!(is_test_file(&format!("{d}/{p}")), "{d}/{p}");
        }
        assert!(is_test_file(&format!("./{p}")));
    }
    assert!(!is_test_file("src/lib.rs"));
    assert!(!is_test_file("./src/lib.rs"));
    assert!(!is_test_file("/home/user/project/src/lib.rs"));
}

#[test]
fn an_expression_finds_what_its_pattern_and_flag_say() {
    let exact = Expression::compile("^b|TODO", false).unwrap();
    assert_eq!(exact.as_str(), "^b|TODO");
    // Without the multi-line option `^` stands for the start of the text only.
    assert_eq!(exact.find_all("a\nb todo TODO"), vec![(9, 13)]);
    assert!(exact.is_match("b"));
    assert!(!exact.is_match("a\nb"));
    let folded = Expression::compile("^b|TODO", true).unwrap();
    assert_eq!(folded.find_all("B todo TODO"), vec![(0, 1), (2, 6), (7, 11)]);
    assert!(folded.is_match("a\ntodo"));
    assert!(!folded.is_match("a\nb"));
    // Offsets count bytes.
    assert_eq!(Expression::compile("x", false).unwrap().find_all("éx"), vec![(2, 3)]);
    assert!(Expression::compile("(unclosed", false).is_err());
}
