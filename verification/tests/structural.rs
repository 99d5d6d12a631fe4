use rust_guardian::config::{ExcludeConditions, PatternRule, RuleType};
use rust_guardian::patterns::outline::Finding;
use rust_guardian::patterns::structural::{structural_findings, AstPatternType};
use rust_guardian::patterns::descriptors::{parse_ast_pattern, parse_semantic_pattern};
use rust_guardian::patterns::PatternEngine;
use rust_guardian::syntax::{
    ArgShape, ExprShape, FunctionInfo, ImplInfo, ItemInfo, MacroInfo, MacroPosition,
    MethodCallInfo, NodeKind, StmtShape, SyntaxNode, SyntaxTree, TypeParam,
};
use rust_guardian::Severity;

fn function(name: &str) -> FunctionInfo {
    FunctionInfo {
        name: name.to_string(),
        is_public: false,
        attributes: Vec::new(),
        is_async: false,
        is_unsafe: false,
        arg_count: 0,
        type_params: Vec::new(),
        return_type: None,
        body: 0,
        body_text: "{ }".to_string(),
        statement_count: 0,
        first_statement: None,
    }
}

fn ok_unit() -> StmtShape {
    StmtShape::Expression(ExprShape::Call {
        callee: Some("Ok".to_string()),
        arg_count: 1,
        first_arg: Some(ArgShape::Tuple { elems: 0 }),
    })
}

fn invocation(name: &str, position: MacroPosition) -> NodeKind {
    NodeKind::Macro(MacroInfo {
        name: Some(name.to_string()),
        position,
        tokens_empty: true,
        text: format!("{} ! ()", name),
    })
}

fn method(name: &str, arg_count: usize, first: Option<&str>) -> NodeKind {
    NodeKind::MethodCall(MethodCallInfo {
        method: name.to_string(),
        arg_count,
        receiver_is_try: false,
        first_arg_literal: first.map(|s| s.to_string()),
    })
}

fn call(name: &str) -> NodeKind {
    NodeKind::Call { callee: Some(name.to_string()) }
}

/// Builds a tree from kinds with their nesting depth, in source order.
fn tree(items: Vec<(usize, NodeKind)>) -> SyntaxTree {
    let n = items.len();
    let depths: Vec<usize> = items.iter().map(|(d, _)| *d).collect();
    let mut nodes = Vec::new();
    for (i, (depth, kind)) in items.into_iter().enumerate() {
        let parent = (0..i).rev().find(|&j| depths[j] < depth);
        let end = (i + 1..n).find(|&j| depths[j] <= depth).unwrap_or(n);
        let kind = match kind {
            NodeKind::Function(mut f) => {
                f.body = i + 1;
                NodeKind::Function(f)
            }
            other => other,
        };
        nodes.push(SyntaxNode { kind, parent, end });
    }
    SyntaxTree::new(nodes).unwrap()
}

fn contexts(found: &[Finding]) -> Vec<&str> {
    found.iter().map(|f| f.context.as_str()).collect()
}

fn check(text: &str) -> AstPatternType {
    match parse_ast_pattern(text, "r") {
        Ok(c) => c,
        Err(_) => parse_semantic_pattern(text, "r").unwrap(),
    }
}

#[test]
fn ill_formed_trees_are_refused() {
    assert!(SyntaxTree::new(vec![SyntaxNode { kind: NodeKind::Block, parent: None, end: 0 }]).is_none());
    assert!(SyntaxTree::new(vec![SyntaxNode { kind: NodeKind::Block, parent: None, end: 2 }]).is_none());
    assert!(SyntaxTree::new(vec![SyntaxNode { kind: NodeKind::Block, parent: Some(0), end: 1 }]).is_none());
    let t = SyntaxTree::new(vec![
        SyntaxNode { kind: NodeKind::Block, parent: None, end: 2 },
        SyntaxNode { kind: NodeKind::If, parent: Some(0), end: 2 },
    ])
    .unwrap();
    assert_eq!(t.len(), 2);
    assert_eq!(t.node(1).parent, Some(0));
    assert_eq!(t.nodes().len(), 2);
    assert!(SyntaxTree::new(Vec::new()).is_some());
}

#[test]
fn macro_calls_by_name() {
    let t = tree(vec![
        (0, NodeKind::Function(function("f"))),
        (1, NodeKind::Block),
        (2, invocation("todo", MacroPosition::Statement)),
        (2, invocation("println", MacroPosition::Statement)),
        (2, invocation("unimplemented", MacroPosition::Expression)),
    ]);
    let found = structural_findings(&t, &check("macro_call:unimplemented|todo"), &None);
    assert_eq!(contexts(&found), vec!["todo!()", "unimplemented!()"]);
    assert_eq!(found[0].subject, "todo");
}

#[test]
fn trivial_success_body_is_flagged_and_a_body_with_a_statement_before_is_not() {
    let mut empty = function("empty_function");
    empty.return_type = Some("Result".to_string());
    empty.statement_count = 1;
    empty.first_statement = Some(ok_unit());
    let mut proper = function("proper_function");
    proper.return_type = Some("Result".to_string());
    proper.statement_count = 2;
    proper.first_statement = Some(StmtShape::Other);
    let t = tree(vec![
        (0, NodeKind::Function(empty)),
        (1, NodeKind::Block),
        (2, call("Ok")),
        (0, NodeKind::Function(proper)),
        (1, NodeKind::Block),
        (2, invocation("println", MacroPosition::Statement)),
        (2, call("Ok")),
    ]);
    let rule = PatternRule {
        id: "empty_ok_return".to_string(),
        rule_type: RuleType::Ast,
        pattern: "return_ok_unit_with_no_logic".to_string(),
        message: "Function returns Ok(()) with no implementation".to_string(),
        severity: None,
        enabled: true,
        case_sensitive: true,
        exclude_if: None,
    };
    let mut engine = PatternEngine::new();
    engine.add_rule(&rule, Severity::Error).unwrap();
    let matches = engine.analyze_file("src/a.rs", "", Some(&t)).unwrap();
    assert_eq!(matches.len(), 1);
    assert_eq!(matches[0].matched_text, "Ok(())");
    assert_eq!(matches[0].message, "Function returns Ok(()) with no implementation");
    assert_eq!((matches[0].line_number, matches[0].column_number), (Some(1), Some(1)));
    assert_eq!(matches[0].context, Some(String::new()));
    // Structural rules are for Rust files with a tree only.
    assert!(engine.analyze_file("src/a.txt", "", Some(&t)).unwrap().is_empty());
    assert!(engine.analyze_file("src/a.rs", "", None).unwrap().is_empty());
}

#[test]
fn success_bodies_that_do_not_count() {
    let mut not_result = function("a");
    not_result.return_type = Some("Option".to_string());
    not_result.statement_count = 1;
    not_result.first_statement = Some(ok_unit());
    let mut with_value = function("b");
    with_value.return_type = Some("Result".to_string());
    with_value.statement_count = 1;
    with_value.first_statement = Some(StmtShape::Expression(ExprShape::Call {
        callee: Some("Ok".to_string()),
        arg_count: 1,
        first_arg: Some(ArgShape::Other),
    }));
    let t = tree(vec![
        (0, NodeKind::Function(not_result)),
        (1, NodeKind::Block),
        (0, NodeKind::Function(with_value)),
        (1, NodeKind::Block),
    ]);
    assert!(structural_findings(&t, &AstPatternType::EmptyOkReturn, &None).is_empty());
}

#[test]
fn empty_bodies() {
    let mut unit = function("unit");
    unit.statement_count = 1;
    unit.first_statement = Some(StmtShape::Expression(ExprShape::Tuple { elems: 0 }));
    let mut busy = function("busy");
    busy.statement_count = 1;
    busy.first_statement = Some(StmtShape::Other);
    let t = tree(vec![
        (0, NodeKind::Function(function("nothing"))),
        (1, NodeKind::Block),
        (0, NodeKind::Function(unit)),
        (1, NodeKind::Block),
        (0, NodeKind::Function(busy)),
        (1, NodeKind::Block),
    ]);
    let found = structural_findings(&t, &check("empty_function_body"), &None);
    assert_eq!(contexts(&found), vec!["fn nothing { }", "fn unit { () }"]);
}

#[test]
fn unwrap_and_unhelpful_expect() {
    let t = tree(vec![
        (0, method("unwrap", 0, None)),
        (0, method("expect", 0, None)),
        (0, method("expect", 1, Some("oops"))),
        (0, method("expect", 1, Some("an Error"))),
        (0, method("expect", 1, Some("an error occurred while reading"))),
        (0, method("expect", 1, Some("config must be present"))),
        (0, method("expect", 1, None)),
        (0, method("map", 1, None)),
    ]);
    let found = structural_findings(&t, &check("unwrap_or_expect_without_message"), &None);
    assert_eq!(
        contexts(&found),
        vec![".unwrap()", ".expect()", ".expect(\"oops\")", ".expect(\"an Error\")"]
    );
    assert_eq!(found[0].subject, "unwrap");
    assert_eq!(found[3].subject, "expect");
}

#[test]
fn imports_are_matched_as_text() {
    let t = tree(vec![
        (0, NodeKind::Use { text: "use crate :: database :: Pool ;".to_string() }),
        (0, NodeKind::Use { text: "use use std :: fs ;".to_string() }),
    ]);
    let found = structural_findings(&t, &check("direct_database_access"), &None);
    assert_eq!(contexts(&found), vec!["use crate :: database :: Pool ;;"]);
    let any = structural_findings(&t, &check("import:std"), &None);
    assert_eq!(contexts(&any), vec!["use std :: fs ;;"]);
}

#[test]
fn complexity_counts_branches_of_the_body() {
    let t = tree(vec![
        (0, NodeKind::Function(function("simple"))),
        (1, NodeKind::Block),
        (0, NodeKind::Function(function("branchy"))),
        (1, NodeKind::Block),
        (2, NodeKind::If),
        (3, NodeKind::Block),
        (4, NodeKind::Match { arms: 3 }),
        (2, NodeKind::While),
        (2, NodeKind::ForLoop),
        (2, NodeKind::Loop),
        (2, NodeKind::MethodCall(MethodCallInfo {
            method: "len".to_string(),
            arg_count: 0,
            receiver_is_try: true,
            first_arg_literal: None,
        })),
    ]);
    let found = structural_findings(&t, &check("cyclomatic_complexity_gt:1"), &None);
    assert_eq!(contexts(&found), vec!["fn branchy (complexity: 9)"]);
    assert_eq!(found[0].value, 9);
    assert!(structural_findings(&t, &check("cyclomatic_complexity_gt:9"), &None).is_empty());
    let all = structural_findings(&t, &check("cyclomatic_complexity_gt:0"), &None);
    assert_eq!(contexts(&all), vec!["fn simple (complexity: 1)", "fn branchy (complexity: 9)"]);
}

#[test]
fn complexity_message_carries_the_value() {
    let t = tree(vec![(0, NodeKind::Function(function("f"))), (1, NodeKind::Block), (2, NodeKind::If)]);
    let rule = PatternRule {
        id: "cx".to_string(),
        rule_type: RuleType::Semantic,
        pattern: "cyclomatic_complexity_gt:1".to_string(),
        message: "complexity {value} is too high".to_string(),
        severity: None,
        enabled: true,
        case_sensitive: true,
        exclude_if: None,
    };
    let mut engine = PatternEngine::new();
    engine.add_rule(&rule, Severity::Warning).unwrap();
    let matches = engine.analyze_file("a.rs", "", Some(&t)).unwrap();
    assert_eq!(matches.len(), 1);
    assert_eq!(matches[0].message, "complexity 2 is too high");
    assert_eq!(matches[0].matched_text, "fn f");
    assert_eq!(matches[0].context, Some("fn f (complexity: 2)".to_string()));
}

fn item(name: &str, is_public: bool, attributes: Vec<&str>) -> ItemInfo {
    ItemInfo {
        name: name.to_string(),
        is_public,
        attributes: attributes.into_iter().map(|a| a.to_string()).collect(),
        type_params: Vec::new(),
    }
}

#[test]
fn public_items_without_docs() {
    let mut documented = function("documented");
    documented.is_public = true;
    documented.attributes = vec!["doc".to_string()];
    let mut bare = function("bare");
    bare.is_public = true;
    let t = tree(vec![
        (0, NodeKind::Function(documented)),
        (1, NodeKind::Block),
        (0, NodeKind::Function(bare)),
        (1, NodeKind::Block),
        (0, NodeKind::Function(function("private"))),
        (1, NodeKind::Block),
        (0, NodeKind::Struct(item("S", true, vec![]))),
        (0, NodeKind::Enum(item("E", true, vec!["derive"]))),
        (0, NodeKind::Trait(item("T", true, vec!["doc"]))),
        (0, NodeKind::Trait(item("U", true, vec![]))),
    ]);
    let found = structural_findings(&t, &check("public_without_docs"), &None);
    assert_eq!(contexts(&found), vec!["pub fn bare", "pub struct S", "pub enum E", "pub trait U"]);
    assert_eq!(found[1].subject, "struct S");
}

#[test]
fn long_functions_count_code_lines() {
    let mut long = function("long");
    long.body_text = "{\n  a();\n\n  // note\n  b();\n}".to_string();
    let t = tree(vec![(0, NodeKind::Function(long)), (1, NodeKind::Block)]);
    let found = structural_findings(&t, &check("function_lines_gt:3"), &None);
    assert_eq!(contexts(&found), vec!["fn long (4 lines)"]);
    assert!(structural_findings(&t, &check("function_lines_gt:4"), &None).is_empty());
}

#[test]
fn nesting_depth_counts_blocks_ifs_and_matches() {
    let t = tree(vec![
        (0, NodeKind::Function(function("f"))),
        (1, NodeKind::Block),
        (2, NodeKind::If),
        (3, NodeKind::Block),
        (4, NodeKind::While),
        (5, NodeKind::Match { arms: 1 }),
        (2, NodeKind::Block),
    ]);
    let found = structural_findings(&t, &check("nesting_depth_gt:2"), &None);
    assert_eq!(contexts(&found), vec!["nested block at depth 3", "match statement at depth 4"]);
    let ifs = structural_findings(&t, &check("nesting_depth_gt:1"), &None);
    assert_eq!(ifs[0].context, "if statement at depth 2");
    assert_eq!(ifs.len(), 4);
}

#[test]
fn functions_with_many_arguments() {
    let mut many = function("many");
    many.arg_count = 6;
    let mut few = function("few");
    few.arg_count = 5;
    let t = tree(vec![
        (0, NodeKind::Function(many)),
        (1, NodeKind::Block),
        (0, NodeKind::Function(few)),
        (1, NodeKind::Block),
    ]);
    let found = structural_findings(&t, &check("function_args_gt:5"), &None);
    assert_eq!(contexts(&found), vec!["fn many (6 args)"]);
}

#[test]
fn blocking_calls_count_inside_async_functions_only() {
    let mut a = function("a");
    a.is_async = true;
    let t = tree(vec![
        (0, NodeKind::Function(a)),
        (1, NodeKind::Block),
        (2, method("read_to_string", 1, None)),
        (2, call("sleep")),
        (2, method("len", 0, None)),
        (2, NodeKind::Function(function("inner"))),
        (3, NodeKind::Block),
        (4, method("lock", 0, None)),
        (0, NodeKind::Function(function("sync"))),
        (1, NodeKind::Block),
        (2, method("write_all", 1, None)),
        (0, method("flush", 0, None)),
    ]);
    let found = structural_findings(&t, &check("blocking_call_in_async"), &None);
    assert_eq!(contexts(&found), vec![".read_to_string()", "sleep()"]);
}

#[test]
fn calls_that_return_futures() {
    let t = tree(vec![
        (0, call("fetch_async")),
        (0, call("spawn")),
        (0, call("compute")),
        (0, call("timeout")),
        (0, NodeKind::Call { callee: None }),
    ]);
    let found = structural_findings(&t, &check("future_not_awaited"), &None);
    assert_eq!(contexts(&found), vec!["fetch_async() not awaited", "spawn() not awaited", "timeout() not awaited"]);
    assert_eq!(found[0].subject, "fetch_async()");
}

#[test]
fn select_without_biased() {
    let select = |text: &str| {
        NodeKind::Macro(MacroInfo {
            name: Some("select".to_string()),
            position: MacroPosition::Expression,
            tokens_empty: false,
            text: text.to_string(),
        })
    };
    let t = tree(vec![
        (0, select("select! { a = x => {} }")),
        (0, select("select! { biased; a = x => {} }")),
        (0, select("select ! { a = x => {} }")),
    ]);
    let found = structural_findings(&t, &check("select_without_biased"), &None);
    assert_eq!(contexts(&found), vec!["tokio::select! without biased"]);
}

#[test]
fn generics_without_bounds() {
    let mut f = function("f");
    f.type_params = vec![
        TypeParam { name: "T".to_string(), bounds: 0 },
        TypeParam { name: "U".to_string(), bounds: 2 },
        TypeParam { name: "V".to_string(), bounds: 0 },
    ];
    let mut s = item("Holder", false, vec![]);
    s.type_params = vec![TypeParam { name: "X".to_string(), bounds: 0 }];
    let t = tree(vec![(0, NodeKind::Function(f)), (1, NodeKind::Block), (0, NodeKind::Struct(s))]);
    let found = structural_findings(&t, &check("generic_without_bounds"), &None);
    assert_eq!(contexts(&found), vec!["<T>", "<V>", "struct Holder<X>"]);
    assert_eq!(found[2].subject, "X");
}

#[test]
fn test_functions_without_assertions() {
    let test_fn = |name: &str| {
        let mut f = function(name);
        f.attributes = vec!["test".to_string()];
        f
    };
    let t = tree(vec![
        (0, NodeKind::Function(test_fn("asserts"))),
        (1, NodeKind::Block),
        (2, invocation("assert_eq", MacroPosition::Expression)),
        (0, NodeKind::Function(test_fn("statement_only"))),
        (1, NodeKind::Block),
        (2, invocation("assert", MacroPosition::Statement)),
        (0, NodeKind::Function(test_fn("panics"))),
        (1, NodeKind::Block),
        (2, call("panic")),
        (0, NodeKind::Function(test_fn("nothing"))),
        (1, NodeKind::Block),
        (0, NodeKind::Function(function("not_a_test"))),
        (1, NodeKind::Block),
    ]);
    let found = structural_findings(&t, &check("test_fn_without_assertion"), &None);
    assert_eq!(contexts(&found), vec!["#[test] fn statement_only", "#[test] fn nothing"]);
}

#[test]
fn inherent_impls_unsafe_code_and_ignored_tests() {
    let mut danger = function("danger");
    danger.is_unsafe = true;
    let mut ignored = function("slow");
    ignored.attributes = vec!["test".to_string(), "ignore".to_string()];
    let t = tree(vec![
        (0, NodeKind::Impl(ImplInfo { has_trait: false, self_type: Some("Engine".to_string()) })),
        (0, NodeKind::Impl(ImplInfo { has_trait: true, self_type: Some("Engine".to_string()) })),
        (0, NodeKind::Impl(ImplInfo { has_trait: false, self_type: None })),
        (0, NodeKind::Function(danger)),
        (1, NodeKind::Block),
        (2, NodeKind::Unsafe),
        (0, NodeKind::Function(ignored)),
        (1, NodeKind::Block),
    ]);
    let impls = structural_findings(&t, &check("impl_without_trait"), &None);
    assert_eq!(contexts(&impls), vec!["impl Engine", "impl Unknown"]);
    let unsafe_code = structural_findings(&t, &check("unsafe_block"), &None);
    assert_eq!(contexts(&unsafe_code), vec!["unsafe fn danger", "unsafe block"]);
    let ignored_tests = structural_findings(&t, &check("ignored_test_attribute"), &None);
    assert_eq!(contexts(&ignored_tests), vec!["#[ignore] #[test] fn slow"]);
}

#[test]
fn attribute_marker_leaves_out_marked_code() {
    let mut test_fn = function("checks");
    test_fn.attributes = vec!["test".to_string()];
    let t = tree(vec![
        (0, NodeKind::Function(function("work"))),
        (1, NodeKind::Block),
        (2, invocation("todo", MacroPosition::Statement)),
        (0, NodeKind::Function(test_fn)),
        (1, NodeKind::Block),
        (2, NodeKind::If),
        (3, invocation("todo", MacroPosition::Statement)),
    ]);
    let names = check("macro_call:todo");
    assert_eq!(structural_findings(&t, &names, &None).len(), 2);
    assert_eq!(structural_findings(&t, &names, &Some("#[test]".to_string())).len(), 1);
    assert_eq!(structural_findings(&t, &names, &Some("test".to_string())).len(), 1);
    assert_eq!(structural_findings(&t, &names, &Some("#[ignore]".to_string())).len(), 2);
    let rule = PatternRule {
        id: "m".to_string(),
        rule_type: RuleType::Ast,
        pattern: "macro_call:todo".to_string(),
        message: "Unfinished macro {macro_name}! found".to_string(),
        severity: None,
        enabled: true,
        case_sensitive: true,
        exclude_if: Some(ExcludeConditions {
            attribute: Some("#[test]".to_string()),
            in_tests: true,
            file_patterns: None,
        }),
    };
    let mut engine = PatternEngine::new();
    engine.add_rule(&rule, Severity::Error).unwrap();
    let matches = engine.analyze_file("src/a.rs", "", Some(&t)).unwrap();
    assert_eq!(matches.len(), 1);
    assert_eq!(matches[0].message, "Unfinished macro todo! found");
    assert_eq!(matches[0].matched_text, "todo!()");
    assert!(engine.analyze_file("tests/a.rs", "", Some(&t)).unwrap().is_empty());
}

#[test]
fn missing_header_looks_at_the_text() {
    let rule = PatternRule {
        id: "header".to_string(),
        rule_type: RuleType::Ast,
        pattern: "Architectural Principle:".to_string(),
        message: "File missing architectural principle header".to_string(),
        severity: None,
        enabled: true,
        case_sensitive: true,
        exclude_if: None,
    };
    let mut engine = PatternEngine::new();
    engine.add_rule(&rule, Severity::Info).unwrap();
    let t = tree(Vec::new());
    let missing = engine.analyze_file("a.rs", "fn main() {}", Some(&t)).unwrap();
    assert_eq!(missing.len(), 1);
    assert_eq!(missing[0].matched_text, "");
    assert_eq!(missing[0].context, None);
    assert_eq!(missing[0].message, "File missing architectural principle header");
    let present = engine.analyze_file("a.rs", "//! Architectural Principle: x\n", Some(&t)).unwrap();
    assert!(present.is_empty());
}

#[test]
fn the_header_rule_heeds_its_exclusion_conditions() {
    let rule = PatternRule {
        id: "header".to_string(),
        rule_type: RuleType::Ast,
        pattern: "Architectural Principle:".to_string(),
        message: "File missing architectural principle header".to_string(),
        severity: None,
        enabled: true,
        case_sensitive: true,
        exclude_if: Some(ExcludeConditions {
            attribute: None,
            in_tests: true,
            file_patterns: Some(vec!["**/examples/**".to_string()]),
        }),
    };
    let mut engine = PatternEngine::new();
    engine.add_rule(&rule, Severity::Info).unwrap();
    let t = tree(Vec::new());
    assert_eq!(engine.analyze_file("src/a.rs", "fn main() {}", Some(&t)).unwrap().len(), 1);
    assert!(engine.analyze_file("tests/a.rs", "fn main() {}", Some(&t)).unwrap().is_empty());
    assert!(engine.analyze_file("x/examples/a.rs", "fn main() {}", Some(&t)).unwrap().is_empty());
    assert!(engine.analyze_file("src/my_test.rs", "fn main() {}", Some(&t)).unwrap().is_empty());
}
