use rust_guardian::analyzer::rust::{get_location_from_span, FileAnalyzer, RustAnalyzer};
use rust_guardian::syntax::{
    ArgShape, ExprShape, FunctionInfo, MacroInfo, MacroPosition, NodeKind, StmtShape, SyntaxNode,
    SyntaxTree,
};
use rust_guardian::Severity;

fn function(name: &str, attributes: Vec<&str>, body: usize) -> FunctionInfo {
    FunctionInfo {
        name: name.to_string(),
        is_public: false,
        attributes: attributes.into_iter().map(|a| a.to_string()).collect(),
        is_async: false,
        is_unsafe: false,
        arg_count: 0,
        type_params: Vec::new(),
        return_type: None,
        body,
        body_text: String::new(),
        statement_count: 1,
        first_statement: Some(StmtShape::Other),
    }
}

fn invocation(name: &str, tokens_empty: bool) -> NodeKind {
    NodeKind::Macro(MacroInfo {
        name: Some(name.to_string()),
        position: MacroPosition::Statement,
        tokens_empty,
        text: format!("{} ! ()", name),
    })
}

fn node(kind: NodeKind, parent: Option<usize>, end: usize) -> SyntaxNode {
    SyntaxNode { kind, parent, end }
}

/// Two functions, each with one macro in its body.
fn two_functions(first: FunctionInfo, first_macro: NodeKind, second: FunctionInfo, second_macro: NodeKind) -> SyntaxTree {
    SyntaxTree::new(vec![
        node(NodeKind::Function(first), None, 3),
        node(NodeKind::Block, Some(0), 3),
        node(first_macro, Some(1), 3),
        node(NodeKind::Function(second), None, 6),
        node(NodeKind::Block, Some(3), 6),
        node(second_macro, Some(4), 6),
    ])
    .unwrap()
}

#[test]
fn test_rust_analyzer_handles_rust_files() {
    let analyzer = RustAnalyzer::new();

    assert!(analyzer.handles_file("src/lib.rs"));
    assert!(analyzer.handles_file("main.rs"));
    assert!(!analyzer.handles_file("README.md"));
    assert!(!analyzer.handles_file("config.toml"));
}

#[test]
fn test_find_unimplemented_macros() {
    let analyzer = RustAnalyzer::new();
    let content = r#"
fn test() {
    unimplemented!()
}

fn other() {
    todo!("implement this")
}
"#;
    let tree = two_functions(
        function("test", vec![], 1),
        invocation("unimplemented", true),
        function("other", vec![], 4),
        invocation("todo", false),
    );

    let violations = analyzer.analyze("test.rs", content, Some(&tree)).unwrap();

    // Should find both macros
    assert_eq!(violations.len(), 2);
    assert!(violations.iter().any(|v| v.rule_id.contains("unimplemented")));
    assert!(violations.iter().any(|v| v.rule_id.contains("todo")));
}

#[test]
fn test_find_empty_ok_returns() {
    let analyzer = RustAnalyzer::new();
    let content = r#"
fn empty_function() -> Result<(), Box<dyn std::error::Error>> {
    Ok(())
}

fn proper_function() -> Result<(), Box<dyn std::error::Error>> {
    println!("doing work");
    Ok(())
}
"#;
    let mut empty = function("empty_function", vec![], 1);
    empty.return_type = Some("Result".to_string());
    empty.first_statement = Some(StmtShape::Expression(ExprShape::Call {
        callee: Some("Ok".to_string()),
        arg_count: 1,
        first_arg: Some(ArgShape::Tuple { elems: 0 }),
    }));
    let mut proper = function("proper_function", vec![], 4);
    proper.return_type = Some("Result".to_string());
    proper.statement_count = 2;
    let tree = two_functions(
        empty,
        NodeKind::Call { callee: Some("Ok".to_string()) },
        proper,
        invocation("println", false),
    );

    let violations = analyzer.analyze("test.rs", content, Some(&tree)).unwrap();

    // Should find the empty function but not the proper one
    let empty_violations: Vec<_> =
        violations.iter().filter(|v| v.rule_id == "empty_ok_return").collect();

    assert_eq!(empty_violations.len(), 1);
    assert!(empty_violations[0].message.contains("empty_function"));
}

#[test]
fn test_skip_test_files() {
    let analyzer = RustAnalyzer::new(); // analyze_tests = false
    let content = r#"
fn regular_function() {
    unimplemented!() // This should be caught
}

#[test]
fn test_something() {
    unimplemented!() // This should be ignored
}
"#;
    let tree = two_functions(
        function("regular_function", vec![], 1),
        invocation("unimplemented", true),
        function("test_something", vec!["test"], 4),
        invocation("unimplemented", true),
    );

    let violations = analyzer.analyze("test.rs", content, Some(&tree)).unwrap();

    // Should find the macro in regular function but not in test
    let macro_violations: Vec<_> =
        violations.iter().filter(|v| v.rule_id.contains("unimplemented")).collect();

    assert_eq!(macro_violations.len(), 1);
}

#[test]
fn test_cdd_compliance_check() {
    let analyzer = RustAnalyzer::new();
    let tree = SyntaxTree::new(vec![
        node(NodeKind::Function(function("main", vec![], 1)), None, 2),
        node(NodeKind::Block, Some(0), 2),
    ])
    .unwrap();

    // File without CDD header
    let content_without_header = "fn main() {}";
    let violations = analyzer.analyze("src/main.rs", content_without_header, Some(&tree)).unwrap();
    assert!(violations.iter().any(|v| v.rule_id == "cdd_header_missing"));

    // File with CDD header
    let content_with_header = r#"
//! This module does something
//! 
//! CDD Principle: Domain Model - This exemplifies clean domain logic
//! - Specific implementation details
//! - Key design decisions

fn main() {}
"#;
    let violations = analyzer.analyze("src/main.rs", content_with_header, Some(&tree)).unwrap();
    assert!(!violations.iter().any(|v| v.rule_id == "cdd_header_missing"));
}

#[test]
fn test_invalid_rust_syntax() {
    let analyzer = RustAnalyzer::new();
    let invalid_content = "this is not valid rust syntax {{{";

    // Should not panic and return empty violations
    let violations = analyzer.analyze("invalid.rs", invalid_content, None).unwrap();
    assert!(violations.is_empty());
}

#[test]
fn macros_in_tests_are_found_when_tests_are_analyzed() {
    let tree = two_functions(
        function("regular_function", vec![], 1),
        invocation("panic", false),
        function("test_something", vec!["tokio :: test"], 4),
        invocation("todo", true),
    );
    let content = "#[test]";
    let with_tests = RustAnalyzer::with_tests().analyze("test.rs", content, Some(&tree)).unwrap();
    assert_eq!(with_tests.len(), 2);
    assert_eq!(with_tests[0].rule_id, "panic_macro");
    assert_eq!(with_tests[0].severity, Severity::Warning);
    assert_eq!(with_tests[0].message, "Panic macro found: panic");
    assert_eq!(with_tests[0].file_path, "");
    assert_eq!(with_tests[0].context, Some(String::new()));
    assert_eq!(with_tests[1].rule_id, "todo_macro");
    assert_eq!(with_tests[1].severity, Severity::Error);
    assert_eq!(with_tests[1].message, "TODO macro found - incomplete implementation");
    let without = RustAnalyzer::new().analyze("test.rs", content, Some(&tree)).unwrap();
    assert_eq!(without.len(), 1);
    assert_eq!(without[0].rule_id, "panic_macro");
    // Without signs of tests in the text, nothing is skipped.
    let plain = RustAnalyzer::new().analyze("test.rs", "", Some(&tree)).unwrap();
    assert_eq!(plain.len(), 2);
}

#[test]
fn header_check_details() {
    let analyzer = RustAnalyzer::new();
    let found = analyzer.check_cdd_compliance("fn main() {}", "src/main.rs");
    assert_eq!(found.len(), 1);
    assert_eq!(found[0].severity, Severity::Info);
    assert_eq!(found[0].message, "File missing CDD principle header comment");
    assert_eq!((found[0].line_number, found[0].column_number), (Some(1), Some(1)));
    assert_eq!(
        found[0].suggested_fix,
        Some("Add a header comment explaining which CDD principle this file exemplifies".to_string())
    );
    assert!(analyzer.check_cdd_compliance("", "a/tests/x.rs").is_empty());
    assert!(analyzer.check_cdd_compliance("", "a/examples/x.rs").is_empty());
    assert!(analyzer.check_cdd_compliance("", "a/benches/x.rs").is_empty());
    assert!(analyzer.check_cdd_compliance("", "src/my_test.rs").is_empty());
    let off = RustAnalyzer { analyze_tests: false, check_cdd_compliance: false };
    assert!(off.check_cdd_compliance("", "src/main.rs").is_empty());
    assert!(analyzer.is_excluded_from_cdd_check("x/test/y.rs"));
    assert!(!analyzer.is_excluded_from_cdd_check("src/lib.rs"));
    assert!(analyzer.is_test_file_content("mod tests {}"));
    assert!(analyzer.is_test_file_content("#[cfg(test)]"));
    assert!(!analyzer.is_test_file_content("fn main() {}"));
}

#[test]
fn substrate_imports() {
    let tree = SyntaxTree::new(vec![
        node(NodeKind::Use { text: "use substrate :: core ;".to_string() }, None, 1),
        node(NodeKind::Use { text: "use std :: fs ;".to_string() }, None, 2),
    ])
    .unwrap();
    let analyzer = RustAnalyzer::new();
    let found = analyzer.find_architectural_violations(&tree, "src/a.rs");
    assert_eq!(found.len(), 1);
    assert_eq!(found[0].rule_id, "direct_substrate_access");
    assert_eq!(found[0].severity, Severity::Warning);
    assert_eq!(found[0].file_path, "src/a.rs");
    assert!(analyzer.find_architectural_violations(&tree, "examples/a.rs").is_empty());
    assert!(analyzer.find_architectural_violations(&tree, "tests/a.rs").is_empty());
}

#[test]
fn trivial_returns_of_options_and_vectors() {
    let returning = |name: &str, ty: &str, first: ExprShape, at: usize| {
        let mut f = function(name, vec![], at);
        f.return_type = Some(ty.to_string());
        f.first_statement = Some(StmtShape::Expression(first));
        f
    };
    let call = |callee: &str, arg_count: usize, first_arg: Option<ArgShape>| ExprShape::Call {
        callee: Some(callee.to_string()),
        arg_count,
        first_arg,
    };
    let tree = SyntaxTree::new(vec![
        node(NodeKind::Function(returning("a", "Option", call("Some", 1, Some(ArgShape::Tuple { elems: 0 })), 1)), None, 2),
        node(NodeKind::Block, Some(0), 2),
        node(NodeKind::Function(returning("b", "Result", call("Ok", 0, None), 3)), None, 4),
        node(NodeKind::Block, Some(2), 4),
        node(
            NodeKind::Function(returning(
                "c",
                "Result",
                call("Ok", 1, Some(ArgShape::Macro { name: Some("vec".to_string()), tokens_empty: true })),
                5,
            )),
            None,
            6,
        ),
        node(NodeKind::Block, Some(4), 6),
        node(NodeKind::Function(returning("d", "Result", call("Ok", 1, Some(ArgShape::Tuple { elems: 2 })), 7)), None, 8),
        node(NodeKind::Block, Some(6), 8),
        node(NodeKind::Function(returning("e", "Vec", call("Ok", 0, None), 9)), None, 10),
        node(NodeKind::Block, Some(8), 10),
    ])
    .unwrap();
    let found = RustAnalyzer::new().find_empty_ok_returns(&tree, "", "src/a.rs");
    let messages: Vec<&str> = found.iter().map(|v| v.message.as_str()).collect();
    assert_eq!(
        messages,
        vec![
            "Function 'a' returns Ok(()) with no meaningful implementation",
            "Function 'b' returns Ok(()) with no meaningful implementation",
            "Function 'c' returns Ok(()) with no meaningful implementation",
        ]
    );
    assert_eq!(found[0].suggested_fix, Some("Implement the function logic or remove if not needed".to_string()));
}

#[test]
fn locations_from_lines() {
    assert_eq!(get_location_from_span("a\n  b  \nc", 2, 5), (2, 5, "b".to_string()));
    assert_eq!(get_location_from_span("a\nb", 0, 1), (0, 1, String::new()));
    assert_eq!(get_location_from_span("a\nb", 3, 1), (3, 1, String::new()));
}

#[test]
fn the_trait_agrees_with_the_analyzer() {
    let analyzer = RustAnalyzer::new();
    let as_trait: &dyn FileAnalyzer = &analyzer;
    assert!(as_trait.handles_file("a.rs"));
    assert!(as_trait.analyze("a.rs", "x", None).unwrap().is_empty());
    assert_eq!(RustAnalyzer::default(), RustAnalyzer { analyze_tests: false, check_cdd_compliance: false });
}
