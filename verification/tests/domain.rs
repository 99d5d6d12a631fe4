use rust_guardian::bindings::Timestamp;
use rust_guardian::domain::violations::ViolationCounts;
use rust_guardian::{GuardianError, Severity, ValidationReport, Violation};

#[test]
fn test_violation_creation() {
    let violation = Violation::new("test_rule", Severity::Error, "src/lib.rs", "Test message");

    assert_eq!(violation.rule_id, "test_rule");
    assert_eq!(violation.severity, Severity::Error);
    assert_eq!(violation.file_path, "src/lib.rs");
    assert_eq!(violation.message, "Test message");
    assert!(violation.is_blocking());
}

#[test]
fn test_violation_with_position() {
    let violation = Violation::new("test_rule", Severity::Warning, "src/lib.rs", "Test message")
        .with_position(42, 15)
        .with_context("let x = unimplemented!();");

    assert_eq!(violation.line_number, Some(42));
    assert_eq!(violation.column_number, Some(15));
    assert_eq!(violation.context, Some("let x = unimplemented!();".to_string()));
    assert!(!violation.is_blocking());
}

#[test]
fn test_validation_report() {
    let mut report = ValidationReport::new();

    report.add_violation(Violation::new("rule1", Severity::Error, "src/main.rs", "Error message"));
    report.add_violation(Violation::new(
        "rule2",
        Severity::Warning,
        "src/lib.rs",
        "Warning message",
    ));

    assert!(report.has_violations());
    assert!(report.has_errors());
    assert_eq!(report.summary.violations_by_severity.total(), 2);
    assert_eq!(report.summary.violations_by_severity.error, 1);
    assert_eq!(report.summary.violations_by_severity.warning, 1);
}

#[test]
fn test_severity_ordering() {
    assert!(Severity::Error > Severity::Warning);
    assert!(Severity::Warning > Severity::Info);
    assert!(Severity::Error.is_blocking());
    assert!(!Severity::Warning.is_blocking());
}

#[test]
fn severity_names_and_ranks() {
    assert_eq!(Severity::Info.as_str(), "info");
    assert_eq!(Severity::Warning.as_str(), "warning");
    assert_eq!(Severity::Error.as_str(), "error");
    assert_eq!(Severity::Info.rank(), 0);
    assert_eq!(Severity::Error.rank(), 2);
    assert!(Severity::Warning.at_least(Severity::Info));
    assert!(Severity::Warning.at_least(Severity::Warning));
    assert!(!Severity::Warning.at_least(Severity::Error));
    assert!(!Severity::Info.is_blocking());
}

#[test]
fn violation_display_with_and_without_position() {
    let at = Timestamp { secs: 1, nanos: 2 };
    let bare = Violation::at("r", Severity::Info, "a/b.rs", "msg", at);
    assert_eq!(bare.format_display(), "a/b.rs [info] msg");
    assert_eq!(bare.detected_at, at);
    let placed = Violation::at("r", Severity::Error, "a/b.rs", "msg", at).with_position(42, 15);
    assert_eq!(placed.format_display(), "a/b.rs:42:15 [error] msg");
    let mut line_only = Violation::at("r", Severity::Warning, "x.rs", "m", at);
    line_only.line_number = Some(7);
    assert_eq!(line_only.format_display(), "x.rs:7 [warning] m");
}

#[test]
fn violation_suggestion_and_copy() {
    let v = Violation::new("r", Severity::Info, "p", "m").with_suggestion("do this");
    assert_eq!(v.suggested_fix, Some("do this".to_string()));
    let copy = v.duplicate();
    assert_eq!(copy.rule_id, "r");
    assert_eq!(copy.suggested_fix, Some("do this".to_string()));
    assert_eq!(copy.detected_at, v.detected_at);
}

#[test]
fn counts_add_each_severity() {
    let mut c = ViolationCounts::zero();
    assert_eq!(c.total(), 0);
    assert!(!c.has_blocking());
    c.add(Severity::Info);
    c.add(Severity::Warning);
    c.add(Severity::Warning);
    assert!(!c.has_blocking());
    c.add(Severity::Error);
    assert_eq!((c.error, c.warning, c.info), (1, 2, 1));
    assert_eq!(c.total(), 4);
    assert!(c.has_blocking());
    // A count at its largest value does not keep the others from growing.
    let mut full = ViolationCounts { error: usize::MAX, warning: 0, info: 0 };
    full.add(Severity::Warning);
    full.add(Severity::Info);
    assert_eq!((full.error, full.warning, full.info), (usize::MAX, 1, 1));
    assert!(full.has_blocking());
}

#[test]
fn report_merge_and_selection() {
    let mut a = ValidationReport::new();
    assert!(!a.has_violations());
    assert!(!a.has_errors());
    a.add_violation(Violation::new("one", Severity::Info, "a.rs", "m"));
    a.set_files_analyzed(2);
    let mut b = ValidationReport::new();
    b.add_violation(Violation::new("two", Severity::Error, "b.rs", "m"));
    b.add_violation(Violation::new("three", Severity::Info, "c.rs", "m"));
    b.set_files_analyzed(3);
    a.merge(b);
    assert_eq!(a.summary.total_files, 5);
    let ids: Vec<&str> = a.violations.iter().map(|v| v.rule_id.as_str()).collect();
    assert_eq!(ids, vec!["one", "two", "three"]);
    assert_eq!(a.summary.violations_by_severity.info, 2);
    assert_eq!(a.summary.violations_by_severity.error, 1);
    let infos = a.violations_by_severity(Severity::Info);
    let info_ids: Vec<&str> = infos.iter().map(|v| v.rule_id.as_str()).collect();
    assert_eq!(info_ids, vec!["one", "three"]);
    assert!(a.violations_by_severity(Severity::Warning).is_empty());
    a.set_execution_time(1200);
    a.set_config_fingerprint("abc");
    assert_eq!(a.summary.execution_time_ms, 1200);
    assert_eq!(a.config_fingerprint, Some("abc".to_string()));
}

#[test]
fn error_variants_and_texts() {
    assert_eq!(GuardianError::config("c").to_text(), "Configuration error: c");
    assert_eq!(GuardianError::pattern("p").to_text(), "Pattern error: p");
    assert_eq!(GuardianError::analysis("f.rs", "a").to_text(), "Analysis error in f.rs: a");
    assert_eq!(GuardianError::cache("x").to_text(), "Cache error: x");
    assert_eq!(GuardianError::validation("v").to_text(), "Validation error: v");
    let io = GuardianError::Io { message: "gone".to_string() };
    assert_eq!(io.to_text(), "IO error: gone");
    assert!(matches!(GuardianError::config("c"), GuardianError::Configuration { .. }));
    assert!(matches!(GuardianError::analysis("f", "m"), GuardianError::Analysis { .. }));
}

#[test]
fn violations_are_shown_by_path_then_line_then_severity() {
    let v = |id: &str, severity: Severity, path: &str, line: Option<u32>| {
        let mut v = Violation::new(id, severity, path, "m");
        v.line_number = line;
        v
    };
    let mut report = ValidationReport::new();
    for violation in [
        v("a", Severity::Error, "src/b.rs", Some(10)),
        v("b", Severity::Info, "src/b.rs", Some(9)),
        v("c", Severity::Warning, "src/a.rs", None),
        v("d", Severity::Error, "src/b.rs", Some(9)),
        v("e", Severity::Info, "a-b/x.rs", Some(1)),
        v("f", Severity::Info, "a/x.rs", Some(1)),
        v("g", Severity::Warning, "src/b.rs", Some(9)),
        v("h", Severity::Info, "./src//a.rs", Some(2)),
        v("i", Severity::Info, "a", Some(5)),
        v("j", Severity::Info, "src/b.rs", Some(100)),
        v("k", Severity::Info, "src/b.rs", Some(9)),
        v("l", Severity::Info, "/abs/z.rs", Some(1)),
    ] {
        report.add_violation(violation);
    }
    report.set_files_analyzed(4);
    report.sort_violations();
    let ids: Vec<&str> = report.violations.iter().map(|v| v.rule_id.as_str()).collect();
    assert_eq!(ids, vec!["l", "h", "i", "f", "e", "c", "b", "k", "g", "d", "a", "j"]);
    assert_eq!(report.summary.total_files, 4);
    assert_eq!(report.summary.violations_by_severity.total(), 12);
    assert_eq!(report.summary.violations_by_severity.error, 2);
    let mut empty = ValidationReport::new();
    empty.sort_violations();
    assert!(empty.violations.is_empty());
}

#[test]
fn paths_are_ordered_part_by_part() {
    let ordered = |paths: &[&str]| {
        let mut report = ValidationReport::new();
        for path in paths {
            report.add_violation(Violation::new(path, Severity::Info, path, "m"));
        }
        report.sort_violations();
        report.violations.iter().map(|v| v.rule_id.clone()).collect::<Vec<String>>()
    };
    // A leading `.` comes before every name.
    assert_eq!(ordered(&["./z", "a"]), vec!["./z", "a"]);
    assert_eq!(ordered(&["a", "./z"]), vec!["./z", "a"]);
    // `..` comes before every name, also before one that begins below `.`.
    assert_eq!(ordered(&["-x", "../x"]), vec!["../x", "-x"]);
    assert_eq!(ordered(&["a/-x", "a/../x"]), vec!["a/../x", "a/-x"]);
    // The root comes first, then `.`, then `..`, then names.
    assert_eq!(
        ordered(&["b", "../b", "./b", "/b", "a", "", "."]),
        vec!["", "/b", ".", "./b", "../b", "a", "b"]
    );
    // A path comes before the paths below it, and names go by their characters.
    assert_eq!(ordered(&["a/b", "a-b", "a", "a.b"]), vec!["a", "a/b", "a-b", "a.b"]);
    // Paths that are written differently and mean the same keep their order.
    assert_eq!(ordered(&["src//a.rs", "src/a.rs", "src/./a.rs"]), vec!["src//a.rs", "src/a.rs", "src/./a.rs"]);
    assert_eq!(ordered(&["src/a.rs", "./src/a.rs"]), vec!["./src/a.rs", "src/a.rs"]);
}
