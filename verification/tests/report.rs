use rust_guardian::report::escape_xml;
use rust_guardian::{OutputFormat, ReportFormatter, ReportOptions, Severity, ValidationReport, Violation};

fn create_test_report() -> ValidationReport {
    let mut report = ValidationReport::new();

    report.add_violation(
        Violation::new("test_rule", Severity::Error, "src/main.rs", "Test violation")
            .with_position(42, 15)
            .with_context("let x = todo!();"),
    );

    report.set_files_analyzed(10);
    report.set_execution_time(1200);

    report
}

#[test]
fn test_human_format() {
    let formatter = ReportFormatter::new(ReportOptions { use_colors: false, ..Default::default() });

    let report = create_test_report();
    let output = formatter.format_human(&report, "1.2");

    assert!(output.contains("Code Quality Violations Found"));
    assert!(output.contains("src/main.rs"));
    assert!(output.contains("Test violation"));
    assert!(output.contains("Summary:"));
}

#[test]
fn test_junit_format() {
    let formatter = ReportFormatter::default();
    let report = create_test_report();
    let output = formatter.format_junit(&report);

    assert!(output.contains("<?xml version=\"1.0\""));
    assert!(output.contains("<testsuite"));
    assert!(output.contains("test_rule"));
    assert!(output.contains("<failure"));
}

#[test]
fn test_github_format() {
    let formatter = ReportFormatter::default();
    let report = create_test_report();
    let output = formatter.format_github(&report);

    assert!(output.contains("::error"));
    assert!(output.contains("file=src/main.rs"));
    assert!(output.contains("line=42,col=15"));
    assert!(output.contains("Test violation"));
}

#[test]
fn test_empty_report() {
    let formatter = ReportFormatter::new(ReportOptions { use_colors: false, ..Default::default() });

    let report = ValidationReport::new();
    let output = formatter.format_human(&report, "0.0");

    assert!(output.contains("No code quality violations found"));
}

#[test]
fn format_names() {
    assert_eq!(OutputFormat::from_str("human"), Some(OutputFormat::Human));
    assert_eq!(OutputFormat::from_str("JSON"), Some(OutputFormat::Json));
    assert_eq!(OutputFormat::from_str("JUnit"), Some(OutputFormat::Junit));
    assert_eq!(OutputFormat::from_str("sarif"), Some(OutputFormat::Sarif));
    assert_eq!(OutputFormat::from_str("GitHub"), Some(OutputFormat::GitHub));
    assert_eq!(OutputFormat::from_str("xml"), None);
    assert_eq!(OutputFormat::named("JSON"), None);
    assert_eq!(OutputFormat::named("json"), Some(OutputFormat::Json));
    assert_eq!(OutputFormat::all_formats(), vec!["human", "json", "junit", "sarif", "github"]);
}

#[test]
fn xml_is_escaped() {
    assert_eq!(escape_xml("a < b && c > \"d\" 'e'"), "a &lt; b &amp;&amp; c &gt; &quot;d&quot; &#39;e&#39;");
    assert_eq!(escape_xml("plain"), "plain");
    assert_eq!(escape_xml("&amp;"), "&amp;amp;");
}

fn mixed() -> ValidationReport {
    let mut report = ValidationReport::new();
    report.add_violation(Violation::new("warning_rule", Severity::Warning, "src/lib.rs", "Warning message"));
    report.add_violation(Violation::new("error_rule", Severity::Error, "src/main.rs", "Error <message>"));
    report.add_violation(Violation::new("info_rule", Severity::Info, "src/lib.rs", "Info message").with_position(3, 4));
    report.add_violation(Violation::new("late_error", Severity::Error, "src/a.rs", "Later"));
    report
}

#[test]
fn violations_are_filtered_by_severity_and_number() {
    let report = mixed();
    let all = ReportFormatter::default();
    assert_eq!(all.filter_violations(&report.violations), vec![0, 1, 2, 3]);
    let errors = ReportFormatter::new(ReportOptions { min_severity: Some(Severity::Error), ..Default::default() });
    assert_eq!(errors.filter_violations(&report.violations), vec![1, 3]);
    let warnings = ReportFormatter::new(ReportOptions { min_severity: Some(Severity::Warning), ..Default::default() });
    assert_eq!(warnings.filter_violations(&report.violations), vec![0, 1, 3]);
    let two = ReportFormatter::new(ReportOptions {
        min_severity: Some(Severity::Warning),
        max_violations: Some(2),
        ..Default::default()
    });
    assert_eq!(two.filter_violations(&report.violations), vec![0, 1]);
    let none = ReportFormatter::new(ReportOptions { max_violations: Some(0), ..Default::default() });
    assert!(none.filter_violations(&report.violations).is_empty());
}

#[test]
fn github_commands() {
    let errors = ReportFormatter::new(ReportOptions { min_severity: Some(Severity::Info), ..Default::default() });
    assert_eq!(
        errors.format_github(&mixed()),
        "::warning file=src/lib.rs,title=warning_rule::Warning message\n\
         ::error file=src/main.rs,title=error_rule::Error <message>\n\
         ::notice file=src/lib.rs,title=info_rule line=3,col=4::Info message\n\
         ::error file=src/a.rs,title=late_error::Later\n"
    );
    assert_eq!(ReportFormatter::default().format_github(&ValidationReport::new()), "");
}

#[test]
fn junit_suite() {
    let mut report = ValidationReport::new();
    report.add_violation(
        Violation::new("r1", Severity::Error, "src/<a>.rs", "bad & worse").with_position(2, 3).with_context("x < y"),
    );
    report.add_violation(Violation::new("r2", Severity::Warning, "b.rs", "meh"));
    report.add_violation(Violation::new("r3", Severity::Error, "c.rs", "no place"));
    report.set_execution_time(1205);
    assert_eq!(
        ReportFormatter::default().format_junit(&report),
        "<?xml version=\"1.0\" encoding=\"UTF-8\"?>\n\
         <testsuite name=\"rust-guardian\" tests=\"3\" failures=\"2\" errors=\"0\" time=\"1.205\">\n\
         \x20 <testcase classname=\"r1\" name=\"src/&lt;a&gt;.rs\">\n\
         \x20   <failure message=\"bad &amp; worse\">\n\
         \x20     File: src/<a>.rs:2:3\n\
         \x20     Context: x &lt; y\n\
         \x20   </failure>\n\
         \x20 </testcase>\n\
         \x20 <testcase classname=\"r2\" name=\"b.rs\">\n\
         \x20 </testcase>\n\
         \x20 <testcase classname=\"r3\" name=\"c.rs\">\n\
         \x20   <failure message=\"no place\">\n\
         \x20     File: c.rs:0:0\n\
         \x20   </failure>\n\
         \x20 </testcase>\n\
         </testsuite>\n"
    );
    let mut quick = ValidationReport::new();
    quick.set_execution_time(7);
    assert!(ReportFormatter::default().format_junit(&quick).contains("tests=\"0\" failures=\"0\" errors=\"0\" time=\"0.007\""));
}

#[test]
fn report_for_people_groups_by_file() {
    let plain = ReportFormatter::new(ReportOptions { use_colors: false, ..Default::default() });
    let mut report = ValidationReport::new();
    report.add_violation(Violation::new("w", Severity::Warning, "src/b.rs", "second file").with_position(7, 1));
    report.add_violation(
        Violation::new("e", Severity::Error, "src/a.rs", "first file")
            .with_position(1, 2)
            .with_context("ctx")
            .with_suggestion("fix"),
    );
    report.add_violation(Violation::new("i", Severity::Info, "src//b.rs", "same file"));
    report.add_violation(Violation::new("d", Severity::Info, "./src/b.rs", "from here"));
    report.set_files_analyzed(2);
    assert_eq!(
        plain.format_human(&report, "0.1"),
        "❌ Code Quality Violations Found\n\n\
         📁 ./src/b.rs\n\
         \x20 ?:d [info] from here\n\
         \n\
         📁 src/a.rs\n\
         \x20 1:2:e [error] first file\n\
         \x20   │ ctx\n\
         \x20   💡 fix\n\
         \n\
         📁 src/b.rs\n\
         \x20 7:1:w [warning] second file\n\
         \n\
         \x20 ?:i [info] same file\n\
         \n\
         📊 Summary: 1 error, 1 warning, 2 info in 2 files (0.1s)\n"
    );
    let quiet = ReportFormatter::new(ReportOptions {
        use_colors: false,
        show_context: false,
        show_suggestions: false,
        min_severity: Some(Severity::Error),
        ..Default::default()
    });
    assert_eq!(
        quiet.format_human(&report, "0.1"),
        "❌ Code Quality Violations Found\n\n\
         📁 src/a.rs\n\
         \x20 1:2:e [error] first file\n\
         \n\
         📊 Summary: 1 error, 1 warning, 2 info in 2 files (0.1s)\n"
    );
}

#[test]
fn report_for_people_in_colour() {
    let formatter = ReportFormatter::default();
    let mut report = ValidationReport::new();
    report.add_violation(Violation::new("w", Severity::Warning, "a.rs", "m").with_context("c").with_suggestion("s"));
    report.add_violation(Violation::new("x", Severity::Warning, "a.rs", "n"));
    assert_eq!(
        formatter.format_human(&report, "2.0"),
        "⚠️ \x1b[33mCode Quality Violations Found\x1b[0m\n\n\
         📁 a.rs\n\
         \x20 \x1b[2m?:w\x1b[0m [\x1b[33mwarning\x1b[0m] m\n\
         \x20   \x1b[2m│ c\x1b[0m\n\
         \x20   \x1b[32m💡 s\x1b[0m\n\
         \n\
         \x20 \x1b[2m?:x\x1b[0m [\x1b[33mwarning\x1b[0m] n\n\
         \n\
         📊 \x1b[1mSummary:\x1b[0m \x1b[33m2 warnings\x1b[0m in 0 files (2.0s)\n"
    );
    assert_eq!(
        formatter.format_human(&ValidationReport::new(), "0.0"),
        "✅ \x1b[32mNo code quality violations found\x1b[0m\n\
         📊 \x1b[1mSummary:\x1b[0m \x1b[32m0 violations\x1b[0m in 0 files (0.0s)\n"
    );
    let plain = ReportFormatter::new(ReportOptions { use_colors: false, ..Default::default() });
    assert_eq!(plain.format_summary(&ValidationReport::new(), "1.5"), "📊 Summary: 0 violations in 0 files (1.5s)\n");
}

#[test]
fn test_severity_filtering() {
    let formatter =
        ReportFormatter::new(ReportOptions { min_severity: Some(Severity::Error), ..Default::default() });

    let mut report = ValidationReport::new();
    report.add_violation(Violation::new(
        "warning_rule",
        Severity::Warning,
        "src/lib.rs",
        "Warning message",
    ));
    report.add_violation(Violation::new("error_rule", Severity::Error, "src/main.rs", "Error message"));

    let kept = formatter.filter_violations(&report.violations);

    // Should only include the error, not the warning
    assert_eq!(kept.len(), 1);
    assert_eq!(kept, vec![1]);
    assert_eq!(report.violations[kept[0]].rule_id, "error_rule");
}
