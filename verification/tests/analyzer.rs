use rust_guardian::analyzer::{conclude, FileInput, FileOutcome};
use rust_guardian::cache::calculate_file_hash;
use rust_guardian::patterns::path_filter::{Candidate, IgnoreFile};
use rust_guardian::syntax::{
    FunctionInfo, MacroInfo, MacroPosition, NodeKind, StmtShape, SyntaxNode, SyntaxTree,
};
use rust_guardian::validator::{
    files_needing_analysis, first_look, pre_commit_verdict, production_verdict,
    record_analysis_at, second_look, FileProbe, Look,
};
use rust_guardian::{
    create_validator, AnalysisOptions, Analyzer, FileCache, GuardianConfig, GuardianError,
    GuardianValidator, PatternStats, ReportFormatter, ReportOptions, Severity, ValidationOptions,
    ValidationReport, Violation,
};

fn file(path: &str) -> Candidate {
    Candidate { path: path.to_string(), is_dir: false, ignore_files: Vec::new() }
}

fn input(path: &str, content: Result<&str, &str>) -> FileInput {
    FileInput {
        candidate: file(path),
        content: content.map(|s| s.to_string()).map_err(|s| s.to_string()),
        tree: None,
    }
}

#[test]
fn analyzer_of_the_built_in_configuration() {
    let analyzer = Analyzer::with_defaults().unwrap();
    let stats: PatternStats = analyzer.pattern_stats();
    assert_eq!(stats.enabled_categories, 3);
    assert_eq!(stats.disabled_categories, 0);
    assert_eq!(stats.enabled_rules, 5);
    assert_eq!(stats.disabled_rules, 1);
    assert_eq!(stats.regex_patterns, 3);
    assert_eq!(stats.ast_patterns, 2);
    assert_eq!(stats.semantic_patterns + stats.import_patterns, 0);
    assert_eq!(stats.total_categories(), 3);
    assert_eq!(stats.total_rules(), 6);
    assert_eq!(analyzer.config_fingerprint(), GuardianConfig::with_defaults().fingerprint());
}

#[test]
fn statistics_of_disabled_categories() {
    let mut config = GuardianConfig::with_defaults();
    config.patterns[0].category.enabled = false;
    let stats = Analyzer::new(config).unwrap().pattern_stats();
    assert_eq!((stats.enabled_categories, stats.disabled_categories), (2, 1));
    assert_eq!((stats.enabled_rules, stats.disabled_rules), (2, 4));
    assert_eq!((stats.regex_patterns, stats.ast_patterns), (1, 1));
}

#[test]
fn analyzer_needs_a_configuration_that_compiles() {
    let mut config = GuardianConfig::with_defaults();
    config.paths.patterns.push("[bad".to_string());
    match Analyzer::new(config) {
        Err(e) => {
            assert!(matches!(e, GuardianError::Configuration { .. }));
            assert!(e.to_text().starts_with(
                "Configuration error: Failed to create path filter: Pattern error: Invalid pattern '[bad': "
            ));
        }
        Ok(_) => panic!("built"),
    }
}

#[test]
fn a_file_is_analyzed_by_engine_and_rust_checks() {
    let analyzer = Analyzer::with_defaults().unwrap();
    let tree = SyntaxTree::new(vec![SyntaxNode {
        kind: NodeKind::Use { text: "use substrate :: x ;".to_string() },
        parent: None,
        end: 1,
    }])
    .unwrap();
    let found = analyzer.analyze_file(&file("src/main.rs"), "// TODO: implement this\nfn main() {}", Some(&tree)).unwrap();
    let ids: Vec<&str> = found.iter().map(|v| v.rule_id.as_str()).collect();
    assert_eq!(ids, vec!["todo_comments", "direct_substrate_access", "cdd_header_missing"]);
    assert_eq!(found[0].severity, Severity::Error);
    assert_eq!((found[0].line_number, found[0].column_number), (Some(1), Some(4)));
    assert_eq!(found[0].message, "Development marker detected: TODO");
    // Other files are assessed by their text alone.
    let text_only = analyzer.analyze_file(&file("notes.txt"), "FIXME later", Some(&tree)).unwrap();
    assert_eq!(text_only.len(), 1);
    // Files that the filter leaves out report nothing.
    assert!(analyzer.analyze_file(&file("target/debug/x.generated.rs"), "TODO", None).unwrap().is_empty());
    let ignored = Candidate {
        path: "src/main.rs".to_string(),
        is_dir: false,
        ignore_files: vec![IgnoreFile { directory: "src".to_string(), content: "*.rs".to_string() }],
    };
    assert!(analyzer.analyze_file(&ignored, "TODO", None).unwrap().is_empty());
}

#[test]
fn faults_end_the_run_only_if_asked() {
    let analyzer = Analyzer::with_defaults().unwrap();
    let inputs = vec![
        input("a.txt", Ok("TODO one")),
        input("b.txt", Err("permission denied")),
        input("c.txt", Ok("HACK two")),
        input("x.generated.y", Err("gone")),
    ];
    let lenient = AnalysisOptions::default();
    let found = analyzer.analyze_files_sequential(&inputs, &lenient).unwrap();
    let paths: Vec<&str> = found.iter().map(|v| v.file_path.as_str()).collect();
    assert_eq!(paths, vec!["a.txt", "c.txt"]);
    let strict = AnalysisOptions { fail_fast: true, ..Default::default() };
    match analyzer.analyze_files_sequential(&inputs, &strict) {
        Err(e) => assert_eq!(e.to_text(), "Analysis error in b.txt: Failed to read file: permission denied"),
        Ok(_) => panic!("went on"),
    }
    // A file that the filter leaves out is no fault.
    let harmless = vec![input("a.txt", Ok("TODO")), input("x.generated.y", Err("gone"))];
    assert_eq!(analyzer.analyze_files_sequential(&harmless, &strict).unwrap().len(), 1);
    assert!(lenient.parallel && lenient.max_files.is_none() && lenient.exclude_patterns.is_empty());
}

#[test]
fn reports_are_built_from_violations() {
    let analyzer = Analyzer::with_defaults().unwrap();
    let violations = vec![
        Violation::new("a", Severity::Error, "x", "m"),
        Violation::new("b", Severity::Info, "y", "n"),
    ];
    let report = analyzer.build_report(violations, 7, 1234);
    assert_eq!(report.violations.len(), 2);
    assert_eq!(report.violations[1].rule_id, "b");
    assert_eq!(report.summary.total_files, 7);
    assert_eq!(report.summary.execution_time_ms, 1234);
    assert_eq!(report.summary.violations_by_severity.error, 1);
    assert_eq!(report.summary.violations_by_severity.info, 1);
    assert_eq!(report.config_fingerprint, Some(analyzer.config_fingerprint()));
}

#[test]
fn validator_with_and_without_cache() {
    let validator = create_validator().unwrap();
    assert!(validator.pattern_statistics().enabled_rules > 0);
    assert!(validator.cache_statistics().is_none());
    let report = validator.validate_file(&file("test.rs"), "fn main() { unimplemented!() } // TODO", None).unwrap();
    assert!(report.has_violations());
    assert_eq!(report.summary.total_files, 1);
    let mut cached = GuardianValidator::new().unwrap().with_cache("c.json", None).unwrap();
    let stats = cached.cache_statistics().unwrap();
    assert_eq!((stats.total_files, stats.cache_hits, stats.cache_misses), (0, 0, 0));
    assert_eq!(
        cached.cache.as_ref().unwrap().data.config_fingerprint,
        Some(GuardianConfig::with_defaults().fingerprint())
    );
    let snapshot = cached.save_cache().unwrap().unwrap();
    assert_eq!(snapshot.version, 1);
    assert!(cached.save_cache().unwrap().is_none());
    assert_eq!(cached.cleanup_cache(&Vec::new()).unwrap(), Some(0));
    assert!(cached.clear_cache().is_ok());
    let mut plain = GuardianValidator::new().unwrap();
    assert!(plain.save_cache().unwrap().is_none());
    assert_eq!(plain.cleanup_cache(&Vec::new()).unwrap(), None);
    assert!(plain.clear_cache().is_ok());
    let quiet = plain.with_report_formatter(ReportFormatter::new(ReportOptions {
        use_colors: false,
        ..Default::default()
    }));
    assert!(!quiet.report_formatter.options.use_colors);
    let options = ValidationOptions::default();
    assert!(options.use_cache && options.continue_on_error && options.cache_path.is_none());
}

fn probe(path: &str, content: &str) -> FileProbe {
    FileProbe { path: path.to_string(), size: content.len() as u64, modified_at: 1, content: content.as_bytes().to_vec() }
}

#[test]
fn only_changed_files_are_analyzed_again() {
    let mut cache = FileCache::new("c.json");
    cache.load_at(None, 0).unwrap();
    let probes = vec![probe("a.rs", "one"), probe("b.rs", "two"), probe("c.rs", "three")];
    let first = files_needing_analysis(&mut cache, &probes, "fp");
    assert_eq!(first, vec![0, 1, 2]);
    let violations = vec![
        Violation::new("r", Severity::Error, "b.rs", "m"),
        Violation::new("r", Severity::Info, "b.rs", "m"),
        Violation::new("r", Severity::Info, "z.rs", "m"),
    ];
    record_analysis_at(&mut cache, &probes, &first, &violations, "fp", 42);
    let counts: Vec<usize> = cache.data.files.iter().map(|f| f.entry.violation_count).collect();
    assert_eq!(counts, vec![0, 2, 0]);
    assert_eq!(cache.data.files[1].entry.analyzed_at, 42);
    assert_eq!(cache.data.files[1].entry.content_hash, calculate_file_hash(b"two"));
    let changed = vec![probe("a.rs", "one"), probe("b.rs", "TWO"), probe("c.rs", "three"), probe("d.rs", "new")];
    assert_eq!(files_needing_analysis(&mut cache, &changed, "fp"), vec![1, 3]);
    assert_eq!(files_needing_analysis(&mut cache, &probes, "other"), vec![0, 1, 2]);
    assert_eq!((cache.data.metadata.hits, cache.data.metadata.misses), (2, 8));
    record_analysis_at(&mut cache, &probes, &vec![9], &violations, "fp", 43);
    assert_eq!(cache.data.files.len(), 3);
}

#[test]
fn verdicts() {
    let mut report = ValidationReport::new();
    assert!(pre_commit_verdict(&report).is_ok());
    assert!(production_verdict(&report).is_ok());
    report.add_violation(Violation::new("w", Severity::Warning, "a", "m"));
    assert!(pre_commit_verdict(&report).is_ok());
    match production_verdict(&report) {
        Err(e) => assert_eq!(e.to_text(), "Configuration error: Production validation failed: 1 violations found"),
        Ok(()) => panic!("passed"),
    }
    report.add_violation(Violation::new("e", Severity::Error, "a", "m"));
    match pre_commit_verdict(&report) {
        Err(e) => assert_eq!(e.to_text(), "Configuration error: Pre-commit check failed: 1 blocking violation found"),
        Ok(()) => panic!("passed"),
    }
    report.add_violation(Violation::new("e", Severity::Error, "a", "m"));
    match pre_commit_verdict(&report) {
        Err(e) => assert_eq!(e.to_text(), "Configuration error: Pre-commit check failed: 2 blocking violations found"),
        Ok(()) => panic!("passed"),
    }
}

#[test]
fn test_validator_creation() {
    let validator = GuardianValidator::new().unwrap();
    let stats = validator.pattern_statistics();

    // Should have default patterns loaded
    assert!(stats.enabled_rules > 0);
}

#[test]
fn test_single_file_validation() {
    // The tree of `fn main() { unimplemented!() }`.
    let tree = SyntaxTree::new(vec![
        SyntaxNode {
            kind: NodeKind::Function(FunctionInfo {
                name: "main".to_string(),
                is_public: false,
                attributes: Vec::new(),
                is_async: false,
                is_unsafe: false,
                arg_count: 0,
                type_params: Vec::new(),
                return_type: None,
                body: 1,
                body_text: "{ unimplemented ! () }".to_string(),
                statement_count: 1,
                first_statement: Some(StmtShape::Other),
            }),
            parent: None,
            end: 3,
        },
        SyntaxNode { kind: NodeKind::Block, parent: Some(0), end: 3 },
        SyntaxNode {
            kind: NodeKind::Macro(MacroInfo {
                name: Some("unimplemented".to_string()),
                position: MacroPosition::Statement,
                tokens_empty: true,
                text: "unimplemented ! ()".to_string(),
            }),
            parent: Some(1),
            end: 3,
        },
    ])
    .unwrap();

    let validator = GuardianValidator::new().unwrap();
    let report = validator
        .validate_file(&file("test.rs"), "fn main() { unimplemented!() }", Some(&tree))
        .unwrap();

    assert!(report.has_violations());
    assert_eq!(report.summary.total_files, 1);
}

#[test]
fn the_cache_is_asked_in_two_steps() {
    let mut cache = FileCache::new("c.json");
    cache.load_at(None, 0).unwrap();
    let a = probe("a.rs", "one");
    // Unknown file: analyzed, and the content is not needed to say so.
    assert_eq!(first_look(&mut cache, "a.rs", "fp", a.size, a.modified_at), Look::Analyze);
    assert_eq!((cache.data.metadata.hits, cache.data.metadata.misses), (0, 1));
    record_analysis_at(&mut cache, &vec![a.clone()], &vec![0], &Vec::new(), "fp", 42);
    // Known file with the same size and time: the content decides.
    assert_eq!(first_look(&mut cache, "a.rs", "fp", a.size, a.modified_at), Look::ReadContent);
    assert_eq!((cache.data.metadata.hits, cache.data.metadata.misses), (0, 1));
    assert!(!second_look(&mut cache, &a, "fp"));
    assert_eq!((cache.data.metadata.hits, cache.data.metadata.misses), (1, 1));
    let edited = FileProbe { content: b"two".to_vec(), ..a.clone() };
    assert_eq!(first_look(&mut cache, "a.rs", "fp", edited.size, edited.modified_at), Look::ReadContent);
    assert!(second_look(&mut cache, &edited, "fp"));
    assert_eq!((cache.data.metadata.hits, cache.data.metadata.misses), (1, 2));
    // Another size or another configuration: analyzed without the content.
    assert_eq!(first_look(&mut cache, "a.rs", "fp", a.size + 1, a.modified_at), Look::Analyze);
    assert_eq!(first_look(&mut cache, "a.rs", "other", a.size, a.modified_at), Look::Analyze);
    assert_eq!((cache.data.metadata.hits, cache.data.metadata.misses), (1, 4));
    // A miss that cannot be counted still sends the file to analysis.
    cache.data.metadata.misses = u64::MAX;
    assert_eq!(first_look(&mut cache, "new.rs", "fp", 1, 1), Look::Analyze);
    assert_eq!(cache.data.metadata.misses, u64::MAX);
    assert!(second_look(&mut cache, &probe("new.rs", "x"), "fp"));
}

#[test]
fn a_run_is_concluded_from_what_its_files_gave() {
    let analyzer = Analyzer::with_defaults().unwrap();
    let inputs = vec![
        input("a.txt", Ok("TODO one")),
        input("b.txt", Err("permission denied")),
        input("x.generated.y", Err("gone")),
        input("c.txt", Err("locked")),
        input("d.txt", Ok("HACK two")),
    ];
    let outcomes: Vec<FileOutcome> = inputs.iter().map(|i| analyzer.outcome_of(i)).collect();
    assert!(matches!(&outcomes[0], FileOutcome::Found(v) if v.len() == 1));
    match &outcomes[1] {
        FileOutcome::Fault { file, message } => {
            assert_eq!(file, "b.txt");
            assert_eq!(message, "Failed to read file: permission denied");
        }
        _ => panic!("a file that cannot be read is a fault"),
    }
    // A file that the filter leaves out is no fault.
    assert!(matches!(&outcomes[2], FileOutcome::Found(v) if v.is_empty()));
    assert!(matches!(&outcomes[3], FileOutcome::Fault { .. }));
    let found = conclude(&outcomes, false).unwrap();
    let paths: Vec<&str> = found.iter().map(|v| v.file_path.as_str()).collect();
    assert_eq!(paths, vec!["a.txt", "d.txt"]);
    // The first fault ends the run and its error names the file.
    match conclude(&outcomes, true) {
        Err(GuardianError::Analysis { file, message }) => {
            assert_eq!(file, "b.txt");
            assert_eq!(message, "Failed to read file: permission denied");
        }
        _ => panic!("went on"),
    }
    assert!(conclude(&Vec::new(), true).unwrap().is_empty());
    // One file after the other gives the same.
    let strict = AnalysisOptions { fail_fast: true, ..Default::default() };
    match analyzer.analyze_files_sequential(&inputs, &strict) {
        Err(GuardianError::Analysis { file, message }) => {
            assert_eq!(file, "b.txt");
            assert_eq!(message, "Failed to read file: permission denied");
        }
        _ => panic!("went on"),
    }
}
