use rust_guardian::config::builder::ConfigBuilder;
use rust_guardian::config::defaults::{
    build_development_marker_pattern, build_temporary_marker_pattern,
    build_unfinished_macro_pattern, default_true,
};
use rust_guardian::config::{CategoryEntry, ExcludeConditions};
use rust_guardian::{GuardianConfig, GuardianError, PatternCategory, PatternRule, RuleType, Severity};

fn rule(id: &str, pattern: &str) -> PatternRule {
    PatternRule {
        id: id.to_string(),
        rule_type: RuleType::Regex,
        pattern: pattern.to_string(),
        message: "m".to_string(),
        severity: None,
        enabled: true,
        case_sensitive: true,
        exclude_if: None,
    }
}

fn category(rules: Vec<PatternRule>) -> PatternCategory {
    PatternCategory { severity: Severity::Warning, enabled: true, rules }
}

#[test]
fn built_in_configuration() {
    let c = GuardianConfig::with_defaults();
    assert_eq!(c.version, "1.0");
    assert_eq!(c.paths.patterns, vec!["target/", "**/node_modules/", "**/.git/", "**/*.generated.*"]);
    assert_eq!(c.paths.ignore_file, Some(".guardianignore".to_string()));
    let names: Vec<&str> = c.patterns.iter().map(|e| e.name.as_str()).collect();
    assert_eq!(names, vec!["placeholders", "incomplete_implementations", "architectural_violations"]);
    let placeholders = &c.patterns[0].category;
    assert_eq!(placeholders.severity, Severity::Error);
    assert!(placeholders.enabled);
    let ids: Vec<&str> = placeholders.rules.iter().map(|r| r.id.as_str()).collect();
    assert_eq!(ids, vec!["todo_comments", "temporary_markers", "unimplemented_macros"]);
    assert_eq!(placeholders.rules[0].pattern, r"\b(TODO|FIXME|HACK|XXX|BUG|REFACTOR)\b");
    assert!(!placeholders.rules[0].case_sensitive);
    assert_eq!(placeholders.rules[2].rule_type, RuleType::Ast);
    let exclude: &ExcludeConditions = placeholders.rules[2].exclude_if.as_ref().unwrap();
    assert_eq!(exclude.attribute, Some("#[test]".to_string()));
    assert!(exclude.in_tests);
    let architectural = &c.patterns[2].category;
    assert_eq!(architectural.severity, Severity::Warning);
    assert_eq!(architectural.rules[1].severity, Some(Severity::Info));
    assert!(!architectural.rules[1].enabled);
    assert_eq!(
        architectural.rules[1].exclude_if.as_ref().unwrap().file_patterns,
        Some(vec!["**/tests/**".to_string(), "**/benches/**".to_string(), "**/examples/**".to_string()])
    );
    assert_eq!(GuardianConfig::default_patterns().len(), 3);
    assert_eq!(GuardianConfig::default().version, "1.0");
    assert_eq!(build_development_marker_pattern(), r"\b(TODO|FIXME|HACK|XXX|BUG|REFACTOR)\b");
    assert_eq!(build_temporary_marker_pattern(), r"(?i)\b(for now|temporary|placeholder|stub|dummy|fake)\b");
    assert_eq!(build_unfinished_macro_pattern(), "macro_call:unimplemented|todo|panic");
    assert!(default_true());
}

#[test]
fn the_built_in_configuration_is_valid() {
    let c = GuardianConfig::with_defaults();
    assert!(c.validate().is_ok());
    assert!(c.verify_config_integrity().is_ok());
    assert!(GuardianConfig::verify_evolution_capability().is_ok());
}

#[test]
fn validation_errors() {
    let mut c = GuardianConfig::with_defaults();
    c.version = "2.0".to_string();
    match c.validate() {
        Err(e) => assert_eq!(
            e.to_text(),
            "Configuration error: Unsupported configuration version: 2.0. Supported versions: 1.0"
        ),
        Ok(()) => panic!("accepted"),
    }
    match c.verify_config_integrity() {
        Err(e) => assert_eq!(e.to_text(), "Configuration error: Configuration system requires version 1.0"),
        Ok(()) => panic!("accepted"),
    }
    let mut c = GuardianConfig::with_defaults();
    c.patterns.remove(0);
    match c.verify_config_integrity() {
        Err(e) => assert_eq!(
            e.to_text(),
            "Configuration error: Core pattern category 'placeholders' missing from guardian"
        ),
        Ok(()) => panic!("accepted"),
    }
    let mut c = GuardianConfig::with_defaults();
    c.patterns[1].category.rules.push(rule("empty_ok_return", "x"));
    match c.validate() {
        Err(e) => assert_eq!(
            e.to_text(),
            "Configuration error: Duplicate rule ID 'empty_ok_return' in category 'incomplete_implementations'"
        ),
        Ok(()) => panic!("accepted"),
    }
    let mut c = GuardianConfig::with_defaults();
    c.patterns[1].category.rules.push(rule("broken", "a(b"));
    match c.validate() {
        Err(e) => {
            assert!(matches!(e, GuardianError::Configuration { .. }));
            assert!(e.to_text().starts_with("Configuration error: Invalid regex pattern in rule 'broken': "));
        }
        Ok(()) => panic!("accepted"),
    }
    // The same identifier in two categories is no fault.
    let mut c = GuardianConfig::with_defaults();
    c.patterns[1].category.rules.push(rule("todo_comments", "x"));
    assert!(c.validate().is_ok());
}

#[test]
fn enabled_rules_and_severities() {
    let mut c = GuardianConfig::with_defaults();
    assert_eq!(c.enabled_rules(), vec![(0, 0), (0, 1), (0, 2), (1, 0), (2, 0)]);
    c.patterns[0].category.enabled = false;
    c.patterns[2].category.rules[1].enabled = true;
    assert_eq!(c.enabled_rules(), vec![(1, 0), (2, 0), (2, 1)]);
    let architectural = &c.patterns[2].category;
    assert_eq!(c.effective_severity(architectural, &architectural.rules[0]), Severity::Warning);
    assert_eq!(c.effective_severity(architectural, &architectural.rules[1]), Severity::Info);
    assert_eq!(c.find_category("architectural_violations"), Some(2));
    assert_eq!(c.find_category("none"), None);
}

#[test]
fn fingerprints_follow_the_configuration() {
    let c = GuardianConfig::with_defaults();
    let fp = c.fingerprint();
    assert_eq!(fp, c.fingerprint());
    assert_eq!(fp, GuardianConfig::with_defaults().fingerprint());
    assert!(!fp.is_empty() && fp.len() <= 16);
    assert!(fp.chars().all(|ch| ch.is_ascii_hexdigit() && !ch.is_ascii_uppercase()));
    let mut differs = Vec::new();
    let mut changed = GuardianConfig::with_defaults();
    changed.version = "1.1".to_string();
    differs.push(changed.fingerprint());
    let mut changed = GuardianConfig::with_defaults();
    changed.paths.patterns.push("x/**".to_string());
    differs.push(changed.fingerprint());
    let mut changed = GuardianConfig::with_defaults();
    changed.paths.ignore_file = None;
    differs.push(changed.fingerprint());
    let mut changed = GuardianConfig::with_defaults();
    changed.patterns[0].category.rules[0].pattern.push('x');
    differs.push(changed.fingerprint());
    let mut changed = GuardianConfig::with_defaults();
    changed.patterns[0].category.rules[0].enabled = false;
    differs.push(changed.fingerprint());
    let mut changed = GuardianConfig::with_defaults();
    changed.patterns[2].category.severity = Severity::Error;
    differs.push(changed.fingerprint());
    let mut changed = GuardianConfig::with_defaults();
    changed.patterns[1].category.enabled = false;
    differs.push(changed.fingerprint());
    // Every field of a rule counts.
    let mut changed = GuardianConfig::with_defaults();
    changed.patterns[0].category.rules[0].rule_type = RuleType::Semantic;
    differs.push(changed.fingerprint());
    let mut changed = GuardianConfig::with_defaults();
    changed.patterns[0].category.rules[0].severity = Some(Severity::Info);
    differs.push(changed.fingerprint());
    let mut changed = GuardianConfig::with_defaults();
    changed.patterns[0].category.rules[0].severity = Some(Severity::Warning);
    differs.push(changed.fingerprint());
    let mut changed = GuardianConfig::with_defaults();
    changed.patterns[0].category.rules[0].message.push('!');
    differs.push(changed.fingerprint());
    let mut changed = GuardianConfig::with_defaults();
    changed.patterns[0].category.rules[0].case_sensitive = true;
    differs.push(changed.fingerprint());
    let mut changed = GuardianConfig::with_defaults();
    changed.patterns[0].category.rules[0].exclude_if =
        Some(ExcludeConditions { attribute: None, in_tests: false, file_patterns: None });
    differs.push(changed.fingerprint());
    let mut changed = GuardianConfig::with_defaults();
    changed.patterns[0].category.rules[1].exclude_if = None;
    differs.push(changed.fingerprint());
    let mut changed = GuardianConfig::with_defaults();
    changed.patterns[0].category.rules[1].exclude_if.as_mut().unwrap().in_tests = false;
    differs.push(changed.fingerprint());
    let mut changed = GuardianConfig::with_defaults();
    changed.patterns[0].category.rules[1].exclude_if.as_mut().unwrap().attribute =
        Some("#[test]".to_string());
    differs.push(changed.fingerprint());
    let mut changed = GuardianConfig::with_defaults();
    changed.patterns[0].category.rules[1].exclude_if.as_mut().unwrap().file_patterns = None;
    differs.push(changed.fingerprint());
    let mut changed = GuardianConfig::with_defaults();
    changed.patterns[0].category.rules[1].exclude_if.as_mut().unwrap().file_patterns =
        Some(vec!["**/tests/**".to_string(), "**/benches/**".to_string()]);
    differs.push(changed.fingerprint());
    for other in &differs {
        assert_ne!(&fp, other);
    }
    for (i, a) in differs.iter().enumerate() {
        for b in &differs[i + 1..] {
            assert_ne!(a, b);
        }
    }
    // The order of categories and of rules does not matter.
    let mut reordered = GuardianConfig::with_defaults();
    reordered.patterns.reverse();
    reordered.patterns[0].category.rules.reverse();
    reordered.patterns[2].category.rules.swap(0, 2);
    assert_eq!(fp, reordered.fingerprint());
}

#[test]
fn builder_grows_the_built_in_configuration() {
    let built = ConfigBuilder::new()
        .add_path_pattern("guardian/evolution/**")
        .ignore_file(".guardian_ignore")
        .add_category("mine", category(vec![rule("a", "x")]))
        .add_category("placeholders", category(vec![rule("b", "y")]))
        .build()
        .unwrap();
    assert_eq!(built.paths.patterns.len(), 5);
    assert_eq!(built.paths.patterns[4], "guardian/evolution/**");
    assert_eq!(built.paths.ignore_file, Some(".guardian_ignore".to_string()));
    let names: Vec<&str> = built.patterns.iter().map(|e: &CategoryEntry| e.name.as_str()).collect();
    assert_eq!(names, vec!["placeholders", "incomplete_implementations", "architectural_violations", "mine"]);
    assert_eq!(built.patterns[0].category.rules.len(), 1);
    assert_eq!(built.patterns[0].category.rules[0].id, "b");
    let bad = ConfigBuilder::default().add_category("c", category(vec![rule("a", "x"), rule("a", "y")])).build();
    assert!(matches!(bad, Err(GuardianError::Configuration { .. })));
}

#[test]
fn a_builder_names_the_repeated_identifier_and_its_category() {
    let r = rule("x", "a");
    let b = ConfigBuilder::new().add_category("dup", category(vec![r.clone(), r]));
    match b.build() {
        Err(GuardianError::Configuration { message }) => {
            assert_eq!(message, "Duplicate rule ID 'x' in category 'dup'");
        }
        _ => panic!("a repeated identifier must fail the build"),
    }
    let broken = ConfigBuilder::new().add_category("c", category(vec![rule("bad", "(unclosed")]));
    match broken.build() {
        Err(GuardianError::Configuration { message }) => {
            assert!(message.starts_with("Invalid regex pattern in rule 'bad': "));
        }
        _ => panic!("a pattern that does not compile must fail the build"),
    }
    let mut old = ConfigBuilder::new();
    old.config.version = "0.9".to_string();
    match old.build() {
        Err(GuardianError::Configuration { message }) => {
            assert_eq!(message, "Unsupported configuration version: 0.9. Supported versions: 1.0");
        }
        _ => panic!("an unsupported version must fail the build"),
    }
    // A category put under a name a second time takes the place of the first.
    let twice = ConfigBuilder::new()
        .add_category("mine", category(vec![rule("a", "a")]))
        .add_category("mine", category(vec![rule("b", "b")]))
        .build()
        .unwrap();
    let names: Vec<&str> = twice.patterns.iter().map(|e| e.name.as_str()).collect();
    assert_eq!(
        names,
        vec!["placeholders", "incomplete_implementations", "architectural_violations", "mine"]
    );
    assert_eq!(twice.patterns[3].category.rules[0].id, "b");
}
