//! The built-in rule set.

use vstd::prelude::*;
use crate::config::{
    names_are_distinct, entry_views, rule_views, CategoryEntry, CategoryView, ConfigView, ExcludeConditions,
    ExcludeView, GuardianConfig, PathConfig, PatternCategory, PatternRule, RuleType, RuleView,
};
use crate::domain::violations::Severity;
use crate::textlines::string_texts;

verus! {

/// The expression that finds development markers.
pub open spec fn development_marker_pattern() -> Seq<char> {
    r"\b(TODO|FIXME|HACK|XXX|BUG|REFACTOR)\b"@
}

/// The expression that finds markers of temporary code.
pub open spec fn temporary_marker_pattern() -> Seq<char> {
    r"(?i)\b(for now|temporary|placeholder|stub|dummy|fake)\b"@
}

/// The descriptor of the check for unfinished macros.
pub open spec fn unfinished_macro_pattern() -> Seq<char> {
    "macro_call:unimplemented|todo|panic"@
}

/// The expression that finds development markers.
pub fn build_development_marker_pattern() -> (s: String)
    ensures
        s@ == development_marker_pattern(),
{
    r"\b(TODO|FIXME|HACK|XXX|BUG|REFACTOR)\b".to_owned()
}

/// The expression that finds markers of temporary code.
pub fn build_temporary_marker_pattern() -> (s: String)
    ensures
        s@ == temporary_marker_pattern(),
{
    r"(?i)\b(for now|temporary|placeholder|stub|dummy|fake)\b".to_owned()
}

/// The descriptor of the check for unfinished macros.
pub fn build_unfinished_macro_pattern() -> (s: String)
    ensures
        s@ == unfinished_macro_pattern(),
{
    "macro_call:unimplemented|todo|panic".to_owned()
}

/// Rules are enabled unless they say otherwise.
pub fn default_true() -> (b: bool)
    ensures
        b,
{
    true
}

/// Exclusion in test files and under test attributes.
pub open spec fn in_tests_and_test_code() -> ExcludeView {
    ExcludeView { attribute: Some("#[test]"@), in_tests: true, file_patterns: None }
}

/// Exclusion in test files and in files that match the given patterns.
pub open spec fn in_tests_and_files(patterns: Seq<Seq<char>>) -> ExcludeView {
    ExcludeView { attribute: None, in_tests: true, file_patterns: Some(patterns) }
}

/// The category of placeholder rules.
pub open spec fn placeholders_category() -> CategoryView {
    CategoryView {
        severity: Severity::Error,
        enabled: true,
        rules: seq![
            RuleView {
                id: "todo_comments"@,
                rule_type: RuleType::Regex,
                pattern: development_marker_pattern(),
                message: "Development marker detected: {match}"@,
                severity: None,
                enabled: true,
                case_sensitive: false,
                exclude_if: None,
            },
            RuleView {
                id: "temporary_markers"@,
                rule_type: RuleType::Regex,
                pattern: temporary_marker_pattern(),
                message: "Implementation marker found: {match}"@,
                severity: None,
                enabled: true,
                case_sensitive: false,
                exclude_if: Some(in_tests_and_files(seq!["**/tests/**"@])),
            },
            RuleView {
                id: "unimplemented_macros"@,
                rule_type: RuleType::Ast,
                pattern: unfinished_macro_pattern(),
                message: "Unfinished macro {macro_name}! found"@,
                severity: None,
                enabled: true,
                case_sensitive: true,
                exclude_if: Some(in_tests_and_test_code()),
            },
        ],
    }
}

/// The category of rules on incomplete implementations.
pub open spec fn incomplete_category() -> CategoryView {
    CategoryView {
        severity: Severity::Error,
        enabled: true,
        rules: seq![
            RuleView {
                id: "empty_ok_return"@,
                rule_type: RuleType::Ast,
                pattern: "return_ok_unit_with_no_logic"@,
                message: "Function returns Ok(()) with no implementation"@,
                severity: None,
                enabled: true,
                case_sensitive: true,
                exclude_if: Some(in_tests_and_test_code()),
            },
        ],
    }
}

/// The category of architectural rules.
pub open spec fn architectural_category() -> CategoryView {
    CategoryView {
        severity: Severity::Warning,
        enabled: true,
        rules: seq![
            RuleView {
                id: "hardcoded_paths"@,
                rule_type: RuleType::Regex,
                pattern: r#"["\'](\./|/|\.\./)?(\.rust/)[^"']*["\']"#@,
                message: "Hardcoded path found - use configuration instead"@,
                severity: None,
                enabled: true,
                case_sensitive: true,
                exclude_if: Some(in_tests_and_files(seq!["**/tests/**"@, "**/examples/**"@])),
            },
            RuleView {
                id: "architectural_header_missing"@,
                rule_type: RuleType::Regex,
                pattern: r"//!\s*(?:.*\n)*?\s*//!\s*Architecture:"@,
                message: "File missing architectural principle header"@,
                severity: Some(Severity::Info),
                enabled: false,
                case_sensitive: false,
                exclude_if: Some(
                    in_tests_and_files(seq!["**/tests/**"@, "**/benches/**"@, "**/examples/**"@]),
                ),
            },
        ],
    }
}

/// The built-in categories, each under its name.
pub open spec fn default_categories() -> Seq<(Seq<char>, CategoryView)> {
    seq![
        ("placeholders"@, placeholders_category()),
        ("incomplete_implementations"@, incomplete_category()),
        ("architectural_violations"@, architectural_category()),
    ]
}

/// The built-in configuration.
pub open spec fn default_config() -> ConfigView {
    ConfigView {
        version: "1.0"@,
        path_patterns: seq!["target/"@, "**/node_modules/"@, "**/.git/"@, "**/*.generated.*"@],
        ignore_file: Some(".guardianignore"@),
        categories: default_categories(),
    }
}

/// The built-in categories have names of their own.
pub proof fn lemma_default_names_distinct()
    ensures
        names_are_distinct(default_categories()),
{
    reveal_strlit("placeholders");
    reveal_strlit("incomplete_implementations");
    reveal_strlit("architectural_violations");
    let c = default_categories();
    assert(c[0].0.len() == 12 && c[1].0.len() == 26 && c[2].0.len() == 24);
}

fn exclusion_in_files(patterns: Vec<String>) -> (c: ExcludeConditions)
    ensures
        c@ == in_tests_and_files(string_texts(patterns@)),
{
    ExcludeConditions { attribute: None, in_tests: true, file_patterns: Some(patterns) }
}

fn exclusion_in_test_code() -> (c: ExcludeConditions)
    ensures
        c@ == in_tests_and_test_code(),
{
    ExcludeConditions { attribute: Some("#[test]".to_owned()), in_tests: true, file_patterns: None }
}

fn placeholders() -> (c: PatternCategory)
    ensures
        c@ == placeholders_category(),
{
    let files = vec!["**/tests/**".to_owned()];
    assert(string_texts(files@) =~= seq!["**/tests/**"@]);
    let rules = vec![
        PatternRule {
            id: "todo_comments".to_owned(),
            rule_type: RuleType::Regex,
            pattern: build_development_marker_pattern(),
            message: "Development marker detected: {match}".to_owned(),
            severity: None,
            enabled: true,
            case_sensitive: false,
            exclude_if: None,
        },
        PatternRule {
            id: "temporary_markers".to_owned(),
            rule_type: RuleType::Regex,
            pattern: build_temporary_marker_pattern(),
            message: "Implementation marker found: {match}".to_owned(),
            severity: None,
            enabled: true,
            case_sensitive: false,
            exclude_if: Some(exclusion_in_files(files)),
        },
        PatternRule {
            id: "unimplemented_macros".to_owned(),
            rule_type: RuleType::Ast,
            pattern: build_unfinished_macro_pattern(),
            message: "Unfinished macro {macro_name}! found".to_owned(),
            severity: None,
            enabled: true,
            case_sensitive: true,
            exclude_if: Some(exclusion_in_test_code()),
        },
    ];
    assert(rule_views(rules@) =~= placeholders_category().rules);
    PatternCategory { severity: Severity::Error, enabled: true, rules }
}

fn incomplete_implementations() -> (c: PatternCategory)
    ensures
        c@ == incomplete_category(),
{
    let rules = vec![
        PatternRule {
            id: "empty_ok_return".to_owned(),
            rule_type: RuleType::Ast,
            pattern: "return_ok_unit_with_no_logic".to_owned(),
            message: "Function returns Ok(()) with no implementation".to_owned(),
            severity: None,
            enabled: true,
            case_sensitive: true,
            exclude_if: Some(exclusion_in_test_code()),
        },
    ];
    assert(rule_views(rules@) =~= incomplete_category().rules);
    PatternCategory { severity: Severity::Error, enabled: true, rules }
}

fn architectural_violations() -> (c: PatternCategory)
    ensures
        c@ == architectural_category(),
{
    let paths_files = vec!["**/tests/**".to_owned(), "**/examples/**".to_owned()];
    assert(string_texts(paths_files@) =~= seq!["**/tests/**"@, "**/examples/**"@]);
    let header_files = vec![
        "**/tests/**".to_owned(),
        "**/benches/**".to_owned(),
        "**/examples/**".to_owned(),
    ];
    assert(string_texts(header_files@) =~= seq![
        "**/tests/**"@,
        "**/benches/**"@,
        "**/examples/**"@,
    ]);
    let rules = vec![
        PatternRule {
            id: "hardcoded_paths".to_owned(),
            rule_type: RuleType::Regex,
            pattern: r#"["\'](\./|/|\.\./)?(\.rust/)[^"']*["\']"#.to_owned(),
            message: "Hardcoded path found - use configuration instead".to_owned(),
            severity: None,
            enabled: true,
            case_sensitive: true,
            exclude_if: Some(exclusion_in_files(paths_files)),
        },
        PatternRule {
            id: "architectural_header_missing".to_owned(),
            rule_type: RuleType::Regex,
            pattern: r"//!\s*(?:.*\n)*?\s*//!\s*Architecture:".to_owned(),
            message: "File missing architectural principle header".to_owned(),
            severity: Some(Severity::Info),
            enabled: false,
            case_sensitive: false,
            exclude_if: Some(exclusion_in_files(header_files)),
        },
    ];
    assert(rule_views(rules@) =~= architectural_category().rules);
    PatternCategory { severity: Severity::Warning, enabled: true, rules }
}

impl GuardianConfig {
    /// The built-in categories: placeholders, incomplete implementations and
    /// architectural violations.
    pub fn default_patterns() -> (entries: Vec<CategoryEntry>)
        ensures
            entry_views(entries@) == default_categories(),
    {
        let entries = vec![
            CategoryEntry { name: "placeholders".to_owned(), category: placeholders() },
            CategoryEntry {
                name: "incomplete_implementations".to_owned(),
                category: incomplete_implementations(),
            },
            CategoryEntry {
                name: "architectural_violations".to_owned(),
                category: architectural_violations(),
            },
        ];
        assert(entry_views(entries@) =~= default_categories());
        entries
    }

    /// The built-in configuration.
    pub fn with_defaults() -> (c: GuardianConfig)
        ensures
            c@ == default_config(),
            c.wf(),
    {
        proof {
            lemma_default_names_distinct();
        }
        let patterns = vec![
            "target/".to_owned(),
            "**/node_modules/".to_owned(),
            "**/.git/".to_owned(),
            "**/*.generated.*".to_owned(),
        ];
        assert(string_texts(patterns@) =~= default_config().path_patterns);
        GuardianConfig {
            version: "1.0".to_owned(),
            paths: PathConfig { patterns, ignore_file: Some(".guardianignore".to_owned()) },
            patterns: GuardianConfig::default_patterns(),
        }
    }
}

impl Default for GuardianConfig {
    fn default() -> (c: GuardianConfig)
        ensures
            c@ == default_config(),
            c.wf(),
    {
        GuardianConfig::with_defaults()
    }
}

} // verus!
