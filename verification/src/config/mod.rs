//! The rule set: categories of pattern rules and the path patterns that select
//! the files to analyze.

pub mod builder;
pub mod defaults;
pub mod fingerprint;

use vstd::prelude::*;
use crate::bindings::regex_compiles;
use crate::patterns::expression::Expression;
use crate::domain::violations::{opt_text, ErrorView, GuardianError, Severity};
use crate::text::{append, chars_of, same_text, string_of};
use crate::textlines::string_texts;

verus! {

/// How a rule's pattern is to be read.
#[derive(Debug, Clone, Copy, PartialEq, Eq, Structural, Hash)]
pub enum RuleType {
    /// A regular expression matched against the text of a file.
    Regex,
    /// A structural check on the syntax tree.
    Ast,
    /// A semantic check on the syntax tree.
    Semantic,
    /// A check on imports.
    ImportAnalysis,
}

/// Conditions under which a match is not reported.
#[derive(Debug, Clone)]
pub struct ExcludeConditions {
    /// Exclude code that carries this attribute marker.
    pub attribute: Option<String>,
    /// Exclude matches in test files.
    pub in_tests: bool,
    /// Exclude matches in files that match one of these patterns.
    pub file_patterns: Option<Vec<String>>,
}

/// What [`ExcludeConditions`] say.
pub struct ExcludeView {
    pub attribute: Option<Seq<char>>,
    pub in_tests: bool,
    pub file_patterns: Option<Seq<Seq<char>>>,
}

impl View for ExcludeConditions {
    type V = ExcludeView;

    open spec fn view(&self) -> ExcludeView {
        ExcludeView {
            attribute: opt_text(self.attribute),
            in_tests: self.in_tests,
            file_patterns: match self.file_patterns {
                Some(v) => Some(string_texts(v@)),
                None => None,
            },
        }
    }
}

/// One pattern rule.
#[derive(Debug, Clone)]
pub struct PatternRule {
    /// Identifier, unique within the category.
    pub id: String,
    pub rule_type: RuleType,
    /// The pattern to match.
    pub pattern: String,
    /// The message template for violations.
    pub message: String,
    /// Severity of the rule; the category's severity when absent.
    pub severity: Option<Severity>,
    pub enabled: bool,
    /// Whether a regular expression distinguishes letter case.
    pub case_sensitive: bool,
    pub exclude_if: Option<ExcludeConditions>,
}

/// What a [`PatternRule`] says.
pub struct RuleView {
    pub id: Seq<char>,
    pub rule_type: RuleType,
    pub pattern: Seq<char>,
    pub message: Seq<char>,
    pub severity: Option<Severity>,
    pub enabled: bool,
    pub case_sensitive: bool,
    pub exclude_if: Option<ExcludeView>,
}

/// What optional exclusion conditions say.
pub open spec fn opt_exclude(o: Option<ExcludeConditions>) -> Option<ExcludeView> {
    match o {
        Some(c) => Some(c@),
        None => None,
    }
}

impl View for PatternRule {
    type V = RuleView;

    open spec fn view(&self) -> RuleView {
        RuleView {
            id: self.id@,
            rule_type: self.rule_type,
            pattern: self.pattern@,
            message: self.message@,
            severity: self.severity,
            enabled: self.enabled,
            case_sensitive: self.case_sensitive,
            exclude_if: opt_exclude(self.exclude_if),
        }
    }
}

/// What each rule of a list says.
pub open spec fn rule_views(rules: Seq<PatternRule>) -> Seq<RuleView> {
    rules.map_values(|r: PatternRule| r@)
}

/// A category of rules.
#[derive(Debug, Clone)]
pub struct PatternCategory {
    /// Severity of the rules that name none.
    pub severity: Severity,
    pub enabled: bool,
    pub rules: Vec<PatternRule>,
}

/// What a [`PatternCategory`] says.
pub struct CategoryView {
    pub severity: Severity,
    pub enabled: bool,
    pub rules: Seq<RuleView>,
}

impl View for PatternCategory {
    type V = CategoryView;

    open spec fn view(&self) -> CategoryView {
        CategoryView {
            severity: self.severity,
            enabled: self.enabled,
            rules: rule_views(self.rules@),
        }
    }
}

/// A category under its name.
#[derive(Debug, Clone)]
pub struct CategoryEntry {
    pub name: String,
    pub category: PatternCategory,
}

/// What the entries of a list say: each name with its category.
pub open spec fn entry_views(entries: Seq<CategoryEntry>) -> Seq<(Seq<char>, CategoryView)> {
    entries.map_values(|e: CategoryEntry| (e.name@, e.category@))
}

/// Path filtering configuration.
#[derive(Debug, Clone)]
pub struct PathConfig {
    /// Ordered include and exclude patterns.
    pub patterns: Vec<String>,
    /// Name of the ignore files to honour, if any.
    pub ignore_file: Option<String>,
}

/// The configuration of a run. Categories are kept in the order in which they
/// were added, each name once.
#[derive(Debug, Clone)]
pub struct GuardianConfig {
    /// Configuration format version.
    pub version: String,
    pub paths: PathConfig,
    pub patterns: Vec<CategoryEntry>,
}

/// What a [`GuardianConfig`] says.
pub struct ConfigView {
    pub version: Seq<char>,
    pub path_patterns: Seq<Seq<char>>,
    pub ignore_file: Option<Seq<char>>,
    pub categories: Seq<(Seq<char>, CategoryView)>,
}

impl View for GuardianConfig {
    type V = ConfigView;

    open spec fn view(&self) -> ConfigView {
        ConfigView {
            version: self.version@,
            path_patterns: string_texts(self.paths.patterns@),
            ignore_file: opt_text(self.paths.ignore_file),
            categories: entry_views(self.patterns@),
        }
    }
}

// ---------------------------------------------------------------------------
// Validity
// ---------------------------------------------------------------------------

/// The only supported configuration version.
pub open spec fn supported_version() -> Seq<char> {
    "1.0"@
}

/// The identifier of rule `i` occurs at another position of the list too.
pub open spec fn id_is_repeated(rules: Seq<RuleView>, i: int) -> bool {
    exists|j: int| 0 <= j < rules.len() && j != i && #[trigger] rules[j].id == rules[i].id
}

/// A rule whose pattern is a regular expression that cannot be compiled.
pub open spec fn has_bad_regex(rule: RuleView) -> bool {
    rule.rule_type == RuleType::Regex && !regex_compiles(rule.pattern, !rule.case_sensitive)
}

/// Every rule of the list has its own identifier and a pattern that compiles.
pub open spec fn rules_are_valid(rules: Seq<RuleView>) -> bool {
    forall|i: int|
        0 <= i < rules.len() ==> !id_is_repeated(rules, i) && !has_bad_regex(#[trigger] rules[i])
}

/// The version is supported and every category holds valid rules.
pub open spec fn config_is_valid(c: ConfigView) -> bool {
    &&& c.version == supported_version()
    &&& forall|k: int|
        0 <= k < c.categories.len() ==> rules_are_valid((#[trigger] c.categories[k]).1.rules)
}

/// The message for an unsupported version.
pub open spec fn version_message(version: Seq<char>) -> Seq<char> {
    "Unsupported configuration version: "@ + version + ". Supported versions: 1.0"@
}

/// The message for a repeated rule identifier.
pub open spec fn duplicate_message(id: Seq<char>, category: Seq<char>) -> Seq<char> {
    "Duplicate rule ID '"@ + id + "' in category '"@ + category + "'"@
}

/// How the message for a regular expression that does not compile begins; what
/// follows is the reason that the expression library gives.
pub open spec fn bad_regex_lead(id: Seq<char>) -> Seq<char> {
    "Invalid regex pattern in rule '"@ + id + "': "@
}

/// Whether the rules before position `(k, i)` are all valid: those of the
/// categories before `k`, and those before `i` in category `k`.
pub open spec fn valid_before(c: ConfigView, k: int, i: int) -> bool {
    &&& forall|a: int| 0 <= a < k ==> rules_are_valid((#[trigger] c.categories[a]).1.rules)
    &&& forall|x: int|
        0 <= x < i ==> !id_is_repeated(c.categories[k].1.rules, x) && !has_bad_regex(
            #[trigger] c.categories[k].1.rules[x],
        )
}

/// Whether `message` tells what is wrong with the rule at position `(k, i)`: its
/// identifier is repeated, or else its regular expression does not compile.
pub open spec fn tells_problem(c: ConfigView, k: int, i: int, message: Seq<char>) -> bool {
    let rules = c.categories[k].1.rules;
    if id_is_repeated(rules, i) {
        message == duplicate_message(rules[i].id, c.categories[k].0)
    } else {
        has_bad_regex(rules[i]) && crate::text::has_prefix(message, bad_regex_lead(rules[i].id))
    }
}

/// Whether `message` tells why a configuration is not valid: it names the
/// unsupported version, or else it tells what is wrong with the first rule
/// that is not valid.
pub open spec fn tells_why_invalid(c: ConfigView, message: Seq<char>) -> bool {
    if c.version != supported_version() {
        message == version_message(c.version)
    } else {
        exists|k: int, i: int|
            0 <= k < c.categories.len() && 0 <= i < c.categories[k].1.rules.len() && valid_before(
                c,
                k,
                i,
            ) && #[trigger] tells_problem(c, k, i, message)
    }
}

/// The severity that applies to a rule of a category.
pub open spec fn severity_in(category: CategoryView, rule: RuleView) -> Severity {
    match rule.severity {
        Some(s) => s,
        None => category.severity,
    }
}

/// The positions `(category, rule)` of the enabled rules of the first `k`
/// categories, in order. A rule is enabled when it and its category are.
pub open spec fn enabled_positions(categories: Seq<(Seq<char>, CategoryView)>, k: int) -> Seq<
    (int, int),
>
    decreases k,
{
    if k <= 0 {
        Seq::<(int, int)>::empty()
    } else {
        enabled_positions(categories, k - 1) + (if categories[k - 1].1.enabled {
            enabled_in(categories[k - 1].1.rules, k - 1, categories[k - 1].1.rules.len() as int)
        } else {
            Seq::<(int, int)>::empty()
        })
    }
}

/// The positions of the enabled rules among the first `n` rules of category `k`.
pub open spec fn enabled_in(rules: Seq<RuleView>, k: int, n: int) -> Seq<(int, int)>
    decreases n,
{
    if n <= 0 {
        Seq::<(int, int)>::empty()
    } else if rules[n - 1].enabled {
        enabled_in(rules, k, n - 1).push((k, n - 1))
    } else {
        enabled_in(rules, k, n - 1)
    }
}

/// Positions held by a vector, as mathematical integers.
pub open spec fn positions(v: Seq<(usize, usize)>) -> Seq<(int, int)> {
    v.map_values(|p: (usize, usize)| (p.0 as int, p.1 as int))
}

/// The position of the category called `name`, if there is one.
pub open spec fn category_index(categories: Seq<(Seq<char>, CategoryView)>, name: Seq<char>)
    -> Option<int> {
    if exists|k: int| 0 <= k < categories.len() && (#[trigger] categories[k]).0 == name {
        Some(choose|k: int| 0 <= k < categories.len() && (#[trigger] categories[k]).0 == name)
    } else {
        None
    }
}

/// Every category name occurs once.
pub open spec fn names_are_distinct(categories: Seq<(Seq<char>, CategoryView)>) -> bool {
    forall|a: int, b: int|
        0 <= a < b < categories.len() ==> (#[trigger] categories[a]).0 != (
        #[trigger] categories[b]).0
}

/// Appends pieces of text to `out`.
fn push_text(out: &mut Vec<char>, s: &str)
    ensures
        final(out)@ == old(out)@ + s@,
{
    let v = chars_of(s);
    append(out, v.as_slice());
}

impl GuardianConfig {
    /// No category name occurs twice.
    pub open spec fn wf(&self) -> bool {
        names_are_distinct(self@.categories)
    }

    /// The position of the category called `name`.
    pub fn find_category(&self, name: &str) -> (r: Option<usize>)
        ensures
            match r {
                Some(k) => k < self.patterns@.len() && self.patterns@[k as int].name@ == name@
                    && forall|j: int| 0 <= j < k ==> self.patterns@[j].name@ != name@,
                None => forall|j: int|
                    0 <= j < self.patterns@.len() ==> self.patterns@[j].name@ != name@,
            },
    {
        let mut k: usize = 0;
        while k < self.patterns.len()
            invariant
                k <= self.patterns.len(),
                forall|j: int| 0 <= j < k ==> self.patterns@[j].name@ != name@,
            decreases self.patterns.len() - k,
        {
            if same_text(self.patterns[k].name.as_str(), name) {
                return Some(k);
            }
            k += 1;
        }
        None
    }

    /// Whether the rule at position `i` shares its identifier with another rule
    /// of the list.
    pub fn id_repeats(rules: &Vec<PatternRule>, i: usize) -> (b: bool)
        requires
            i < rules@.len(),
        ensures
            b == id_is_repeated(rule_views(rules@), i as int),
    {
        let mut j: usize = 0;
        while j < rules.len()
            invariant
                j <= rules.len(),
                i < rules@.len(),
                forall|k: int| 0 <= k < j && k != i ==> rules@[k].id@ != rules@[i as int].id@,
            decreases rules.len() - j,
        {
            if j != i && same_text(rules[j].id.as_str(), rules[i].id.as_str()) {
                assert(rule_views(rules@)[j as int].id == rule_views(rules@)[i as int].id);
                return true;
            }
            j += 1;
        }
        assert forall|k: int| 0 <= k < rules@.len() && k != i implies #[trigger] rule_views(
            rules@,
        )[k].id != rule_views(rules@)[i as int].id by {}
        false
    }

    /// Checks the configuration: the version is supported, no category holds two
    /// rules with one identifier, and every regular expression compiles.
    pub fn validate(&self) -> (r: Result<(), GuardianError>)
        ensures
            r is Ok <==> config_is_valid(self@),
            r matches Err(e) ==> e@ is Configuration,
            r matches Err(e) ==> (self@.version != supported_version() ==> e@
                == ErrorView::Configuration { message: version_message(self@.version) }),
            r matches Err(GuardianError::Configuration { message }) ==> self@.version
                == supported_version() ==> exists|k: int, i: int|
                0 <= k < self@.categories.len() && 0 <= i < self@.categories[k].1.rules.len()
                    && valid_before(self@, k, i) && #[trigger] tells_problem(self@, k, i, message@),
            r matches Err(GuardianError::Configuration { message }) ==> tells_why_invalid(
                self@,
                message@,
            ),
    {
        if !same_text(self.version.as_str(), "1.0") {
            let mut out = chars_of("Unsupported configuration version: ");
            push_text(&mut out, self.version.as_str());
            push_text(&mut out, ". Supported versions: 1.0");
            let message = string_of(out.as_slice());
            return Err(GuardianError::config(message.as_str()));
        }
        let mut k: usize = 0;
        while k < self.patterns.len()
            invariant
                k <= self.patterns.len(),
                self@.version == supported_version(),
                forall|c: int|
                    0 <= c < k ==> rules_are_valid((#[trigger] self@.categories[c]).1.rules),
            decreases self.patterns.len() - k,
        {
            let entry = &self.patterns[k];
            let rules = &entry.category.rules;
            let ghost views = rule_views(rules@);
            assert(self@.categories[k as int].1.rules == views);
            assert(self@.categories[k as int].0 == entry.name@);
            let mut i: usize = 0;
            while i < rules.len()
                invariant
                    i <= rules.len(),
                    k < self.patterns@.len(),
                    self@.version == supported_version(),
                    views == rule_views(rules@),
                    self@.categories[k as int].1.rules == views,
                    self@.categories[k as int].0 == entry.name@,
                    forall|c: int|
                        0 <= c < k ==> rules_are_valid((#[trigger] self@.categories[c]).1.rules),
                    forall|x: int|
                        0 <= x < i ==> !id_is_repeated(views, x) && !has_bad_regex(
                            #[trigger] views[x],
                        ),
                decreases rules.len() - i,
            {
                let rule = &rules[i];
                assert(views[i as int] == rule@);
                if GuardianConfig::id_repeats(rules, i) {
                    let mut out = chars_of("Duplicate rule ID '");
                    push_text(&mut out, rule.id.as_str());
                    push_text(&mut out, "' in category '");
                    push_text(&mut out, entry.name.as_str());
                    push_text(&mut out, "'");
                    let message = string_of(out.as_slice());
                    assert(!rules_are_valid(views));
                    assert(message@ =~= duplicate_message(rule@.id, entry.name@));
                    assert(self@.categories[k as int].0 == entry.name@);
                    assert(valid_before(self@, k as int, i as int));
                    assert(tells_problem(self@, k as int, i as int, message@));
                    return Err(GuardianError::config(message.as_str()));
                }
                if matches!(rule.rule_type, RuleType::Regex) {
                    match Expression::compile(rule.pattern.as_str(), !rule.case_sensitive) {
                        Ok(_) => {},
                        Err(e) => {
                            let mut out = chars_of("Invalid regex pattern in rule '");
                            push_text(&mut out, rule.id.as_str());
                            push_text(&mut out, "': ");
                            let ghost lead = out@;
                            let detail = e.to_string();
                            push_text(&mut out, detail.as_str());
                            let message = string_of(out.as_slice());
                            assert(has_bad_regex(views[i as int]));
                            assert(!rules_are_valid(views));
                            assert(lead =~= bad_regex_lead(rule@.id));
                            assert(message@.subrange(0, lead.len() as int) =~= lead);
                            assert(valid_before(self@, k as int, i as int));
                            assert(tells_problem(self@, k as int, i as int, message@));
                            return Err(GuardianError::config(message.as_str()));
                        },
                    }
                }
                i += 1;
            }
            k += 1;
        }
        Ok(())
    }

    /// The positions `(category, rule)` of all enabled rules, category by
    /// category in order.
    pub fn enabled_rules(&self) -> (out: Vec<(usize, usize)>)
        ensures
            positions(out@) == enabled_positions(self@.categories, self@.categories.len() as int),
    {
        let mut out: Vec<(usize, usize)> = Vec::new();
        let ghost cats = self@.categories;
        let mut k: usize = 0;
        assert(positions(out@) =~= enabled_positions(cats, 0));
        while k < self.patterns.len()
            invariant
                k <= self.patterns.len(),
                cats == self@.categories,
                positions(out@) == enabled_positions(cats, k as int),
            decreases self.patterns.len() - k,
        {
            let category = &self.patterns[k].category;
            let ghost rules = rule_views(category.rules@);
            assert(cats[k as int].1.rules == rules);
            assert(cats[k as int].1.enabled == category.enabled);
            if category.enabled {
                let ghost base = positions(out@);
                let mut i: usize = 0;
                assert(positions(out@) =~= base + enabled_in(rules, k as int, 0));
                while i < category.rules.len()
                    invariant
                        i <= category.rules.len(),
                        rules == rule_views(category.rules@),
                        positions(out@) == base + enabled_in(rules, k as int, i as int),
                    decreases category.rules.len() - i,
                {
                    assert(rules[i as int] == category.rules@[i as int]@);
                    if category.rules[i].enabled {
                        assert(positions(out@.push((k, i))) =~= positions(out@).push(
                            (k as int, i as int),
                        ));
                        out.push((k, i));
                    }
                    i += 1;
                    assert(positions(out@) =~= base + enabled_in(rules, k as int, i as int));
                }
            } else {
                assert(positions(out@) + Seq::<(int, int)>::empty() =~= positions(out@));
            }
            k += 1;
        }
        out
    }

    /// The severity that applies to a rule: its own, or else the category's.
    pub fn effective_severity(&self, category: &PatternCategory, rule: &PatternRule) -> (s:
        Severity)
        ensures
            s == severity_in(category@, rule@),
    {
        match rule.severity {
            Some(s) => s,
            None => category.severity,
        }
    }
}

} // verus!
