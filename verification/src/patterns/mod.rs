//! The pattern engine: compiled rules and their evaluation against one file.

pub mod checks;
pub mod descriptors;
pub mod expression;
pub mod location;
pub mod matching;
pub mod outline;
pub mod path_filter;
pub mod registry;
pub mod structural;
pub mod validation;

pub use crate::patterns::matching::PatternMatch;
pub use crate::patterns::path_filter::PathFilter;


use vstd::prelude::*;
use crate::bindings::{regex_compiles, regex_spans};
use crate::config::{opt_exclude, ExcludeConditions, ExcludeView, PatternRule, RuleType, RuleView};
use crate::domain::violations::{opt_text, GuardianError, Severity, Violation, ViolationView};
use crate::paths::{is_rust_path, rust_path};
use crate::patterns::checks::{concat2, concat3};
use crate::patterns::expression::Expression;
use crate::patterns::descriptors::{
    parse_ast_pattern, parse_semantic_pattern, parsed_ast, parsed_semantic,
};
use crate::patterns::matching::{
    excluded_by_path, match_views, matches_from_findings, matches_from_spans,
    reported_text_matches, should_exclude_match, structural_matches, MatchView, RuleHead,
};
use crate::patterns::outline::finding_views;
use crate::patterns::structural::{findings, structural_findings, AstPatternType, CheckView};
use crate::syntax::{SyntaxNode, SyntaxTree};
use crate::text::{chars_of, contains, contains_text, same_text};

verus! {

/// A compiled text rule.
#[derive(Debug)]
pub struct CompiledRegex {
    pub regex: Expression,
    pub rule_id: String,
    pub message_template: String,
    pub severity: Severity,
    pub exclude_conditions: Option<ExcludeConditions>,
}

/// A compiled structural rule.
#[derive(Debug)]
pub struct AstPattern {
    pub pattern_type: AstPatternType,
    pub rule_id: String,
    pub message_template: String,
    pub severity: Severity,
    pub exclude_conditions: Option<ExcludeConditions>,
}

/// What a [`CompiledRegex`] says.
pub struct TextRuleView {
    pub head: RuleHead,
    pub exclude: Option<ExcludeView>,
    pub pattern: Seq<char>,
    pub fold_case: bool,
}

/// What an [`AstPattern`] says.
pub struct StructuralRuleView {
    pub head: RuleHead,
    pub exclude: Option<ExcludeView>,
    pub check: CheckView,
}

impl View for CompiledRegex {
    type V = TextRuleView;

    open spec fn view(&self) -> TextRuleView {
        TextRuleView {
            head: RuleHead {
                rule_id: self.rule_id@,
                template: self.message_template@,
                severity: self.severity,
            },
            exclude: opt_exclude(self.exclude_conditions),
            pattern: self.regex.source(),
            fold_case: self.regex.folds_case(),
        }
    }
}

impl View for AstPattern {
    type V = StructuralRuleView;

    open spec fn view(&self) -> StructuralRuleView {
        StructuralRuleView {
            head: RuleHead {
                rule_id: self.rule_id@,
                template: self.message_template@,
                severity: self.severity,
            },
            exclude: opt_exclude(self.exclude_conditions),
            check: self.pattern_type@,
        }
    }
}

/// The rules of an engine: text rules and structural rules, each list in the
/// order in which the rules were added.
pub struct EngineView {
    pub text: Seq<TextRuleView>,
    pub structural: Seq<StructuralRuleView>,
}

/// The engine: every rule compiled, ready to be evaluated on files.
#[derive(Debug)]
pub struct PatternEngine {
    pub regex_patterns: Vec<CompiledRegex>,
    pub ast_patterns: Vec<AstPattern>,
}

impl View for PatternEngine {
    type V = EngineView;

    open spec fn view(&self) -> EngineView {
        EngineView {
            text: self.regex_patterns@.map_values(|r: CompiledRegex| r@),
            structural: self.ast_patterns@.map_values(|r: AstPattern| r@),
        }
    }
}

/// No identifier stands for two text rules, and none for two structural rules.
pub open spec fn distinct_ids(e: EngineView) -> bool {
    &&& forall|i: int, j: int|
        0 <= i < j < e.text.len() ==> (#[trigger] e.text[i]).head.rule_id != (
        #[trigger] e.text[j]).head.rule_id
    &&& forall|i: int, j: int|
        0 <= i < j < e.structural.len() ==> (#[trigger] e.structural[i]).head.rule_id != (
        #[trigger] e.structural[j]).head.rule_id
}

impl PatternEngine {
    /// Each rule of a kind has an identifier of its own.
    pub open spec fn wf(&self) -> bool {
        distinct_ids(self@)
    }
}

// ---------------------------------------------------------------------------
// Adding rules
// ---------------------------------------------------------------------------

/// The position of the first text rule with the given identifier, if any.
pub open spec fn text_rule_index(rules: Seq<TextRuleView>, id: Seq<char>) -> Option<int> {
    if exists|k: int| 0 <= k < rules.len() && (#[trigger] rules[k]).head.rule_id == id {
        Some(
            choose|k: int|
                0 <= k < rules.len() && (#[trigger] rules[k]).head.rule_id == id && forall|j: int|
                    0 <= j < k ==> (#[trigger] rules[j]).head.rule_id != id,
        )
    } else {
        None
    }
}

/// The position of the first structural rule with the given identifier, if any.
pub open spec fn structural_rule_index(rules: Seq<StructuralRuleView>, id: Seq<char>) -> Option<
    int,
> {
    if exists|k: int| 0 <= k < rules.len() && (#[trigger] rules[k]).head.rule_id == id {
        Some(
            choose|k: int|
                0 <= k < rules.len() && (#[trigger] rules[k]).head.rule_id == id && forall|j: int|
                    0 <= j < k ==> (#[trigger] rules[j]).head.rule_id != id,
        )
    } else {
        None
    }
}

/// The text rules after `rule` was put in: in place of the first rule with its
/// identifier, or else behind all others.
pub open spec fn put_text(rules: Seq<TextRuleView>, rule: TextRuleView) -> Seq<TextRuleView> {
    match text_rule_index(rules, rule.head.rule_id) {
        Some(k) => rules.update(k, rule),
        None => rules.push(rule),
    }
}

/// The structural rules after `rule` was put in.
pub open spec fn put_structural(rules: Seq<StructuralRuleView>, rule: StructuralRuleView) -> Seq<
    StructuralRuleView,
> {
    match structural_rule_index(rules, rule.head.rule_id) {
        Some(k) => rules.update(k, rule),
        None => rules.push(rule),
    }
}

/// The structural check that a rule's pattern names, or the message that says
/// why it names none. Rules with regular expressions name no check.
pub open spec fn named_check(rule: RuleView) -> Result<CheckView, Seq<char>> {
    match rule.rule_type {
        RuleType::Regex => Err(""@),
        RuleType::Ast => parsed_ast(rule.pattern, rule.id),
        RuleType::Semantic => parsed_semantic(rule.pattern, rule.id),
        RuleType::ImportAnalysis => parsed_semantic(rule.pattern, rule.id),
    }
}

/// Whether a rule can be compiled: its regular expression compiles, or its
/// pattern text names a structural check.
pub open spec fn rule_compiles(rule: RuleView) -> bool {
    match rule.rule_type {
        RuleType::Regex => regex_compiles(rule.pattern, !rule.case_sensitive),
        _ => named_check(rule) is Ok,
    }
}

/// How the message for a regular expression that does not compile begins: it
/// names the pattern and the rule; what follows is the reason that the
/// expression library gives.
pub open spec fn invalid_regex_lead(rule: RuleView) -> Seq<char> {
    "Invalid regex '"@ + rule.pattern + "' in rule '"@ + rule.id + "': "@
}

/// What a rule carries besides its matcher, under a given severity.
pub open spec fn head_of(rule: RuleView, severity: Severity) -> RuleHead {
    RuleHead { rule_id: rule.id, template: rule.message, severity }
}

/// The engine after a rule that compiles was added under a given severity.
pub open spec fn with_rule(e: EngineView, rule: RuleView, severity: Severity) -> EngineView {
    match rule.rule_type {
        RuleType::Regex => EngineView {
            text: put_text(
                e.text,
                TextRuleView {
                    head: head_of(rule, severity),
                    exclude: rule.exclude_if,
                    pattern: rule.pattern,
                    fold_case: !rule.case_sensitive,
                },
            ),
            structural: e.structural,
        },
        _ => EngineView {
            text: e.text,
            structural: put_structural(
                e.structural,
                StructuralRuleView {
                    head: head_of(rule, severity),
                    exclude: rule.exclude_if,
                    check: named_check(rule)->Ok_0,
                },
            ),
        },
    }
}

/// A copy of optional exclusion conditions.
pub fn copy_conditions(c: &Option<ExcludeConditions>) -> (r: Option<ExcludeConditions>)
    ensures
        opt_exclude(r) == opt_exclude(*c),
{
    match c {
        Some(c) => {
            let file_patterns = match &c.file_patterns {
                Some(ps) => {
                    let mut copy: Vec<String> = Vec::new();
                    let mut k: usize = 0;
                    while k < ps.len()
                        invariant
                            k <= ps.len(),
                            copy@ == ps@.take(k as int),
                        decreases ps.len() - k,
                    {
                        copy.push(ps[k].clone());
                        assert(copy@ =~= ps@.take(k + 1));
                        k += 1;
                    }
                    assert(copy@ =~= ps@);
                    Some(copy)
                },
                None => None,
            };
            Some(
                ExcludeConditions {
                    attribute: crate::domain::violations::copy_opt_text(&c.attribute),
                    in_tests: c.in_tests,
                    file_patterns,
                },
            )
        },
        None => None,
    }
}

impl PatternEngine {
    /// An engine without rules.
    pub fn new() -> (e: PatternEngine)
        ensures
            e@.text.len() == 0,
            e@.structural.len() == 0,
            e.wf(),
    {
        PatternEngine { regex_patterns: Vec::new(), ast_patterns: Vec::new() }
    }

    fn find_text_rule(&self, id: &str) -> (r: Option<usize>)
        ensures
            match r {
                Some(k) => text_rule_index(self@.text, id@) == Some(k as int) && k
                    < self.regex_patterns@.len(),
                None => text_rule_index(self@.text, id@) is None,
            },
    {
        let ghost rules = self@.text;
        let mut k: usize = 0;
        while k < self.regex_patterns.len()
            invariant
                k <= self.regex_patterns.len(),
                rules == self@.text,
                forall|j: int| 0 <= j < k ==> (#[trigger] rules[j]).head.rule_id != id@,
            decreases self.regex_patterns.len() - k,
        {
            assert(rules[k as int] == self.regex_patterns@[k as int]@);
            if same_text(self.regex_patterns[k].rule_id.as_str(), id) {
                proof {
                    let chosen = text_rule_index(rules, id@)->0;
                    if chosen < k {
                        assert(rules[chosen].head.rule_id != id@);
                    } else if k < chosen {
                        assert(rules[k as int].head.rule_id != id@);
                    }
                }
                return Some(k);
            }
            k += 1;
        }
        None
    }

    fn find_structural_rule(&self, id: &str) -> (r: Option<usize>)
        ensures
            match r {
                Some(k) => structural_rule_index(self@.structural, id@) == Some(k as int) && k
                    < self.ast_patterns@.len(),
                None => structural_rule_index(self@.structural, id@) is None,
            },
    {
        let ghost rules = self@.structural;
        let mut k: usize = 0;
        while k < self.ast_patterns.len()
            invariant
                k <= self.ast_patterns.len(),
                rules == self@.structural,
                forall|j: int| 0 <= j < k ==> (#[trigger] rules[j]).head.rule_id != id@,
            decreases self.ast_patterns.len() - k,
        {
            assert(rules[k as int] == self.ast_patterns@[k as int]@);
            if same_text(self.ast_patterns[k].rule_id.as_str(), id) {
                proof {
                    let chosen = structural_rule_index(rules, id@)->0;
                    if chosen < k {
                        assert(rules[chosen].head.rule_id != id@);
                    } else if k < chosen {
                        assert(rules[k as int].head.rule_id != id@);
                    }
                }
                return Some(k);
            }
            k += 1;
        }
        None
    }

    fn put_structural_rule(&mut self, rule: &PatternRule, severity: Severity, check: AstPatternType)
        requires
            rule.rule_type != RuleType::Regex,
            named_check(rule@) == Ok::<CheckView, Seq<char>>(check@),
        ensures
            final(self)@ == with_rule(old(self)@, rule@, severity),
    {
        let compiled = AstPattern {
            pattern_type: check,
            rule_id: rule.id.clone(),
            message_template: rule.message.clone(),
            severity,
            exclude_conditions: copy_conditions(&rule.exclude_if),
        };
        let ghost before = self@.structural;
        match self.find_structural_rule(rule.id.as_str()) {
            Some(k) => {
                self.ast_patterns.set(k, compiled);
                assert(self@.structural =~= before.update(k as int, compiled@));
            },
            None => {
                self.ast_patterns.push(compiled);
                assert(self@.structural =~= before.push(compiled@));
            },
        }
        assert(self@.text =~= old(self)@.text);
    }

    /// Compiles a rule and adds it to the engine under the given severity. A
    /// rule with the identifier of an earlier rule of its kind takes its place.
    /// A rule that does not compile leaves the engine as it was, and the
    /// message of the error names the rule.
    pub fn add_rule(&mut self, rule: &PatternRule, effective_severity: Severity) -> (r: Result<
        (),
        GuardianError,
    >)
        ensures
            r is Ok <==> rule_compiles(rule@),
            r is Ok ==> final(self)@ == with_rule(old(self)@, rule@, effective_severity),
            old(self).wf() ==> final(self).wf(),
            r matches Err(e) ==> final(self)@ == old(self)@ && e is Pattern,
            r matches Err(e) ==> rule.rule_type != RuleType::Regex ==> e@
                == (crate::domain::violations::ErrorView::Pattern {
                message: named_check(rule@)->Err_0,
            }),
            r matches Err(GuardianError::Pattern { message }) ==> rule.rule_type == RuleType::Regex
                ==> crate::text::has_prefix(message@, invalid_regex_lead(rule@)),
    {
        proof {
            if old(self).wf() {
                lemma_with_rule_distinct(old(self)@, rule@, effective_severity);
            }
        }
        match rule.rule_type {
            RuleType::Regex => {
                let regex = match Expression::compile(rule.pattern.as_str(), !rule.case_sensitive) {
                    Ok(re) => re,
                    Err(e) => {
                        let named = concat3("Invalid regex '", rule.pattern.as_str(), "' in rule '");
                        let head = concat3(named.as_str(), rule.id.as_str(), "': ");
                        let detail = e.to_string();
                        let message = concat2(head.as_str(), detail.as_str());
                        assert(head@ =~= invalid_regex_lead(rule@));
                        assert(message@.subrange(0, head@.len() as int) =~= head@);
                        return Err(GuardianError::Pattern { message });
                    },
                };
                let compiled = CompiledRegex {
                    regex,
                    rule_id: rule.id.clone(),
                    message_template: rule.message.clone(),
                    severity: effective_severity,
                    exclude_conditions: copy_conditions(&rule.exclude_if),
                };
                let ghost before = self@.text;
                match self.find_text_rule(rule.id.as_str()) {
                    Some(k) => {
                        self.regex_patterns.set(k, compiled);
                        assert(self@.text =~= before.update(k as int, compiled@));
                    },
                    None => {
                        self.regex_patterns.push(compiled);
                        assert(self@.text =~= before.push(compiled@));
                    },
                }
                assert(self@.structural =~= old(self)@.structural);
                Ok(())
            },
            RuleType::Ast => {
                match parse_ast_pattern(rule.pattern.as_str(), rule.id.as_str()) {
                    Ok(check) => {
                        self.put_structural_rule(rule, effective_severity, check);
                        Ok(())
                    },
                    Err(e) => Err(e),
                }
            },
            RuleType::Semantic | RuleType::ImportAnalysis => {
                match parse_semantic_pattern(rule.pattern.as_str(), rule.id.as_str()) {
                    Ok(check) => {
                        self.put_structural_rule(rule, effective_severity, check);
                        Ok(())
                    },
                    Err(e) => Err(e),
                }
            },
        }
    }
}

/// Adding a rule leaves each identifier with one rule of its kind.
pub proof fn lemma_with_rule_distinct(e: EngineView, rule: RuleView, severity: Severity)
    requires
        distinct_ids(e),
    ensures
        distinct_ids(with_rule(e, rule, severity)),
{
    let after = with_rule(e, rule, severity);
    assert forall|i: int, j: int| 0 <= i < j < after.text.len() implies (#[trigger] after.text[i]).head.rule_id
        != (#[trigger] after.text[j]).head.rule_id by {
        if rule.rule_type == RuleType::Regex {
            if text_rule_index(e.text, rule.id) is Some {
                assert(after.text[i].head.rule_id == e.text[i].head.rule_id);
                assert(after.text[j].head.rule_id == e.text[j].head.rule_id);
            } else {
                assert(after.text[i] == e.text[i]);
                if j < e.text.len() {
                    assert(after.text[j] == e.text[j]);
                }
            }
        }
    }
    assert forall|i: int, j: int| 0 <= i < j < after.structural.len() implies (
    #[trigger] after.structural[i]).head.rule_id != (#[trigger] after.structural[j]).head.rule_id by {
        if rule.rule_type != RuleType::Regex {
            if structural_rule_index(e.structural, rule.id) is Some {
                assert(after.structural[i].head.rule_id == e.structural[i].head.rule_id);
                assert(after.structural[j].head.rule_id == e.structural[j].head.rule_id);
            } else {
                assert(after.structural[i] == e.structural[i]);
                if j < e.structural.len() {
                    assert(after.structural[j] == e.structural[j]);
                }
            }
        }
    }
}

impl Default for PatternEngine {
    fn default() -> (e: PatternEngine)
        ensures
            e@.text.len() == 0,
            e@.structural.len() == 0,
            e.wf(),
    {
        PatternEngine::new()
    }
}

// ---------------------------------------------------------------------------
// Evaluation
// ---------------------------------------------------------------------------

/// The text that marks a file as carrying an architectural header.
pub open spec fn header_marker() -> Seq<char> {
    "Architectural Principle:"@
}

/// The match that reports a file without an architectural header.
pub open spec fn header_match(head: RuleHead, path: Seq<char>) -> MatchView {
    MatchView {
        rule_id: head.rule_id,
        file_path: path,
        line_number: Some(1),
        column_number: Some(1),
        matched_text: ""@,
        message: head.template,
        severity: head.severity,
        context: None,
    }
}

/// The attribute marker of optional exclusion conditions.
pub open spec fn marker_of(exclude: Option<ExcludeView>) -> Option<Seq<char>> {
    match exclude {
        Some(c) => c.attribute,
        None => None,
    }
}

/// What a text rule reports for a file.
pub open spec fn text_rule_report(rule: TextRuleView, path: Seq<char>, content: Seq<char>) -> Seq<
    MatchView,
> {
    reported_text_matches(
        rule.head,
        rule.exclude,
        path,
        content,
        regex_spans(rule.pattern, rule.fold_case, content),
    )
}

/// What a structural rule reports for a file with the given syntax tree:
/// nothing when its conditions exclude the file. Else the header rule looks at
/// the text alone, and every other rule reports one match for each finding
/// outside the code that carries its attribute marker.
pub open spec fn structural_rule_report(
    rule: StructuralRuleView,
    path: Seq<char>,
    content: Seq<char>,
    nodes: Seq<SyntaxNode>,
) -> Seq<MatchView> {
    if excluded_by_path(rule.exclude, path) {
        Seq::<MatchView>::empty()
    } else if rule.check is MissingArchitecturalHeader {
        if contains_text(content, header_marker()) {
            Seq::<MatchView>::empty()
        } else {
            seq![header_match(rule.head, path)]
        }
    } else {
        let fs = findings(nodes, rule.check, marker_of(rule.exclude), nodes.len() as int);
        structural_matches(rule.head, rule.check, path, fs, fs.len() as int)
    }
}

/// What the first `n` text rules report, rule by rule.
pub open spec fn text_report(rules: Seq<TextRuleView>, path: Seq<char>, content: Seq<char>, n: int)
    -> Seq<MatchView>
    decreases n,
{
    if n <= 0 {
        Seq::<MatchView>::empty()
    } else {
        text_report(rules, path, content, n - 1) + text_rule_report(rules[n - 1], path, content)
    }
}

/// What the first `n` structural rules report, rule by rule.
pub open spec fn structural_report(
    rules: Seq<StructuralRuleView>,
    path: Seq<char>,
    content: Seq<char>,
    nodes: Seq<SyntaxNode>,
    n: int,
) -> Seq<MatchView>
    decreases n,
{
    if n <= 0 {
        Seq::<MatchView>::empty()
    } else {
        structural_report(rules, path, content, nodes, n - 1) + structural_rule_report(
            rules[n - 1],
            path,
            content,
            nodes,
        )
    }
}

/// What an engine reports for a file: the matches of its text rules, then, for a
/// Rust file whose syntax tree is at hand, the matches of its structural rules.
pub open spec fn report(
    e: EngineView,
    path: Seq<char>,
    content: Seq<char>,
    tree: Option<Seq<SyntaxNode>>,
) -> Seq<MatchView> {
    text_report(e.text, path, content, e.text.len() as int) + (match tree {
        Some(nodes) => if is_rust_path(path) {
            structural_report(e.structural, path, content, nodes, e.structural.len() as int)
        } else {
            Seq::<MatchView>::empty()
        },
        None => Seq::<MatchView>::empty(),
    })
}

/// The nodes of an optional tree.
pub open spec fn tree_view(tree: Option<&SyntaxTree>) -> Option<Seq<SyntaxNode>> {
    match tree {
        Some(t) => Some(t@),
        None => None,
    }
}

/// The violation that reports a match, detected at the given time.
pub open spec fn violation_of(m: MatchView, detected_at: crate::bindings::Timestamp)
    -> ViolationView {
    ViolationView {
        rule_id: m.rule_id,
        severity: m.severity,
        file_path: m.file_path,
        line_number: if m.line_number is Some && m.column_number is Some {
            m.line_number
        } else {
            None
        },
        column_number: if m.line_number is Some && m.column_number is Some {
            m.column_number
        } else {
            None
        },
        message: m.message,
        context: m.context,
        suggested_fix: None,
        detected_at,
    }
}

impl PatternEngine {
    /// The matches of one text rule in a file.
    pub fn apply_regex_pattern(pattern: &CompiledRegex, file_path: &str, content: &str) -> (out:
        Vec<PatternMatch>)
        ensures
            match_views(out@) == text_rule_report(pattern@, file_path@, content@),
    {
        let spans = pattern.regex.find_all(content);
        matches_from_spans(
            pattern.rule_id.as_str(),
            pattern.message_template.as_str(),
            pattern.severity,
            &pattern.exclude_conditions,
            file_path,
            content,
            &spans,
        )
    }

    /// The matches of one structural rule in a file with the given syntax tree.
    pub fn apply_ast_pattern(
        pattern: &AstPattern,
        file_path: &str,
        content: &str,
        tree: &SyntaxTree,
    ) -> (out: Vec<PatternMatch>)
        ensures
            match_views(out@) == structural_rule_report(pattern@, file_path@, content@, tree@),
    {
        let mut out: Vec<PatternMatch> = Vec::new();
        if should_exclude_match(&pattern.exclude_conditions, file_path) {
            assert(match_views(out@) =~= Seq::<MatchView>::empty());
            return out;
        }
        if matches!(pattern.pattern_type, AstPatternType::MissingArchitecturalHeader) {
            let text = chars_of(content);
            let marker = chars_of("Architectural Principle:");
            if !contains(text.as_slice(), marker.as_slice()) {
                let m = PatternMatch {
                    rule_id: pattern.rule_id.clone(),
                    file_path: file_path.to_owned(),
                    line_number: Some(1),
                    column_number: Some(1),
                    matched_text: "".to_owned(),
                    message: pattern.message_template.clone(),
                    severity: pattern.severity,
                    context: None,
                };
                out.push(m);
                assert(match_views(out@) =~= seq![header_match(pattern@.head, file_path@)]);
            } else {
                assert(match_views(out@) =~= Seq::<MatchView>::empty());
            }
            return out;
        }
        let marker = match &pattern.exclude_conditions {
            Some(c) => crate::domain::violations::copy_opt_text(&c.attribute),
            None => None,
        };
        assert(opt_text(marker) == marker_of(pattern@.exclude));
        let found = structural_findings(tree, &pattern.pattern_type, &marker);
        assert(finding_views(found@).len() == found@.len());
        matches_from_findings(
            pattern.rule_id.as_str(),
            pattern.message_template.as_str(),
            pattern.severity,
            &pattern.pattern_type,
            file_path,
            &found,
        )
    }

    /// Evaluates every rule against one file. Structural rules are evaluated
    /// only for Rust files, and only when the file's syntax tree is at hand: a
    /// file that could not be parsed is assessed by its text alone.
    pub fn analyze_file(&self, file_path: &str, content: &str, tree: Option<&SyntaxTree>) -> (r:
        Result<Vec<PatternMatch>, GuardianError>)
        ensures
            r is Ok,
            match_views(r->Ok_0@) == report(self@, file_path@, content@, tree_view(tree)),
    {
        let ghost e = self@;
        let mut out: Vec<PatternMatch> = Vec::new();
        let mut i: usize = 0;
        assert(match_views(out@) =~= text_report(e.text, file_path@, content@, 0));
        while i < self.regex_patterns.len()
            invariant
                i <= self.regex_patterns.len(),
                e == self@,
                match_views(out@) == text_report(e.text, file_path@, content@, i as int),
            decreases self.regex_patterns.len() - i,
        {
            assert(e.text[i as int] == self.regex_patterns@[i as int]@);
            let mut here = PatternEngine::apply_regex_pattern(
                &self.regex_patterns[i],
                file_path,
                content,
            );
            let ghost before = out@;
            let ghost added = here@;
            out.append(&mut here);
            assert(match_views(before + added) =~= match_views(before) + match_views(added));
            i += 1;
        }
        let ghost from_text = match_views(out@);
        let path = chars_of(file_path);
        match tree {
            Some(t) => {
                if rust_path(path.as_slice()) {
                    let mut k: usize = 0;
                    assert(match_views(out@) =~= from_text + structural_report(
                        e.structural,
                        file_path@,
                        content@,
                        t@,
                        0,
                    ));
                    while k < self.ast_patterns.len()
                        invariant
                            k <= self.ast_patterns.len(),
                            e == self@,
                            match_views(out@) == from_text + structural_report(
                                e.structural,
                                file_path@,
                                content@,
                                t@,
                                k as int,
                            ),
                        decreases self.ast_patterns.len() - k,
                    {
                        assert(e.structural[k as int] == self.ast_patterns@[k as int]@);
                        let mut here = PatternEngine::apply_ast_pattern(
                            &self.ast_patterns[k],
                            file_path,
                            content,
                            t,
                        );
                        let ghost before = out@;
                        let ghost added = here@;
                        out.append(&mut here);
                        assert(match_views(before + added) =~= match_views(before) + match_views(
                            added,
                        ));
                        k += 1;
                    }
                } else {
                    assert(match_views(out@) =~= from_text + Seq::<MatchView>::empty());
                }
            },
            None => {
                assert(match_views(out@) =~= from_text + Seq::<MatchView>::empty());
            },
        }
        Ok(out)
    }

    /// Turns matches into violations, detected now. A match keeps its position
    /// only if it has both line and column.
    pub fn matches_to_violations(&self, matches: Vec<PatternMatch>) -> (out: Vec<Violation>)
        ensures
            out@.len() == matches@.len(),
            forall|i: int|
                0 <= i < out@.len() ==> (#[trigger] out@[i])@ == violation_of(
                    matches@[i]@,
                    out@[i].detected_at,
                ),
    {
        let mut out: Vec<Violation> = Vec::new();
        let mut i: usize = 0;
        while i < matches.len()
            invariant
                i <= matches.len(),
                out@.len() == i,
                forall|j: int|
                    0 <= j < i ==> (#[trigger] out@[j])@ == violation_of(
                        matches@[j]@,
                        out@[j].detected_at,
                    ),
            decreases matches.len() - i,
        {
            let m = &matches[i];
            let mut violation = Violation::new(
                m.rule_id.as_str(),
                m.severity,
                m.file_path.as_str(),
                m.message.as_str(),
            );
            match (m.line_number, m.column_number) {
                (Some(line), Some(column)) => {
                    violation = violation.with_position(line, column);
                },
                _ => {},
            }
            match &m.context {
                Some(context) => {
                    violation = violation.with_context(context.as_str());
                },
                None => {},
            }
            assert(violation@ == violation_of(m@, violation.detected_at));
            out.push(violation);
            i += 1;
        }
        out
    }
}

/// Two evaluations of one engine on one file report the same: positions and
/// matched texts agree, match by match.
pub proof fn lemma_evaluation_is_deterministic(
    e: EngineView,
    path: Seq<char>,
    content: Seq<char>,
    tree: Option<Seq<SyntaxNode>>,
    first: Seq<PatternMatch>,
    second: Seq<PatternMatch>,
)
    requires
        match_views(first) == report(e, path, content, tree),
        match_views(second) == report(e, path, content, tree),
    ensures
        first.len() == second.len(),
        forall|i: int|
            0 <= i < first.len() ==> {
                &&& (#[trigger] first[i]).line_number == second[i].line_number
                &&& first[i].column_number == second[i].column_number
                &&& first[i].matched_text@ == second[i].matched_text@
            },
{
    assert(match_views(first).len() == first.len());
    assert(match_views(second).len() == second.len());
    assert forall|i: int| 0 <= i < first.len() implies {
        &&& (#[trigger] first[i]).line_number == second[i].line_number
        &&& first[i].column_number == second[i].column_number
        &&& first[i].matched_text@ == second[i].matched_text@
    } by {
        assert(match_views(first)[i] == first[i]@);
        assert(match_views(second)[i] == second[i]@);
    }
}

} // verus!
