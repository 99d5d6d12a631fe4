//! The analyzer: which files are analyzed, and what is reported for each.

pub mod rust;

use vstd::prelude::*;
use crate::analyzer::rust::{agree, analysis, lemma_agree_joined, no_time, says, RustAnalyzer};
use crate::config::fingerprint::fingerprint_of;
use crate::config::{ConfigView, GuardianConfig, RuleType};
use crate::domain::violations::{
    opt_text, ErrorView, GuardianError, ValidationReport, Violation, ViolationView,
};
use crate::paths::is_rust_path;
use crate::patterns::checks::concat2;
use crate::patterns::matching::{match_views, MatchView};
use crate::patterns::path_filter::{
    all_compile, default_ignore_filename, lets_through, read_patterns, Candidate, FilterView,
    PathFilter,
};
use crate::patterns::registry::{can_compile, enabled, registry};
use crate::patterns::{report, tree_view, violation_of, EngineView, PatternEngine};
use crate::syntax::{SyntaxNode, SyntaxTree};
use crate::text::same_text;

verus! {

/// Options for one analysis.
#[derive(Debug, Clone)]
pub struct AnalysisOptions {
    /// Whether files may be analyzed side by side.
    pub parallel: bool,
    /// The largest number of files to analyze, if there is a limit.
    pub max_files: Option<usize>,
    /// Whether the first fault ends the run.
    pub fail_fast: bool,
    /// Further patterns of paths to leave out.
    pub exclude_patterns: Vec<String>,
    /// Whether ignore files are left unread.
    pub ignore_ignore_files: bool,
}

impl Default for AnalysisOptions {
    fn default() -> (o: AnalysisOptions)
        ensures
            o.parallel,
            o.max_files is None,
            !o.fail_fast,
            o.exclude_patterns@.len() == 0,
            !o.ignore_ignore_files,
    {
        AnalysisOptions {
            parallel: true,
            max_files: None,
            fail_fast: false,
            exclude_patterns: Vec::new(),
            ignore_ignore_files: false,
        }
    }
}

/// Statistics of the configured rules.
#[derive(Debug, Clone, Copy, PartialEq, Eq, Structural)]
pub struct PatternStats {
    pub enabled_categories: usize,
    pub disabled_categories: usize,
    pub enabled_rules: usize,
    pub disabled_rules: usize,
    pub regex_patterns: usize,
    pub ast_patterns: usize,
    pub semantic_patterns: usize,
    pub import_patterns: usize,
}

/// A sum that stops at the largest `usize`.
pub open spec fn capped_sum(a: usize, b: usize) -> usize {
    if a + b > usize::MAX {
        usize::MAX
    } else {
        (a + b) as usize
    }
}

fn capped_add(a: usize, b: usize) -> (r: usize)
    ensures
        r == capped_sum(a, b),
{
    if b > usize::MAX - a {
        usize::MAX
    } else {
        a + b
    }
}

impl PatternStats {
    /// The number of categories.
    pub fn total_categories(&self) -> (n: usize)
        ensures
            n == capped_sum(self.enabled_categories, self.disabled_categories),
    {
        capped_add(self.enabled_categories, self.disabled_categories)
    }

    /// The number of rules.
    pub fn total_rules(&self) -> (n: usize)
        ensures
            n == capped_sum(self.enabled_rules, self.disabled_rules),
    {
        capped_add(self.enabled_rules, self.disabled_rules)
    }
}

/// No rules counted.
pub open spec fn no_stats() -> PatternStats {
    PatternStats {
        enabled_categories: 0,
        disabled_categories: 0,
        enabled_rules: 0,
        disabled_rules: 0,
        regex_patterns: 0,
        ast_patterns: 0,
        semantic_patterns: 0,
        import_patterns: 0,
    }
}

/// The statistics after one more rule of an enabled category was counted.
pub open spec fn count_rule(s: PatternStats, rule: crate::config::RuleView) -> PatternStats {
    if !rule.enabled {
        PatternStats { disabled_rules: capped_sum(s.disabled_rules, 1), ..s }
    } else {
        let t = PatternStats { enabled_rules: capped_sum(s.enabled_rules, 1), ..s };
        match rule.rule_type {
            RuleType::Regex => PatternStats { regex_patterns: capped_sum(t.regex_patterns, 1), ..t },
            RuleType::Ast => PatternStats { ast_patterns: capped_sum(t.ast_patterns, 1), ..t },
            RuleType::Semantic => PatternStats {
                semantic_patterns: capped_sum(t.semantic_patterns, 1),
                ..t
            },
            RuleType::ImportAnalysis => PatternStats {
                import_patterns: capped_sum(t.import_patterns, 1),
                ..t
            },
        }
    }
}

/// The statistics after the first `n` rules of an enabled category were counted.
pub open spec fn count_rules(s: PatternStats, rules: Seq<crate::config::RuleView>, n: int)
    -> PatternStats
    decreases n,
{
    if n <= 0 {
        s
    } else {
        count_rule(count_rules(s, rules, n - 1), rules[n - 1])
    }
}

/// The statistics of the first `k` categories. The rules of a disabled category
/// all count as disabled.
pub open spec fn stats_of(c: ConfigView, k: int) -> PatternStats
    decreases k,
{
    if k <= 0 {
        no_stats()
    } else {
        let s = stats_of(c, k - 1);
        let category = c.categories[k - 1].1;
        if category.enabled {
            count_rules(
                PatternStats { enabled_categories: capped_sum(s.enabled_categories, 1), ..s },
                category.rules,
                category.rules.len() as int,
            )
        } else {
            PatternStats {
                disabled_categories: capped_sum(s.disabled_categories, 1),
                disabled_rules: capped_sum(s.disabled_rules, category.rules.len() as usize),
                ..s
            }
        }
    }
}

/// What is at hand of a file when it is analyzed.
#[derive(Debug)]
pub struct FileInput {
    pub candidate: Candidate,
    /// The text of the file, or the reason why it could not be read.
    pub content: Result<String, String>,
    /// The syntax tree of the file, if it is a source file that could be parsed.
    pub tree: Option<SyntaxTree>,
}

/// The violations that report the first `n` matches.
pub open spec fn violations_of(ms: Seq<MatchView>, n: int) -> Seq<ViolationView>
    decreases n,
{
    if n <= 0 {
        Seq::<ViolationView>::empty()
    } else {
        violations_of(ms, n - 1).push(violation_of(ms[n - 1], no_time()))
    }
}

/// What an analyzer is made of.
pub struct AnalyzerView {
    pub engine: EngineView,
    pub filter: FilterView,
    pub rust: RustAnalyzer,
}

/// What is reported for one file: nothing when the filter leaves the file out;
/// else the matches of the engine and, for a Rust file, what the Rust analyzer
/// finds.
pub open spec fn file_analysis(
    a: AnalyzerView,
    file: Candidate,
    content: Seq<char>,
    tree: Option<Seq<SyntaxNode>>,
) -> Seq<ViolationView> {
    if !lets_through(a.filter, file.path@, file.is_dir, file.ignore_files@) {
        Seq::<ViolationView>::empty()
    } else {
        let ms = report(a.engine, file.path@, content, tree);
        violations_of(ms, ms.len() as int) + (if is_rust_path(file.path@) {
            analysis(a.rust, file.path@, content, tree)
        } else {
            Seq::<ViolationView>::empty()
        })
    }
}

/// The tree of an input.
pub open spec fn input_tree(input: FileInput) -> Option<Seq<SyntaxNode>> {
    match input.tree {
        Some(t) => Some(t@),
        None => None,
    }
}

/// Whether an input is a fault: a file that is to be analyzed and could not be
/// read.
pub open spec fn is_fault(a: AnalyzerView, input: FileInput) -> bool {
    input.content is Err && lets_through(
        a.filter,
        input.candidate.path@,
        input.candidate.is_dir,
        input.candidate.ignore_files@,
    )
}

/// What is reported for the first `n` inputs, file by file; faults report
/// nothing.
pub open spec fn run_analysis(a: AnalyzerView, inputs: Seq<FileInput>, n: int) -> Seq<ViolationView>
    decreases n,
{
    if n <= 0 {
        Seq::<ViolationView>::empty()
    } else {
        run_analysis(a, inputs, n - 1) + (match inputs[n - 1].content {
            Ok(text) => file_analysis(
                a,
                inputs[n - 1].candidate,
                text@,
                input_tree(inputs[n - 1]),
            ),
            Err(_) => Seq::<ViolationView>::empty(),
        })
    }
}

/// How the message of a fault reads.
pub open spec fn fault_message(why: Seq<char>) -> Seq<char> {
    "Failed to read file: "@ + why
}

/// The error that a fault gives: it names the file and says why it could not
/// be read.
pub open spec fn fault_error(input: FileInput) -> ErrorView {
    ErrorView::Analysis {
        file: input.candidate.path@,
        message: fault_message(input.content->Err_0@),
    }
}

/// What is reported for one input; a file that could not be read reports
/// nothing.
pub open spec fn input_analysis(a: AnalyzerView, input: FileInput) -> Seq<ViolationView> {
    match input.content {
        Ok(text) => file_analysis(a, input.candidate, text@, input_tree(input)),
        Err(_) => Seq::<ViolationView>::empty(),
    }
}

/// What one file of a run gave.
#[derive(Debug)]
pub enum FileOutcome {
    /// The violations found in the file; none for a file that the filter
    /// leaves out.
    Found(Vec<Violation>),
    /// The file was to be analyzed and could not be read.
    Fault { file: String, message: String },
}

/// Whether an outcome is what an input gives.
pub open spec fn is_outcome_of(o: FileOutcome, a: AnalyzerView, input: FileInput) -> bool {
    match o {
        FileOutcome::Found(v) => !is_fault(a, input) && agree(v@, input_analysis(a, input)),
        FileOutcome::Fault { file, message } => is_fault(a, input) && file@
            == input.candidate.path@ && message@ == fault_message(input.content->Err_0@),
    }
}

/// The position of the first fault among the first `n` outcomes, if any.
pub open spec fn first_fault(outcomes: Seq<FileOutcome>, n: int) -> Option<int>
    decreases n,
{
    if n <= 0 {
        None
    } else {
        match first_fault(outcomes, n - 1) {
            Some(i) => Some(i),
            None => if outcomes[n - 1] is Fault {
                Some(n - 1)
            } else {
                None
            },
        }
    }
}

/// The violations of the first `n` outcomes, file by file.
pub open spec fn all_found(outcomes: Seq<FileOutcome>, n: int) -> Seq<Violation>
    decreases n,
{
    if n <= 0 {
        Seq::<Violation>::empty()
    } else {
        all_found(outcomes, n - 1) + (match outcomes[n - 1] {
            FileOutcome::Found(v) => v@,
            FileOutcome::Fault { .. } => Seq::<Violation>::empty(),
        })
    }
}

proof fn lemma_first_fault_stays(outcomes: Seq<FileOutcome>, i: int, n: int)
    requires
        0 <= i < n,
        first_fault(outcomes, i + 1) == Some(i),
    ensures
        first_fault(outcomes, n) == Some(i),
    decreases n,
{
    if n > i + 1 {
        lemma_first_fault_stays(outcomes, i, n - 1);
    }
}

/// The result of a run, from what its files gave, in their order. With
/// fail-fast the first fault ends the run with an error that names the file;
/// without it faults are passed over.
pub fn conclude(outcomes: &Vec<FileOutcome>, fail_fast: bool) -> (r: Result<
    Vec<Violation>,
    GuardianError,
>)
    ensures
        r is Err <==> fail_fast && first_fault(outcomes@, outcomes@.len() as int) is Some,
        r matches Err(e) ==> ({
            let i = first_fault(outcomes@, outcomes@.len() as int)->0;
            0 <= i < outcomes@.len() && outcomes@[i] is Fault && e@ == (ErrorView::Analysis {
                file: outcomes@[i]->file@,
                message: outcomes@[i]->message@,
            })
        }),
        r matches Ok(out) ==> out@ == all_found(outcomes@, outcomes@.len() as int),
{
    let mut out: Vec<Violation> = Vec::new();
    let mut i: usize = 0;
    assert(out@ =~= all_found(outcomes@, 0));
    while i < outcomes.len()
        invariant
            i <= outcomes.len(),
            out@ == all_found(outcomes@, i as int),
            fail_fast ==> first_fault(outcomes@, i as int) is None,
        decreases outcomes.len() - i,
    {
        match &outcomes[i] {
            FileOutcome::Found(v) => {
                let ghost before = out@;
                let mut k: usize = 0;
                while k < v.len()
                    invariant
                        k <= v.len(),
                        out@ == before + v@.take(k as int),
                    decreases v.len() - k,
                {
                    out.push(v[k].duplicate());
                    assert(out@ =~= before + v@.take(k + 1));
                    k += 1;
                }
                assert(v@.take(v@.len() as int) =~= v@);
            },
            FileOutcome::Fault { file, message } => {
                if fail_fast {
                    proof {
                        lemma_first_fault_stays(outcomes@, i as int, outcomes@.len() as int);
                    }
                    return Err(GuardianError::Analysis { file: file.clone(), message: message.clone() });
                }
                assert(out@ + Seq::<Violation>::empty() =~= out@);
            },
        }
        i += 1;
    }
    Ok(out)
}

/// Whether an error tells the first fault of a run: it names the first file
/// that was to be analyzed and could not be read, and says why.
pub open spec fn tells_first_fault(a: AnalyzerView, inputs: Seq<FileInput>, e: ErrorView) -> bool {
    exists|i: int|
        0 <= i < inputs.len() && is_fault(a, #[trigger] inputs[i]) && !has_fault(a, inputs, i) && e
            == fault_error(inputs[i])
}

/// Whether one of the first `n` inputs is a fault.
pub open spec fn has_fault(a: AnalyzerView, inputs: Seq<FileInput>, n: int) -> bool {
    exists|i: int| 0 <= i < n && is_fault(a, #[trigger] inputs[i])
}

/// The analyzer of a configuration: its engine, its path filter and the checks
/// for Rust files.
#[derive(Debug)]
pub struct Analyzer {
    pub config: GuardianConfig,
    pub pattern_engine: PatternEngine,
    pub path_filter: PathFilter,
    pub rust_analyzer: RustAnalyzer,
}

impl View for Analyzer {
    type V = AnalyzerView;

    open spec fn view(&self) -> AnalyzerView {
        AnalyzerView {
            engine: self.pattern_engine@,
            filter: self.path_filter@,
            rust: self.rust_analyzer,
        }
    }
}

/// The filter that a configuration asks for. An empty ignore file name stands
/// for none.
pub open spec fn filter_of(c: ConfigView) -> FilterView {
    FilterView {
        rules: read_patterns(c.path_patterns),
        process_ignore_files: c.ignore_file is Some && c.ignore_file != Some(""@),
        ignore_filename: match c.ignore_file {
            Some(name) => if name == ""@ {
                default_ignore_filename()
            } else {
                name
            },
            None => default_ignore_filename(),
        },
    }
}

fn copy_texts(list: &Vec<String>) -> (copy: Vec<String>)
    ensures
        copy@ == list@,
{
    let mut copy: Vec<String> = Vec::new();
    let mut i: usize = 0;
    while i < list.len()
        invariant
            i <= list.len(),
            copy@ == list@.take(i as int),
        decreases list.len() - i,
    {
        copy.push(list[i].clone());
        assert(copy@ =~= list@.take(i + 1));
        i += 1;
    }
    assert(copy@ =~= list@);
    copy
}

/// Whether an analyzer can be built for a configuration: the engine can be
/// compiled and every path pattern compiles.
pub open spec fn can_analyze(c: ConfigView) -> bool {
    can_compile(c) && all_compile(c.path_patterns)
}

/// What the analyzer of a configuration is made of: the registry of its
/// enabled rules, the filter of its path patterns, and a Rust analyzer that
/// leaves test code aside and checks for header comments.
pub open spec fn analyzer_of(c: ConfigView) -> AnalyzerView {
    AnalyzerView {
        engine: registry(c, enabled(c), enabled(c).len() as int),
        filter: filter_of(c),
        rust: RustAnalyzer { analyze_tests: false, check_cdd_compliance: true },
    }
}

/// Whether `message` tells why no analyzer can be built for a configuration:
/// which rule fails, or else that the path filter cannot be made.
pub open spec fn tells_refusal(c: ConfigView, message: Seq<char>) -> bool {
    if can_compile(c) {
        crate::text::has_prefix(message, "Failed to create path filter: "@)
    } else {
        crate::patterns::registry::tells_failure(c, message)
    }
}

impl Analyzer {
    /// The analyzer of a configuration. It can be built when the engine can be
    /// compiled and every path pattern compiles.
    pub fn new(config: GuardianConfig) -> (r: Result<Analyzer, GuardianError>)
        ensures
            r is Ok <==> can_analyze(config@),
            r matches Ok(a) ==> a.config == config && a@ == analyzer_of(config@),
            r matches Err(e) ==> e is Configuration,
            r matches Err(GuardianError::Configuration { message }) ==> tells_refusal(
                config@,
                message@,
            ),
    {
        let pattern_engine = match PatternEngine::compile(&config) {
            Ok(e) => e,
            Err(e) => {
                return Err(e);
            },
        };
        let ignore_file = match &config.paths.ignore_file {
            Some(name) => if same_text(name.as_str(), "") {
                None
            } else {
                Some(name.clone())
            },
            None => None,
        };
        let path_filter = match PathFilter::new(copy_texts(&config.paths.patterns), ignore_file) {
            Ok(f) => f,
            Err(e) => {
                let why = e.to_text();
                let message = concat2("Failed to create path filter: ", why.as_str());
                assert(message@.subrange(0, "Failed to create path filter: "@.len() as int)
                    =~= "Failed to create path filter: "@);
                return Err(GuardianError::Configuration { message });
            },
        };
        Ok(Analyzer { config, pattern_engine, path_filter, rust_analyzer: RustAnalyzer::new() })
    }

    /// The analyzer of the built-in configuration.
    pub fn with_defaults() -> (r: Result<Analyzer, GuardianError>)
        ensures
            r is Ok <==> can_analyze(crate::config::defaults::default_config()),
            r matches Ok(a) ==> a.config@ == crate::config::defaults::default_config() && a@
                == analyzer_of(crate::config::defaults::default_config()),
            r matches Err(e) ==> e is Configuration,
            r matches Err(GuardianError::Configuration { message }) ==> tells_refusal(
                crate::config::defaults::default_config(),
                message@,
            ),
    {
        Analyzer::new(GuardianConfig::with_defaults())
    }

    /// The violations of one file, given its text and, if it could be parsed,
    /// its syntax tree.
    pub fn analyze_file(&self, file: &Candidate, content: &str, tree: Option<&SyntaxTree>) -> (r:
        Result<Vec<Violation>, GuardianError>)
        ensures
            r is Ok,
            agree(r->Ok_0@, file_analysis(self@, *file, content@, tree_view(tree))),
    {
        if !self.path_filter.should_analyze(file.path.as_str(), file.is_dir, &file.ignore_files) {
            let out: Vec<Violation> = Vec::new();
            return Ok(out);
        }
        let matches = match self.pattern_engine.analyze_file(file.path.as_str(), content, tree) {
            Ok(m) => m,
            Err(e) => {
                return Err(e);
            },
        };
        let ghost ms = match_views(matches@);
        let mut out = self.pattern_engine.matches_to_violations(matches);
        proof {
            lemma_violations_of(out@, ms, matches@);
        }
        if self.rust_analyzer.handles_file(file.path.as_str()) {
            let mut more = match self.rust_analyzer.analyze(file.path.as_str(), content, tree) {
                Ok(v) => v,
                Err(e) => {
                    return Err(e);
                },
            };
            proof {
                lemma_agree_joined(
                    out@,
                    more@,
                    violations_of(ms, ms.len() as int),
                    analysis(self.rust_analyzer, file.path@, content@, tree_view(tree)),
                );
            }
            out.append(&mut more);
        } else {
            assert(violations_of(ms, ms.len() as int) + Seq::<ViolationView>::empty()
                =~= violations_of(ms, ms.len() as int));
        }
        Ok(out)
    }

    /// What one file of a run gives: its violations, or the fault that it could
    /// not be read though it was to be analyzed.
    pub fn outcome_of(&self, input: &FileInput) -> (o: FileOutcome)
        ensures
            is_outcome_of(o, self@, *input),
    {
        let tree = match &input.tree {
            Some(t) => Some(t),
            None => None,
        };
        assert(tree_view(tree) == input_tree(*input));
        match &input.content {
            Ok(text) => {
                match self.analyze_file(&input.candidate, text.as_str(), tree) {
                    Ok(v) => FileOutcome::Found(v),
                    Err(_) => FileOutcome::Found(Vec::new()),
                }
            },
            Err(why) => {
                let due = self.path_filter.should_analyze(
                    input.candidate.path.as_str(),
                    input.candidate.is_dir,
                    &input.candidate.ignore_files,
                );
                if due {
                    FileOutcome::Fault {
                        file: input.candidate.path.clone(),
                        message: concat2("Failed to read file: ", why.as_str()),
                    }
                } else {
                    FileOutcome::Found(Vec::new())
                }
            },
        }
    }

    /// Analyzes files one after the other. A file that could not be read is a
    /// fault: it ends the run if the options say so, with an error that names
    /// the file, and is passed over if not.
    pub fn analyze_files_sequential(&self, inputs: &Vec<FileInput>, options: &AnalysisOptions) -> (r:
        Result<Vec<Violation>, GuardianError>)
        ensures
            r is Err <==> options.fail_fast && has_fault(self@, inputs@, inputs@.len() as int),
            r matches Ok(out) ==> agree(out@, run_analysis(self@, inputs@, inputs@.len() as int)),
            r matches Err(e) ==> e is Analysis && tells_first_fault(self@, inputs@, e@),
    {
        let mut out: Vec<Violation> = Vec::new();
        let mut i: usize = 0;
        while i < inputs.len()
            invariant
                i <= inputs.len(),
                agree(out@, run_analysis(self@, inputs@, i as int)),
                options.fail_fast ==> !has_fault(self@, inputs@, i as int),
            decreases inputs.len() - i,
        {
            let input = &inputs[i];
            match self.outcome_of(input) {
                FileOutcome::Found(mut here) => {
                    proof {
                        assert(input_analysis(self@, *input) == (match input.content {
                            Ok(text) => file_analysis(
                                self@,
                                input.candidate,
                                text@,
                                input_tree(*input),
                            ),
                            Err(_) => Seq::<ViolationView>::empty(),
                        }));
                        lemma_agree_joined(
                            out@,
                            here@,
                            run_analysis(self@, inputs@, i as int),
                            input_analysis(self@, *input),
                        );
                    }
                    out.append(&mut here);
                },
                FileOutcome::Fault { file, message } => {
                    if options.fail_fast {
                        assert(is_fault(self@, inputs@[i as int]));
                        let e = GuardianError::Analysis { file, message };
                        assert(e@ == fault_error(inputs@[i as int]));
                        return Err(e);
                    }
                    assert(run_analysis(self@, inputs@, i as int) + Seq::<ViolationView>::empty()
                        =~= run_analysis(self@, inputs@, i as int));
                },
            }
            i += 1;
        }
        Ok(out)
    }

    /// The fingerprint of the configuration.
    pub fn config_fingerprint(&self) -> (s: String)
        ensures
            s@ == fingerprint_of(self.config@),
    {
        self.config.fingerprint()
    }

    /// The report of a finished run: the violations in the order given, counted
    /// by severity, with the number of files, the time taken and the
    /// fingerprint of the configuration.
    pub fn build_report(&self, violations: Vec<Violation>, total_files: usize, execution_time_ms: u64)
        -> (r: ValidationReport)
        ensures
            r.wf(),
            r.violations@ == violations@,
            r.summary.total_files == total_files,
            r.summary.execution_time_ms == execution_time_ms,
            opt_text(r.config_fingerprint) == Some(fingerprint_of(self.config@)),
    {
        let mut report = ValidationReport::new();
        let mut i: usize = 0;
        while i < violations.len()
            invariant
                i <= violations.len(),
                report.wf(),
                report.violations@ == violations@.take(i as int),
            decreases violations.len() - i,
        {
            report.add_violation(violations[i].duplicate());
            assert(report.violations@ =~= violations@.take(i + 1));
            i += 1;
        }
        assert(violations@.take(violations@.len() as int) =~= violations@);
        report.set_files_analyzed(total_files);
        report.set_execution_time(execution_time_ms);
        let fingerprint = self.config.fingerprint();
        report.set_config_fingerprint(fingerprint.as_str());
        report
    }

    /// Statistics of the configured rules.
    pub fn pattern_stats(&self) -> (s: PatternStats)
        ensures
            s == stats_of(self.config@, self.config@.categories.len() as int),
    {
        let ghost c = self.config@;
        let mut s = PatternStats {
            enabled_categories: 0,
            disabled_categories: 0,
            enabled_rules: 0,
            disabled_rules: 0,
            regex_patterns: 0,
            ast_patterns: 0,
            semantic_patterns: 0,
            import_patterns: 0,
        };
        let mut k: usize = 0;
        while k < self.config.patterns.len()
            invariant
                k <= self.config.patterns.len(),
                c == self.config@,
                s == stats_of(c, k as int),
            decreases self.config.patterns.len() - k,
        {
            let category = &self.config.patterns[k].category;
            assert(c.categories[k as int].1 == category@);
            if category.enabled {
                s.enabled_categories = capped_add(s.enabled_categories, 1);
                let ghost base = s;
                let ghost rules = category@.rules;
                let mut i: usize = 0;
                while i < category.rules.len()
                    invariant
                        i <= category.rules.len(),
                        rules == category@.rules,
                        s == count_rules(base, rules, i as int),
                    decreases category.rules.len() - i,
                {
                    let rule = &category.rules[i];
                    assert(rules[i as int] == rule@);
                    if rule.enabled {
                        s.enabled_rules = capped_add(s.enabled_rules, 1);
                        match rule.rule_type {
                            RuleType::Regex => {
                                s.regex_patterns = capped_add(s.regex_patterns, 1);
                            },
                            RuleType::Ast => {
                                s.ast_patterns = capped_add(s.ast_patterns, 1);
                            },
                            RuleType::Semantic => {
                                s.semantic_patterns = capped_add(s.semantic_patterns, 1);
                            },
                            RuleType::ImportAnalysis => {
                                s.import_patterns = capped_add(s.import_patterns, 1);
                            },
                        }
                    } else {
                        s.disabled_rules = capped_add(s.disabled_rules, 1);
                    }
                    i += 1;
                }
                assert(rules.len() == category.rules@.len());
            } else {
                assert(category@.rules.len() == category.rules@.len());
                s.disabled_categories = capped_add(s.disabled_categories, 1);
                s.disabled_rules = capped_add(s.disabled_rules, category.rules.len());
            }
            k += 1;
        }
        s
    }
}

/// The violations made from a list of matches report those matches.
proof fn lemma_violations_of(out: Seq<Violation>, ms: Seq<MatchView>, matches: Seq<
    crate::patterns::matching::PatternMatch,
>)
    requires
        ms == match_views(matches),
        out.len() == matches.len(),
        forall|i: int|
            0 <= i < out.len() ==> (#[trigger] out[i])@ == violation_of(
                matches[i]@,
                out[i].detected_at,
            ),
    ensures
        agree(out, violations_of(ms, ms.len() as int)),
{
    lemma_violations_of_index(ms, ms.len() as int);
    assert forall|i: int| 0 <= i < out.len() implies says(
        (#[trigger] out[i])@,
        violations_of(ms, ms.len() as int)[i],
    ) by {
        assert(ms[i] == matches[i]@);
    }
}

proof fn lemma_violations_of_index(ms: Seq<MatchView>, n: int)
    requires
        0 <= n <= ms.len(),
    ensures
        violations_of(ms, n).len() == n,
        forall|i: int| 0 <= i < n ==> #[trigger] violations_of(ms, n)[i] == violation_of(ms[i], no_time()),
    decreases n,
{
    if n > 0 {
        lemma_violations_of_index(ms, n - 1);
    }
}

} // verus!
