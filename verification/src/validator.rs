//! The validator: an analyzer, an optional cache and a report formatter.

use vstd::prelude::*;
use crate::analyzer::rust::agree;
use crate::analyzer::{
    analyzer_of, can_analyze, file_analysis, stats_of, tells_refusal, AnalysisOptions, Analyzer,
    PatternStats,
};
use crate::bindings::Timestamp;
use crate::cache::{
    can_count, checked, cleared, content_digest, entry_for, loaded, needs, retained, saved,
    settled_early,
    updated, whole_seconds, with_fingerprint, CacheData, CacheStatistics, CacheView, FileCache,
    FileState, FirstCheck,
};
use crate::config::defaults::default_config;
use crate::config::fingerprint::fingerprint_of;
use crate::config::GuardianConfig;
use crate::domain::violations::{ErrorView, GuardianError, ValidationReport, Violation};
use crate::numerals::decimal;
use crate::patterns::checks::concat3;
use crate::patterns::path_filter::Candidate;
use crate::patterns::tree_view;
use crate::report::{OutputFormat, ReportFormatter, ReportOptions};
use crate::syntax::SyntaxTree;
use crate::text::{same_text, string_of};

verus! {

/// Options for a validation.
#[derive(Debug, Clone)]
pub struct ValidationOptions {
    /// Whether results of earlier runs are reused.
    pub use_cache: bool,
    /// Where the cache is kept, if not at the usual place.
    pub cache_path: Option<String>,
    /// Whether faults of single files are passed over.
    pub continue_on_error: bool,
    pub output_format: OutputFormat,
    pub report_options: ReportOptions,
    pub analysis_options: AnalysisOptions,
}

impl Default for ValidationOptions {
    fn default() -> (o: ValidationOptions)
        ensures
            o.use_cache,
            o.cache_path is None,
            o.continue_on_error,
            o.output_format == OutputFormat::Human,
    {
        ValidationOptions {
            use_cache: true,
            cache_path: None,
            continue_on_error: true,
            output_format: OutputFormat::Human,
            report_options: ReportOptions::default(),
            analysis_options: AnalysisOptions::default(),
        }
    }
}

/// What is known of a file when the cache is asked about it.
#[derive(Debug, Clone)]
pub struct FileProbe {
    pub path: String,
    /// Size in bytes.
    pub size: u64,
    /// Time of the last modification, in seconds since the Unix epoch.
    pub modified_at: u64,
    pub content: Vec<u8>,
}

/// The state of a probed file.
pub open spec fn state_of(p: FileProbe) -> FileState {
    FileState { size: p.size, modified_at: p.modified_at, digest: content_digest(p.content@) }
}

/// Whether a file is to be analyzed, and the cache after it was asked: a file
/// is analyzed when it needs analysis or when its check cannot be counted; a
/// check that cannot be counted leaves the cache as it is.
#[verifier::opaque]
pub open spec fn asked(c: CacheView, p: FileProbe, fingerprint: Seq<char>) -> (bool, CacheView) {
    let miss = needs(c, p.path@, fingerprint, state_of(p));
    if can_count(c, miss) {
        (miss, checked(c, miss))
    } else {
        (true, c)
    }
}

/// The cache after the first `n` files were checked under a fingerprint.
pub open spec fn after_checks(c: CacheView, probes: Seq<FileProbe>, fingerprint: Seq<char>, n: int)
    -> CacheView
    decreases n,
{
    if n <= 0 {
        c
    } else {
        asked(after_checks(c, probes, fingerprint, n - 1), probes[n - 1], fingerprint).1
    }
}

/// The positions among the first `n` files that are to be analyzed.
pub open spec fn to_analyze(c: CacheView, probes: Seq<FileProbe>, fingerprint: Seq<char>, n: int)
    -> Seq<int>
    decreases n,
{
    if n <= 0 {
        Seq::<int>::empty()
    } else if asked(after_checks(c, probes, fingerprint, n - 1), probes[n - 1], fingerprint).0 {
        to_analyze(c, probes, fingerprint, n - 1).push(n - 1)
    } else {
        to_analyze(c, probes, fingerprint, n - 1)
    }
}

/// How many of the first `n` violations were found in the file at `path`.
pub open spec fn found_in(violations: Seq<Violation>, path: Seq<char>, n: int) -> int
    decreases n,
{
    if n <= 0 {
        0
    } else {
        found_in(violations, path, n - 1) + (if violations[n - 1].file_path@ == path {
            1int
        } else {
            0int
        })
    }
}

/// The cache after the files at the first `n` of the given positions were
/// recorded as analyzed at a given time.
pub open spec fn after_records(
    c: CacheView,
    probes: Seq<FileProbe>,
    analyzed: Seq<usize>,
    violations: Seq<Violation>,
    fingerprint: Seq<char>,
    now: u64,
    n: int,
) -> CacheView
    decreases n,
{
    if n <= 0 {
        c
    } else {
        let before = after_records(c, probes, analyzed, violations, fingerprint, now, n - 1);
        if analyzed[n - 1] < probes.len() {
            let p = probes[analyzed[n - 1] as int];
            updated(
                before,
                p.path@,
                entry_for(
                    state_of(p),
                    found_in(violations, p.path@, violations.len() as int) as usize,
                    now,
                    fingerprint,
                ),
            )
        } else {
            before
        }
    }
}

/// The message of a failed check before a commit.
pub open spec fn pre_commit_message(errors: usize) -> Seq<char> {
    "Pre-commit check failed: "@ + decimal(errors as nat) + (if errors == 1 {
        " blocking violation found"@
    } else {
        " blocking violations found"@
    })
}

/// The message of a failed check for production.
pub open spec fn production_message(violations: nat) -> Seq<char> {
    "Production validation failed: "@ + decimal(violations) + " violations found"@
}

/// The options of the formatter that a new validator has.
pub open spec fn plain_options() -> ReportOptions {
    ReportOptions {
        use_colors: true,
        show_context: true,
        show_suggestions: true,
        max_violations: None,
        min_severity: None,
    }
}

/// Validates files: an analyzer, with a cache and a formatter for its reports.
#[derive(Debug)]
pub struct GuardianValidator {
    pub analyzer: Analyzer,
    pub cache: Option<FileCache>,
    pub report_formatter: ReportFormatter,
}

fn count_in(violations: &Vec<Violation>, path: &str) -> (n: usize)
    ensures
        n == found_in(violations@, path@, violations@.len() as int),
{
    let mut n: usize = 0;
    let mut i: usize = 0;
    while i < violations.len()
        invariant
            i <= violations.len(),
            n == found_in(violations@, path@, i as int),
            n <= i,
        decreases violations.len() - i,
    {
        if same_text(violations[i].file_path.as_str(), path) {
            n += 1;
        }
        i += 1;
    }
    n
}

impl GuardianValidator {
    /// A validator for a configuration, without a cache.
    pub fn new_with_config(config: GuardianConfig) -> (r: Result<GuardianValidator, GuardianError>)
        ensures
            r is Ok <==> can_analyze(config@),
            r matches Ok(v) ==> v.analyzer.config == config && v.analyzer@ == analyzer_of(config@)
                && v.cache is None && v.report_formatter.options == plain_options(),
            r matches Err(e) ==> e is Configuration,
            r matches Err(GuardianError::Configuration { message }) ==> tells_refusal(
                config@,
                message@,
            ),
    {
        match Analyzer::new(config) {
            Ok(analyzer) => Ok(
                GuardianValidator {
                    analyzer,
                    cache: None,
                    report_formatter: ReportFormatter::default(),
                },
            ),
            Err(e) => Err(e),
        }
    }

    /// A validator for the built-in configuration.
    pub fn new() -> (r: Result<GuardianValidator, GuardianError>)
        ensures
            r is Ok <==> can_analyze(default_config()),
            r matches Ok(v) ==> v.analyzer.config@ == default_config() && v.analyzer@ == analyzer_of(
                default_config(),
            ) && v.cache is None && v.report_formatter.options == plain_options(),
            r matches Err(e) ==> e is Configuration,
            r matches Err(GuardianError::Configuration { message }) ==> tells_refusal(
                default_config(),
                message@,
            ),
    {
        GuardianValidator::new_with_config(GuardianConfig::with_defaults())
    }

    /// Gives the validator a cache: the snapshot read from the cache file, or
    /// an empty cache when there was no file. The cache remembers the
    /// fingerprint of the configuration.
    pub fn with_cache(self, cache_path: &str, snapshot: Option<CacheData>) -> (r: Result<
        GuardianValidator,
        GuardianError,
    >)
        ensures
            r is Ok,
            r->Ok_0.analyzer == self.analyzer,
            r->Ok_0.report_formatter == self.report_formatter,
            r->Ok_0.cache is Some,
            r->Ok_0.cache->0.cache_path@ == cache_path@,
            exists|at: Timestamp|
                r->Ok_0.cache->0@ == with_fingerprint(
                    loaded(false, snapshot, #[trigger] whole_seconds(at)),
                    fingerprint_of(self.analyzer.config@),
                ),
    {
        let mut cache = FileCache::new(cache_path);
        match cache.load(snapshot) {
            Ok(()) => {},
            Err(e) => {
                return Err(e);
            },
        }
        cache.set_config_fingerprint(self.analyzer.config_fingerprint());
        Ok(
            GuardianValidator {
                analyzer: self.analyzer,
                cache: Some(cache),
                report_formatter: self.report_formatter,
            },
        )
    }

    /// Sets the formatter of reports.
    pub fn with_report_formatter(self, formatter: ReportFormatter) -> (v: GuardianValidator)
        ensures
            v.analyzer == self.analyzer,
            v.cache == self.cache,
            v.report_formatter == formatter,
    {
        GuardianValidator { analyzer: self.analyzer, cache: self.cache, report_formatter: formatter }
    }

    /// The report for one file.
    pub fn validate_file(&self, file: &Candidate, content: &str, tree: Option<&SyntaxTree>) -> (r:
        Result<ValidationReport, GuardianError>)
        ensures
            r is Ok,
            r->Ok_0.wf(),
            r->Ok_0.summary.total_files == 1,
            agree(
                r->Ok_0.violations@,
                file_analysis(self.analyzer@, *file, content@, tree_view(tree)),
            ),
    {
        let violations = match self.analyzer.analyze_file(file, content, tree) {
            Ok(v) => v,
            Err(e) => {
                return Err(e);
            },
        };
        let mut report = ValidationReport::new();
        let mut i: usize = 0;
        while i < violations.len()
            invariant
                i <= violations.len(),
                report.wf(),
                report.violations@ == violations@.take(i as int),
            decreases violations.len() - i,
        {
            report.add_violation(violations[i].duplicate());
            assert(report.violations@ =~= violations@.take(i + 1));
            i += 1;
        }
        assert(violations@.take(violations@.len() as int) =~= violations@);
        report.set_files_analyzed(1);
        Ok(report)
    }

    /// Statistics of the configured rules.
    pub fn pattern_statistics(&self) -> (s: PatternStats)
        ensures
            s == stats_of(self.analyzer.config@, self.analyzer.config@.categories.len() as int),
    {
        self.analyzer.pattern_stats()
    }

    /// The activity of the cache, if there is one.
    pub fn cache_statistics(&self) -> (s: Option<CacheStatistics>)
        ensures
            s is Some <==> self.cache is Some,
            s matches Some(st) ==> st.cache_hits == self.cache->0@.metadata.hits && st.cache_misses
                == self.cache->0@.metadata.misses,
    {
        match &self.cache {
            Some(c) => Some(c.statistics()),
            None => None,
        }
    }

    /// Forgets the entries that the cache holds, if there is a cache; see
    /// [`FileCache::clear`].
    pub fn clear_cache(&mut self) -> (r: Result<(), GuardianError>)
        ensures
            r is Ok,
            final(self).analyzer == old(self).analyzer,
            final(self).report_formatter == old(self).report_formatter,
            old(self).cache is None ==> final(self).cache is None,
            old(self).cache matches Some(before) ==> final(self).cache is Some
                && final(self).cache->0.cache_path == before.cache_path && exists|at: Timestamp|
                final(self).cache->0@ == cleared(before@, #[trigger] whole_seconds(at)),
    {
        let taken = self.cache.take();
        match taken {
            Some(mut cache) => {
                let r = cache.clear();
                self.cache = Some(cache);
                r
            },
            None => Ok(()),
        }
    }

    /// Hands out what is to be written to the cache file, if there is a cache
    /// with changes.
    pub fn save_cache(&mut self) -> (r: Result<Option<CacheData>, GuardianError>)
        ensures
            final(self).analyzer == old(self).analyzer,
            final(self).report_formatter == old(self).report_formatter,
            old(self).cache is None ==> r == Ok::<Option<CacheData>, GuardianError>(None)
                && final(self).cache is None,
            old(self).cache matches Some(before) ==> final(self).cache is Some && saved(
                before,
                final(self).cache->0,
                r,
            ),
    {
        let taken = self.cache.take();
        match taken {
            Some(mut cache) => {
                let r = cache.save();
                self.cache = Some(cache);
                r
            },
            None => Ok(None),
        }
    }

    /// Drops the cache entries of files that no longer exist; see
    /// [`FileCache::cleanup`].
    pub fn cleanup_cache(&mut self, exists: &Vec<bool>) -> (r: Result<Option<usize>, GuardianError>)
        ensures
            r is Ok,
            final(self).analyzer == old(self).analyzer,
            final(self).report_formatter == old(self).report_formatter,
            old(self).cache is None ==> r->Ok_0 is None && final(self).cache is None,
            old(self).cache matches Some(c) ==> {
                &&& r->Ok_0 is Some
                &&& final(self).cache is Some
                &&& final(self).cache->0.cache_path == c.cache_path
                &&& final(self).cache->0@ == (CacheView {
                    files: retained(c@.files, exists@, c@.files.len() as int),
                    dirty: c@.dirty || r->Ok_0->0 > 0,
                    ..c@
                })
                &&& r->Ok_0->0 == c@.files.len() - final(self).cache->0@.files.len()
            },
    {
        let taken = self.cache.take();
        match taken {
            Some(mut cache) => {
                let r = cache.cleanup(exists);
                self.cache = Some(cache);
                match r {
                    Ok(n) => Ok(Some(n)),
                    Err(e) => Err(e),
                }
            },
            None => Ok(None),
        }
    }
}

/// What the cheap checks say is to be done with a file.
#[derive(Debug, Clone, Copy, PartialEq, Eq, Structural)]
pub enum Look {
    /// The file is to be analyzed; its content need not be read for the cache.
    Analyze,
    /// The content is to be read and handed to [`second_look`].
    ReadContent,
}

/// What the cheap checks say of a file, and the cache after them. A file that
/// they show to need analysis is counted as a miss, if the miss can be
/// counted, and is to be analyzed. For any other file the cache waits for the
/// content.
pub open spec fn looked(
    c: CacheView,
    path: Seq<char>,
    fingerprint: Seq<char>,
    size: u64,
    modified_at: u64,
) -> (Look, CacheView) {
    if settled_early(c, path, fingerprint, size, modified_at) {
        (
            Look::Analyze,
            if can_count(c, true) {
                checked(c, true)
            } else {
                c
            },
        )
    } else {
        (Look::ReadContent, c)
    }
}

/// The first step of asking the cache about a file, from its size and
/// modification time alone.
pub fn first_look(
    cache: &mut FileCache,
    path: &str,
    fingerprint: &str,
    size: u64,
    modified_at: u64,
) -> (l: Look)
    ensures
        (l, final(cache)@) == looked(old(cache)@, path@, fingerprint@, size, modified_at),
        final(cache).cache_path == old(cache).cache_path,
{
    match cache.first_check(path, fingerprint, size, modified_at) {
        Ok(FirstCheck::ContentNeeded) => Look::ReadContent,
        _ => Look::Analyze,
    }
}

/// The two steps agree with the full check: for a file that the first step
/// sends to analysis, the full check says the same and leaves the same cache,
/// whatever the content is.
pub proof fn lemma_looks_agree(c: CacheView, p: FileProbe, fingerprint: Seq<char>)
    requires
        settled_early(c, p.path@, fingerprint, p.size, p.modified_at),
    ensures
        asked(c, p, fingerprint) == (true, looked(c, p.path@, fingerprint, p.size, p.modified_at).1),
{
    reveal(asked);
}

/// The second step of asking the cache about a file, with its content: whether
/// the file is to be analyzed. A file whose check cannot be counted is
/// analyzed.
pub fn second_look(cache: &mut FileCache, p: &FileProbe, fingerprint: &str) -> (analyze: bool)
    ensures
        (analyze, final(cache)@) == asked(old(cache)@, *p, fingerprint@),
        final(cache).cache_path == old(cache).cache_path,
{
    proof {
        reveal(asked);
    }
    match cache.needs_analysis(
        p.path.as_str(),
        fingerprint,
        p.size,
        p.modified_at,
        p.content.as_slice(),
    ) {
        Ok(needed) => needed,
        Err(_) => true,
    }
}

/// The positions of the files that are to be analyzed: the cache is asked about
/// each file in turn, and a file whose check fails is analyzed.
pub fn files_needing_analysis(cache: &mut FileCache, probes: &Vec<FileProbe>, fingerprint: &str) -> (out:
    Vec<usize>)
    ensures
        crate::ordering::indices(out@) == to_analyze(
            old(cache)@,
            probes@,
            fingerprint@,
            probes@.len() as int,
        ),
        final(cache)@ == after_checks(old(cache)@, probes@, fingerprint@, probes@.len() as int),
        final(cache).cache_path == old(cache).cache_path,
{
    let mut out: Vec<usize> = Vec::new();
    let mut i: usize = 0;
    assert(crate::ordering::indices(out@) =~= to_analyze(old(cache)@, probes@, fingerprint@, 0));
    while i < probes.len()
        invariant
            i <= probes.len(),
            cache.cache_path == old(cache).cache_path,
            crate::ordering::indices(out@) == to_analyze(
                old(cache)@,
                probes@,
                fingerprint@,
                i as int,
            ),
            cache@ == after_checks(old(cache)@, probes@, fingerprint@, i as int),
        decreases probes.len() - i,
    {
        if second_look(cache, &probes[i], fingerprint) {
            assert(crate::ordering::indices(out@.push(i)) =~= crate::ordering::indices(out@).push(
                i as int,
            ));
            out.push(i);
        }
        i += 1;
    }
    out
}

/// Records the files at the given positions as analyzed at a given time, each
/// with the number of violations found in it.
pub fn record_analysis_at(
    cache: &mut FileCache,
    probes: &Vec<FileProbe>,
    analyzed: &Vec<usize>,
    violations: &Vec<Violation>,
    fingerprint: &str,
    now: u64,
)
    ensures
        final(cache)@ == after_records(
            old(cache)@,
            probes@,
            analyzed@,
            violations@,
            fingerprint@,
            now,
            analyzed@.len() as int,
        ),
        final(cache).cache_path == old(cache).cache_path,
{
    let mut k: usize = 0;
    while k < analyzed.len()
        invariant
            k <= analyzed.len(),
            cache.cache_path == old(cache).cache_path,
            cache@ == after_records(
                old(cache)@,
                probes@,
                analyzed@,
                violations@,
                fingerprint@,
                now,
                k as int,
            ),
        decreases analyzed.len() - k,
    {
        let i = analyzed[k];
        if i < probes.len() {
            let p = &probes[i];
            let count = count_in(violations, p.path.as_str());
            let _ = cache.record_entry(
                p.path.as_str(),
                count,
                fingerprint,
                p.size,
                p.modified_at,
                p.content.as_slice(),
                now,
            );
        }
        k += 1;
    }
}

/// A validator for the built-in configuration.
pub fn create_validator() -> (r: Result<GuardianValidator, GuardianError>)
    ensures
        r is Ok <==> can_analyze(default_config()),
        r matches Ok(v) ==> v.analyzer.config@ == default_config() && v.analyzer@ == analyzer_of(
            default_config(),
        ) && v.cache is None && v.report_formatter.options == plain_options(),
        r matches Err(e) ==> e is Configuration,
        r matches Err(GuardianError::Configuration { message }) ==> tells_refusal(
            default_config(),
            message@,
        ),
{
    GuardianValidator::new()
}

/// Whether a report lets a commit through: it must count no errors.
pub fn pre_commit_verdict(report: &ValidationReport) -> (r: Result<(), GuardianError>)
    ensures
        r is Ok <==> report.summary.violations_by_severity.error == 0,
        r matches Err(e) ==> e@ == (ErrorView::Configuration {
            message: pre_commit_message(report.summary.violations_by_severity.error),
        }),
{
    if !report.has_errors() {
        return Ok(());
    }
    let errors = report.summary.violations_by_severity.error;
    let count = crate::numerals::decimal_text(errors as u64);
    let count_text = string_of(count.as_slice());
    let message = concat3(
        "Pre-commit check failed: ",
        count_text.as_str(),
        if errors == 1 {
            " blocking violation found"
        } else {
            " blocking violations found"
        },
    );
    Err(GuardianError::Configuration { message })
}

/// Whether a report is fit for production: it must hold no violations at all.
pub fn production_verdict(report: &ValidationReport) -> (r: Result<(), GuardianError>)
    ensures
        r is Ok <==> report.violations@.len() == 0,
        r matches Err(e) ==> e@ == (ErrorView::Configuration {
            message: production_message(report.violations@.len()),
        }),
{
    if !report.has_violations() {
        return Ok(());
    }
    let count = crate::numerals::decimal_text(report.violations.len() as u64);
    let count_text = string_of(count.as_slice());
    let message = concat3(
        "Production validation failed: ",
        count_text.as_str(),
        " violations found",
    );
    Err(GuardianError::Configuration { message })
}

} // verus!
