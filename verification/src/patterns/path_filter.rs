//! Which files are candidates for analysis.
//!
//! A filter is an ordered list of shell-style patterns. Every path is included
//! to begin with; each pattern that matches the path overwrites the decision
//! with its own polarity, so the last pattern that matches decides. Ignore files
//! found in the directories above a path are read the same way and carry the
//! decision on: a pattern of an ignore file can exclude what the filter
//! included and include again what it excluded.

use vstd::prelude::*;
use crate::bindings::{compile_glob, glob_accepts, glob_compiles, glob_matches, glob_source};
use crate::domain::violations::GuardianError;
use crate::paths::{base_name, file_name, relative_path, relative_to};
use crate::patterns::checks::{concat2, concat3};
use crate::numerals::decimal;
use crate::text::{append, chars_of, contains_char, has_prefix, slice_of, string_of};
use crate::textlines::{lines, lines_of, string_texts, texts, trim, trimmed};

verus! {

/// What a filter pattern says: its text, without the leading `!` of an include
/// pattern, and its polarity.
pub struct FilterRule {
    pub original: Seq<char>,
    pub is_include: bool,
}

/// A compiled filter pattern.
#[derive(Debug)]
pub struct FilterPattern {
    pattern: glob::Pattern,
    is_include: bool,
    original: String,
}

impl FilterPattern {
    #[verifier::type_invariant]
    spec fn inv(self) -> bool {
        glob_source(self.pattern) == self.original@
    }

    /// What the pattern says.
    pub closed spec fn view(&self) -> FilterRule {
        FilterRule { original: self.original@, is_include: self.is_include }
    }
}

/// What each pattern of a list says.
pub open spec fn rule_list(ps: Seq<FilterPattern>) -> Seq<FilterRule> {
    ps.map_values(|p: FilterPattern| p@)
}

/// An ignore file that was found in a directory above a path.
#[derive(Debug, Clone)]
pub struct IgnoreFile {
    /// The directory that holds the file.
    pub directory: String,
    /// The text of the file.
    pub content: String,
}

/// A path with what is known of it: whether it is a directory, and the ignore
/// files of the directories above it, nearest first.
#[derive(Debug, Clone)]
pub struct Candidate {
    pub path: String,
    pub is_dir: bool,
    pub ignore_files: Vec<IgnoreFile>,
}

/// What a filter says.
pub struct FilterView {
    pub rules: Seq<FilterRule>,
    pub process_ignore_files: bool,
    pub ignore_filename: Seq<char>,
}

/// Manages path filtering with ordered include and exclude patterns.
#[derive(Debug)]
pub struct PathFilter {
    patterns: Vec<FilterPattern>,
    process_ignore_files: bool,
    ignore_filename: String,
}

// ---------------------------------------------------------------------------
// What the patterns mean
// ---------------------------------------------------------------------------

/// A pattern text and its polarity: a leading `!` makes an include pattern.
pub open spec fn read_pattern(text: Seq<char>) -> FilterRule {
    if text.len() > 0 && text[0] == '!' {
        FilterRule { original: text.skip(1), is_include: true }
    } else {
        FilterRule { original: text, is_include: false }
    }
}

/// `s` without the `/` at its end.
pub open spec fn without_trailing_slashes(s: Seq<char>) -> Seq<char>
    decreases s.len(),
{
    if s.len() > 0 && s.last() == '/' {
        without_trailing_slashes(s.drop_last())
    } else {
        s
    }
}

/// Whether a pattern matches a path. A pattern that ends in `/` matches
/// directories only. A pattern that begins with `/` is matched without it
/// against the whole path, as is a pattern that holds a `/` elsewhere. A
/// pattern without `/` is matched against the base name.
pub open spec fn rule_matches(rule: FilterRule, path: Seq<char>, is_dir: bool) -> bool {
    let p = rule.original;
    if p.len() > 0 && p.last() == '/' {
        is_dir && glob_compiles(without_trailing_slashes(p)) && glob_accepts(
            without_trailing_slashes(p),
            path,
        )
    } else if p.len() > 0 && p[0] == '/' {
        glob_compiles(p.skip(1)) && glob_accepts(p.skip(1), path)
    } else if p.contains('/') {
        glob_accepts(p, path)
    } else {
        match base_name(path) {
            Some(name) => glob_accepts(p, name),
            None => false,
        }
    }
}

/// The decision after the first `n` rules, starting from `start`: the polarity
/// of the last of them that matches, or `start` when none matches.
pub open spec fn decision(rules: Seq<FilterRule>, path: Seq<char>, is_dir: bool, start: bool, n: int)
    -> bool
    decreases n,
{
    if n <= 0 {
        start
    } else if rule_matches(rules[n - 1], path, is_dir) {
        rules[n - 1].is_include
    } else {
        decision(rules, path, is_dir, start, n - 1)
    }
}

/// The rule that a line of an ignore file gives: none for blank lines, comment
/// lines and patterns that do not compile.
pub open spec fn line_rule(line: Seq<char>) -> Option<FilterRule> {
    let t = trimmed(line);
    if t.len() == 0 || t[0] == '#' {
        None
    } else if glob_compiles(read_pattern(t).original) {
        Some(read_pattern(t))
    } else {
        None
    }
}

/// The rules of the first `n` lines, in order.
pub open spec fn lines_rules(lines: Seq<Seq<char>>, n: int) -> Seq<FilterRule>
    decreases n,
{
    if n <= 0 {
        Seq::<FilterRule>::empty()
    } else {
        match line_rule(lines[n - 1]) {
            Some(r) => lines_rules(lines, n - 1).push(r),
            None => lines_rules(lines, n - 1),
        }
    }
}

/// The rules of an ignore file.
pub open spec fn file_rules(content: Seq<char>) -> Seq<FilterRule> {
    lines_rules(lines_of(content), lines_of(content).len() as int)
}

/// The decision after the first `n` ignore files, starting from `start`. Each
/// file is read against the path as seen from its directory and goes on from
/// what was decided before it; a file of a directory that the path does not
/// lie under says nothing.
pub open spec fn included_after(
    files: Seq<IgnoreFile>,
    path: Seq<char>,
    is_dir: bool,
    start: bool,
    n: int,
) -> bool
    decreases n,
{
    if n <= 0 {
        start
    } else {
        let before = included_after(files, path, is_dir, start, n - 1);
        match relative_to(path, files[n - 1].directory@) {
            Some(rel) => decision(
                file_rules(files[n - 1].content@),
                rel,
                is_dir,
                before,
                file_rules(files[n - 1].content@).len() as int,
            ),
            None => before,
        }
    }
}

/// Whether the first `n` ignore files, taken by themselves, leave the path
/// ignored.
pub open spec fn ignored_after(files: Seq<IgnoreFile>, path: Seq<char>, is_dir: bool, n: int) -> bool {
    !included_after(files, path, is_dir, true, n)
}

/// Whether a filter lets a path through. The decision starts at "include",
/// runs through the filter's own patterns and, if the filter honours ignore
/// files, on through the ignore files: the last pattern that matches decides,
/// wherever it stands.
pub open spec fn lets_through(f: FilterView, path: Seq<char>, is_dir: bool, files: Seq<IgnoreFile>)
    -> bool {
    let own = decision(f.rules, path, is_dir, true, f.rules.len() as int);
    if f.process_ignore_files {
        included_after(files, path, is_dir, own, files.len() as int)
    } else {
        own
    }
}

/// How the message for a pattern that does not compile begins; what follows
/// is the reason that the pattern library gives.
pub open spec fn invalid_pattern_lead(pattern: Seq<char>) -> Seq<char> {
    "Invalid pattern '"@ + pattern + "': "@
}

/// The rules that a list of pattern texts gives.
pub open spec fn read_patterns(texts: Seq<Seq<char>>) -> Seq<FilterRule> {
    texts.map_values(|t: Seq<char>| read_pattern(t))
}

/// Whether every pattern text of a list compiles.
pub open spec fn all_compile(texts: Seq<Seq<char>>) -> bool {
    forall|i: int| 0 <= i < texts.len() ==> glob_compiles(read_pattern(#[trigger] texts[i]).original)
}

/// The name of ignore files when none is given.
pub open spec fn default_ignore_filename() -> Seq<char> {
    ".guardianignore"@
}

/// The patterns of the default filter.
pub open spec fn default_filter_patterns() -> Seq<Seq<char>> {
    seq![
        "target/**"@,
        "**/node_modules/**"@,
        "**/.git/**"@,
        "**/*.generated.*"@,
        "**/dist/**"@,
        "**/build/**"@,
    ]
}

/// One line of the description that `debug_patterns` gives.
pub open spec fn debug_line(i: int, rule: FilterRule, matches: bool) -> Seq<char> {
    "Pattern "@ + decimal(i as nat) + ": "@ + (if rule.is_include {
        "!"@
    } else {
        ""@
    }) + rule.original + " -> "@ + (if matches {
        "MATCH"@
    } else {
        "no match"@
    })
}

// ---------------------------------------------------------------------------
// Reading and matching
// ---------------------------------------------------------------------------

/// Compiles one pattern text.
fn compile_pattern(text: &str) -> (r: Result<FilterPattern, GuardianError>)
    ensures
        r is Ok <==> glob_compiles(read_pattern(text@).original),
        r matches Ok(p) ==> p@ == read_pattern(text@),
        r matches Err(e) ==> e is Pattern,
        r matches Err(GuardianError::Pattern { message }) ==> has_prefix(
            message@,
            invalid_pattern_lead(read_pattern(text@).original),
        ),
{
    let chars = chars_of(text);
    let is_include = chars.len() > 0 && chars[0] == '!';
    let original = if is_include {
        let rest = slice_of(chars.as_slice(), 1, chars.len());
        assert(rest@ =~= text@.skip(1));
        string_of(rest.as_slice())
    } else {
        text.to_owned()
    };
    match compile_glob(original.as_str()) {
        Ok(pattern) => Ok(FilterPattern { pattern, is_include, original }),
        Err(e) => {
            let head = concat3("Invalid pattern '", original.as_str(), "': ");
            let detail = e.to_string();
            let message = concat2(head.as_str(), detail.as_str());
            assert(message@.subrange(0, head@.len() as int) =~= head@);
            Err(GuardianError::Pattern { message })
        },
    }
}

fn strip_trailing_slashes(s: &[char]) -> (out: Vec<char>)
    ensures
        out@ == without_trailing_slashes(s@),
{
    let mut n: usize = s.len();
    assert(s@.take(n as int) =~= s@);
    while n > 0 && s[n - 1] == '/'
        invariant
            n <= s.len(),
            without_trailing_slashes(s@) == without_trailing_slashes(s@.take(n as int)),
        decreases n,
    {
        proof {
            let cur = s@.take(n as int);
            assert(cur.last() == s@[n - 1]);
            assert(cur.drop_last() =~= s@.take(n - 1));
        }
        n -= 1;
    }
    proof {
        let cur = s@.take(n as int);
        if n > 0 {
            assert(cur.last() == s@[n - 1]);
        }
    }
    let out = slice_of(s, 0, n);
    assert(out@ =~= s@.take(n as int));
    out
}

fn matches_compiled(text: &[char], path: &str) -> (b: bool)
    ensures
        b == (glob_compiles(text@) && glob_accepts(text@, path@)),
{
    let t = string_of(text);
    match compile_glob(t.as_str()) {
        Ok(p) => glob_matches(&p, path),
        Err(_) => false,
    }
}

/// Whether a pattern matches a path.
fn pattern_matches_path(pattern: &FilterPattern, path: &str, is_dir: bool) -> (b: bool)
    ensures
        b == rule_matches(pattern@, path@, is_dir),
{
    proof {
        use_type_invariant(pattern);
    }
    let p = chars_of(pattern.original.as_str());
    if p.len() > 0 && p[p.len() - 1] == '/' {
        if !is_dir {
            return false;
        }
        let dir = strip_trailing_slashes(p.as_slice());
        return matches_compiled(dir.as_slice(), path);
    }
    if p.len() > 0 && p[0] == '/' {
        let rest = slice_of(p.as_slice(), 1, p.len());
        assert(rest@ =~= pattern@.original.skip(1));
        return matches_compiled(rest.as_slice(), path);
    }
    if contains_char(p.as_slice(), '/') {
        return glob_matches(&pattern.pattern, path);
    }
    let chars = chars_of(path);
    match file_name(chars.as_slice()) {
        Some(name) => {
            let name_text = string_of(name.as_slice());
            glob_matches(&pattern.pattern, name_text.as_str())
        },
        None => false,
    }
}

fn decide(patterns: &Vec<FilterPattern>, path: &str, is_dir: bool, start: bool) -> (d: bool)
    ensures
        d == decision(rule_list(patterns@), path@, is_dir, start, patterns@.len() as int),
{
    let mut d = start;
    let mut i: usize = 0;
    while i < patterns.len()
        invariant
            i <= patterns.len(),
            d == decision(rule_list(patterns@), path@, is_dir, start, i as int),
        decreases patterns.len() - i,
    {
        assert(rule_list(patterns@)[i as int] == patterns@[i as int]@);
        if pattern_matches_path(&patterns[i], path, is_dir) {
            d = patterns[i].is_include;
        }
        i += 1;
    }
    d
}

/// Reads the text of an ignore file: one pattern per line; blank lines, lines
/// that begin with `#` and patterns that do not compile are skipped.
pub fn load_ignore_file(content: &str) -> (out: Vec<FilterPattern>)
    ensures
        rule_list(out@) == file_rules(content@),
{
    let chars = chars_of(content);
    let all = lines(chars.as_slice());
    let ghost ls = texts(all@);
    let mut out: Vec<FilterPattern> = Vec::new();
    let mut i: usize = 0;
    assert(rule_list(out@) =~= lines_rules(ls, 0));
    while i < all.len()
        invariant
            i <= all.len(),
            ls == texts(all@),
            rule_list(out@) == lines_rules(ls, i as int),
        decreases all.len() - i,
    {
        assert(ls[i as int] == all@[i as int]@);
        let t = trim(all[i].as_slice());
        if t.len() > 0 && t[0] != '#' {
            let text = string_of(t.as_slice());
            match compile_pattern(text.as_str()) {
                Ok(p) => {
                    assert(rule_list(out@.push(p)) =~= rule_list(out@).push(p@));
                    out.push(p);
                },
                Err(_) => {},
            }
        }
        i += 1;
    }
    out
}

/// The decision after the ignore files, starting from `start`.
fn decide_by_files(path: &str, is_dir: bool, ignore_files: &Vec<IgnoreFile>, start: bool) -> (d:
    bool)
    ensures
        d == included_after(ignore_files@, path@, is_dir, start, ignore_files@.len() as int),
{
    let chars = chars_of(path);
    let mut d = start;
    let mut i: usize = 0;
    while i < ignore_files.len()
        invariant
            i <= ignore_files.len(),
            chars@ == path@,
            d == included_after(ignore_files@, path@, is_dir, start, i as int),
        decreases ignore_files.len() - i,
    {
        let file = &ignore_files[i];
        let dir = chars_of(file.directory.as_str());
        match relative_path(chars.as_slice(), dir.as_slice()) {
            Some(rel) => {
                let rules = load_ignore_file(file.content.as_str());
                let rel_text = string_of(rel.as_slice());
                assert(rule_list(rules@).len() == rules@.len());
                d = decide(&rules, rel_text.as_str(), is_dir, d);
            },
            None => {},
        }
        i += 1;
    }
    d
}

impl PathFilter {
    /// What the filter says.
    pub closed spec fn view(&self) -> FilterView {
        FilterView {
            rules: rule_list(self.patterns@),
            process_ignore_files: self.process_ignore_files,
            ignore_filename: self.ignore_filename@,
        }
    }

    /// A filter with the given patterns. The filter honours ignore files of the
    /// given name, if one is given. One pattern that does not compile rejects
    /// the whole filter.
    pub fn new(patterns: Vec<String>, ignore_filename: Option<String>) -> (r: Result<
        PathFilter,
        GuardianError,
    >)
        ensures
            r is Ok <==> all_compile(string_texts(patterns@)),
            r matches Ok(f) ==> f@ == (FilterView {
                rules: read_patterns(string_texts(patterns@)),
                process_ignore_files: ignore_filename is Some,
                ignore_filename: match ignore_filename {
                    Some(name) => name@,
                    None => default_ignore_filename(),
                },
            }),
            r matches Err(e) ==> e is Pattern,
            r matches Err(GuardianError::Pattern { message }) ==> exists|i: int|
                0 <= i < patterns@.len() && #[trigger] has_prefix(
                    message@,
                    invalid_pattern_lead(read_pattern(string_texts(patterns@)[i]).original),
                ) && !glob_compiles(read_pattern(string_texts(patterns@)[i]).original)
                    && forall|j: int|
                    0 <= j < i ==> glob_compiles(
                        read_pattern(#[trigger] string_texts(patterns@)[j]).original,
                    ),
    {
        let ghost given = string_texts(patterns@);
        let mut compiled: Vec<FilterPattern> = Vec::new();
        let mut i: usize = 0;
        while i < patterns.len()
            invariant
                i <= patterns.len(),
                given == string_texts(patterns@),
                rule_list(compiled@) == read_patterns(given).take(i as int),
                forall|j: int|
                    0 <= j < i ==> glob_compiles(read_pattern(#[trigger] given[j]).original),
            decreases patterns.len() - i,
        {
            assert(given[i as int] == patterns@[i as int]@);
            match compile_pattern(patterns[i].as_str()) {
                Ok(p) => {
                    assert(read_patterns(given)[i as int] == read_pattern(given[i as int]));
                    assert(rule_list(compiled@.push(p)) =~= rule_list(compiled@).push(p@));
                    assert(read_patterns(given).take(i + 1) =~= read_patterns(given).take(
                        i as int,
                    ).push(p@));
                    compiled.push(p);
                },
                Err(e) => {
                    return Err(e);
                },
            }
            i += 1;
        }
        assert(read_patterns(given).take(given.len() as int) =~= read_patterns(given));
        let process_ignore_files = ignore_filename.is_some();
        let name = match ignore_filename {
            Some(name) => name,
            None => ".guardianignore".to_owned(),
        };
        Ok(PathFilter { patterns: compiled, process_ignore_files, ignore_filename: name })
    }

    /// The default filter: build output, dependencies, version control and
    /// generated files are excluded, and ignore files are honoured.
    pub fn with_defaults() -> (r: Result<PathFilter, GuardianError>)
        ensures
            r is Ok <==> all_compile(default_filter_patterns()),
            r matches Ok(f) ==> f@ == (FilterView {
                rules: read_patterns(default_filter_patterns()),
                process_ignore_files: true,
                ignore_filename: default_ignore_filename(),
            }),
            r matches Err(e) ==> e is Pattern,
    {
        let patterns = vec![
            "target/**".to_owned(),
            "**/node_modules/**".to_owned(),
            "**/.git/**".to_owned(),
            "**/*.generated.*".to_owned(),
            "**/dist/**".to_owned(),
            "**/build/**".to_owned(),
        ];
        assert(string_texts(patterns@) =~= default_filter_patterns());
        PathFilter::new(patterns, Some(".guardianignore".to_owned()))
    }

    /// Whether the filter honours ignore files.
    pub fn processes_ignore_files(&self) -> (b: bool)
        ensures
            b == self@.process_ignore_files,
    {
        self.process_ignore_files
    }

    /// The name of the ignore files that the filter honours.
    pub fn ignore_filename(&self) -> (name: &String)
        ensures
            name@ == self@.ignore_filename,
    {
        &self.ignore_filename
    }

    /// Whether the ignore files found above a path, taken by themselves, leave
    /// it ignored.
    pub fn is_ignored_by_files(path: &str, is_dir: bool, ignore_files: &Vec<IgnoreFile>) -> (b: bool)
        ensures
            b == ignored_after(ignore_files@, path@, is_dir, ignore_files@.len() as int),
    {
        !decide_by_files(path, is_dir, ignore_files, true)
    }

    /// Whether a path should be analyzed, given whether it is a directory and
    /// the ignore files found in the directories above it, nearest first.
    pub fn should_analyze(&self, path: &str, is_dir: bool, ignore_files: &Vec<IgnoreFile>) -> (b:
        bool)
        ensures
            b == lets_through(self@, path@, is_dir, ignore_files@),
    {
        assert(rule_list(self.patterns@).len() == self.patterns@.len());
        let own = decide(&self.patterns, path, is_dir, true);
        if self.process_ignore_files {
            decide_by_files(path, is_dir, ignore_files, own)
        } else {
            own
        }
    }

    /// The positions of the candidates that should be analyzed, in order.
    pub fn filter_paths(&self, candidates: &Vec<Candidate>) -> (kept: Vec<usize>)
        ensures
            forall|k: int| 0 <= k < kept@.len() ==> (#[trigger] kept@[k]) < candidates@.len(),
            forall|k: int, l: int| 0 <= k < l < kept@.len() ==> kept@[k] < kept@[l],
            forall|i: int|
                0 <= i < candidates@.len() ==> (kept@.contains(i as usize) <==> lets_through(
                    self@,
                    (#[trigger] candidates@[i]).path@,
                    candidates@[i].is_dir,
                    candidates@[i].ignore_files@,
                )),
    {
        let mut kept: Vec<usize> = Vec::new();
        let mut i: usize = 0;
        while i < candidates.len()
            invariant
                i <= candidates.len(),
                forall|k: int| 0 <= k < kept@.len() ==> (#[trigger] kept@[k]) < i,
                forall|k: int, l: int| 0 <= k < l < kept@.len() ==> kept@[k] < kept@[l],
                forall|j: int|
                    0 <= j < i ==> (kept@.contains(j as usize) <==> lets_through(
                        self@,
                        (#[trigger] candidates@[j]).path@,
                        candidates@[j].is_dir,
                        candidates@[j].ignore_files@,
                    )),
            decreases candidates.len() - i,
        {
            let c = &candidates[i];
            let ghost before = kept@;
            if self.should_analyze(c.path.as_str(), c.is_dir, &c.ignore_files) {
                kept.push(i);
                assert(kept@.last() == i);
                assert forall|j: int| 0 <= j < i + 1 implies (kept@.contains(j as usize)
                    <==> lets_through(
                    self@,
                    (#[trigger] candidates@[j]).path@,
                    candidates@[j].is_dir,
                    candidates@[j].ignore_files@,
                )) by {
                    if j < i {
                        if before.contains(j as usize) {
                            let at = choose|x: int| 0 <= x < before.len() && before[x] == j as usize;
                            assert(kept@[at] == j as usize);
                        }
                        if kept@.contains(j as usize) {
                            let at = choose|x: int| 0 <= x < kept@.len() && kept@[x] == j as usize;
                            assert(at < before.len());
                            assert(before[at] == j as usize);
                        }
                    } else {
                        assert(kept@[kept@.len() - 1] == j as usize);
                    }
                }
            } else {
                assert forall|j: int| 0 <= j < i + 1 implies (kept@.contains(j as usize)
                    <==> lets_through(
                    self@,
                    (#[trigger] candidates@[j]).path@,
                    candidates@[j].is_dir,
                    candidates@[j].ignore_files@,
                )) by {
                    if j == i && kept@.contains(j as usize) {
                        let at = choose|x: int| 0 <= x < kept@.len() && kept@[x] == j as usize;
                        assert(kept@[at] < i);
                    }
                }
            }
            i += 1;
        }
        kept
    }

    /// Adds a pattern behind those already there. A pattern that does not
    /// compile leaves the filter as it was, and the message of the error names
    /// the pattern.
    pub fn add_pattern(&mut self, pattern: String) -> (r: Result<(), GuardianError>)
        ensures
            r is Ok <==> glob_compiles(read_pattern(pattern@).original),
            r is Ok ==> final(self)@ == (FilterView {
                rules: old(self)@.rules.push(read_pattern(pattern@)),
                ..old(self)@
            }),
            r matches Err(e) ==> e is Pattern && final(self)@ == old(self)@,
            r matches Err(GuardianError::Pattern { message }) ==> has_prefix(
                message@,
                invalid_pattern_lead(read_pattern(pattern@).original),
            ),
    {
        match compile_pattern(pattern.as_str()) {
            Ok(p) => {
                let ghost before = self.patterns@;
                self.patterns.push(p);
                assert(rule_list(self.patterns@) =~= rule_list(before).push(p@));
                Ok(())
            },
            Err(e) => Err(e),
        }
    }

    /// One line for each pattern of the filter, saying whether it matches.
    pub fn debug_patterns(&self, path: &str, is_dir: bool) -> (out: Vec<String>)
        ensures
            out@.len() == self@.rules.len(),
            forall|i: int|
                0 <= i < out@.len() ==> (#[trigger] out@[i])@ == debug_line(
                    i,
                    self@.rules[i],
                    rule_matches(self@.rules[i], path@, is_dir),
                ),
    {
        let mut out: Vec<String> = Vec::new();
        let mut i: usize = 0;
        while i < self.patterns.len()
            invariant
                i <= self.patterns.len(),
                out@.len() == i,
                forall|j: int|
                    0 <= j < i ==> (#[trigger] out@[j])@ == debug_line(
                        j,
                        self@.rules[j],
                        rule_matches(self@.rules[j], path@, is_dir),
                    ),
            decreases self.patterns.len() - i,
        {
            let p = &self.patterns[i];
            assert(self@.rules[i as int] == p@);
            let matches = pattern_matches_path(p, path, is_dir);
            let mut line = chars_of("Pattern ");
            crate::numerals::push_decimal(&mut line, i as u64);
            let sep = chars_of(": ");
            append(&mut line, sep.as_slice());
            let prefix = chars_of(if p.is_include { "!" } else { "" });
            append(&mut line, prefix.as_slice());
            let original = chars_of(p.original.as_str());
            append(&mut line, original.as_slice());
            let arrow = chars_of(" -> ");
            append(&mut line, arrow.as_slice());
            let verdict = chars_of(if matches { "MATCH" } else { "no match" });
            append(&mut line, verdict.as_slice());
            assert(line@ =~= debug_line(i as int, p@, matches));
            out.push(string_of(line.as_slice()));
            i += 1;
        }
        out
    }
}

/// A pattern that matches decides: after a list of patterns whose last one
/// matches a path, the decision is that pattern's polarity, whatever the
/// patterns before it said.
pub proof fn lemma_last_match_wins(
    rules: Seq<FilterRule>,
    last: FilterRule,
    path: Seq<char>,
    is_dir: bool,
    start: bool,
)
    ensures
        rule_matches(last, path, is_dir) ==> decision(
            rules.push(last),
            path,
            is_dir,
            start,
            rules.len() as int + 1,
        ) == last.is_include,
        !rule_matches(last, path, is_dir) ==> decision(
            rules.push(last),
            path,
            is_dir,
            start,
            rules.len() as int + 1,
        ) == decision(rules, path, is_dir, start, rules.len() as int),
{
    lemma_decision_prefix(rules.push(last), rules, path, is_dir, start, rules.len() as int);
}

/// Ignore files are heard after the filter's own patterns: where the last
/// pattern of the last ignore file matches a path, that pattern decides,
/// whatever the filter's own patterns and the ignore files before it said.
pub proof fn lemma_ignore_file_decides(
    f: FilterView,
    files: Seq<IgnoreFile>,
    path: Seq<char>,
    is_dir: bool,
)
    requires
        f.process_ignore_files,
        files.len() > 0,
        relative_to(path, files.last().directory@) is Some,
        file_rules(files.last().content@).len() > 0,
        rule_matches(
            file_rules(files.last().content@).last(),
            relative_to(path, files.last().directory@)->0,
            is_dir,
        ),
    ensures
        lets_through(f, path, is_dir, files) == file_rules(files.last().content@).last().is_include,
{
}

/// The decision after `n` rules looks at those rules only.
pub proof fn lemma_decision_prefix(
    a: Seq<FilterRule>,
    b: Seq<FilterRule>,
    path: Seq<char>,
    is_dir: bool,
    start: bool,
    n: int,
)
    requires
        0 <= n <= a.len(),
        n <= b.len(),
        forall|i: int| 0 <= i < n ==> a[i] == b[i],
    ensures
        decision(a, path, is_dir, start, n) == decision(b, path, is_dir, start, n),
    decreases n,
{
    if n > 0 {
        lemma_decision_prefix(a, b, path, is_dir, start, n - 1);
    }
}

} // verus!
