//! The trusted boundary of the crate.
//!
//! Each item here states, without proof, what a function of another crate (or of
//! the standard library) does. Everything else in the crate is proved on top of
//! these statements, so each one says no more than the documentation of the
//! function it stands for.

use vstd::prelude::*;

verus! {

// ---------------------------------------------------------------------------
// Clock (chrono)
// ---------------------------------------------------------------------------

/// A point in time: whole seconds since the Unix epoch and the nanoseconds within
/// that second.
#[derive(Debug, Clone, Copy, PartialEq, Eq, Structural)]
pub struct Timestamp {
    pub secs: i64,
    pub nanos: u32,
}

/// Reads the clock with `SystemTime::now` and turns the reading into a date
/// through chrono's `From<SystemTime> for DateTime<Utc>`, of which it hands
/// back `timestamp()` and `timestamp_subsec_nanos()`. A clock that stands
/// before the Unix epoch gives negative seconds. Nothing is claimed of the
/// value: two readings may differ.
#[verifier::external_body]
pub(crate) fn utc_now() -> (t: Timestamp) {
    let now: chrono::DateTime<chrono::Utc> = chrono::DateTime::from(std::time::SystemTime::now());
    Timestamp { secs: now.timestamp(), nanos: now.timestamp_subsec_nanos() }
}

// ---------------------------------------------------------------------------
// Regular expressions (regex)
// ---------------------------------------------------------------------------

/// A compiled regular expression of the `regex` crate.
#[verifier::external_type_specification]
#[verifier::external_body]
pub struct ExRegex(regex::Regex);

/// The error that the `regex` crate gives for a pattern it cannot compile.
#[verifier::external_type_specification]
#[verifier::external_body]
pub struct ExRegexError(regex::Error);

/// Whether the `regex` crate compiles the pattern, with or without case folding.
pub uninterp spec fn regex_compiles(pattern: Seq<char>, fold_case: bool) -> bool;

/// The matches that `Regex::find_iter` yields for a compiled expression on a
/// text, in order: each a pair of byte offsets into the UTF-8 form of the text,
/// start and end. They depend on everything the expression was built with.
pub uninterp spec fn regex_hits(re: regex::Regex, text: Seq<char>) -> Seq<(usize, usize)>;

/// The matches on a text of the expression that
/// `RegexBuilder::new(pattern).case_insensitive(fold_case).build()` gives, with
/// every other option of the builder left as it is.
pub uninterp spec fn regex_spans(pattern: Seq<char>, fold_case: bool, text: Seq<char>) -> Seq<
    (usize, usize),
>;

/// `RegexBuilder::new(pattern).case_insensitive(fold_case).build()`. It succeeds
/// exactly on the patterns the crate accepts, and what the compiled expression
/// finds in a text is what this pattern and this flag find in it.
#[verifier::external_body]
pub(crate) fn compile_regex(pattern: &str, fold_case: bool) -> (r: Result<
    regex::Regex,
    regex::Error,
>)
    ensures
        r is Ok <==> regex_compiles(pattern@, fold_case),
        r matches Ok(re) ==> forall|t: Seq<char>|
            #[trigger] regex_hits(re, t) == regex_spans(pattern@, fold_case, t),
{
    regex::RegexBuilder::new(pattern).case_insensitive(fold_case).build()
}

/// `Regex::find_iter`, each match reduced to its `start()` and `end()`.
#[verifier::external_body]
pub(crate) fn regex_find_all(re: &regex::Regex, text: &str) -> (spans: Vec<(usize, usize)>)
    ensures
        spans@ == regex_hits(*re, text@),
{
    re.find_iter(text).map(|m| (m.start(), m.end())).collect()
}

/// `Regex::is_match`: true exactly when the expression matches somewhere in the
/// text, that is when `find_iter` would yield a match.
#[verifier::external_body]
pub(crate) fn regex_is_match(re: &regex::Regex, text: &str) -> (b: bool)
    ensures
        b == (regex_hits(*re, text@).len() > 0),
{
    re.is_match(text)
}

// ---------------------------------------------------------------------------
// Shell-style patterns (glob)
// ---------------------------------------------------------------------------

/// A compiled shell-style pattern of the `glob` crate.
#[verifier::external_type_specification]
#[verifier::external_body]
pub struct ExGlobPattern(glob::Pattern);

/// The error that the `glob` crate gives for a pattern it cannot compile.
#[verifier::external_type_specification]
#[verifier::external_body]
pub struct ExGlobPatternError(glob::PatternError);

/// The pattern text that a compiled pattern was made from (`Pattern::as_str`).
pub uninterp spec fn glob_source(p: glob::Pattern) -> Seq<char>;

/// Whether the `glob` crate compiles the pattern.
pub uninterp spec fn glob_compiles(pattern: Seq<char>) -> bool;

/// Whether the compiled form of `pattern` matches the whole of `text` under the
/// crate's default options (`Pattern::matches`).
pub uninterp spec fn glob_accepts(pattern: Seq<char>, text: Seq<char>) -> bool;

/// `glob::Pattern::new`. It succeeds exactly on the patterns the crate accepts,
/// and the compiled pattern remembers its text.
#[verifier::external_body]
pub(crate) fn compile_glob(pattern: &str) -> (r: Result<glob::Pattern, glob::PatternError>)
    ensures
        r is Ok <==> glob_compiles(pattern@),
        r matches Ok(p) ==> glob_source(p) == pattern@,
{
    glob::Pattern::new(pattern)
}

/// `glob::Pattern::matches`.
#[verifier::external_body]
pub(crate) fn glob_matches(p: &glob::Pattern, text: &str) -> (b: bool)
    ensures
        b == glob_accepts(glob_source(*p), text@),
{
    p.matches(text)
}

// ---------------------------------------------------------------------------
// Digest (sha2)
// ---------------------------------------------------------------------------

/// The SHA-256 digest of a byte string.
pub uninterp spec fn sha256(bytes: Seq<u8>) -> Seq<u8>;

/// `sha2::Sha256::digest`, as a vector.
#[verifier::external_body]
pub(crate) fn sha256_digest(bytes: &[u8]) -> (d: Vec<u8>)
    ensures
        d@ == sha256(bytes@),
{
    let d = <sha2::Sha256 as sha2::Digest>::digest(bytes);
    d.to_vec()
}

// ---------------------------------------------------------------------------
// Strings (std)
// ---------------------------------------------------------------------------

/// `String::push` appends exactly one character.
pub assume_specification[ String::push ](s: &mut String, c: char)
    ensures
        final(s)@ == old(s)@.push(c),
;

/// The lower-case form of a text, as `str::to_lowercase` gives it.
pub uninterp spec fn lowercase(text: Seq<char>) -> Seq<char>;

/// `str::to_lowercase`.
#[verifier::external_body]
pub(crate) fn to_lowercase(text: &str) -> (s: String)
    ensures
        s@ == lowercase(text@),
{
    text.to_lowercase()
}

} // verus!
