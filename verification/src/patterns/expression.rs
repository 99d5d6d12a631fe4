//! Compiled regular expressions.
//!
//! An [`Expression`] can only be made by compiling a pattern text, so what it
//! finds in a text is what its pattern and its flag say.

use vstd::prelude::*;
use crate::bindings::{
    compile_regex, regex_compiles, regex_find_all, regex_hits, regex_is_match, regex_spans,
};

verus! {

/// A compiled regular expression, with the pattern text and the flag that it
/// was compiled from.
#[derive(Debug)]
pub struct Expression {
    regex: regex::Regex,
    source: String,
    fold_case: bool,
}

impl Expression {
    #[verifier::type_invariant]
    spec fn inv(self) -> bool {
        forall|t: Seq<char>|
            #[trigger] regex_hits(self.regex, t) == regex_spans(self.source@, self.fold_case, t)
    }

    /// The pattern text that the expression was compiled from.
    pub closed spec fn source(&self) -> Seq<char> {
        self.source@
    }

    /// Whether the expression ignores letter case.
    pub closed spec fn folds_case(&self) -> bool {
        self.fold_case
    }

    /// Compiles a pattern text, with or without case folding. The error is the
    /// one that the expression library gives.
    pub fn compile(pattern: &str, fold_case: bool) -> (r: Result<Expression, regex::Error>)
        ensures
            r is Ok <==> regex_compiles(pattern@, fold_case),
            r matches Ok(e) ==> e.source() == pattern@ && e.folds_case() == fold_case,
    {
        match compile_regex(pattern, fold_case) {
            Ok(regex) => Ok(Expression { regex, source: pattern.to_owned(), fold_case }),
            Err(e) => Err(e),
        }
    }

    /// The pattern text that the expression was compiled from.
    pub fn as_str(&self) -> (s: &str)
        ensures
            s@ == self.source(),
    {
        self.source.as_str()
    }

    /// The matches of the expression in a text, in order: each a pair of byte
    /// offsets, start and end.
    pub fn find_all(&self, text: &str) -> (spans: Vec<(usize, usize)>)
        ensures
            spans@ == regex_spans(self.source(), self.folds_case(), text@),
    {
        proof {
            use_type_invariant(self);
        }
        regex_find_all(&self.regex, text)
    }

    /// Whether the expression matches somewhere in a text.
    pub fn is_match(&self, text: &str) -> (b: bool)
        ensures
            b == (regex_spans(self.source(), self.folds_case(), text@).len() > 0),
    {
        proof {
            use_type_invariant(self);
        }
        regex_is_match(&self.regex, text)
    }
}

} // verus!
