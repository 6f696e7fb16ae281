//! The regular-expression side of the predicate.
//!
//! Compilation and matching are done by the regex crate; the library only
//! records which pattern a compiled expression came from, so that contracts
//! can speak of matching as a function of the pattern and the text.

use crate::errors::ScanError;
use vstd::prelude::*;

verus! {

#[verifier::external_type_specification]
#[verifier::external_body]
pub struct ExRegex(regex::Regex);

/// Whether `pattern` is a well-formed regular expression.  Relied upon by
/// [`CompiledRegex::compile`].
pub uninterp spec fn regex_valid(pattern: Seq<char>) -> bool;

/// Whether `pattern` finds a match anywhere within `text` — substring search,
/// not a whole-text match.  Relied upon by [`CompiledRegex::is_match`].
pub uninterp spec fn regex_accepts(pattern: Seq<char>, text: Seq<char>) -> bool;

/// A compiled regular expression, together with the pattern it was compiled
/// from.  Values exist only through [`CompiledRegex::compile`], so the two
/// fields always belong together.
pub struct CompiledRegex {
    pattern: String,
    re: regex::Regex,
}

impl CompiledRegex {
    /// The pattern this expression was compiled from.
    pub closed spec fn pattern_view(&self) -> Seq<char> {
        self.pattern@
    }

    /// Relies on regex's Regex::new: whether a pattern compiles depends on
    /// the pattern alone.
    #[verifier::external_body]
    pub fn compile(pattern: &str) -> (r: Result<CompiledRegex, ScanError>)
        ensures
            match r {
                Ok(c) => regex_valid(pattern@) && c.pattern_view() == pattern@,
                Err(e) => !regex_valid(pattern@) && e == ScanError::BadPattern,
            },
    {
        match regex::Regex::new(pattern) {
            Ok(re) => Ok(CompiledRegex { pattern: pattern.to_string(), re }),
            Err(_) => Err(ScanError::BadPattern),
        }
    }

    /// Relies on regex's Regex::is_match: whether the pattern finds a match
    /// within the text depends on the pattern and the text alone.
    #[verifier::external_body]
    pub fn is_match(&self, text: &Vec<char>) -> (r: bool)
        ensures
            r == regex_accepts(self.pattern_view(), text@),
    {
        let s: String = text.iter().collect();
        self.re.is_match(&s)
    }
}

} // verus!
