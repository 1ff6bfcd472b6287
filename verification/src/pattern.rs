//! Compiled regular expressions, from the `regex` crate.

use regex::Regex;
use vstd::prelude::*;

verus! {

/// The `regex` crate's compiled regular expression, carried opaquely.
#[verifier::external_type_specification]
#[verifier::external_body]
pub struct ExRegex(Regex);

/// Whether `Regex::new` accepts the pattern text `pattern`.
pub uninterp spec fn regex_compiles(pattern: Seq<char>) -> bool;

/// What `Regex::is_match` answers for the regex compiled from `pattern` on
/// `haystack`: whether the regex matches somewhere in `haystack`.
pub uninterp spec fn regex_finds(pattern: Seq<char>, haystack: Seq<char>) -> bool;

/// A regex together with the pattern text it was compiled from. Only
/// `compile` builds one, so the regex is always the compilation of the text.
pub(crate) struct CompiledPattern {
    regex: Regex,
    source: String,
}

impl CompiledPattern {
    /// The pattern text the regex was compiled from.
    pub(crate) closed spec fn source(&self) -> Seq<char> {
        self.source@
    }

    /// `Regex::new`: the contract claims that it succeeds exactly for the
    /// pattern texts named accepted, and that the result keeps the text.
    #[verifier::external_body]
    pub(crate) fn compile(source: &str) -> (r: Option<CompiledPattern>)
        ensures
            r is Some <==> regex_compiles(source@),
            r matches Some(p) ==> p.source() == source@,
    {
        match Regex::new(source) {
            Ok(regex) => Some(CompiledPattern { regex, source: source.to_string() }),
            Err(_) => None,
        }
    }

    /// `Regex::is_match`: the contract claims the answer is the named match
    /// relation between the pattern text and the haystack.
    #[verifier::external_body]
    pub(crate) fn is_match(&self, haystack: &str) -> (r: bool)
        ensures
            r == regex_finds(self.source(), haystack@),
    {
        self.regex.is_match(haystack)
    }
}

} // verus!
