//! Compiled regular expressions.
//!
//! Regex matching is delegated to the `regex` crate. Its behaviour is named,
//! not restated: `regex_compiles` stands for which patterns compile, and
//! `regex_found` for whether a pattern finds a match somewhere in a text
//! (an unanchored search; a pattern must anchor with `^`/`$` itself to force
//! exact-style matching). Both are functions of their string arguments alone.
//!
//! A [`CompiledPattern`] pairs a compiled regex with the pattern text it was
//! built from. Its fields are private and [`CompiledPattern::compile`] is the
//! only constructor, so the pairing always holds.

use vstd::prelude::*;

verus! {

/// Whether `regex::Regex::new` accepts `pattern`. Compilation uses the
/// crate's default size limit in every call, so success depends on the
/// pattern alone.
pub uninterp spec fn regex_compiles(pattern: Seq<char>) -> bool;

/// Whether the regex compiled from `pattern` finds a match anywhere in
/// `text` (the unanchored search of `regex::Regex::is_match`).
pub uninterp spec fn regex_found(pattern: Seq<char>, text: Seq<char>) -> bool;

#[verifier::external_type_specification]
#[verifier::external_body]
pub struct ExRegex(regex::Regex);

#[verifier::external_type_specification]
#[verifier::external_body]
pub struct ExRegexError(regex::Error);

/// Relies on `regex::Regex::new`: parses `pattern` and returns the compiled
/// regex, or an error for an invalid (or over-sized) pattern; the outcome is
/// a function of the pattern alone.
#[verifier::external_body]
fn regex_new(pattern: &str) -> (r: Result<regex::Regex, regex::Error>)
    ensures
        r is Ok <==> regex_compiles(pattern@),
{
    regex::Regex::new(pattern)
}

/// An invalid regular expression pattern, reported at construction time so
/// that no pattern is ever compiled (or found invalid) on the request path.
#[derive(Debug)]
pub struct RegexCompileError {
    pub pattern: String,
}

/// A compiled regular expression together with the pattern it was compiled
/// from.
#[derive(Debug)]
pub struct CompiledPattern {
    pattern: String,
    regex: regex::Regex,
}

impl CompiledPattern {
    /// The pattern text this value was compiled from.
    pub closed spec fn pattern_view(&self) -> Seq<char> {
        self.pattern@
    }

    /// Compiles `pattern`, failing exactly on the patterns the regex engine
    /// rejects.
    pub fn compile(pattern: String) -> (r: Result<CompiledPattern, RegexCompileError>)
        ensures
            r is Ok <==> regex_compiles(pattern@),
            r matches Ok(c) ==> c.pattern_view() == pattern@,
            r matches Err(e) ==> e.pattern@ == pattern@,
    {
        match regex_new(pattern.as_str()) {
            Ok(re) => Ok(CompiledPattern { pattern, regex: re }),
            Err(_) => Err(RegexCompileError { pattern }),
        }
    }

    /// Relies on `regex::Regex::is_match`: an unanchored search of the
    /// compiled pattern over `text`, a function of pattern and text alone.
    /// The `regex` field was compiled from the `pattern` field by `compile`,
    /// the sole constructor of this private-field type.
    #[verifier::external_body]
    pub fn is_match(&self, text: &str) -> (r: bool)
        ensures
            r == regex_found(self.pattern_view(), text@),
    {
        self.regex.is_match(text)
    }
}

} // verus!
