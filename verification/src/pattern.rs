//! Compiled match patterns, backed by the regex crate.
//!
//! A compiled regex is opaque to the verifier, so this module ties each
//! compiled program to the pattern text it was built from: a
//! [`CompiledPattern`] can only be made by [`CompiledPattern::compile`],
//! and its match results are therefore a function of that text, the
//! case flag and the line — named by [`regex_match_of`].

use vstd::prelude::*;

verus! {

#[verifier::external_type_specification]
#[verifier::external_body]
pub struct ExRegex(regex::Regex);

/// Whether `pattern` compiles as a regular expression under the given
/// case flag and this library's fixed program-size ceiling.
pub uninterp spec fn regex_compiles(pattern: Seq<char>, case_insensitive: bool) -> bool;

/// Whether the regular expression compiled from `pattern` under the
/// given case flag matches somewhere in `line`.
pub uninterp spec fn regex_match_of(
    pattern: Seq<char>,
    case_insensitive: bool,
    line: Seq<char>,
) -> bool;

/// Ceiling on compiled regex program and DFA size, guarding against
/// pathological patterns.
pub const REGEX_SIZE_LIMIT: usize = 10 * 1024 * 1024;

/// A pattern together with its compiled regular expression.
///
/// The compiled program is private: every value of this type was built
/// by [`CompiledPattern::compile`] from its own `source` and
/// `case_insensitive` fields, which is what lets [`CompiledPattern::is_match`]
/// speak of the pattern text alone.
#[derive(Debug)]
pub struct CompiledPattern {
    source: String,
    case_insensitive: bool,
    regex: regex::Regex,
}

impl CompiledPattern {
    /// The pattern text the program was compiled from.
    pub closed spec fn source_view(&self) -> Seq<char> {
        self.source@
    }

    /// Whether it was compiled case-insensitively.
    pub closed spec fn ci(&self) -> bool {
        self.case_insensitive
    }

    /// Relies on `regex::RegexBuilder`: `build` is deterministic in the
    /// pattern text, the `case_insensitive` flag and the size limits,
    /// so success is a function of pattern and flag alone.
    #[verifier::external_body]
    pub fn compile(pattern: &str, case_insensitive: bool) -> (r: Result<CompiledPattern, ()>)
        ensures
            r is Ok <==> regex_compiles(pattern@, case_insensitive),
            r matches Ok(cp) ==> cp.source_view() == pattern@ && cp.ci() == case_insensitive,
    {
        let mut builder = regex::RegexBuilder::new(pattern);
        builder.case_insensitive(case_insensitive);
        builder.size_limit(REGEX_SIZE_LIMIT);
        builder.dfa_size_limit(REGEX_SIZE_LIMIT);
        match builder.build() {
            Ok(regex) => Ok(CompiledPattern {
                source: pattern.to_string(),
                case_insensitive,
                regex,
            }),
            Err(_) => Err(()),
        }
    }

    /// Relies on `regex::Regex::is_match`: deterministic for a compiled
    /// program, and this program was compiled from `self.source` with
    /// `self.case_insensitive`.
    #[verifier::external_body]
    pub fn is_match(&self, line: &str) -> (r: bool)
        ensures
            r == regex_match_of(self.source_view(), self.ci(), line@),
    {
        self.regex.is_match(line)
    }
}

} // verus!
