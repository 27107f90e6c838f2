//! The allow-list matcher: a compiled pattern tested against target
//! addresses. The pattern engine itself is the `regex` crate; this module
//! pins a compiled pattern to the text it was compiled from, so that
//! contracts elsewhere can speak of "the configured pattern matches this
//! address" as a pure function of the two strings.

use vstd::prelude::*;

verus! {

#[verifier::external_type_specification]
#[verifier::external_body]
pub struct ExRegex(regex::Regex);

/// Whether the regular expression `pattern` matches somewhere in `text`.
/// Named, not written out: the matching relation is a pure function of the
/// two strings, defined by the regex syntax, and is far too large to state.
pub uninterp spec fn regex_matches(pattern: Seq<char>, text: Seq<char>) -> bool;

/// A compiled allow-list pattern together with the text it was compiled
/// from, so that `is_match` results can be tied to that text. The fields are
/// private: the only constructor compiles the stored text, so the two always
/// agree.
pub struct TargetMatcher {
    re: regex::Regex,
    pattern: String,
}

impl TargetMatcher {
    /// The pattern text this matcher was compiled from.
    pub closed spec fn pattern(&self) -> Seq<char> {
        self.pattern@
    }

    /// Relies on regex::Regex::new: it compiles exactly the pattern it is
    /// given, succeeding when the pattern is valid regex syntax.
    #[verifier::external_body]
    pub fn compile(pattern: &str) -> (r: Option<TargetMatcher>)
        ensures
            r matches Some(m) ==> m.pattern() == pattern@,
    {
        match regex::Regex::new(pattern) {
            Ok(re) => Some(TargetMatcher { re, pattern: pattern.to_owned() }),
            Err(_) => None,
        }
    }

    /// Relies on regex::Regex::new: the pattern `.*` is valid regex syntax,
    /// so compiling it succeeds; the matcher carries that pattern.
    #[verifier::external_body]
    pub fn match_all() -> (r: TargetMatcher)
        ensures
            r.pattern() == ".*"@,
    {
        TargetMatcher {
            re: regex::Regex::new(".*").expect("a literal valid pattern compiles"),
            pattern: ".*".to_owned(),
        }
    }

    /// Relies on regex::Regex::clone: the clone matches exactly as the
    /// original compiled pattern does.
    #[verifier::external_body]
    pub fn duplicate(&self) -> (r: TargetMatcher)
        ensures
            r.pattern() == self.pattern(),
    {
        TargetMatcher { re: self.re.clone(), pattern: self.pattern.clone() }
    }

    /// Relies on regex::Regex::is_match: whether a match exists depends only
    /// on the compiled pattern and the haystack text.
    #[verifier::external_body]
    pub fn is_match(&self, text: &str) -> (r: bool)
        ensures
            r == regex_matches(self.pattern(), text@),
    {
        self.re.is_match(text)
    }
}

} // verus!
