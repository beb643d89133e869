//! Compiled regular expressions, kept together with the pattern text they
//! were compiled from so that contracts can speak of the pattern.

use vstd::prelude::*;

verus! {

/// Declares `regex::Regex`, the compiled pattern, as an opaque value.
#[verifier::external_type_specification]
#[verifier::external_body]
pub struct ExRegex(regex::Regex);

/// Declares `regex::Error`, what `Regex::new` returns for a bad pattern.
#[verifier::external_type_specification]
#[verifier::external_body]
pub struct ExRegexError(regex::Error);

/// Whether the regex crate's pattern syntax accepts `pat`.
pub uninterp spec fn pattern_ok(pat: Seq<char>) -> bool;

/// Whether the pattern `pat` matches anywhere in `line`.
pub uninterp spec fn regex_matches(pat: Seq<char>, line: Seq<char>) -> bool;

/// The text of the named capture group `group` in the first match of `pat`
/// in `line`; `None` when the group did not participate in that match. Only
/// meaningful when `regex_matches(pat, line)` holds.
pub uninterp spec fn regex_group(pat: Seq<char>, line: Seq<char>, group: Seq<char>) -> Option<
    Seq<char>,
>;

/// The view of an optionally captured group text.
pub open spec fn opt_text_view(o: Option<String>) -> Option<Seq<char>> {
    match o {
        Some(s) => Some(s@),
        None => None,
    }
}

/// A regular expression together with the pattern text it was compiled from.
/// `compile` is the only constructor, so the two always belong together.
pub(crate) struct CompiledPattern {
    regex: regex::Regex,
    pattern: String,
}

impl CompiledPattern {
    /// The pattern text this value was compiled from.
    pub(crate) closed spec fn pat(self) -> Seq<char> {
        self.pattern@
    }

    /// Relies on `regex::Regex::new`: it compiles exactly the patterns the
    /// crate's syntax accepts.
    #[verifier::external_body]
    pub(crate) fn compile(pattern: &str) -> (r: Result<CompiledPattern, regex::Error>)
        ensures
            r is Ok <==> pattern_ok(pattern@),
            r is Ok ==> r->Ok_0.pat() == pattern@,
    {
        match regex::Regex::new(pattern) {
            Ok(regex) => Ok(CompiledPattern { regex, pattern: pattern.to_string() }),
            Err(e) => Err(e),
        }
    }

    /// Relies on `regex::Regex::captures` and `regex::Captures::name`:
    /// `captures` returns `Some` exactly when the pattern matches, and
    /// `name` hands out the named group's text when the group participated
    /// in that match.
    #[verifier::external_body]
    pub(crate) fn capture_group(&self, line: &str, group: &str) -> (r: Option<Option<String>>)
        ensures
            r is Some <==> regex_matches(self.pat(), line@),
            r is Some ==> opt_text_view(r->0) == regex_group(self.pat(), line@, group@),
    {
        match self.regex.captures(line) {
            Some(caps) => Some(caps.name(group).map(|m| m.as_str().to_string())),
            None => None,
        }
    }
}

} // verus!
