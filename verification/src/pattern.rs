//! Pattern matcher: a compiled regular expression together with its source
//! text. Matching, capture extraction, and template expansion are performed
//! by the `regex` crate behind trusted wrappers; each outcome is named by an
//! uninterpreted spec function of the pattern and input texts alone, which
//! the rest of the engine's contracts build on.

use vstd::prelude::*;

verus! {

#[verifier::external_type_specification]
#[verifier::external_body]
pub struct ExRegex(regex::Regex);

/// The pattern text compiles as a regular expression.
pub uninterp spec fn regex_valid(pattern: Seq<char>) -> bool;

/// The text matches the pattern somewhere in the haystack.
pub uninterp spec fn regex_match(pattern: Seq<char>, text: Seq<char>) -> bool;

/// The capture groups of the first match of the pattern in the text: the
/// whole match at index 0, then one entry per group in order of its opening
/// parenthesis, `None` for a group that did not participate in the match.
pub uninterp spec fn regex_captures(pattern: Seq<char>, text: Seq<char>) -> Seq<Option<Seq<char>>>;

/// The template with every `$ref` replaced by the text captured by the first
/// match of the pattern in the text (empty for absent groups).
pub uninterp spec fn regex_expansion(
    pattern: Seq<char>,
    text: Seq<char>,
    template: Seq<char>,
) -> Seq<char>;

/// A compiled regular expression, kept beside its source text.
///
/// The fields stay private so that every value is produced by [`Pattern::new`],
/// which compiles `compiled` from exactly the text held in `source`; the
/// trusted wrappers below rely on that correspondence.
#[derive(Debug)]
pub struct Pattern {
    source: String,
    compiled: regex::Regex,
}

impl View for Pattern {
    type V = Seq<char>;

    closed spec fn view(&self) -> Seq<char> {
        self.source@
    }
}

impl Pattern {
    /// Relies on `regex::Regex::new`: compilation succeeds exactly when the
    /// pattern is valid (a property of the pattern text alone), and the
    /// compiled value then matches per that pattern.
    #[verifier::external_body]
    pub fn new(pattern: &str) -> (r: Result<Pattern, crate::rules::ActionError>)
        ensures
            r is Ok <==> regex_valid(pattern@),
            r is Ok ==> r->Ok_0@ == pattern@,
            r is Err ==> r->Err_0 == crate::rules::ActionError::Pattern,
    {
        match regex::Regex::new(pattern) {
            Ok(compiled) => Ok(Pattern { source: pattern.to_owned(), compiled }),
            Err(_) => Err(crate::rules::ActionError::Pattern),
        }
    }

    /// The pattern text this expression was compiled from.
    pub fn as_str(&self) -> (r: &str)
        ensures
            r@ == self@,
    {
        self.source.as_str()
    }

    /// Relies on `regex::Regex::is_match`: true exactly when the pattern
    /// matches somewhere in the text; a function of pattern and text alone.
    #[verifier::external_body]
    pub fn is_match(&self, text: &str) -> (r: bool)
        ensures
            r == regex_match(self@, text@),
    {
        self.compiled.is_match(text)
    }

    /// Relies on `regex::Regex::captures`: returns a value exactly when the
    /// text matches; the groups are handed out as plain strings, the whole
    /// match first. Every capture set holds at least the whole match.
    #[verifier::external_body]
    pub fn captures(&self, text: &str) -> (r: Option<Vec<Option<String>>>)
        ensures
            r is Some <==> regex_match(self@, text@),
            r is Some ==> r->0.deep_view() == regex_captures(self@, text@),
            r is Some ==> regex_captures(self@, text@).len() >= 1
                && regex_captures(self@, text@)[0] is Some,
    {
        match self.compiled.captures(text) {
            Some(caps) => {
                let mut groups: Vec<Option<String>> = Vec::new();
                for i in 0..caps.len() {
                    groups.push(caps.get(i).map(|m| m.as_str().to_owned()));
                }
                Some(groups)
            }
            None => None,
        }
    }

    /// Relies on `regex::Regex::captures` and `regex::Captures::expand`:
    /// returns a value exactly when the text matches, and then the template
    /// with every `$ref` replaced by the captured text (empty for absent
    /// groups); a function of pattern, text, and template alone.
    #[verifier::external_body]
    pub fn expand(&self, text: &str, template: &str) -> (r: Option<String>)
        ensures
            r is Some <==> regex_match(self@, text@),
            r is Some ==> r->0@ == regex_expansion(self@, text@, template@),
    {
        match self.compiled.captures(text) {
            Some(caps) => {
                let mut expanded = String::new();
                caps.expand(template, &mut expanded);
                Some(expanded)
            }
            None => None,
        }
    }
}

} // verus!
