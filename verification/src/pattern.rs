//! Regular expressions, backed by the `regex` crate.
//!
//! What a regular expression accepts is the `regex` crate's business; the
//! library refers to it through three names (`regex_compiles`,
//! `regex_is_match`, `regex_first_groups`), each a function of the pattern
//! text and the haystack alone.

use vstd::prelude::*;

verus! {

#[verifier::external_type_specification]
#[verifier::external_body]
pub struct ExRegex(regex::Regex);

/// Whether `regex::Regex::new` accepts the pattern (it rejects bad syntax and
/// patterns whose compiled form exceeds the default size limit).
pub uninterp spec fn regex_compiles(pattern: Seq<char>) -> bool;

/// What `regex::Regex::is_match` answers for the pattern on the haystack.
pub uninterp spec fn regex_is_match(pattern: Seq<char>, haystack: Seq<char>) -> bool;

/// For each of the successive non-overlapping matches that
/// `regex::Regex::captures_iter` yields for the pattern on the haystack, the
/// text of its first capture group, or `None` where that group took no part
/// in the match.
pub uninterp spec fn regex_first_groups(pattern: Seq<char>, haystack: Seq<char>) -> Seq<
    Option<Seq<char>>,
>;

/// The texts of optional strings.
pub open spec fn optional_texts(v: Seq<Option<String>>) -> Seq<Option<Seq<char>>> {
    v.map_values(
        |o: Option<String>|
            match o {
                Some(s) => Some(s@),
                None => None,
            },
    )
}

/// `part` occurs as a contiguous run of characters in `whole`.
pub open spec fn occurs_in(part: Seq<char>, whole: Seq<char>) -> bool {
    exists|start: int|
        0 <= start && start + part.len() <= whole.len() && #[trigger] whole.subrange(
            start,
            start + part.len(),
        ) == part
}

/// A compiled regular expression together with the text it was compiled from.
///
/// A `Pattern` is made only by `Pattern::new`, so `compiled` is always the
/// regex that `regex::Regex::new` built from `source`.
pub struct Pattern {
    source: String,
    compiled: regex::Regex,
}

impl View for Pattern {
    type V = Seq<char>;

    /// The pattern text.
    closed spec fn view(&self) -> Seq<char> {
        self.source@
    }
}

/// A pattern that `regex::Regex::new` refused.
pub struct PatternError {
    /// The refused pattern text.
    pub pattern: String,
    /// The reason that the `regex` crate gave (its error, as `Debug` shows it).
    pub reason: String,
}

/// Calls `regex::Regex::new`. Trusted: the result is `Ok` exactly when the
/// crate accepts the pattern (named `regex_compiles`), and an `Ok` pattern
/// keeps the text it was built from. The text of the reason in `Err` is the
/// `Debug` rendering of the crate's error, of which nothing is stated.
#[verifier::external_body]
fn compile_regex(source: &str) -> (r: Result<Pattern, String>)
    ensures
        r is Ok <==> regex_compiles(source@),
        r matches Ok(p) ==> p@ == source@,
{
    match regex::Regex::new(source) {
        Ok(compiled) => Ok(Pattern { source: source.to_string(), compiled }),
        Err(e) => Err(format!("{:?}", e)),
    }
}

/// Calls `regex::Regex::is_match`. Trusted: the answer is the named result
/// `regex_is_match` of the pattern text and the haystack, and (as the crate
/// documents: `true` exactly when there is a match anywhere) it is `true`
/// exactly when `captures_iter` yields some match.
#[verifier::external_body]
fn regex_is_match_exec(pattern: &Pattern, haystack: &str) -> (r: bool)
    ensures
        r == regex_is_match(pattern@, haystack@),
        r == (regex_first_groups(pattern@, haystack@).len() > 0),
{
    pattern.compiled.is_match(haystack)
}

/// Calls `regex::Regex::captures_iter` and, for each match, takes the text of
/// capture group 1 (`Captures::get(1)`). Trusted: the result is the named
/// result `regex_first_groups` of the pattern text and the haystack; it is
/// non-empty exactly when `is_match` answers `true` (`captures_iter` yields
/// the same matches as `find_iter`, whose first is the match `is_match`
/// reports); and each group text is a contiguous piece of the haystack
/// (`Match::as_str`).
#[verifier::external_body]
fn regex_capture_groups(pattern: &Pattern, haystack: &str) -> (r: Vec<Option<String>>)
    ensures
        optional_texts(r@) == regex_first_groups(pattern@, haystack@),
        r@.len() > 0 <==> regex_is_match(pattern@, haystack@),
        forall|i: int|
            0 <= i < r@.len() ==> (#[trigger] r@[i] matches Some(t) ==> occurs_in(t@, haystack@)),
{
    pattern.compiled.captures_iter(haystack).map(|c| c.get(1).map(|m| m.as_str().to_string())).collect()
}

impl Pattern {
    /// Compiles `source`; fails exactly when the `regex` crate refuses it.
    pub fn new(source: &str) -> (r: Result<Pattern, PatternError>)
        ensures
            r is Ok <==> regex_compiles(source@),
            r matches Ok(p) ==> p@ == source@,
            r matches Err(e) ==> e.pattern@ == source@,
    {
        match compile_regex(source) {
            Ok(p) => Ok(p),
            Err(reason) => Err(PatternError { pattern: source.to_owned(), reason }),
        }
    }

    /// The text the pattern was compiled from.
    pub fn as_str(&self) -> (r: &str)
        ensures
            r@ == self@,
    {
        self.source.as_str()
    }

    /// Whether the pattern matches anywhere in `haystack`.
    pub fn is_match(&self, haystack: &str) -> (r: bool)
        ensures
            r == regex_is_match(self@, haystack@),
            r == (regex_first_groups(self@, haystack@).len() > 0),
    {
        regex_is_match_exec(self, haystack)
    }

    /// The first capture group of each successive non-overlapping match of
    /// the pattern in `haystack` (`None` where the group took no part).
    pub fn first_groups(&self, haystack: &str) -> (r: Vec<Option<String>>)
        ensures
            optional_texts(r@) == regex_first_groups(self@, haystack@),
            r@.len() > 0 <==> regex_is_match(self@, haystack@),
            forall|i: int|
                0 <= i < r@.len() ==> (#[trigger] r@[i] matches Some(t) ==> occurs_in(t@, haystack@)),
    {
        regex_capture_groups(self, haystack)
    }
}

} // verus!
