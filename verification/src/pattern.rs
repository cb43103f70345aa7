//! Regular expressions, as far as the visitors need them. Matching is left to the regex
//! crate; what it returns is named here and not described.

use crate::text::span_ok;
use vstd::prelude::*;
use vstd::string::*;

verus! {

/// Whether a text holds a match of a regular expression, letters compared without
/// regard to case; `None` where the pattern is no regular expression.
pub uninterp spec fn pattern_match(pattern: Seq<char>, text: Seq<char>) -> Option<bool>;

/// `RegexBuilder::new`, `case_insensitive(true)` and `build` of the regex crate, then
/// `Regex::is_match` on the compiled expression: compiles the pattern for matching
/// without regard to case and says whether the text holds a match anywhere. `build`
/// returns an error for an invalid or oversized pattern, which comes back as `None`. The
/// answer depends on the pattern and the text alone; the contract gives it the name
/// `pattern_match` and claims nothing else.
#[verifier::external_body]
pub(crate) fn matches_ignoring_case(pattern: &str, text: &str) -> (r: Option<bool>)
    ensures
        r == pattern_match(pattern@, text@),
{
    let expression = regex::RegexBuilder::new(pattern).case_insensitive(true).build().ok()?;
    Some(expression.is_match(text))
}

/// The matches of a regular expression in a text, from left to right: of each the
/// template with its references to capture groups filled in, and the byte range of the
/// whole match; `None` where the pattern is no regular expression.
pub uninterp spec fn pattern_rewrites(find: Seq<char>, template: Seq<char>, text: Seq<char>)
    -> Option<Seq<(Seq<char>, int, int)>>;

/// Whether the ranges of the rewrites are spans of the text that follow one another
/// without overlap.
pub open spec fn successive(bytes: Seq<u8>, found: Seq<(Seq<char>, int, int)>) -> bool {
    &&& forall|i: int| 0 <= i < found.len() ==> span_ok(bytes, (#[trigger] found[i]).1, found[i].2)
    &&& forall|i: int, j: int| 0 <= i < j < found.len() ==> found[i].2 <= found[j].1
}

/// `Regex::new` and `Regex::captures_iter` of the regex crate, and on each item
/// `Captures::get_match` and `Captures::expand`, with `Match::start` and `Match::end`:
/// compiles the pattern, walks its successive matches in the text, and hands out for each
/// the expanded template with the start and end of the whole match. `Regex::new`
/// returns an error for an invalid or oversized pattern, which comes back as `None`. The
/// list depends on the three texts alone; the contract gives it the name
/// `pattern_rewrites`. Of the ranges it claims what the crate documents: the start of a
/// match is not behind its end, both fall between characters of the text, and the
/// iterator yields successive matches that do not overlap.
#[verifier::external_body]
pub(crate) fn rewrites(find: &str, template: &str, text: &str) -> (r: Option<
    Vec<(String, usize, usize)>,
>)
    ensures
        match pattern_rewrites(find@, template@, text@) {
            Some(found) => r is Some && rewrites_view(r.unwrap()@) == found,
            None => r is None,
        },
        r is Some ==> successive(text.spec_bytes(), rewrites_view(r.unwrap()@)),
{
    let expression = regex::Regex::new(find).ok()?;
    let mut found = Vec::new();
    for captures in expression.captures_iter(text) {
        let whole = captures.get_match();
        let mut replacement = String::new();
        captures.expand(template, &mut replacement);
        found.push((replacement, whole.start(), whole.end()));
    }
    Some(found)
}

/// A list of rewrites as a mathematical value.
pub open spec fn rewrites_view(found: Seq<(String, usize, usize)>) -> Seq<(Seq<char>, int, int)> {
    found.map_values(|f: (String, usize, usize)| (f.0@, f.1 as int, f.2 as int))
}

} // verus!
