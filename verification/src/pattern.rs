//! Wildcard patterns over CDI device names.

use vstd::prelude::*;

use crate::text::texts;

verus! {

/// Whether `pattern` matches the whole of `value`: `*` stands for any number of characters, none
/// included, `?` for exactly one, and every other character for itself.
pub open spec fn wildcard_matches(pattern: Seq<char>, value: Seq<char>) -> bool
    decreases pattern.len(), value.len(),
{
    if pattern.len() == 0 {
        value.len() == 0
    } else if pattern[0] == '*' {
        ||| wildcard_matches(pattern.drop_first(), value)
        ||| value.len() > 0 && wildcard_matches(pattern, value.drop_first())
    } else {
        &&& value.len() > 0
        &&& pattern[0] == '?' || pattern[0] == value[0]
        &&& wildcard_matches(pattern.drop_first(), value.drop_first())
    }
}

/// Whether one of `patterns` matches `value`.
pub open spec fn some_matches(patterns: Seq<Seq<char>>, value: Seq<char>) -> bool {
    exists|i: int| 0 <= i < patterns.len() && wildcard_matches(#[trigger] patterns[i], value)
}

/// Calls `WildMatchPattern::new` of the crate `wildmatch`, with `*` and `?` as its wildcards, on
/// `pattern`, and the method `matches` of what it built on `value`. The answer is whether the
/// pattern matches the whole value, as [`wildcard_matches`] says; there is no escape character
/// and upper and lower case differ.
#[verifier::external_body]
fn wild_match(pattern: &str, value: &str) -> (matched: bool)
    ensures
        matched == wildcard_matches(pattern@, value@),
{
    wildmatch::WildMatch::new(pattern).matches(value)
}

/// A wildcard pattern that selects CDI devices by name.
#[derive(Debug, Clone, PartialEq, Eq)]
pub struct CdiPattern {
    pub pattern: String,
}

impl View for CdiPattern {
    type V = Seq<char>;

    open spec fn view(&self) -> Seq<char> {
        self.pattern@
    }
}

/// The text of each pattern.
pub open spec fn pattern_texts(patterns: Seq<CdiPattern>) -> Seq<Seq<char>> {
    patterns.map_values(|p: CdiPattern| p@)
}

impl CdiPattern {
    /// The pattern written as `pattern`.
    pub fn new(pattern: &str) -> (result: CdiPattern)
        ensures
            result@ == pattern@,
    {
        CdiPattern { pattern: pattern.to_owned() }
    }

    /// Whether the pattern matches the whole of `value`.
    pub fn matches(&self, value: &str) -> (matched: bool)
        ensures
            matched == wildcard_matches(self@, value@),
    {
        wild_match(self.pattern.as_str(), value)
    }
}

/// The patterns written as `patterns`, in the same order.
pub fn compile_patterns(patterns: &[String]) -> (compiled: Vec<CdiPattern>)
    ensures
        pattern_texts(compiled@) == texts(patterns@),
{
    let mut compiled: Vec<CdiPattern> = Vec::new();
    for i in 0..patterns.len()
        invariant
            pattern_texts(compiled@) == texts(patterns@).take(i as int),
    {
        let ghost before = compiled@;
        compiled.push(CdiPattern::new(patterns[i].as_str()));
        assert(pattern_texts(compiled@) == pattern_texts(before).push(patterns@[i as int]@));
        assert(texts(patterns@).take(i + 1) == texts(patterns@).take(i as int).push(
            patterns@[i as int]@,
        ));
    }
    assert(texts(patterns@).take(patterns.len() as int) == texts(patterns@));
    compiled
}

/// Whether one of `patterns` matches `value`.
pub fn matches_any(value: &str, patterns: &[CdiPattern]) -> (matched: bool)
    ensures
        matched == some_matches(pattern_texts(patterns@), value@),
{
    for i in 0..patterns.len()
        invariant
            forall|j: int|
                0 <= j < i ==> !wildcard_matches(#[trigger] pattern_texts(patterns@)[j], value@),
    {
        if patterns[i].matches(value) {
            assert(wildcard_matches(pattern_texts(patterns@)[i as int], value@));
            return true;
        }
    }
    false
}

} // verus!
