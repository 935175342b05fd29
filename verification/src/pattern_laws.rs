//! What patterns without or with a trailing wildcard select.

use vstd::prelude::*;

use crate::pattern::{some_matches, wildcard_matches};

verus! {

/// Whether every character of a pattern stands for itself.
pub open spec fn is_literal(pattern: Seq<char>) -> bool {
    forall|i: int| 0 <= i < pattern.len() ==> #[trigger] pattern[i] != '*' && pattern[i] != '?'
}

/// A pattern of one star matches everything.
pub proof fn star_matches_everything(value: Seq<char>)
    ensures
        wildcard_matches(seq!['*'], value),
    decreases value.len(),
{
    let star = seq!['*'];
    assert(star.drop_first() == Seq::<char>::empty());
    if value.len() > 0 {
        star_matches_everything(value.drop_first());
    } else {
        assert(wildcard_matches(star.drop_first(), value));
    }
}

/// A pattern without wildcards matches itself and nothing else.
pub proof fn literal_matches_itself_only(pattern: Seq<char>, value: Seq<char>)
    requires
        is_literal(pattern),
    ensures
        wildcard_matches(pattern, value) <==> pattern == value,
    decreases pattern.len(),
{
    if pattern.len() > 0 {
        assert(pattern[0] != '*' && pattern[0] != '?');
        if value.len() > 0 {
            let rest = pattern.drop_first();
            assert forall|i: int| 0 <= i < rest.len() implies #[trigger] rest[i] != '*' && rest[i]
                != '?' by {
                assert(rest[i] == pattern[i + 1]);
            }
            literal_matches_itself_only(rest, value.drop_first());
            if pattern[0] == value[0] && rest == value.drop_first() {
                assert(pattern == seq![pattern[0]] + rest);
                assert(value == seq![value[0]] + value.drop_first());
            }
        }
    } else if value.len() == 0 {
        assert(pattern == value);
    }
}

/// A text and a star after it match what begins with the text, and nothing else.
pub proof fn trailing_star_matches_what_begins_so(prefix: Seq<char>, value: Seq<char>)
    requires
        is_literal(prefix),
    ensures
        wildcard_matches(prefix.push('*'), value) <==> prefix.is_prefix_of(value),
    decreases prefix.len(),
{
    let pattern = prefix.push('*');
    if prefix.len() == 0 {
        assert(pattern == seq!['*']);
        star_matches_everything(value);
    } else {
        assert(prefix[0] != '*' && prefix[0] != '?');
        assert(pattern[0] == prefix[0]);
        let rest = prefix.drop_first();
        assert forall|i: int| 0 <= i < rest.len() implies #[trigger] rest[i] != '*' && rest[i]
            != '?' by {
            assert(rest[i] == prefix[i + 1]);
        }
        assert(pattern.drop_first() == rest.push('*'));
        if value.len() > 0 {
            trailing_star_matches_what_begins_so(rest, value.drop_first());
            if prefix[0] == value[0] && rest.is_prefix_of(value.drop_first()) {
                assert forall|i: int| 0 <= i < prefix.len() implies prefix[i] == value[i] by {
                    if i > 0 {
                        assert(rest[i - 1] == value.drop_first()[i - 1]);
                    }
                }
                assert(prefix == value.take(prefix.len() as int));
            }
            if prefix.is_prefix_of(value) {
                assert(prefix[0] == value[0]);
                assert forall|i: int| 0 <= i < rest.len() implies rest[i] == value.drop_first()[i] by {
                    assert(prefix[i + 1] == value[i + 1]);
                }
            }
        }
    }
}

/// What the parts of a pattern stand for: a star for any number of characters, a question mark for
/// one, and every other character for itself; a pattern without parts matches the empty text only.
pub proof fn parts_of_a_pattern_stand_for_themselves(
    part: char,
    rest: Seq<char>,
    value: Seq<char>,
)
    ensures
        part == '*' ==> (wildcard_matches(seq![part] + rest, value) <==> exists|n: int|
            0 <= n <= value.len() && wildcard_matches(rest, #[trigger] value.skip(n))),
        part == '?' ==> (wildcard_matches(seq![part] + rest, value) <==> value.len() > 0
            && wildcard_matches(rest, value.skip(1))),
        part != '*' && part != '?' ==> (wildcard_matches(seq![part] + rest, value) <==> value.len()
            > 0 && value[0] == part && wildcard_matches(rest, value.skip(1))),
        wildcard_matches(Seq::empty(), value) <==> value.len() == 0,
    decreases value.len(),
{
    let pattern = seq![part] + rest;
    assert(pattern.drop_first() == rest);
    if value.len() > 0 {
        assert(value.drop_first() == value.skip(1));
    }
    if part == '*' {
        assert(value.skip(0) == value);
        if value.len() > 0 {
            let later = value.drop_first();
            parts_of_a_pattern_stand_for_themselves(part, rest, later);
            if wildcard_matches(pattern, later) {
                let n = choose|n: int|
                    0 <= n <= later.len() && wildcard_matches(rest, #[trigger] later.skip(n));
                assert(value.skip(n + 1) == later.skip(n));
            }
            if exists|n: int|
                0 <= n <= value.len() && wildcard_matches(rest, #[trigger] value.skip(n)) {
                let n = choose|n: int|
                    0 <= n <= value.len() && wildcard_matches(rest, #[trigger] value.skip(n));
                if n > 0 {
                    assert(later.skip(n - 1) == value.skip(n));
                }
            }
        }
    }
}

/// One matching pattern of a list is enough, wherever it stands.
pub proof fn one_matching_pattern_is_enough(patterns: Seq<Seq<char>>, value: Seq<char>)
    ensures
        some_matches(patterns, value) <==> exists|i: int|
            0 <= i < patterns.len() && wildcard_matches(#[trigger] patterns[i], value),
{
}

} // verus!
