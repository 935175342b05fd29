//! What holds of the text operations as a whole.

use vstd::prelude::*;
use vstd::seq_lib::*;

use crate::text::{
    comes_before, decimal, digit, distinct, inserted_in_order, is_white_space, joined, occurs_at,
    occurs_in, replaced, sorted_distinct, split_at_first, trimmed,
};

verus! {

/// [`distinct`] keeps every member, and keeps each once.
pub proof fn distinct_keeps_each_member_once<A>(list: Seq<A>)
    ensures
        distinct(list).no_duplicates(),
        forall|item: A| distinct(list).contains(item) <==> list.contains(item),
    decreases list.len(),
{
    if list.len() > 0 {
        let before = list.drop_last();
        distinct_keeps_each_member_once(before);
        assert(list == before.push(list.last()));
        assert forall|item: A| distinct(list).contains(item) <==> list.contains(item) by {
            lemma_seq_contains_after_push(before, list.last(), item);
            lemma_seq_contains_after_push(distinct(before), list.last(), item);
        }
    }
}

/// [`distinct`] keeps the order in which the members first occur: the first of two is met before any
/// occurrence of the second.
pub proof fn distinct_keeps_the_order_of_first_occurrences<A>(
    list: Seq<A>,
    i: int,
    j: int,
) -> (position: int)
    requires
        0 <= i < j < distinct(list).len(),
    ensures
        0 <= position < list.len(),
        list[position] == distinct(list)[i],
        !list.take(position + 1).contains(distinct(list)[j]),
    decreases list.len(),
{
    if list.len() == 0 {
        0
    } else {
        let before = list.drop_last();
        let kept = distinct(before);
        if j < kept.len() {
            let position = distinct_keeps_the_order_of_first_occurrences(before, i, j);
            assert(list.take(position + 1) == before.take(position + 1));
            position
        } else {
            distinct_keeps_each_member_once(before);
            assert(kept.contains(kept[i]));
            assert(before.contains(kept[i]));
            let position = before.index_of(kept[i]);
            let so_far = list.take(position + 1);
            if so_far.contains(list.last()) {
                let q = so_far.index_of(list.last());
                assert(before[q] == so_far[q]);
                assert(before.contains(list.last()));
            }
            position
        }
    }
}

/// No text comes before itself, and of two different texts exactly one comes before the other.
pub proof fn texts_are_ordered(a: Seq<char>, b: Seq<char>)
    ensures
        a == b ==> !comes_before(a, b),
        a != b ==> comes_before(a, b) != comes_before(b, a),
    decreases a.len(),
{
    if a.len() > 0 && b.len() > 0 {
        texts_are_ordered(a.drop_first(), b.drop_first());
        if a[0] == b[0] && a.drop_first() == b.drop_first() {
            assert(a == seq![a[0]] + a.drop_first());
            assert(b == seq![b[0]] + b.drop_first());
        }
    } else if a.len() == 0 && b.len() == 0 {
        assert(a == b);
    }
}

/// A text that comes before a second one comes before all those that the second comes before.
pub proof fn order_of_texts_is_transitive(a: Seq<char>, b: Seq<char>, c: Seq<char>)
    requires
        comes_before(a, b),
        comes_before(b, c),
    ensures
        comes_before(a, c),
    decreases a.len(),
{
    if a.len() > 0 && a[0] == b[0] && b[0] == c[0] {
        order_of_texts_is_transitive(a.drop_first(), b.drop_first(), c.drop_first());
    }
}

/// Whether each text of a list comes before all those after it.
pub open spec fn is_ascending(list: Seq<Seq<char>>) -> bool {
    forall|i: int, j: int| 0 <= i < j < list.len() ==> comes_before(list[i], list[j])
}

/// Two ascending lists with the same members are the same.
pub proof fn ascending_lists_are_known_by_their_members(a: Seq<Seq<char>>, b: Seq<Seq<char>>)
    requires
        is_ascending(a),
        is_ascending(b),
        forall|x: Seq<char>| #[trigger] a.contains(x) <==> b.contains(x),
    ensures
        a == b,
    decreases a.len(),
{
    if a.len() == 0 {
        if b.len() > 0 {
            assert(b.contains(b[0]));
            assert(a.contains(b[0]));
        }
        assert(a == b);
    } else {
        assert(a.contains(a[0]));
        assert(b.contains(a[0]));
        let k = b.index_of(a[0]);
        assert(b.contains(b[0]));
        assert(a.contains(b[0]));
        let m = a.index_of(b[0]);
        texts_are_ordered(a[0], b[0]);
        texts_are_ordered(b[0], b[0]);
        assert(a[0] == b[0]);
        let rest_a = a.drop_first();
        let rest_b = b.drop_first();
        assert forall|x: Seq<char>| #[trigger] rest_a.contains(x) <==> rest_b.contains(x) by {
            texts_are_ordered(x, x);
            if rest_a.contains(x) {
                let p = rest_a.index_of(x);
                assert(a[p + 1] == x);
                assert(a.contains(x));
                let q = b.index_of(x);
                assert(comes_before(a[0], a[p + 1]));
                assert(q > 0);
                assert(rest_b[q - 1] == x);
            }
            if rest_b.contains(x) {
                let p = rest_b.index_of(x);
                assert(b[p + 1] == x);
                assert(b.contains(x));
                assert(a.contains(x));
                let q = a.index_of(x);
                assert(comes_before(b[0], b[p + 1]));
                assert(q > 0);
                assert(rest_a[q - 1] == x);
            }
        }
        ascending_lists_are_known_by_their_members(rest_a, rest_b);
        assert(a == seq![a[0]] + rest_a);
        assert(b == seq![b[0]] + rest_b);
    }
}

proof fn insertion_keeps_order(list: Seq<Seq<char>>, item: Seq<char>)
    requires
        is_ascending(list),
    ensures
        is_ascending(inserted_in_order(list, item)),
        forall|x: Seq<char>| #[trigger]
            inserted_in_order(list, item).contains(x) <==> x == item || list.contains(x),
    decreases list.len(),
{
    let result = inserted_in_order(list, item);
    if list.len() == 0 {
        assert(result[0] == item);
        assert(result.contains(item));
    } else if list[0] == item {
        assert(list.contains(item));
    } else if comes_before(item, list[0]) {
        assert forall|i: int, j: int| 0 <= i < j < result.len() implies comes_before(
            result[i],
            result[j],
        ) by {
            if i == 0 && j > 1 {
                order_of_texts_is_transitive(item, list[0], list[j - 1]);
            }
        }
        assert forall|x: Seq<char>| #[trigger]
            result.contains(x) <==> x == item || list.contains(x) by {
            lemma_seq_concat_contains_all_elements(seq![item], list, x);
            assert(seq![item].contains(x) <==> x == item) by {
                assert(seq![item][0] == item);
            }
        }
    } else {
        let rest = list.drop_first();
        let tail = inserted_in_order(rest, item);
        insertion_keeps_order(rest, item);
        assert forall|i: int, j: int| 0 <= i < j < result.len() implies comes_before(
            result[i],
            result[j],
        ) by {
            if i == 0 {
                assert(tail.contains(tail[j - 1]));
                if tail[j - 1] == item {
                    texts_are_ordered(item, list[0]);
                } else {
                    let k = choose|k: int| 0 <= k < rest.len() && rest[k] == tail[j - 1];
                    assert(rest[k] == list[k + 1]);
                }
            } else {
                assert(comes_before(tail[i - 1], tail[j - 1]));
            }
        }
        assert forall|x: Seq<char>| #[trigger]
            result.contains(x) <==> x == item || list.contains(x) by {
            lemma_seq_concat_contains_all_elements(seq![list[0]], tail, x);
            lemma_seq_concat_contains_all_elements(seq![list[0]], rest, x);
            assert(list == seq![list[0]] + rest);
        }
    }
}

/// [`sorted_distinct`] keeps every member, and puts them in ascending order, each once.
pub proof fn sorted_distinct_is_ascending(list: Seq<Seq<char>>)
    ensures
        is_ascending(sorted_distinct(list)),
        forall|i: int, j: int|
            0 <= i < j < sorted_distinct(list).len() ==> comes_before(
                sorted_distinct(list)[i],
                sorted_distinct(list)[j],
            ),
        forall|x: Seq<char>| #[trigger] sorted_distinct(list).contains(x) <==> list.contains(x),
    decreases list.len(),
{
    if list.len() > 0 {
        let before = list.drop_last();
        sorted_distinct_is_ascending(before);
        insertion_keeps_order(sorted_distinct(before), list.last());
        assert(list == before.push(list.last()));
        assert forall|x: Seq<char>| #[trigger] sorted_distinct(list).contains(x)
            <==> list.contains(x) by {
            lemma_seq_contains_after_push(before, list.last(), x);
        }
    }
}

/// A replacement that begins as the pattern does stands out where the pattern's first character is
/// missing: what comes before it was copied.
proof fn text_before_replacements_is_copied(
    text: Seq<char>,
    from: Seq<char>,
    to: Seq<char>,
    n: int,
)
    requires
        from.len() > 0,
        to.len() > 0,
        to[0] == from[0],
        0 <= n <= replaced(text, from, to).len(),
        forall|j: int| 0 <= j < n ==> replaced(text, from, to)[j] != from[0],
    ensures
        n <= text.len(),
        forall|j: int| 0 <= j < n ==> text[j] == replaced(text, from, to)[j],
    decreases text.len(),
{
    let result = replaced(text, from, to);
    if n > 0 && text.len() >= from.len() {
        if occurs_at(text, from, 0) {
            assert(result[0] == to[0]);
        } else {
            let rest = text.skip(1);
            let tail = replaced(rest, from, to);
            assert forall|j: int| 0 <= j < n - 1 implies tail[j] != from[0] by {
                assert(result[j + 1] == tail[j]);
            }
            text_before_replacements_is_copied(rest, from, to, n - 1);
            assert forall|j: int| 0 <= j < n implies text[j] == result[j] by {
                if j > 0 {
                    assert(result[j] == tail[j - 1]);
                    assert(text[j] == rest[j - 1]);
                }
            }
        }
    }
}

/// Replacing leaves no occurrence of the pattern, where the pattern and the replacement begin with
/// the same character, hold it nowhere else, and differ at some position that both have.
pub proof fn replacing_leaves_no_occurrence(
    text: Seq<char>,
    from: Seq<char>,
    to: Seq<char>,
    difference: int,
)
    requires
        0 <= difference < from.len(),
        difference < to.len(),
        from[difference] != to[difference],
        from[0] == to[0],
        forall|i: int| 0 < i < from.len() ==> #[trigger] from[i] != from[0],
        forall|i: int| 0 < i < to.len() ==> to[i] != from[0],
    ensures
        !occurs_in(replaced(text, from, to), from),
    decreases text.len(),
{
    let result = replaced(text, from, to);
    if text.len() >= from.len() {
        if occurs_at(text, from, 0) {
            let tail = replaced(text.skip(from.len() as int), from, to);
            replacing_leaves_no_occurrence(text.skip(from.len() as int), from, to, difference);
            assert forall|i: int| !occurs_at(result, from, i) by {
                if occurs_at(result, from, i) {
                    let here = result.subrange(i, i + from.len());
                    if i == 0 {
                        assert(here[difference] == to[difference]);
                    } else if i < to.len() {
                        assert(here[0] == to[i]);
                    } else {
                        assert(tail.subrange(i - to.len(), i - to.len() + from.len()) == here);
                        assert(occurs_at(tail, from, i - to.len()));
                    }
                }
            }
        } else {
            let rest = text.skip(1);
            let tail = replaced(rest, from, to);
            replacing_leaves_no_occurrence(rest, from, to, difference);
            assert forall|i: int| !occurs_at(result, from, i) by {
                if occurs_at(result, from, i) {
                    let here = result.subrange(i, i + from.len());
                    if i == 0 {
                        assert forall|j: int| 0 <= j < from.len() - 1 implies tail[j] != from[0] by {
                            assert(tail[j] == here[j + 1]);
                        }
                        text_before_replacements_is_copied(rest, from, to, from.len() - 1);
                        assert forall|j: int| 0 <= j < from.len() implies text[j] == from[j] by {
                            assert(here[j] == from[j]);
                            if j > 0 {
                                assert(text[j] == rest[j - 1]);
                                assert(here[j] == tail[j - 1]);
                            }
                        }
                        assert(text.subrange(0, from.len() as int) == from);
                    } else {
                        assert(tail.subrange(i - 1, i - 1 + from.len()) == here);
                        assert(occurs_at(tail, from, i - 1));
                    }
                }
            }
        }
    }
}

/// Replacing changes nothing where the pattern does not occur.
pub proof fn replacing_nothing_changes_nothing(text: Seq<char>, from: Seq<char>, to: Seq<char>)
    requires
        !occurs_in(text, from),
    ensures
        replaced(text, from, to) == text,
    decreases text.len(),
{
    if from.len() > 0 && text.len() >= from.len() {
        assert(!occurs_at(text, from, 0));
        let rest = text.skip(1);
        assert forall|i: int| !occurs_at(rest, from, i) by {
            if occurs_at(rest, from, i) {
                assert(text.subrange(i + 1, i + 1 + from.len()) == rest.subrange(
                    i,
                    i + from.len(),
                ));
                assert(occurs_at(text, from, i + 1));
            }
        }
        replacing_nothing_changes_nothing(rest, from, to);
        assert(text == seq![text[0]] + rest);
    }
}

/// Whether everything in `text` outside the positions from `start` to `end` is white space.
pub open spec fn is_white_outside(text: Seq<char>, start: int, end: int) -> bool {
    &&& 0 <= start <= end <= text.len()
    &&& forall|k: int| 0 <= k < start ==> is_white_space(#[trigger] text[k])
    &&& forall|k: int| end <= k < text.len() ==> is_white_space(#[trigger] text[k])
}

/// A trimmed text has no white space at its ends.
pub proof fn trimmed_text_has_no_white_ends(text: Seq<char>)
    ensures
        trimmed(text).len() > 0 ==> !is_white_space(trimmed(text)[0]) && !is_white_space(
            trimmed(text).last(),
        ),
        trimmed(trimmed(text)) == trimmed(text),
    decreases text.len(),
{
    if text.len() > 0 && is_white_space(text[0]) {
        trimmed_text_has_no_white_ends(text.drop_first());
    } else if text.len() > 0 && is_white_space(text.last()) {
        trimmed_text_has_no_white_ends(text.drop_last());
    }
}

proof fn white_ends_grow(text: Seq<char>, start: int, end: int)
    requires
        text.len() > 0,
    ensures
        is_white_space(text[0]) && is_white_outside(text.drop_first(), start, end)
            ==> is_white_outside(text, start + 1, end + 1) && text.subrange(start + 1, end + 1)
            == text.drop_first().subrange(start, end),
        is_white_space(text.last()) && is_white_outside(text.drop_last(), start, end)
            ==> is_white_outside(text, start, end) && text.subrange(start, end)
            == text.drop_last().subrange(start, end),
{
    if is_white_space(text[0]) && is_white_outside(text.drop_first(), start, end) {
        let rest = text.drop_first();
        assert forall|k: int| 0 <= k < start + 1 implies is_white_space(#[trigger] text[k]) by {
            if k > 0 {
                assert(text[k] == rest[k - 1]);
            }
        }
        assert forall|k: int| end + 1 <= k < text.len() implies is_white_space(
            #[trigger] text[k],
        ) by {
            assert(text[k] == rest[k - 1]);
        }
        assert(text.subrange(start + 1, end + 1) == rest.subrange(start, end));
    }
    if is_white_space(text.last()) && is_white_outside(text.drop_last(), start, end) {
        let rest = text.drop_last();
        assert forall|k: int| 0 <= k < start implies is_white_space(#[trigger] text[k]) by {
            assert(text[k] == rest[k]);
        }
        assert forall|k: int| end <= k < text.len() implies is_white_space(#[trigger] text[k]) by {
            if k < text.len() - 1 {
                assert(text[k] == rest[k]);
            }
        }
        assert(text.subrange(start, end) == rest.subrange(start, end));
    }
}

/// A trimmed text is a part of the text, and lacks nothing of it but white space at its ends.
pub proof fn trimming_takes_off_only_white_ends(text: Seq<char>) -> (span: (int, int))
    ensures
        is_white_outside(text, span.0, span.1),
        0 <= span.0 <= span.1 <= text.len(),
        forall|k: int| 0 <= k < span.0 ==> is_white_space(#[trigger] text[k]),
        forall|k: int| span.1 <= k < text.len() ==> is_white_space(#[trigger] text[k]),
        text.subrange(span.0, span.1) == trimmed(text),
    decreases text.len(),
{
    if text.len() > 0 && is_white_space(text[0]) {
        let (start, end) = trimming_takes_off_only_white_ends(text.drop_first());
        white_ends_grow(text, start, end);
        (start + 1, end + 1)
    } else if text.len() > 0 && is_white_space(text.last()) {
        let (start, end) = trimming_takes_off_only_white_ends(text.drop_last());
        white_ends_grow(text, start, end);
        (start, end)
    } else {
        assert(text.subrange(0, text.len() as int) == text);
        (0, text.len() as int)
    }
}

/// Joining two lists is joining each and putting the separator between; a list of one text joins to
/// that text, and an empty one to nothing.
pub proof fn lists_are_joined_part_by_part(
    first: Seq<Seq<char>>,
    second: Seq<Seq<char>>,
    separator: Seq<char>,
    text: Seq<char>,
)
    ensures
        first.len() > 0 && second.len() > 0 ==> joined(first + second, separator) == joined(
            first,
            separator,
        ) + separator + joined(second, separator),
        joined(seq![text], separator) == text,
        joined(Seq::empty(), separator).len() == 0,
    decreases second.len(),
{
    if first.len() > 0 && second.len() > 0 {
        let all = first + second;
        let before = second.drop_last();
        assert(all.drop_last() == first + before);
        assert(all.last() == second.last());
        if before.len() > 0 {
            lists_are_joined_part_by_part(first, before, separator, text);
            let whole = joined(first, separator) + separator + joined(before, separator);
            assert(joined(all, separator) == whole + separator + second.last());
            assert(whole + separator + second.last() == joined(first, separator) + separator + (
            joined(before, separator) + separator + second.last()));
        } else {
            assert(first + before == first);
            assert(second.last() == second[0]);
        }
    }
}

/// Texts are ordered at the first character in which they differ; a text comes before its own
/// extensions.
pub proof fn first_difference_decides_the_order(a: Seq<char>, b: Seq<char>)
    ensures
        comes_before(a, b) <==> exists|k: int|
            {
                &&& 0 <= k <= a.len()
                &&& k < b.len()
                &&& #[trigger] a.take(k) == b.take(k)
                &&& k == a.len() || a[k] < b[k]
            },
    decreases a.len(),
{
    if a.len() > 0 && b.len() > 0 && a[0] == b[0] {
        let rest_a = a.drop_first();
        let rest_b = b.drop_first();
        first_difference_decides_the_order(rest_a, rest_b);
        if comes_before(a, b) {
            let k = choose|k: int|
                {
                    &&& 0 <= k <= rest_a.len()
                    &&& k < rest_b.len()
                    &&& #[trigger] rest_a.take(k) == rest_b.take(k)
                    &&& k == rest_a.len() || rest_a[k] < rest_b[k]
                };
            assert(a.take(k + 1) == seq![a[0]] + rest_a.take(k));
            assert(b.take(k + 1) == seq![b[0]] + rest_b.take(k));
            assert(a.take(k + 1) == b.take(k + 1));
        }
        if exists|k: int|
            {
                &&& 0 <= k <= a.len()
                &&& k < b.len()
                &&& #[trigger] a.take(k) == b.take(k)
                &&& k == a.len() || a[k] < b[k]
            } {
            let k = choose|k: int|
                {
                    &&& 0 <= k <= a.len()
                    &&& k < b.len()
                    &&& #[trigger] a.take(k) == b.take(k)
                    &&& k == a.len() || a[k] < b[k]
                };
            assert(k > 0);
            assert forall|i: int| 0 <= i < k - 1 implies rest_a[i] == rest_b[i] by {
                assert(a.take(k)[i + 1] == b.take(k)[i + 1]);
            }
            assert(rest_a.take(k - 1) == rest_b.take(k - 1));
        }
    } else if b.len() > 0 {
        assert(a.take(0) == b.take(0));
        assert forall|k: int| 0 < k <= a.len() && k < b.len() implies #[trigger] a.take(k)
            != b.take(k) by {
            assert(a.take(k)[0] == a[0] && b.take(k)[0] == b[0]);
        }
    }
}

/// Replacing puts the replacement in the place of the first occurrence, copies what stands before
/// it, and goes on behind it; where there is no occurrence, the text stays as it is.
pub proof fn occurrences_are_replaced_from_the_left(
    before: Seq<char>,
    from: Seq<char>,
    to: Seq<char>,
    after: Seq<char>,
    text: Seq<char>,
)
    requires
        from.len() > 0,
    ensures
        (forall|i: int|
            0 <= i < before.len() ==> #[trigger] (before + from + after).subrange(
                i,
                i + from.len(),
            ) != from) ==> replaced(before + from + after, from, to) == before + to + replaced(
            after,
            from,
            to,
        ),
        (forall|i: int|
            0 <= i <= text.len() - from.len() ==> #[trigger] text.subrange(i, i + from.len())
                != from) ==> replaced(text, from, to) == text,
    decreases before.len(),
{
    let whole = before + from + after;
    if forall|i: int|
        0 <= i < before.len() ==> #[trigger] whole.subrange(i, i + from.len()) != from {
        if before.len() == 0 {
            assert(whole.subrange(0, 0int + from.len()) == from);
            assert(occurs_at(whole, from, 0));
            assert(whole.skip(from.len() as int) == after);
            assert(before + to == to);
        } else {
            let rest = before.drop_first();
            assert(whole.subrange(0, 0int + from.len()) != from);
            assert(!occurs_at(whole, from, 0));
            assert(whole.skip(1) == rest + from + after);
            assert forall|i: int| 0 <= i < rest.len() implies #[trigger] (rest + from
                + after).subrange(i, i + from.len()) != from by {
                assert((rest + from + after).subrange(i, i + from.len()) == whole.subrange(
                    i + 1,
                    i + 1 + from.len(),
                ));
            }
            occurrences_are_replaced_from_the_left(rest, from, to, after, text);
            assert(seq![whole[0]] + (rest + to + replaced(after, from, to)) == before + to
                + replaced(after, from, to));
        }
    }
    if forall|i: int|
        0 <= i <= text.len() - from.len() ==> #[trigger] text.subrange(i, i + from.len()) != from {
        assert forall|i: int| !occurs_at(text, from, i) by {}
        replacing_nothing_changes_nothing(text, from, to);
    }
}

/// A number is written with the decimal digits that make it up, without a leading zero.
pub proof fn decimal_digits_make_up_the_number(n: nat)
    ensures
        n < 10 ==> digit(n) as int == '0' as int + n,
        decimal(n).len() > 0,
        n >= 10 ==> decimal(n).len() > 1,
        forall|i: int| 0 <= i < decimal(n).len() ==> '0' <= #[trigger] decimal(n)[i] <= '9',
        decimal(n).len() > 1 ==> decimal(n)[0] != '0',
        decimal(n).fold_left(0int, |value: int, c: char| 10 * value + (c as int - '0' as int))
            == n,
    decreases n,
{
    let reading = |value: int, c: char| 10 * value + (c as int - '0' as int);
    if n < 10 {
        let one = seq![digit(n)];
        assert(one.drop_last() == Seq::<char>::empty());
        assert(one.drop_last().fold_left(0int, reading) == 0);
        assert(one.fold_left(0int, reading) == digit(n) as int - '0' as int);
    } else {
        decimal_digits_make_up_the_number(n / 10);
        let front = decimal(n / 10);
        assert(decimal(n).drop_last() == front);
        assert(decimal(n).last() == digit(n % 10));
        assert(decimal(n).fold_left(0int, reading) == 10 * front.fold_left(0int, reading) + (digit(
            n % 10,
        ) as int - '0' as int));
        assert(decimal(n)[0] == front[0]);
        if n / 10 < 10 {
            assert(front[0] == digit(n / 10));
        }
    }
}

/// A text is split at its first mark: what stands before it holds none, and nothing but the mark is
/// lost.
pub proof fn texts_are_split_at_the_first_mark(text: Seq<char>, mark: char)
    ensures
        split_at_first(text, mark) is Some <==> text.contains(mark),
        split_at_first(text, mark) matches Some((before, after)) ==> {
            &&& text == before + seq![mark] + after
            &&& !before.contains(mark)
        },
{
    text.index_of_first_ensures(mark);
    match text.index_of_first(mark) {
        Some(i) => {
            let before = text.take(i);
            if before.contains(mark) {
                let k = before.index_of(mark);
                assert(text[k] == mark);
            }
            assert(text == before + seq![mark] + text.skip(i + 1));
        },
        None => {},
    }
}

/// White space is what has the Unicode property of that name.
pub proof fn white_space_is_what_unicode_says(c: char)
    ensures
        is_white_space(c) <==> {
            let code = c as u32;
            ||| 0x9 <= code <= 0xd
            ||| code == 0x20
            ||| code == 0x85
            ||| code == 0xa0
            ||| code == 0x1680
            ||| 0x2000 <= code <= 0x200a
            ||| code == 0x2028
            ||| code == 0x2029
            ||| code == 0x202f
            ||| code == 0x205f
            ||| code == 0x3000
        },
{
}

} // verus!
