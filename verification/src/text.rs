//! Text operations on sequences of characters.

use vstd::prelude::*;

verus! {

/// The characters of each string.
pub open spec fn texts(strings: Seq<String>) -> Seq<Seq<char>> {
    strings.map_values(|s: String| s@)
}

/// The characters of the string, where there is one.
pub open spec fn optional_text(string: Option<String>) -> Option<Seq<char>> {
    match string {
        Some(s) => Some(s@),
        None => None,
    }
}

/// `parts` one after the other, with `separator` between neighbours.
pub open spec fn joined(parts: Seq<Seq<char>>, separator: Seq<char>) -> Seq<char>
    decreases parts.len(),
{
    if parts.len() == 0 {
        Seq::empty()
    } else if parts.len() == 1 {
        parts[0]
    } else {
        joined(parts.drop_last(), separator) + separator + parts.last()
    }
}

/// Whether `pattern` stands in `text` at position `i`.
pub open spec fn occurs_at(text: Seq<char>, pattern: Seq<char>, i: int) -> bool {
    &&& 0 <= i
    &&& i + pattern.len() <= text.len()
    &&& text.subrange(i, i + pattern.len()) == pattern
}

/// Whether `pattern` stands anywhere in `text`.
pub open spec fn occurs_in(text: Seq<char>, pattern: Seq<char>) -> bool {
    exists|i: int| occurs_at(text, pattern, i)
}

/// `text` with each occurrence of `from`, taken from left to right without overlap, replaced by
/// `to`.
pub open spec fn replaced(text: Seq<char>, from: Seq<char>, to: Seq<char>) -> Seq<char>
    recommends
        from.len() > 0,
    decreases text.len(),
{
    if from.len() == 0 || text.len() < from.len() {
        text
    } else if occurs_at(text, from, 0) {
        to + replaced(text.skip(from.len() as int), from, to)
    } else {
        seq![text[0]] + replaced(text.skip(1), from, to)
    }
}

/// The character for a decimal digit.
pub open spec fn digit(d: nat) -> char {
    if d == 0 {
        '0'
    } else if d == 1 {
        '1'
    } else if d == 2 {
        '2'
    } else if d == 3 {
        '3'
    } else if d == 4 {
        '4'
    } else if d == 5 {
        '5'
    } else if d == 6 {
        '6'
    } else if d == 7 {
        '7'
    } else if d == 8 {
        '8'
    } else {
        '9'
    }
}

/// `n` in decimal notation, without leading zeros.
pub open spec fn decimal(n: nat) -> Seq<char>
    decreases n,
{
    if n < 10 {
        seq![digit(n)]
    } else {
        decimal(n / 10).push(digit(n % 10))
    }
}

/// Whether `a` stands before `b` when texts are ordered character by character, a text before
/// its own extensions.
pub open spec fn comes_before(a: Seq<char>, b: Seq<char>) -> bool
    decreases a.len(),
{
    if b.len() == 0 {
        false
    } else if a.len() == 0 {
        true
    } else if a[0] == b[0] {
        comes_before(a.drop_first(), b.drop_first())
    } else {
        a[0] < b[0]
    }
}

/// The ascending list `list` with `item` put in its place, or `list` itself where it holds `item`.
pub open spec fn inserted_in_order(list: Seq<Seq<char>>, item: Seq<char>) -> Seq<Seq<char>>
    decreases list.len(),
{
    if list.len() == 0 {
        seq![item]
    } else if list[0] == item {
        list
    } else if comes_before(item, list[0]) {
        seq![item] + list
    } else {
        seq![list[0]] + inserted_in_order(list.drop_first(), item)
    }
}

/// The different members of `list` in ascending order.
pub open spec fn sorted_distinct(list: Seq<Seq<char>>) -> Seq<Seq<char>>
    decreases list.len(),
{
    if list.len() == 0 {
        Seq::empty()
    } else {
        inserted_in_order(sorted_distinct(list.drop_last()), list.last())
    }
}

/// The members of `list` without repetitions, each where it stands first.
pub open spec fn distinct<A>(list: Seq<A>) -> Seq<A>
    decreases list.len(),
{
    if list.len() == 0 {
        Seq::empty()
    } else {
        let before = distinct(list.drop_last());
        if before.contains(list.last()) {
            before
        } else {
            before.push(list.last())
        }
    }
}

/// The parts of `text` before and after the first `mark`, where there is one.
pub open spec fn split_at_first(text: Seq<char>, mark: char) -> Option<(Seq<char>, Seq<char>)> {
    match text.index_of_first(mark) {
        Some(i) => Some((text.take(i), text.skip(i + 1))),
        None => None,
    }
}

/// Whether a character has the Unicode property White_Space.
pub open spec fn is_white_space(c: char) -> bool {
    ||| '\u{9}' <= c <= '\u{d}'
    ||| c == ' '
    ||| c == '\u{85}'
    ||| c == '\u{a0}'
    ||| c == '\u{1680}'
    ||| '\u{2000}' <= c <= '\u{200a}'
    ||| c == '\u{2028}'
    ||| c == '\u{2029}'
    ||| c == '\u{202f}'
    ||| c == '\u{205f}'
    ||| c == '\u{3000}'
}

/// `text` without the white space at its two ends.
pub open spec fn trimmed(text: Seq<char>) -> Seq<char>
    decreases text.len(),
{
    if text.len() > 0 && is_white_space(text[0]) {
        trimmed(text.drop_first())
    } else if text.len() > 0 && is_white_space(text.last()) {
        trimmed(text.drop_last())
    } else {
        text
    }
}

/// Calls `char::is_whitespace` of the standard library, which answers whether the character has
/// the Unicode property White_Space.
#[verifier::external_body]
fn is_whitespace(c: char) -> (white: bool)
    ensures
        white == is_white_space(c),
{
    c.is_whitespace()
}

/// Whether two texts hold the same characters.
pub fn same_text(a: &str, b: &str) -> (same: bool)
    ensures
        same == (a@ == b@),
{
    a.to_owned() == b.to_owned()
}

/// Whether `list` holds `item`.
pub fn contains_text(list: &Vec<String>, item: &str) -> (found: bool)
    ensures
        found == texts(list@).contains(item@),
{
    for i in 0..list.len()
        invariant
            forall|j: int| 0 <= j < i ==> texts(list@)[j] != item@,
    {
        if same_text(list[i].as_str(), item) {
            assert(texts(list@)[i as int] == item@);
            return true;
        }
    }
    false
}

/// A copy of `list`.
pub fn copy_texts(list: &Vec<String>) -> (copy: Vec<String>)
    ensures
        copy@ == list@,
{
    let mut copy: Vec<String> = Vec::new();
    for i in 0..list.len()
        invariant
            copy@ == list@.take(i as int),
    {
        copy.push(list[i].clone());
        assert(list@.take(i + 1) == list@.take(i as int).push(list@[i as int]));
    }
    assert(list@.take(list.len() as int) == list@);
    copy
}

/// A copy of the text, where there is one.
pub fn copy_optional(text: &Option<String>) -> (copy: Option<String>)
    ensures
        copy == *text,
{
    match text {
        Some(t) => Some(t.clone()),
        None => None,
    }
}

/// Joins `parts` with `separator` between neighbours.
pub fn join(parts: &Vec<String>, separator: &str) -> (result: String)
    ensures
        result@ == joined(texts(parts@), separator@),
{
    let mut result = String::new();
    for i in 0..parts.len()
        invariant
            result@ == joined(texts(parts@).take(i as int), separator@),
    {
        proof {
            let so_far = texts(parts@).take(i + 1);
            assert(so_far.drop_last() == texts(parts@).take(i as int));
            assert(so_far.last() == parts@[i as int]@);
        }
        if i > 0 {
            result.append(separator);
            result.append(parts[i].as_str());
        } else {
            result.append(parts[i].as_str());
            assert(result@ == parts@[0]@);
        }
    }
    assert(texts(parts@).take(parts.len() as int) == texts(parts@));
    result
}

/// The characters of `text`.
pub fn characters(text: &str) -> (chars: Vec<char>)
    ensures
        chars@ == text@,
{
    let mut chars: Vec<char> = Vec::new();
    for c in iter: text.chars()
        invariant
            chars@ == text@.take(iter.index()),
            iter.seq() == text@,
    {
        chars.push(c);
        assert(text@.take(iter.index() + 1) == text@.take(iter.index()).push(c));
    }
    assert(text@.take(text@.len() as int) == text@);
    chars
}

/// Splits `text` at the first `mark`.
pub fn split_once(text: &str, mark: char) -> (parts: Option<(String, String)>)
    ensures
        parts is Some == split_at_first(text@, mark) is Some,
        parts matches Some((before, after)) ==> split_at_first(text@, mark) == Some(
            (before@, after@),
        ),
{
    let chars = characters(text);
    proof {
        text@.index_of_first_ensures(mark);
    }
    for i in 0..chars.len()
        invariant
            chars@ == text@,
            forall|j: int| 0 <= j < i ==> chars@[j] != mark,
            match text@.index_of_first(mark) {
                Some(k) => 0 <= k < text@.len() && text@[k] == mark && forall|j: int|
                    0 <= j < k < text@.len() ==> text@[j] != mark,
                None => !text@.contains(mark),
            },
    {
        if chars[i] == mark {
            assert(text@.contains(mark));
            assert(text@.index_of_first(mark) == Some(i as int));
            let before = text.substring_char(0, i).to_owned();
            let after = text.substring_char(i + 1, chars.len()).to_owned();
            return Some((before, after));
        }
    }
    None
}

/// Removes the white space at the two ends of `text`.
pub fn trim(text: &str) -> (result: String)
    ensures
        result@ == trimmed(text@),
{
    let chars = characters(text);
    let mut start: usize = 0;
    let mut end: usize = chars.len();
    assert(text@.subrange(0, text@.len() as int) == text@);
    while start < end && is_whitespace(chars[start])
        invariant
            chars@ == text@,
            start <= end == chars@.len(),
            trimmed(text@.subrange(start as int, end as int)) == trimmed(text@),
        ensures
            start <= end == chars@.len(),
            trimmed(text@.subrange(start as int, end as int)) == trimmed(text@),
            start < end ==> !is_white_space(text@[start as int]),
        decreases end - start,
    {
        proof {
            let rest = text@.subrange(start as int, end as int);
            assert(rest.drop_first() == text@.subrange(start + 1, end as int));
        }
        start = start + 1;
    }
    while start < end && is_whitespace(chars[end - 1])
        invariant
            chars@ == text@,
            start <= end <= chars@.len(),
            trimmed(text@.subrange(start as int, end as int)) == trimmed(text@),
            start < end ==> !is_white_space(text@[start as int]),
        ensures
            start <= end <= chars@.len(),
            trimmed(text@.subrange(start as int, end as int)) == text@.subrange(
                start as int,
                end as int,
            ),
            trimmed(text@.subrange(start as int, end as int)) == trimmed(text@),
        decreases end - start,
    {
        proof {
            let rest = text@.subrange(start as int, end as int);
            assert(rest.drop_last() == text@.subrange(start as int, end - 1));
        }
        end = end - 1;
    }
    text.substring_char(start, end).to_owned()
}

/// Whether `pattern` stands in `text` at position `i`.
fn stands_at(text: &Vec<char>, pattern: &Vec<char>, i: usize) -> (found: bool)
    requires
        i <= text@.len(),
    ensures
        found == occurs_at(text@, pattern@, i as int),
{
    if text.len() - i < pattern.len() {
        return false;
    }
    for k in 0..pattern.len()
        invariant
            i + pattern@.len() <= text.len(),
            forall|j: int| 0 <= j < k ==> text@[i + j] == pattern@[j],
    {
        if text[i + k] != pattern[k] {
            assert(text@.subrange(i as int, i + pattern@.len())[k as int] != pattern@[k as int]);
            return false;
        }
    }
    assert(text@.subrange(i as int, i + pattern@.len()) == pattern@);
    true
}

/// Replaces each occurrence of `from` in `text`, from left to right, by `to`.
pub fn replace(text: &str, from: &str, to: &str) -> (result: String)
    requires
        from@.len() > 0,
    ensures
        result@ == replaced(text@, from@, to@),
{
    let chars = characters(text);
    let pattern = characters(from);
    let mut result = String::new();
    // `result` holds what became of the text before `kept`; the text from `kept` to `i` stays.
    let mut kept: usize = 0;
    let mut i: usize = 0;
    assert(text@.skip(0) == text@);
    assert(result@ + text@.subrange(0, 0) + replaced(text@.skip(0), from@, to@) == replaced(
        text@,
        from@,
        to@,
    ));
    while i < chars.len()
        invariant
            chars@ == text@,
            pattern@ == from@,
            from@.len() > 0,
            kept <= i <= chars@.len(),
            result@ + text@.subrange(kept as int, i as int) + replaced(
                text@.skip(i as int),
                from@,
                to@,
            ) == replaced(text@, from@, to@),
        decreases chars@.len() - i,
    {
        let ghost rest = text@.skip(i as int);
        let found = stands_at(&chars, &pattern, i);
        proof {
            if i + from@.len() <= text@.len() {
                assert(rest.subrange(0, from@.len() as int) == text@.subrange(
                    i as int,
                    i + from@.len(),
                ));
            }
            assert(found == occurs_at(rest, from@, 0));
        }
        if found {
            let ghost before = result@;
            result.append(text.substring_char(kept, i));
            result.append(to);
            proof {
                assert(rest.skip(from@.len() as int) == text@.skip(i + from@.len()));
                let tail = replaced(text@.skip(i + from@.len()), from@, to@);
                assert(replaced(rest, from@, to@) == to@ + tail);
                assert(before + text@.subrange(kept as int, i as int) + (to@ + tail) == before
                    + text@.subrange(kept as int, i as int) + to@ + tail);
                let next = i + from@.len();
                assert(text@.subrange(next, next) == Seq::<char>::empty());
                assert(result@ + text@.subrange(next, next) + tail == result@ + tail);
            }
            i = i + pattern.len();
            kept = i;
        } else {
            proof {
                let tail = replaced(text@.skip(i + 1), from@, to@);
                if rest.len() < from@.len() {
                    assert(text@.skip(i + 1).len() < from@.len());
                    assert(rest == seq![rest[0]] + text@.skip(i + 1));
                } else {
                    assert(rest.skip(1) == text@.skip(i + 1));
                }
                assert(replaced(rest, from@, to@) == seq![text@[i as int]] + tail);
                assert(text@.subrange(kept as int, i + 1) == text@.subrange(kept as int, i as int)
                    + seq![text@[i as int]]);
                assert(result@ + text@.subrange(kept as int, i as int) + (seq![text@[i as int]]
                    + tail) == result@ + text@.subrange(kept as int, i + 1) + tail);
            }
            i = i + 1;
        }
    }
    result.append(text.substring_char(kept, i));
    proof {
        assert(text@.skip(i as int) == Seq::<char>::empty());
        assert(replaced(text@.skip(i as int), from@, to@) == Seq::<char>::empty());
        assert(result@ + Seq::<char>::empty() == result@);
    }
    result
}

/// The text of a decimal digit.
fn digit_text(d: usize) -> (text: &'static str)
    requires
        d < 10,
    ensures
        text@ == seq![digit(d as nat)],
{
    proof {
        reveal_strlit("0");
        reveal_strlit("1");
        reveal_strlit("2");
        reveal_strlit("3");
        reveal_strlit("4");
        reveal_strlit("5");
        reveal_strlit("6");
        reveal_strlit("7");
        reveal_strlit("8");
        reveal_strlit("9");
    }
    if d == 0 {
        "0"
    } else if d == 1 {
        "1"
    } else if d == 2 {
        "2"
    } else if d == 3 {
        "3"
    } else if d == 4 {
        "4"
    } else if d == 5 {
        "5"
    } else if d == 6 {
        "6"
    } else if d == 7 {
        "7"
    } else if d == 8 {
        "8"
    } else {
        "9"
    }
}

/// Writes `n` in decimal notation.
pub fn decimal_text(n: usize) -> (text: String)
    ensures
        text@ == decimal(n as nat),
    decreases n,
{
    if n < 10 {
        digit_text(n).to_owned()
    } else {
        let mut text = decimal_text(n / 10);
        text.append(digit_text(n % 10));
        assert(text@ == decimal(n as nat / 10).push(digit(n as nat % 10)));
        text
    }
}

/// Whether `a` stands before `b` in the order of texts.
fn is_before(a: &str, b: &str) -> (before: bool)
    ensures
        before == comes_before(a@, b@),
{
    let left = characters(a);
    let right = characters(b);
    let mut i: usize = 0;
    assert(a@.skip(0) == a@);
    assert(b@.skip(0) == b@);
    while i < left.len() && i < right.len()
        invariant
            left@ == a@,
            right@ == b@,
            i <= left@.len(),
            i <= right@.len(),
            comes_before(a@.skip(i as int), b@.skip(i as int)) == comes_before(a@, b@),
        decreases left@.len() - i,
    {
        assert(a@.skip(i as int).drop_first() == a@.skip(i + 1));
        assert(b@.skip(i as int).drop_first() == b@.skip(i + 1));
        if left[i] != right[i] {
            return left[i] < right[i];
        }
        i = i + 1;
    }
    i < right.len()
}

/// Puts `item` in its place in the ascending `list`, unless `list` holds it.
fn insert_in_order(list: &mut Vec<String>, item: String)
    ensures
        texts(final(list)@) == inserted_in_order(texts(old(list)@), item@),
{
    let ghost all = texts(list@);
    let mut i: usize = 0;
    assert(all.skip(0) == all);
    assert(all.take(0) + inserted_in_order(all, item@) == inserted_in_order(all, item@));
    while i < list.len()
        invariant
            list@ == old(list)@,
            all == texts(list@),
            i <= list@.len(),
            all.take(i as int) + inserted_in_order(all.skip(i as int), item@) == inserted_in_order(
                all,
                item@,
            ),
        ensures
            list@ == old(list)@,
            i <= list@.len(),
            all.take(i as int) + (seq![item@] + all.skip(i as int)) == inserted_in_order(all, item@),
        decreases list@.len() - i,
    {
        let ghost rest = all.skip(i as int);
        if same_text(list[i].as_str(), item.as_str()) {
            assert(all.take(i as int) + rest == all);
            return;
        }
        if is_before(item.as_str(), list[i].as_str()) {
            break;
        }
        proof {
            assert(rest.drop_first() == all.skip(i + 1));
            assert(all.take(i as int) + (seq![rest[0]] + inserted_in_order(all.skip(i + 1), item@))
                == all.take(i + 1) + inserted_in_order(all.skip(i + 1), item@));
        }
        i = i + 1;
        if i == list.len() {
            assert(all.skip(i as int) == Seq::<Seq<char>>::empty());
            assert(seq![item@] + all.skip(i as int) == seq![item@]);
        }
    }
    let ghost text = item@;
    list.insert(i, item);
    assert(texts(list@) == all.take(i as int) + (seq![text] + all.skip(i as int)));
}

/// The different members of `list` in ascending order.
pub fn sort_distinct(list: &Vec<String>) -> (sorted: Vec<String>)
    ensures
        texts(sorted@) == sorted_distinct(texts(list@)),
{
    let mut sorted: Vec<String> = Vec::new();
    assert(texts(sorted@) == sorted_distinct(texts(list@).take(0)));
    for i in 0..list.len()
        invariant
            texts(sorted@) == sorted_distinct(texts(list@).take(i as int)),
    {
        insert_in_order(&mut sorted, list[i].clone());
        assert(texts(list@).take(i + 1).drop_last() == texts(list@).take(i as int));
    }
    assert(texts(list@).take(list.len() as int) == texts(list@));
    sorted
}

} // verus!
