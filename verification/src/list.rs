//! Lists of names: how a peer writes down the algorithms that it accepts.
//!
//! A list is a string of names separated by commas. Whitespace around a name
//! does not count, and neither does an item that holds nothing else. The
//! order of the names is the peer's order of preference.

use crate::text::{ascii_whitespace, chars_of, is_ascii_whitespace, is_token, is_token_char};
use vstd::prelude::*;
use vstd::string::StrSliceExecFns;

verus! {

/// `s` without the whitespace at its start.
pub open spec fn trim_start(s: Seq<char>) -> Seq<char>
    decreases s.len(),
{
    if s.len() > 0 && is_ascii_whitespace(s.first()) {
        trim_start(s.drop_first())
    } else {
        s
    }
}

/// `s` without the whitespace at its end.
pub open spec fn trim_end(s: Seq<char>) -> Seq<char>
    decreases s.len(),
{
    if s.len() > 0 && is_ascii_whitespace(s.last()) {
        trim_end(s.drop_last())
    } else {
        s
    }
}

/// `s` without the whitespace at its start and at its end.
pub open spec fn trim(s: Seq<char>) -> Seq<char> {
    trim_end(trim_start(s))
}

/// The number of characters of `s` that stand before its first comma: all of
/// them where it has none.
pub open spec fn segment_len(s: Seq<char>) -> nat
    decreases s.len(),
{
    if s.len() == 0 || s.first() == ',' {
        0
    } else {
        1 + segment_len(s.drop_first())
    }
}

/// The names that the list `s` holds, in its order: what stands before the
/// first comma, trimmed, unless nothing is left of it; then the names of what
/// follows that comma.
pub open spec fn candidates(s: Seq<char>) -> Seq<Seq<char>>
    decreases s.len(),
{
    let n = segment_len(s) as int;
    let head = trim(s.take(n));
    let rest = if n < s.len() {
        candidates(s.skip(n + 1))
    } else {
        Seq::empty()
    };
    if head.len() > 0 {
        seq![head] + rest
    } else {
        rest
    }
}

/// What each of `items` holds.
pub open spec fn texts(items: Seq<&str>) -> Seq<Seq<char>> {
    Seq::new(items.len(), |i: int| items[i]@)
}

/// Splits a list of accepted algorithms into its names, in the order of the
/// list.
pub fn parse_accept_encoding_header<'a>(value: &'a str) -> (names: Vec<&'a str>)
    ensures
        texts(names@) == candidates(value@),
{
    let chars = chars_of(value);
    let mut names: Vec<&'a str> = Vec::new();
    let mut start: usize = 0;
    let mut done = false;
    assert(value@.skip(0) == value@);
    while !done
        invariant
            chars@ == value@,
            start <= chars.len(),
            !done ==> candidates(value@) == texts(names@) + candidates(value@.skip(start as int)),
            done ==> candidates(value@) == texts(names@),
        decreases chars.len() - start + (if done { 0int } else { 1int }),
    {
        let ghost item = value@.skip(start as int);
        let ghost before = texts(names@);
        let end = segment_end(&chars, start);
        let (from, to) = trimmed(&chars, start, end);
        assert(item.take(end - start) == value@.subrange(start as int, end as int));
        if from < to {
            let name = value.substring_char(from, to);
            names.push(name);
        }
        if end < chars.len() {
            assert(item.skip(end - start + 1) == value@.skip(end + 1));
            start = end + 1;
        } else {
            done = true;
        }
    }
    names
}

/// Whether `s` is whitespace throughout.
pub open spec fn is_blank(s: Seq<char>) -> bool {
    forall|i: int| 0 <= i < s.len() ==> is_ascii_whitespace(#[trigger] s[i])
}

/// Whether `s` can stand in a list as a name: it is not empty, holds no
/// comma, and neither starts nor ends with whitespace.
pub open spec fn is_item(s: Seq<char>) -> bool {
    &&& s.len() > 0
    &&& forall|i: int| 0 <= i < s.len() ==> #[trigger] s[i] != ','
    &&& !is_ascii_whitespace(s.first())
    &&& !is_ascii_whitespace(s.last())
}

/// A token can stand in a list as it is.
pub proof fn lemma_token_is_item(name: Seq<char>)
    requires
        is_token(name),
    ensures
        is_item(name),
{
    assert(is_token_char(name.first()) && is_token_char(name.last()));
}

/// A list as a peer may write it: each of `items` with the whitespace
/// `before[i]` in front of it and `after[i]` behind it, and a comma between
/// one item and the next.
pub open spec fn written(items: Seq<Seq<char>>, before: Seq<Seq<char>>, after: Seq<Seq<char>>) -> Seq<
    char,
>
    decreases items.len(),
{
    if items.len() == 0 {
        Seq::empty()
    } else if items.len() == 1 {
        before.first() + items.first() + after.first()
    } else {
        before.first() + items.first() + after.first() + seq![','] + written(
            items.drop_first(),
            before.drop_first(),
            after.drop_first(),
        )
    }
}

/// Reading undoes writing: a list that is written from names, with any
/// whitespace around each, holds exactly those names, in their order.
pub proof fn lemma_candidates_of_written(
    items: Seq<Seq<char>>,
    before: Seq<Seq<char>>,
    after: Seq<Seq<char>>,
)
    requires
        before.len() == items.len(),
        after.len() == items.len(),
        forall|i: int| 0 <= i < items.len() ==> is_item(#[trigger] items[i]),
        forall|i: int| 0 <= i < items.len() ==> is_blank(#[trigger] before[i]),
        forall|i: int| 0 <= i < items.len() ==> is_blank(#[trigger] after[i]),
    ensures
        candidates(written(items, before, after)) == items,
    decreases items.len(),
{
    let s = written(items, before, after);
    if items.len() > 0 {
        let lead = before.first();
        let item = items.first();
        let trail = after.first();
        // The first item with its whitespace is what stands before the first
        // comma of the list.
        let first = lead + item + trail;
        let n = first.len() as int;
        assert(s.take(n) == first);
        assert(forall|j: int| 0 <= j < n ==> s[j] != ',');
        lemma_segment_len(s, n);
        // Trimmed, it is the item.
        lemma_trim_start(first, lead.len() as int);
        let tail = item + trail;
        assert(first.skip(lead.len() as int) == tail);
        lemma_trim_end(tail, item.len() as int);
        assert(trim(first) == item);
        // What follows the comma is the list of the other items.
        if items.len() > 1 {
            let rest = written(items.drop_first(), before.drop_first(), after.drop_first());
            assert(s.skip(n + 1) == rest);
            lemma_candidates_of_written(
                items.drop_first(),
                before.drop_first(),
                after.drop_first(),
            );
        }
    }
}

/// Every name that a list holds can stand in a list as it is: it is not
/// empty, holds no comma, and neither starts nor ends with whitespace.
pub proof fn lemma_candidates_are_items(s: Seq<char>)
    ensures
        forall|i: int| 0 <= i < candidates(s).len() ==> is_item(#[trigger] candidates(s)[i]),
    decreases s.len(),
{
    let n = segment_len(s) as int;
    let head = trim(s.take(n));
    let rest = if n < s.len() {
        candidates(s.skip(n + 1))
    } else {
        Seq::empty()
    };
    lemma_segment_bounds(s);
    lemma_trim_bounds(s.take(n));
    if n < s.len() {
        lemma_candidates_are_items(s.skip(n + 1));
    }
    assert forall|i: int| 0 <= i < candidates(s).len() implies is_item(
        #[trigger] candidates(s)[i],
    ) by {
        if head.len() == 0 {
            assert(candidates(s)[i] == rest[i]);
        } else if i > 0 {
            assert(candidates(s)[i] == rest[i - 1]);
        }
    }
}

/// The end of the item that starts at `start`: the place of the next comma,
/// or the length of `chars`.
fn segment_end(chars: &Vec<char>, start: usize) -> (end: usize)
    requires
        start <= chars.len(),
    ensures
        start <= end <= chars.len(),
        end - start == segment_len(chars@.skip(start as int)),
{
    let mut end = start;
    while end < chars.len() && chars[end] != ','
        invariant
            start <= end <= chars.len(),
            forall|j: int| start <= j < end ==> chars@[j] != ',',
        decreases chars.len() - end,
    {
        end = end + 1;
    }
    proof {
        lemma_segment_len(chars@.skip(start as int), end - start);
    }
    end
}

/// The part of `chars[start..end]` that is left when the whitespace at both
/// ends is taken away.
fn trimmed(chars: &Vec<char>, start: usize, end: usize) -> (bounds: (usize, usize))
    requires
        start <= end <= chars.len(),
    ensures
        start <= bounds.0 <= bounds.1 <= end,
        chars@.subrange(bounds.0 as int, bounds.1 as int) == trim(
            chars@.subrange(start as int, end as int),
        ),
{
    let mut from = start;
    while from < end && ascii_whitespace(chars[from])
        invariant
            start <= from <= end <= chars.len(),
            forall|j: int| start <= j < from ==> is_ascii_whitespace(chars@[j]),
        decreases end - from,
    {
        from = from + 1;
    }
    let mut to = end;
    while to > from && ascii_whitespace(chars[to - 1])
        invariant
            from <= to <= end <= chars.len(),
            forall|j: int| to <= j < end ==> is_ascii_whitespace(chars@[j]),
        decreases to,
    {
        to = to - 1;
    }
    proof {
        let item = chars@.subrange(start as int, end as int);
        lemma_trim_start(item, from - start);
        assert(item.skip(from - start) == chars@.subrange(from as int, end as int));
        let tail = chars@.subrange(from as int, end as int);
        lemma_trim_end(tail, to - from);
    }
    (from, to)
}

/// The first comma of `s` stands at `k` where none stands before `k` and
/// one stands at `k`, or `s` ends there.
proof fn lemma_segment_len(s: Seq<char>, k: int)
    requires
        0 <= k <= s.len(),
        forall|j: int| 0 <= j < k ==> s[j] != ',',
        k == s.len() || s[k] == ',',
    ensures
        segment_len(s) == k,
    decreases k,
{
    if k > 0 {
        lemma_segment_len(s.drop_first(), k - 1);
    }
}

/// What stands before the first comma holds no comma, and is followed by
/// one unless it is all there is.
proof fn lemma_segment_bounds(s: Seq<char>)
    ensures
        segment_len(s) <= s.len(),
        forall|j: int| 0 <= j < segment_len(s) ==> s[j] != ',',
        segment_len(s) < s.len() ==> s[segment_len(s) as int] == ',',
    decreases s.len(),
{
    if s.len() == 0 || s.first() == ',' {
    } else {
        let rest = s.drop_first();
        lemma_segment_bounds(rest);
        assert forall|j: int| 0 <= j < segment_len(s) implies s[j] != ',' by {
            if j > 0 {
                assert(s[j] == rest[j - 1]);
            }
        }
    }
}

/// `trim_start` takes away a run of whitespace that ends before a character
/// of another kind, or at the end.
proof fn lemma_trim_start(s: Seq<char>, k: int)
    requires
        0 <= k <= s.len(),
        forall|j: int| 0 <= j < k ==> is_ascii_whitespace(s[j]),
        k == s.len() || !is_ascii_whitespace(s[k]),
    ensures
        trim_start(s) == s.skip(k),
    decreases k,
{
    if k > 0 {
        lemma_trim_start(s.drop_first(), k - 1);
    }
}

/// `trim_end` takes away a run of whitespace that starts after a character
/// of another kind, or at the start.
proof fn lemma_trim_end(s: Seq<char>, k: int)
    requires
        0 <= k <= s.len(),
        forall|j: int| k <= j < s.len() ==> is_ascii_whitespace(s[j]),
        k == 0 || !is_ascii_whitespace(s[k - 1]),
    ensures
        trim_end(s) == s.take(k),
    decreases s.len() - k,
{
    if k < s.len() {
        lemma_trim_end(s.drop_last(), k);
    }
}

/// What is left of a string without commas holds none, and neither starts
/// nor ends with whitespace.
proof fn lemma_trim_bounds(s: Seq<char>)
    requires
        forall|j: int| 0 <= j < s.len() ==> s[j] != ',',
    ensures
        trim(s).len() > 0 ==> is_item(trim(s)),
{
    lemma_trim_start_is_suffix(s);
    let k = choose|k: int| 0 <= k <= s.len() && trim_start(s) == s.skip(k);
    let t = s.skip(k);
    lemma_trim_end_is_prefix(t);
    let m = choose|m: int| 0 <= m <= t.len() && trim_end(t) == t.take(m);
    assert(trim(s) == s.subrange(k, k + m));
}

/// `trim_start` leaves an end of the string, which does not start with
/// whitespace.
proof fn lemma_trim_start_is_suffix(s: Seq<char>)
    ensures
        exists|k: int| 0 <= k <= s.len() && trim_start(s) == s.skip(k),
        trim_start(s).len() > 0 ==> !is_ascii_whitespace(trim_start(s).first()),
    decreases s.len(),
{
    if s.len() > 0 && is_ascii_whitespace(s.first()) {
        let rest = s.drop_first();
        lemma_trim_start_is_suffix(rest);
        let k = choose|k: int| 0 <= k <= rest.len() && trim_start(rest) == rest.skip(k);
        assert(rest.skip(k) == s.skip(k + 1));
    } else {
        assert(s.skip(0) == s);
    }
}

/// `trim_end` leaves a start of the string, which does not end with
/// whitespace.
proof fn lemma_trim_end_is_prefix(s: Seq<char>)
    ensures
        exists|k: int| 0 <= k <= s.len() && trim_end(s) == s.take(k),
        trim_end(s).len() > 0 ==> !is_ascii_whitespace(trim_end(s).last()),
    decreases s.len(),
{
    if s.len() > 0 && is_ascii_whitespace(s.last()) {
        let rest = s.drop_last();
        lemma_trim_end_is_prefix(rest);
        let k = choose|k: int| 0 <= k <= rest.len() && trim_end(rest) == rest.take(k);
        assert(rest.take(k) == s.take(k));
    } else {
        assert(s.take(s.len() as int) == s);
    }
}

} // verus!
