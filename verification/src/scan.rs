//! Finding and cutting pieces of text.

use vstd::prelude::*;
use vstd::string::StrSliceExecFns;

verus! {

/// Whether `pattern` stands at the start of `text`.
pub open spec fn starts_with(text: Seq<char>, pattern: Seq<char>) -> bool {
    pattern.len() <= text.len() && text.take(pattern.len() as int) == pattern
}

/// What follows the first occurrence of a pattern.
pub open spec fn after_first(text: Seq<char>, pattern: Seq<char>) -> Option<Seq<char>>
    decreases text.len(),
{
    if starts_with(text, pattern) {
        Some(text.skip(pattern.len() as int))
    } else if text.len() == 0 {
        None
    } else {
        after_first(text.drop_first(), pattern)
    }
}

/// What precedes the first of two characters.
pub open spec fn before_either(text: Seq<char>, a: char, b: char) -> Option<Seq<char>>
    decreases text.len(),
{
    if text.len() == 0 {
        None
    } else if text[0] == a || text[0] == b {
        Some(seq![])
    } else {
        match before_either(text.drop_first(), a, b) {
            Some(rest) => Some(seq![text[0]] + rest),
            None => None,
        }
    }
}

/// Whether a character is white space.
pub open spec fn is_space(c: char) -> bool {
    ||| '\u{9}' <= c <= '\u{d}'
    ||| c == '\u{20}'
    ||| c == '\u{85}'
    ||| c == '\u{a0}'
    ||| c == '\u{1680}'
    ||| '\u{2000}' <= c <= '\u{200a}'
    ||| c == '\u{2028}'
    ||| c == '\u{2029}'
    ||| c == '\u{202f}'
    ||| c == '\u{205f}'
    ||| c == '\u{3000}'
}

/// A text without white space at its start.
pub open spec fn trimmed_start(text: Seq<char>) -> Seq<char>
    decreases text.len(),
{
    if text.len() > 0 && is_space(text[0]) {
        trimmed_start(text.drop_first())
    } else {
        text
    }
}

/// A text without white space at its end.
pub open spec fn trimmed_end(text: Seq<char>) -> Seq<char>
    decreases text.len(),
{
    if text.len() > 0 && is_space(text.last()) {
        trimmed_end(text.drop_last())
    } else {
        text
    }
}

/// A text without white space around it.
pub open spec fn trimmed(text: Seq<char>) -> Seq<char> {
    trimmed_end(trimmed_start(text))
}

fn space(c: char) -> (r: bool)
    ensures
        r == is_space(c),
{
    ('\u{9}' <= c && c <= '\u{d}') || c == '\u{20}' || c == '\u{85}' || c == '\u{a0}' || c
        == '\u{1680}' || ('\u{2000}' <= c && c <= '\u{200a}') || c == '\u{2028}' || c
        == '\u{2029}' || c == '\u{202f}' || c == '\u{205f}' || c == '\u{3000}'
}

fn stands_at(text: &str, pattern: &str, at: usize) -> (r: bool)
    requires
        at <= text@.len(),
    ensures
        r == starts_with(text@.skip(at as int), pattern@),
{
    let text_len: usize = text.unicode_len();
    let pattern_len: usize = pattern.unicode_len();
    if pattern_len > text_len - at {
        return false;
    }
    let mut i: usize = 0;
    while i < pattern_len
        invariant
            text_len == text@.len(),
            pattern_len == pattern@.len(),
            at + pattern_len <= text_len,
            i <= pattern_len,
            forall|k: int| 0 <= k < i ==> text@[at + k] == pattern@[k],
        decreases pattern_len - i,
    {
        if text.get_char(at + i) != pattern.get_char(i) {
            assert(text@.skip(at as int).take(pattern_len as int)[i as int] != pattern@[i as int]);
            return false;
        }
        i = i + 1;
    }
    assert(text@.skip(at as int).take(pattern_len as int) =~= pattern@);
    true
}

/// What follows the first occurrence of a pattern.
pub fn text_after_first<'a>(text: &'a str, pattern: &str) -> (r: Option<&'a str>)
    ensures
        match after_first(text@, pattern@) {
            Some(rest) => r matches Some(found) && found@ == rest,
            None => r is None,
        },
{
    let text_len: usize = text.unicode_len();
    let pattern_len: usize = pattern.unicode_len();
    let mut i: usize = 0;
    assert(text@.skip(0) =~= text@);
    loop
        invariant
            text_len == text@.len(),
            pattern_len == pattern@.len(),
            i <= text_len,
            after_first(text@.skip(i as int), pattern@) == after_first(text@, pattern@),
        decreases text_len - i,
    {
        if stands_at(text, pattern, i) {
            let rest = text.substring_char(i + pattern_len, text_len);
            assert(rest@ =~= text@.skip(i as int).skip(pattern_len as int));
            return Some(rest);
        }
        if i == text_len {
            return None;
        }
        assert(text@.skip(i as int).drop_first() =~= text@.skip(i + 1));
        i = i + 1;
    }
}

/// The text before the first of two characters, by its place.
pub proof fn lemma_before_either_at(text: Seq<char>, a: char, b: char, end: int)
    requires
        0 <= end < text.len(),
        text[end] == a || text[end] == b,
        forall|k: int| 0 <= k < end ==> text[k] != a && text[k] != b,
    ensures
        before_either(text, a, b) == Some(text.take(end)),
    decreases end,
{
    if end == 0 {
        assert(text.take(0) =~= seq![]);
    } else {
        lemma_before_either_at(text.drop_first(), a, b, end - 1);
        assert(seq![text[0]] + text.drop_first().take(end - 1) =~= text.take(end));
    }
}

proof fn lemma_before_either_none(text: Seq<char>, a: char, b: char)
    requires
        forall|k: int| 0 <= k < text.len() ==> text[k] != a && text[k] != b,
    ensures
        before_either(text, a, b) is None,
    decreases text.len(),
{
    if text.len() > 0 {
        lemma_before_either_none(text.drop_first(), a, b);
    }
}

/// What precedes the first of two characters.
pub fn text_before_either<'a>(text: &'a str, a: char, b: char) -> (r: Option<&'a str>)
    ensures
        match before_either(text@, a, b) {
            Some(rest) => r matches Some(found) && found@ == rest,
            None => r is None,
        },
{
    let text_len: usize = text.unicode_len();
    let mut i: usize = 0;
    while i < text_len
        invariant
            text_len == text@.len(),
            i <= text_len,
            forall|k: int| 0 <= k < i ==> text@[k] != a && text@[k] != b,
        decreases text_len - i,
    {
        let c = text.get_char(i);
        if c == a || c == b {
            proof {
                lemma_before_either_at(text@, a, b, i as int);
            }
            let found = text.substring_char(0, i);
            assert(found@ =~= text@.take(i as int));
            return Some(found);
        }
        i = i + 1;
    }
    proof {
        lemma_before_either_none(text@, a, b);
    }
    None
}

/// A text without white space around it.
pub fn text_trimmed<'a>(text: &'a str) -> (r: &'a str)
    ensures
        r@ == trimmed(text@),
{
    let text_len: usize = text.unicode_len();
    let mut start: usize = 0;
    assert(text@.skip(0) =~= text@);
    while start < text_len && space(text.get_char(start))
        invariant
            text_len == text@.len(),
            start <= text_len,
            trimmed_start(text@.skip(start as int)) == trimmed_start(text@),
        decreases text_len - start,
    {
        assert(text@.skip(start as int).drop_first() =~= text@.skip(start + 1));
        start = start + 1;
    }
    let ghost rest = text@.skip(start as int);
    assert(trimmed_start(text@) == rest);
    let mut end: usize = text_len;
    assert(rest.take(rest.len() as int) =~= rest);
    while end > start && space(text.get_char(end - 1))
        invariant
            text_len == text@.len(),
            start <= end <= text_len,
            rest == text@.skip(start as int),
            trimmed_end(rest.take(end - start)) == trimmed_end(rest),
        decreases end - start,
    {
        assert(rest.take(end - start).drop_last() =~= rest.take(end - 1 - start));
        end = end - 1;
    }
    let r = text.substring_char(start, end);
    assert(r@ =~= rest.take(end - start));
    r
}

/// Whether a pattern occurs nowhere in a text.
pub open spec fn lacks(text: Seq<char>, pattern: Seq<char>) -> bool {
    forall|i: int| 0 <= i <= text.len() ==> !#[trigger] starts_with(text.skip(i), pattern)
}

/// If a pattern does not occur before its known place, that place is the first.
pub proof fn lemma_first_occurrence(text: Seq<char>, pattern: Seq<char>, place: int)
    requires
        0 <= place <= text.len(),
        starts_with(text.skip(place), pattern),
        forall|i: int| 0 <= i < place ==> !#[trigger] starts_with(text.skip(i), pattern),
    ensures
        after_first(text, pattern) == Some(text.skip(place + pattern.len())),
    decreases place,
{
    if place == 0 {
        assert(text.skip(0) =~= text);
    } else {
        assert(!starts_with(text.skip(0), pattern));
        assert(text.skip(0) =~= text);
        let shorter = text.drop_first();
        assert(shorter.skip(place - 1) =~= text.skip(place));
        assert forall|i: int| 0 <= i < place - 1 implies !#[trigger] starts_with(
            shorter.skip(i),
            pattern,
        ) by {
            assert(shorter.skip(i) =~= text.skip(i + 1));
        }
        lemma_first_occurrence(shorter, pattern, place - 1);
        assert(shorter.skip(place - 1 + pattern.len()) =~= text.skip(place + pattern.len()));
    }
}

/// A pattern that occurs nowhere has nothing after it.
pub proof fn lemma_no_occurrence(text: Seq<char>, pattern: Seq<char>)
    requires
        lacks(text, pattern),
    ensures
        after_first(text, pattern) is None,
    decreases text.len(),
{
    assert(text.skip(0) =~= text);
    assert(!starts_with(text.skip(0), pattern));
    if text.len() > 0 {
        let shorter = text.drop_first();
        assert forall|i: int| 0 <= i <= shorter.len() implies !#[trigger] starts_with(
            shorter.skip(i),
            pattern,
        ) by {
            assert(shorter.skip(i) =~= text.skip(i + 1));
        }
        lemma_no_occurrence(shorter, pattern);
    }
}

} // verus!
