//! How texts are cut, compared and ordered.

use vstd::prelude::*;

use crate::daemon::ledger::{about_run_text, run_error};
use crate::daemon::server::ServerError;
use crate::daemon::tmux_control::{combine_cleanup_failure, failed_to_text};
use crate::daemon::tmux_tracker::CleanupResult;
use crate::identity::RunId;
use crate::order::{
    not_after, ranked_not_after, sort_ranked, sort_texts, text_not_after, texts_of, Ranked,
};
use crate::protocol::{ErrorCode, ProtocolError};
use crate::scan::{
    before_either, is_space, lemma_before_either_at, lemma_first_occurrence, lemma_no_occurrence,
    starts_with, text_after_first, text_before_either, text_trimmed, trimmed_end, trimmed_start,
};
use crate::text::{joined, joined3, owned, same_text};

verus! {

/// Whether a pattern stands at a place of a text.
pub open spec fn stands_at(text: Seq<char>, pattern: Seq<char>, place: int) -> bool {
    &&& 0 <= place
    &&& place + pattern.len() <= text.len()
    &&& forall|i: int| 0 <= i < pattern.len() ==> #[trigger] pattern[i] == text[place + i]
}

proof fn lemma_stands_at(text: Seq<char>, pattern: Seq<char>, place: int)
    requires
        0 <= place <= text.len(),
    ensures
        stands_at(text, pattern, place) <==> starts_with(text.skip(place), pattern),
{
    let rest = text.skip(place);
    if starts_with(rest, pattern) {
        assert forall|i: int| 0 <= i < pattern.len() implies #[trigger] pattern[i]
            == text[place + i] by {
            assert(rest.take(pattern.len() as int)[i] == pattern[i]);
        }
    }
    if stands_at(text, pattern, place) {
        assert(rest.take(pattern.len() as int) =~= pattern);
    }
}

/// What follows a pattern begins behind its first occurrence and goes to the
/// end; without an occurrence there is nothing.
pub proof fn law_what_follows_a_pattern(
    text: &str,
    pattern: &str,
    r: Option<&str>,
    place: int,
)
    requires
        call_ensures(text_after_first, (text, pattern), r),
    ensures
        stands_at(text@, pattern@, place) && (forall|i: int|
            0 <= i < place ==> !#[trigger] stands_at(text@, pattern@, i)) ==> (r matches Some(found)
            && found@ == text@.skip(place + pattern@.len())),
        (forall|i: int| !#[trigger] stands_at(text@, pattern@, i)) ==> r is None,
{
    if stands_at(text@, pattern@, place) && (forall|i: int|
        0 <= i < place ==> !#[trigger] stands_at(text@, pattern@, i)) {
        lemma_stands_at(text@, pattern@, place);
        assert forall|i: int| 0 <= i < place implies !#[trigger] starts_with(
            text@.skip(i),
            pattern@,
        ) by {
            lemma_stands_at(text@, pattern@, i);
            assert(!stands_at(text@, pattern@, i));
        }
        lemma_first_occurrence(text@, pattern@, place);
    }
    if forall|i: int| !#[trigger] stands_at(text@, pattern@, i) {
        assert forall|i: int| 0 <= i <= text@.len() implies !#[trigger] starts_with(
            text@.skip(i),
            pattern@,
        ) by {
            lemma_stands_at(text@, pattern@, i);
            assert(!stands_at(text@, pattern@, i));
        }
        lemma_no_occurrence(text@, pattern@);
    }
}

/// What comes before either of two characters ends at the first of them; without
/// one there is nothing.
pub proof fn law_what_comes_before_either_character(
    text: &str,
    a: char,
    b: char,
    r: Option<&str>,
    end: int,
)
    requires
        call_ensures(text_before_either, (text, a, b), r),
    ensures
        0 <= end < text@.len() && (text@[end] == a || text@[end] == b) && (forall|k: int|
            0 <= k < end ==> #[trigger] text@[k] != a && text@[k] != b) ==> (r matches Some(found)
            && found@ == text@.take(end)),
        (forall|k: int| 0 <= k < text@.len() ==> #[trigger] text@[k] != a && text@[k] != b)
            ==> r is None,
{
    if 0 <= end < text@.len() && (text@[end] == a || text@[end] == b) && (forall|k: int|
        0 <= k < end ==> #[trigger] text@[k] != a && text@[k] != b) {
        lemma_before_either_at(text@, a, b, end);
    }
    if forall|k: int| 0 <= k < text@.len() ==> #[trigger] text@[k] != a && text@[k] != b {
        lemma_neither_occurs(text@, a, b);
    }
}

proof fn lemma_neither_occurs(text: Seq<char>, a: char, b: char)
    requires
        forall|k: int| 0 <= k < text.len() ==> #[trigger] text[k] != a && text[k] != b,
    ensures
        before_either(text, a, b) is None,
    decreases text.len(),
{
    if text.len() > 0 {
        let rest = text.drop_first();
        assert(text[0] != a && text[0] != b);
        assert forall|k: int| 0 <= k < rest.len() implies #[trigger] rest[k] != a && rest[k]
            != b by {
            assert(rest[k] == text[k + 1]);
        }
        lemma_neither_occurs(rest, a, b);
    }
}

/// Whether a character is white space.
pub open spec fn is_white(c: char) -> bool {
    ||| c == ' '
    ||| '\t' <= c <= '\r'
    ||| c == '\u{85}'
    ||| c == '\u{a0}'
    ||| c == '\u{1680}'
    ||| '\u{2000}' <= c <= '\u{200a}'
    ||| c == '\u{2028}'
    ||| c == '\u{2029}'
    ||| c == '\u{202f}'
    ||| c == '\u{205f}'
    ||| c == '\u{3000}'
}

/// A text loses the white space at both ends, and nothing else.
pub proof fn law_a_text_loses_the_space_at_its_ends(text: &str, r: &str) -> (cut: (int, int))
    requires
        call_ensures(text_trimmed, (text,), r),
    ensures
        0 <= cut.0 <= cut.1 <= text@.len(),
        r@ == text@.subrange(cut.0, cut.1),
        forall|i: int| 0 <= i < cut.0 ==> is_white(#[trigger] text@[i]),
        forall|i: int| cut.1 <= i < text@.len() ==> is_white(#[trigger] text@[i]),
        r@.len() > 0 ==> !is_white(r@[0]) && !is_white(r@[r@.len() - 1]),
{
    let a = lemma_start_cut(text@);
    let front = trimmed_start(text@);
    let b = lemma_end_cut(front);
    assert(front.take(b) =~= text@.subrange(a, a + b));
    assert forall|i: int| a + b <= i < text@.len() implies is_white(#[trigger] text@[i]) by {
        assert(front[i - a] == text@[i]);
    }
    if b > 0 {
        assert(r@[0] == front[0]);
    }
    (a, a + b)
}

proof fn lemma_start_cut(text: Seq<char>) -> (a: int)
    ensures
        0 <= a <= text.len(),
        trimmed_start(text) == text.skip(a),
        forall|i: int| 0 <= i < a ==> is_white(#[trigger] text[i]),
        a < text.len() ==> !is_white(text[a]),
    decreases text.len(),
{
    if text.len() > 0 && is_space(text[0]) {
        let rest = text.drop_first();
        let a = lemma_start_cut(rest);
        assert(rest.skip(a) =~= text.skip(a + 1));
        assert forall|i: int| 0 <= i < a + 1 implies is_white(#[trigger] text[i]) by {
            if i > 0 {
                assert(rest[i - 1] == text[i]);
            }
        }
        a + 1
    } else {
        assert(text.skip(0) =~= text);
        0
    }
}

proof fn lemma_end_cut(text: Seq<char>) -> (b: int)
    ensures
        0 <= b <= text.len(),
        trimmed_end(text) == text.take(b),
        forall|i: int| b <= i < text.len() ==> is_white(#[trigger] text[i]),
        b > 0 ==> !is_white(text[b - 1]),
    decreases text.len(),
{
    if text.len() > 0 && is_space(text.last()) {
        let rest = text.drop_last();
        let b = lemma_end_cut(rest);
        assert(rest.take(b) =~= text.take(b));
        assert forall|i: int| b <= i < text.len() implies is_white(#[trigger] text[i]) by {
            if i < rest.len() {
                assert(rest[i] == text[i]);
            }
        }
        b
    } else {
        assert(text.take(text.len() as int) =~= text);
        text.len() as int
    }
}

/// Whether two texts are the same up to a place.
pub open spec fn same_up_to(a: Seq<char>, b: Seq<char>, place: int) -> bool {
    &&& 0 <= place <= a.len()
    &&& place <= b.len()
    &&& forall|k: int| 0 <= k < place ==> #[trigger] a[k] == b[k]
}

proof fn lemma_text_order(a: Seq<char>, b: Seq<char>, place: int)
    requires
        same_up_to(a, b, place),
        place == a.len() || place == b.len() || a[place] != b[place],
    ensures
        text_not_after(a, b) <==> place == a.len() || (place < b.len() && a[place] < b[place]),
    decreases place,
{
    if place > 0 {
        assert(a[0] == b[0]);
        let (x, y) = (a.drop_first(), b.drop_first());
        assert forall|k: int| 0 <= k < place - 1 implies #[trigger] x[k] == y[k] by {
            assert(a[k + 1] == b[k + 1]);
        }
        lemma_text_order(x, y, place - 1);
    }
}

/// Texts are ordered by their first difference; one that begins another does not
/// come after it.
pub proof fn law_texts_are_ordered_by_their_first_difference(
    a: &str,
    b: &str,
    r: bool,
    place: int,
)
    requires
        call_ensures(not_after, (a, b), r),
        same_up_to(a@, b@, place),
    ensures
        place == a@.len() ==> r,
        place == b@.len() && place < a@.len() ==> !r,
        place < a@.len() && place < b@.len() && a@[place] != b@[place] ==> r == (a@[place]
            < b@[place]),
{
    if place == a@.len() || place == b@.len() || a@[place] != b@[place] {
        lemma_text_order(a@, b@, place);
    }
}

/// Sorted texts are those that were given, in their order.
pub proof fn law_sorted_texts_are_in_order(
    texts: Vec<String>,
    sorted: Vec<String>,
    i: int,
    j: int,
    place: int,
)
    requires
        call_ensures(sort_texts, (texts,), sorted),
        0 <= i < j < sorted@.len(),
        same_up_to(sorted@[i]@, sorted@[j]@, place),
        place < sorted@[i]@.len(),
        place < sorted@[j]@.len(),
        sorted@[i]@[place] != sorted@[j]@[place],
    ensures
        sorted@[i]@[place] < sorted@[j]@[place],
        sorted@.len() == texts@.len(),
        forall|text: String| #[trigger] sorted@.contains(text) <==> texts@.contains(text),
{
    broadcast use vstd::seq_lib::group_to_multiset_ensures;

    lemma_text_order(sorted@[i]@, sorted@[j]@, place);
    assert(text_not_after(texts_of(sorted@)[i], texts_of(sorted@)[j]));
    assert forall|text: String| #[trigger] sorted@.contains(text) <==> texts@.contains(text) by {
        assert(sorted@.contains(text) <==> sorted@.to_multiset().count(text) > 0);
        assert(texts@.contains(text) <==> texts@.to_multiset().count(text) > 0);
    }
}

/// Ranked Runs are ordered by their place among the endings, and then by their
/// identity; sorting loses none and adds none.
pub proof fn law_ranked_runs_are_ordered_by_their_ends(
    a: Ranked,
    b: Ranked,
    r: bool,
    items: Vec<Ranked>,
    sorted: Vec<Ranked>,
)
    requires
        call_ensures(ranked_not_after, (&a, &b), r),
        call_ensures(sort_ranked, (items,), sorted),
    ensures
        a.ordinal < b.ordinal ==> r,
        a.ordinal > b.ordinal ==> !r,
        a.ordinal == b.ordinal ==> r == (a.id <= b.id),
        sorted@.len() == items@.len(),
        forall|item: Ranked| #[trigger] sorted@.contains(item) <==> items@.contains(item),
        forall|i: int, j: int|
            0 <= i < j < sorted@.len() ==> (#[trigger] sorted@[i]).ordinal < (
            #[trigger] sorted@[j]).ordinal || (sorted@[i].ordinal == sorted@[j].ordinal
                && sorted@[i].id <= sorted@[j].id),
{
    broadcast use vstd::seq_lib::group_to_multiset_ensures;

    assert forall|item: Ranked| #[trigger] sorted@.contains(item) <==> items@.contains(item) by {
        assert(sorted@.contains(item) <==> sorted@.to_multiset().count(item) > 0);
        assert(items@.contains(item) <==> items@.to_multiset().count(item) > 0);
    }
    assert forall|i: int, j: int| 0 <= i < j < sorted@.len() implies (
    #[trigger] sorted@[i]).ordinal < (#[trigger] sorted@[j]).ordinal || (sorted@[i].ordinal
        == sorted@[j].ordinal && sorted@[i].id <= sorted@[j].id) by {
        assert(crate::order::rank_not_after(sorted@[i], sorted@[j]));
    }
}

/// Texts are joined in the order in which they are given, and compared by all
/// of their characters.
pub proof fn law_texts_are_joined_in_order(
    a: &str,
    b: &str,
    c: &str,
    two: String,
    three: String,
    copy: String,
    x: String,
    y: String,
    same: bool,
)
    requires
        call_ensures(joined, (a, b), two),
        call_ensures(joined3, (a, b, c), three),
        call_ensures(owned, (a,), copy),
        call_ensures(same_text, (&x, &y), same),
    ensures
        two@ == a@ + b@,
        three@ == a@ + b@ + c@,
        copy@ == a@,
        same <==> x@.len() == y@.len() && forall|i: int|
            0 <= i < x@.len() ==> #[trigger] x@[i] == y@[i],
{
    if x@.len() == y@.len() && (forall|i: int|
        0 <= i < x@.len() ==> #[trigger] x@[i] == y@[i]) {
        assert(x@ =~= y@);
    }
}

/// A failure that is about a Run names it; one of an action names the action and
/// the reason; a second one is added to the first.
pub proof fn law_failures_name_what_they_are_about(
    id: RunId,
    rest: &str,
    about: String,
    code: ErrorCode,
    error: ProtocolError,
    action: &str,
    reason: &str,
    failed: String,
    existing: CleanupResult,
    combined: CleanupResult,
)
    requires
        call_ensures(about_run_text, (id, rest), about),
        call_ensures(run_error, (code, id, rest), error),
        call_ensures(failed_to_text, (action, reason), failed),
        call_ensures(combine_cleanup_failure, (existing, reason), combined),
    ensures
        about@ == "Run "@ + id.text() + rest@,
        error.code == code && error.message@ == about@,
        failed@ == "failed to "@ + action@ + ": "@ + reason@,
        existing is Ok ==> (combined matches Err(text) && text@ == reason@),
        existing matches Err(first) ==> (combined matches Err(text) && text@ == first@ + "; "@
            + reason@),
{
    assert(failed@ =~= "failed to "@ + action@ + ": "@ + reason@);
}

/// A failure of the daemon tells what failed, and where.
pub proof fn law_a_failure_of_the_daemon_tells_where(error: ServerError, text: String)
    requires
        call_ensures(ServerError::message, (&error,), text),
    ensures
        match error {
            ServerError::InvalidSocketTarget(path) => text@
                == "refusing to replace non-socket path: "@ + path@,
            ServerError::AlreadyRunning(path) => text@
                == "a ctxmux daemon is already listening at "@ + path@,
            ServerError::SocketTargetChanged(path) => text@
                == "socket target changed during stale cleanup: "@ + path@,
            ServerError::Io { path, source } => text@ == "ctxmux daemon I/O failed at "@ + path@
                + ": "@ + source@,
            ServerError::Persistence(reason) => text@ == reason@,
            ServerError::Adopt(reason) => text@ == "adopt handed-off run: "@ + reason@,
            ServerError::Shutdown { failures } => text@ == "ctxmux daemon shutdown failed: "@
                + failures@,
        },
{
    if let ServerError::Io { path, source } = error {
        assert(text@ =~= "ctxmux daemon I/O failed at "@ + path@ + ": "@ + source@);
    }
}

} // verus!
