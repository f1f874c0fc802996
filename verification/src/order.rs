//! Orders in which Runs and messages are presented.

use vstd::prelude::*;
use vstd::string::StrSliceExecFns;

verus! {

/// Whether `a` does not come after `b` when texts are ordered by their
/// characters from the first on, a text before its extensions.
pub open spec fn text_not_after(a: Seq<char>, b: Seq<char>) -> bool
    decreases a.len(),
{
    if a.len() == 0 {
        true
    } else if b.len() == 0 {
        false
    } else if a[0] != b[0] {
        a[0] < b[0]
    } else {
        text_not_after(a.drop_first(), b.drop_first())
    }
}

/// Whether texts stand in their order.
pub open spec fn texts_sorted(texts: Seq<Seq<char>>) -> bool {
    forall|i: int, j: int|
        0 <= i <= j < texts.len() ==> text_not_after(#[trigger] texts[i], #[trigger] texts[j])
}

/// The characters of some texts.
pub open spec fn texts_of(texts: Seq<String>) -> Seq<Seq<char>> {
    texts.map_values(|text: String| text@)
}

/// Of two texts one does not come after the other.
pub proof fn lemma_texts_are_totally_ordered(a: Seq<char>, b: Seq<char>)
    ensures
        text_not_after(a, b) || text_not_after(b, a),
    decreases a.len(),
{
    if a.len() > 0 && b.len() > 0 && a[0] == b[0] {
        lemma_texts_are_totally_ordered(a.drop_first(), b.drop_first());
    }
}

/// No text comes after itself.
pub proof fn lemma_text_order_is_reflexive(a: Seq<char>)
    ensures
        text_not_after(a, a),
    decreases a.len(),
{
    if a.len() > 0 {
        lemma_text_order_is_reflexive(a.drop_first());
    }
}

/// The order of texts is transitive.
pub proof fn lemma_text_order_is_transitive(a: Seq<char>, b: Seq<char>, c: Seq<char>)
    requires
        text_not_after(a, b),
        text_not_after(b, c),
    ensures
        text_not_after(a, c),
    decreases a.len(),
{
    if a.len() > 0 && b.len() > 0 && c.len() > 0 && a[0] == b[0] && b[0] == c[0] {
        lemma_text_order_is_transitive(a.drop_first(), b.drop_first(), c.drop_first());
    }
}

/// Two texts of which neither comes after the other are equal.
pub proof fn lemma_text_order_is_antisymmetric(a: Seq<char>, b: Seq<char>)
    requires
        text_not_after(a, b),
        text_not_after(b, a),
    ensures
        a == b,
    decreases a.len(),
{
    if a.len() > 0 && b.len() > 0 && a[0] == b[0] {
        lemma_text_order_is_antisymmetric(a.drop_first(), b.drop_first());
        assert(a =~= seq![a[0]] + a.drop_first());
        assert(b =~= seq![b[0]] + b.drop_first());
    } else {
        assert(a =~= b);
    }
}

/// Decide whether `a` does not come after `b`.
pub fn not_after(a: &str, b: &str) -> (r: bool)
    ensures
        r == text_not_after(a@, b@),
{
    let a_len: usize = a.unicode_len();
    let b_len: usize = b.unicode_len();
    let mut i: usize = 0;
    assert(a@.skip(0) =~= a@);
    assert(b@.skip(0) =~= b@);
    while i < a_len
        invariant
            a_len == a@.len(),
            b_len == b@.len(),
            i <= a_len,
            i <= b_len,
            text_not_after(a@, b@) == text_not_after(a@.skip(i as int), b@.skip(i as int)),
        decreases a_len - i,
    {
        if i >= b_len {
            return false;
        }
        let mine = a.get_char(i);
        let theirs = b.get_char(i);
        assert(a@.skip(i as int)[0] == mine);
        assert(b@.skip(i as int)[0] == theirs);
        if mine != theirs {
            return mine < theirs;
        }
        assert(a@.skip(i as int).drop_first() =~= a@.skip(i + 1));
        assert(b@.skip(i as int).drop_first() =~= b@.skip(i + 1));
        i = i + 1;
    }
    true
}

/// Inserting an item adds it to the items.
pub proof fn lemma_insert_multiset<T>(items: Seq<T>, place: int, item: T)
    requires
        0 <= place <= items.len(),
    ensures
        items.insert(place, item).to_multiset() == items.to_multiset().insert(item),
{
    broadcast use vstd::seq_lib::group_to_multiset_ensures;

    let left = items.take(place);
    let right = items.skip(place);
    assert(items =~= left + right);
    assert(items.insert(place, item) =~= left.push(item) + right);
    vstd::seq_lib::lemma_multiset_commutative(left.push(item), right);
    vstd::seq_lib::lemma_multiset_commutative(left, right);
    assert(items.insert(place, item).to_multiset() =~= items.to_multiset().insert(item));
}

/// Moving the last item of `rest` into `sorted` keeps all items together.
pub proof fn lemma_move_keeps_multiset<T>(
    sorted_before: Seq<T>,
    rest_before: Seq<T>,
    sorted: Seq<T>,
    rest: Seq<T>,
    place: int,
    item: T,
)
    requires
        0 <= place <= sorted_before.len(),
        rest_before == rest.push(item),
        sorted == sorted_before.insert(place, item),
    ensures
        sorted.to_multiset().add(rest.to_multiset()) == sorted_before.to_multiset().add(
            rest_before.to_multiset(),
        ),
{
    broadcast use vstd::seq_lib::group_to_multiset_ensures;

    lemma_insert_multiset(sorted_before, place, item);
    assert(rest.push(item).to_multiset() =~= rest.to_multiset().insert(item));
    assert(sorted_before.to_multiset().insert(item).add(rest.to_multiset())
        =~= sorted_before.to_multiset().add(rest.to_multiset().insert(item)));
}

/// Sort texts.
pub fn sort_texts(texts: Vec<String>) -> (r: Vec<String>)
    ensures
        texts_sorted(texts_of(r@)),
        r@.to_multiset() == texts@.to_multiset(),
        r@.len() == texts@.len(),
{
    broadcast use vstd::seq_lib::group_to_multiset_ensures;

    let mut rest = texts;
    let ghost given = rest@;
    let mut sorted: Vec<String> = Vec::new();
    assert(given.take(given.len() as int) =~= given);
    assert(sorted@.to_multiset().add(rest@.to_multiset()) =~= given.to_multiset());
    while rest.len() > 0
        invariant
            texts_sorted(texts_of(sorted@)),
            sorted@.to_multiset().add(rest@.to_multiset()) == given.to_multiset(),
            sorted@.len() + rest@.len() == given.len(),
        decreases rest@.len(),
    {
        let ghost rest_before = rest@;
        let ghost sorted_before = sorted@;
        match rest.pop() {
            Some(text) => {
                let place: usize = text_place(&sorted, &text);
                sorted.insert(place, text);
                proof {
                    assert(rest_before =~= rest@.push(text));
                    assert(sorted@ =~= sorted_before.insert(place as int, text));
                    lemma_move_keeps_multiset(
                        sorted_before,
                        rest_before,
                        sorted@,
                        rest@,
                        place as int,
                        text,
                    );
                    lemma_insert_keeps_texts_sorted(sorted_before, place as int, text);
                }
            },
            None => {},
        }
    }
    assert(rest@ =~= Seq::empty());
    assert(sorted@.to_multiset() =~= given.to_multiset());
    sorted
}

proof fn lemma_insert_keeps_texts_sorted(sorted: Seq<String>, place: int, text: String)
    requires
        texts_sorted(texts_of(sorted)),
        0 <= place <= sorted.len(),
        forall|k: int| 0 <= k < place ==> text_not_after((#[trigger] sorted[k])@, text@),
        forall|k: int|
            place <= k < sorted.len() ==> text_not_after(text@, (#[trigger] sorted[k])@),
    ensures
        texts_sorted(texts_of(sorted.insert(place, text))),
{
    let before = texts_of(sorted);
    let after = texts_of(sorted.insert(place, text));
    assert forall|i: int, j: int| 0 <= i <= j < after.len() implies text_not_after(
        #[trigger] after[i],
        #[trigger] after[j],
    ) by {
        if i == place && j == place {
            lemma_text_order_is_reflexive(text@);
        } else if i == place {
            assert(after[j] == sorted[j - 1]@);
        } else if j == place {
            assert(after[i] == sorted[i]@);
        } else {
            let a = if i < place {
                i
            } else {
                i - 1
            };
            let b = if j < place {
                j
            } else {
                j - 1
            };
            assert(after[i] == before[a]);
            assert(after[j] == before[b]);
        }
    }
}

fn text_place(sorted: &Vec<String>, text: &String) -> (r: usize)
    requires
        texts_sorted(texts_of(sorted@)),
    ensures
        r <= sorted@.len(),
        forall|k: int| 0 <= k < r ==> text_not_after((#[trigger] sorted@[k])@, text@),
        forall|k: int| r <= k < sorted@.len() ==> text_not_after(text@, (#[trigger] sorted@[k])@),
{
    let mut i: usize = 0;
    while i < sorted.len() && not_after(sorted[i].as_str(), text.as_str())
        invariant
            i <= sorted@.len(),
            forall|k: int| 0 <= k < i ==> text_not_after((#[trigger] sorted@[k])@, text@),
        decreases sorted@.len() - i,
    {
        i = i + 1;
    }
    proof {
        if i < sorted@.len() {
            let views = texts_of(sorted@);
            lemma_texts_are_totally_ordered(sorted@[i as int]@, text@);
            assert forall|k: int| i <= k < sorted@.len() implies text_not_after(
                text@,
                (#[trigger] sorted@[k])@,
            ) by {
                assert(text_not_after(views[i as int], views[k]));
                lemma_text_order_is_transitive(text@, views[i as int], views[k]);
            }
        }
    }
    i
}

/// A Run by the order in which it ended, and by its identity.
#[derive(Debug, Clone, Copy, PartialEq, Eq, Structural)]
pub struct Ranked {
    pub ordinal: u64,
    pub id: u128,
}

/// Whether `a` does not come after `b`: first by ordinal, then by identity.
pub open spec fn rank_not_after(a: Ranked, b: Ranked) -> bool {
    a.ordinal < b.ordinal || (a.ordinal == b.ordinal && a.id <= b.id)
}

/// Whether ranked Runs stand in their order.
pub open spec fn ranks_sorted(items: Seq<Ranked>) -> bool {
    forall|i: int, j: int|
        0 <= i <= j < items.len() ==> rank_not_after(#[trigger] items[i], #[trigger] items[j])
}

/// Decide whether `a` does not come after `b`.
pub fn ranked_not_after(a: &Ranked, b: &Ranked) -> (r: bool)
    ensures
        r == rank_not_after(*a, *b),
{
    a.ordinal < b.ordinal || (a.ordinal == b.ordinal && a.id <= b.id)
}

/// Sort ranked Runs.
pub fn sort_ranked(items: Vec<Ranked>) -> (r: Vec<Ranked>)
    ensures
        ranks_sorted(r@),
        r@.to_multiset() == items@.to_multiset(),
        r@.len() == items@.len(),
{
    broadcast use vstd::seq_lib::group_to_multiset_ensures;

    let mut rest = items;
    let ghost given = rest@;
    let mut sorted: Vec<Ranked> = Vec::new();
    assert(sorted@.to_multiset().add(rest@.to_multiset()) =~= given.to_multiset());
    while rest.len() > 0
        invariant
            ranks_sorted(sorted@),
            sorted@.to_multiset().add(rest@.to_multiset()) == given.to_multiset(),
            sorted@.len() + rest@.len() == given.len(),
        decreases rest@.len(),
    {
        let ghost rest_before = rest@;
        let ghost sorted_before = sorted@;
        match rest.pop() {
            Some(item) => {
                let mut place: usize = 0;
                while place < sorted.len() && ranked_not_after(&sorted[place], &item)
                    invariant
                        place <= sorted@.len(),
                        forall|k: int| 0 <= k < place ==> rank_not_after(
                            #[trigger] sorted@[k],
                            item,
                        ),
                    decreases sorted@.len() - place,
                {
                    place = place + 1;
                }
                sorted.insert(place, item);
                proof {
                    assert(rest_before =~= rest@.push(item));
                    assert(sorted@ =~= sorted_before.insert(place as int, item));
                    lemma_move_keeps_multiset(
                        sorted_before,
                        rest_before,
                        sorted@,
                        rest@,
                        place as int,
                        item,
                    );
                    assert forall|i: int, j: int| 0 <= i <= j < sorted@.len() implies
                        rank_not_after(#[trigger] sorted@[i], #[trigger] sorted@[j]) by {
                        if i < place {
                            assert(sorted@[i] == sorted_before[i]);
                        } else if i > place {
                            assert(sorted@[i] == sorted_before[i - 1]);
                        }
                        if j < place {
                            assert(sorted@[j] == sorted_before[j]);
                        } else if j > place {
                            assert(sorted@[j] == sorted_before[j - 1]);
                            assert(rank_not_after(
                                sorted_before[place as int],
                                sorted_before[j - 1],
                            ));
                        }
                    }
                }
            },
            None => {},
        }
    }
    assert(rest@ =~= Seq::empty());
    assert(sorted@.to_multiset() =~= given.to_multiset());
    sorted
}

} // verus!
