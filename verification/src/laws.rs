//! What holds of the operations taken together, stated over the mapping
//! from titles to items that their contracts speak of.

use vstd::prelude::*;
use crate::text::{matches_lowered, occurs_in, unicode_lower};
use crate::watchlist::{
    accepts_item, first_position, is_first_position, matches_test, matching, with_item,
    with_list, without_first, Lists,
};

verus! {

/// How often `x` occurs in `s`.
pub open spec fn occurrences(s: Seq<Seq<char>>, x: Seq<char>) -> nat {
    s.to_multiset().count(x)
}

/// Appending `x` adds one occurrence of `x` and none of anything else.
pub proof fn lemma_occurrences_push(s: Seq<Seq<char>>, x: Seq<char>, y: Seq<char>)
    ensures
        occurrences(s.push(x), y) == occurrences(s, y) + (if x == y { 1nat } else { 0nat }),
        occurrences(s, y) > 0 <==> s.contains(y),
{
    broadcast use vstd::seq_lib::group_to_multiset_ensures;

}

/// In a collection without a list `t`, creating `t` and then adding `x` to
/// it is accepted with or without duplicates let in, and leaves `x` as the
/// last item of `t`: its only one.
pub proof fn law_add_then_contains(
    m: Lists,
    t: Seq<char>,
    x: Seq<char>,
    add_duplicate: bool,
)
    requires
        !m.contains_key(t),
    ensures
        accepts_item(with_list(m, t), t, x, add_duplicate),
        with_item(with_list(m, t), t, x)[t].last() == x,
        with_item(with_list(m, t), t, x)[t] == seq![x],
        with_item(with_list(m, t), t, x).dom() == m.dom().insert(t),
{
    assert(with_item(with_list(m, t), t, x)[t] =~= seq![x]);
    assert(with_item(with_list(m, t), t, x).dom() =~= m.dom().insert(t));
}

/// Once `x` has been added to the list `t` without duplicates let in, a
/// second such addition is refused, and the list holds `x` exactly once.
pub proof fn law_duplicate_rejected(m: Lists, t: Seq<char>, x: Seq<char>)
    requires
        accepts_item(m, t, x, false),
    ensures
        !accepts_item(with_item(m, t, x), t, x, false),
        with_item(m, t, x).contains_key(t),
        occurrences(with_item(m, t, x)[t], x) == 1,
{
    lemma_occurrences_push(m[t], x, x);
    assert(m[t].push(x).last() == x);
}

/// With duplicates let in, `x` can be added to an existing list `t` twice
/// over, and the list then holds two more occurrences of `x` than before.
pub proof fn law_duplicate_allowed(m: Lists, t: Seq<char>, x: Seq<char>)
    requires
        m.contains_key(t),
    ensures
        accepts_item(m, t, x, true),
        accepts_item(with_item(m, t, x), t, x, true),
        occurrences(with_item(with_item(m, t, x), t, x)[t], x) == occurrences(m[t], x) + 2,
        with_item(with_item(m, t, x), t, x)[t] == m[t].push(x).push(x),
{
    lemma_occurrences_push(m[t], x, x);
    lemma_occurrences_push(m[t].push(x), x, x);
}

/// Taking the first occurrence of `x` out of a list that holds it removes the
/// item at the lowest index where `x` stands and nothing else: the items
/// before it and the items after it stay as they are, in their order.
pub proof fn law_remove_first(s: Seq<Seq<char>>, x: Seq<char>)
    requires
        s.contains(x),
    ensures
        is_first_position(s, x, first_position(s, x)),
        without_first(s, x) == s.take(first_position(s, x)) + s.skip(first_position(s, x) + 1),
        without_first(s, x).len() == s.len() - 1,
        occurrences(without_first(s, x), x) == occurrences(s, x) - 1,
        forall|y: Seq<char>| y != x ==> occurrences(without_first(s, x), y) == occurrences(s, y),
{
    lemma_has_first(s, x, s.len() as int);
    let k = first_position(s, x);
    assert(without_first(s, x) =~= s.take(k) + s.skip(k + 1));
    broadcast use vstd::seq_lib::group_to_multiset_ensures;

    vstd::seq_lib::to_multiset_remove(s, k);
    assert(without_first(s, x).to_multiset() =~= s.to_multiset().remove(x));
}

/// Where `x` occurs among the first `n` items of `s`, it has a first
/// position.
proof fn lemma_has_first(s: Seq<Seq<char>>, x: Seq<char>, n: int)
    requires
        0 <= n <= s.len(),
        exists|i: int| 0 <= i < n && s[i] == x,
    ensures
        exists|k: int| is_first_position(s, x, k),
    decreases n,
{
    if exists|i: int| 0 <= i < n - 1 && s[i] == x {
        lemma_has_first(s, x, n - 1);
    } else {
        assert(s[n - 1] == x);
        assert(is_first_position(s, x, n - 1));
    }
}

/// A search for an item's own text finds that item, and so does a search
/// for any text that is the same but for the case of its letters.
pub proof fn law_search_finds_own_text(item: Seq<char>, term: Seq<char>)
    requires
        unicode_lower(term) == unicode_lower(item),
    ensures
        matches_lowered(item, unicode_lower(item)),
        matches_lowered(item, unicode_lower(term)),
{
    let hay = unicode_lower(item);
    assert(hay.subrange(0int, 0int + hay.len()) =~= hay);
    assert(occurs_in(hay, hay));
}

/// Searching ignores case: two terms that differ only in the case of their
/// letters find the same items, and two items that differ only in the case of
/// their letters are found by the same terms.
pub proof fn law_search_ignores_case(
    s: Seq<Seq<char>>,
    term: Seq<char>,
    other_term: Seq<char>,
    item: Seq<char>,
    other_item: Seq<char>,
)
    requires
        unicode_lower(term) == unicode_lower(other_term),
        unicode_lower(item) == unicode_lower(other_item),
    ensures
        matching(s, term) == matching(s, other_term),
        matches_lowered(item, unicode_lower(term)) == matches_lowered(
            other_item,
            unicode_lower(term),
        ),
{
}

/// What a search finds is part of the list: every item found is an item of
/// the list that matches the term, every such item is found, and no more
/// items are found than the list holds.
pub proof fn law_search_finds_matching_items(s: Seq<Seq<char>>, term: Seq<char>)
    ensures
        forall|x: Seq<char>|
            #[trigger] matching(s, term).contains(x) <==> s.contains(x) && matches_lowered(
                x,
                unicode_lower(term),
            ),
        matching(s, term).len() <= s.len(),
{
    let pred = matches_test(unicode_lower(term));
    let found = matching(s, term);
    s.lemma_filter_len(pred);
    assert forall|x: Seq<char>| #[trigger] found.contains(x) implies s.contains(x)
        && matches_lowered(x, unicode_lower(term)) by {
        s.lemma_filter_contains_rev(pred, x);
        let i = choose|i: int| 0 <= i < found.len() && found[i] == x;
        s.lemma_filter_pred(pred, i);
    }
    assert forall|x: Seq<char>|
        s.contains(x) && matches_lowered(x, unicode_lower(term)) implies #[trigger] found.contains(
        x,
    ) by {
        let i = choose|i: int| 0 <= i < s.len() && s[i] == x;
        s.lemma_filter_contains(pred, i);
    }
}

} // verus!
