//! The first place at which an item stands in a sequence.

use vstd::prelude::*;

verus! {

/// `item` stands at `i`, and nowhere before `i`.
pub open spec fn is_first<A>(items: Seq<A>, item: A, i: int) -> bool {
    &&& 0 <= i < items.len()
    &&& items[i] == item
    &&& forall|j: int| 0 <= j < i ==> #[trigger] items[j] != item
}

/// The first index below `n` at which `item` stands.
pub open spec fn first_index_within<A>(items: Seq<A>, item: A, n: int) -> Option<int>
    decreases n,
{
    if n <= 0 {
        None
    } else {
        match first_index_within(items, item, n - 1) {
            Some(i) => Some(i),
            None => if items[n - 1] == item {
                Some(n - 1)
            } else {
                None
            },
        }
    }
}

/// The first index at which `item` stands.
pub open spec fn first_index<A>(items: Seq<A>, item: A) -> Option<int> {
    first_index_within(items, item, items.len() as int)
}

/// What `first_index_within` finds is the least index at which the item
/// stands, and it finds none only where the item stands nowhere below `n`.
pub proof fn lemma_first_index_within<A>(items: Seq<A>, item: A, n: int)
    requires
        0 <= n <= items.len(),
    ensures
        match first_index_within(items, item, n) {
            Some(i) => i < n && is_first(items, item, i),
            None => forall|j: int| 0 <= j < n ==> #[trigger] items[j] != item,
        },
    decreases n,
{
    if n > 0 {
        lemma_first_index_within(items, item, n - 1);
    }
}

/// `first_index` is the least index at which the item stands, and it is
/// `None` exactly when the sequence does not contain the item.
pub proof fn lemma_first_index<A>(items: Seq<A>, item: A)
    ensures
        first_index(items, item) is Some <==> items.contains(item),
        forall|i: int| first_index(items, item) == Some(i) <==> is_first(items, item, i),
{
    lemma_first_index_within(items, item, items.len() as int);
    assert forall|i: int| is_first(items, item, i) implies first_index(items, item) == Some(
        i,
    ) by {
        match first_index(items, item) {
            Some(k) => {
                assert(is_first(items, item, k));
                assert(items[i] == item);
                assert(items[k] == item);
            },
            None => {
                assert(items[i] == item);
            },
        }
    }
    if items.contains(item) {
        let i = choose|i: int| 0 <= i < items.len() && items[i] == item;
        assert(items[i] == item);
    }
}

/// An item found at `i`, with none before it, is the first.
pub proof fn lemma_found_first<A>(items: Seq<A>, item: A, i: int)
    requires
        0 <= i < items.len(),
        items[i] == item,
        first_index_within(items, item, i) is None,
    ensures
        first_index(items, item) == Some(i),
        items.contains(item),
{
    lemma_first_index_within(items, item, i);
    assert(is_first(items, item, i));
    lemma_first_index(items, item);
}

} // verus!
