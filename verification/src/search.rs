//! The first item of a sequence that has a given property.

use vstd::prelude::*;

verus! {

/// Item `i` is wanted and no item before it is.
pub open spec fn is_first_where<T>(items: Seq<T>, wanted: spec_fn(T) -> bool, i: int) -> bool {
    &&& 0 <= i < items.len()
    &&& wanted(items[i])
    &&& forall|j: int| 0 <= j < i ==> !wanted(#[trigger] items[j])
}

/// Some item is wanted.
pub open spec fn any_where<T>(items: Seq<T>, wanted: spec_fn(T) -> bool) -> bool {
    exists|i: int| 0 <= i < items.len() && wanted(#[trigger] items[i])
}

/// The position of the first wanted item, if there is one.
pub open spec fn first_where<T>(items: Seq<T>, wanted: spec_fn(T) -> bool) -> Option<int> {
    if any_where(items, wanted) {
        Some(choose|i: int| is_first_where(items, wanted, i))
    } else {
        None
    }
}

/// The first wanted item is where `first_where` says.
pub proof fn lemma_first_where_is<T>(items: Seq<T>, wanted: spec_fn(T) -> bool, i: int)
    requires
        is_first_where(items, wanted, i),
    ensures
        first_where(items, wanted) == Some(i),
{
    assert(wanted(items[i]));
    let k = choose|k: int| is_first_where(items, wanted, k);
    if k < i {
        assert(!wanted(items[k]));
    }
    if i < k {
        assert(!wanted(items[i]));
    }
}

/// Where no item is wanted, `first_where` finds none.
pub proof fn lemma_first_where_none<T>(items: Seq<T>, wanted: spec_fn(T) -> bool)
    requires
        forall|j: int| 0 <= j < items.len() ==> !wanted(#[trigger] items[j]),
    ensures
        first_where(items, wanted) is None,
{
}

/// What `first_where` finds is the first wanted item, and it finds one
/// whenever some item is wanted.
pub proof fn lemma_first_where<T>(items: Seq<T>, wanted: spec_fn(T) -> bool)
    ensures
        match first_where(items, wanted) {
            Some(i) => is_first_where(items, wanted, i),
            None => forall|j: int| 0 <= j < items.len() ==> !wanted(#[trigger] items[j]),
        },
{
    if any_where(items, wanted) {
        let w = choose|i: int| 0 <= i < items.len() && wanted(#[trigger] items[i]);
        lemma_least_wanted(items, wanted, w);
    }
}

/// Below a wanted item there is a first wanted item.
proof fn lemma_least_wanted<T>(items: Seq<T>, wanted: spec_fn(T) -> bool, w: int)
    requires
        0 <= w < items.len(),
        wanted(items[w]),
    ensures
        exists|i: int| is_first_where(items, wanted, i),
    decreases w,
{
    if forall|j: int| 0 <= j < w ==> !wanted(#[trigger] items[j]) {
        assert(is_first_where(items, wanted, w));
    } else {
        let j = choose|j: int| 0 <= j < w && wanted(#[trigger] items[j]);
        lemma_least_wanted(items, wanted, j);
    }
}

} // verus!
