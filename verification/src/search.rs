//! Finding the first item of a sequence that has a property.

use vstd::prelude::*;

verus! {

/// The position of the first item that is wanted, if there is one.
pub open spec fn first_position<T>(items: Seq<T>, wanted: spec_fn(T) -> bool) -> Option<int>
    decreases items.len(),
{
    if items.len() == 0 {
        None
    } else {
        match first_position(items.drop_last(), wanted) {
            Some(i) => Some(i),
            None => if wanted(items.last()) {
                Some(items.len() - 1)
            } else {
                None
            },
        }
    }
}

/// The item that is found is wanted and no item before it is. None is
/// found only where no item is wanted.
pub proof fn lemma_first_position<T>(items: Seq<T>, wanted: spec_fn(T) -> bool)
    ensures
        match first_position(items, wanted) {
            Some(i) => {
                &&& 0 <= i < items.len()
                &&& wanted(items[i])
                &&& forall|j: int| 0 <= j < i ==> !wanted(#[trigger] items[j])
            },
            None => forall|j: int| 0 <= j < items.len() ==> !wanted(#[trigger] items[j]),
        },
    decreases items.len(),
{
    if items.len() > 0 {
        let front = items.drop_last();
        lemma_first_position(front, wanted);
        assert forall|j: int| 0 <= j < front.len() implies front[j] == items[j] by {}
    }
}

/// An item that is wanted, with no wanted item before it, is the one that
/// is found.
pub proof fn lemma_first_position_found<T>(items: Seq<T>, wanted: spec_fn(T) -> bool, i: int)
    requires
        0 <= i < items.len(),
        wanted(items[i]),
        forall|j: int| 0 <= j < i ==> !wanted(#[trigger] items[j]),
    ensures
        first_position(items, wanted) == Some(i),
{
    lemma_first_position(items, wanted);
}

/// Where no item is wanted, none is found.
pub proof fn lemma_first_position_none<T>(items: Seq<T>, wanted: spec_fn(T) -> bool)
    requires
        forall|j: int| 0 <= j < items.len() ==> !wanted(#[trigger] items[j]),
    ensures
        first_position(items, wanted) is None,
{
    lemma_first_position(items, wanted);
}

} // verus!
