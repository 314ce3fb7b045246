//! Views of optional values and of sequences, taken part by part.

use vstd::prelude::*;

verus! {

/// The view of the value inside, if there is one.
pub open spec fn option_view<T: View>(o: Option<T>) -> Option<T::V> {
    match o {
        Some(t) => Some(t@),
        None => None,
    }
}

/// The views of the items, in their order.
pub open spec fn seq_view<T: View>(items: Seq<T>) -> Seq<T::V> {
    Seq::new(items.len(), |i: int| items[i]@)
}

/// The views of a list that grew by one item are the old views and then the
/// view of that item.
pub proof fn lemma_seq_view_push<T: View>(items: Seq<T>, item: T)
    ensures
        seq_view(items.push(item)) == seq_view(items).push(item@),
{
}

} // verus!
