//! Facts about sequences and the deep views of vectors.

use vstd::prelude::*;

verus! {

/// Pushing onto a vector pushes the item's deep view onto the vector's deep view. The item
/// pushed may be any value with the deep view of `item`.
pub proof fn lemma_push_deep_view<T: DeepView>(before: Vec<T>, after: Vec<T>, item: T)
    requires
        after@.len() == before@.len() + 1,
        forall|j: int| 0 <= j < before@.len() ==> after@[j] == before@[j],
        after@[before@.len() as int].deep_view() == item.deep_view(),
    ensures
        after.deep_view() == before.deep_view().push(item.deep_view()),
{
    assert(after.deep_view() =~= before.deep_view().push(item.deep_view()));
}

} // verus!
