//! Small lemmas connecting a vector's element-level view with its
//! deep view, used whenever a verified function rebuilds a vector.

use vstd::prelude::*;

verus! {

/// Pushing onto a vector pushes the element's deep view onto the
/// vector's deep view.
pub proof fn lemma_deep_push<T: DeepView>(pre: Vec<T>, post: Vec<T>, x: T)
    requires
        post@ == pre@.push(x),
    ensures
        post.deep_view() =~= pre.deep_view().push(x.deep_view()),
{
    assert forall|k: int| 0 <= k < post.deep_view().len() implies post.deep_view()[k]
        == pre.deep_view().push(x.deep_view())[k] by {
        if k < pre@.len() {
            assert(post@[k] == pre@[k]);
        } else {
            assert(post@[k] == x);
        }
    }
}

/// Pushing onto a vector pushes the element's deep view onto the
/// vector's deep view, phrased over the two vectors alone.
pub proof fn lemma_deep_push_last<T: DeepView>(pre: Vec<T>, post: Vec<T>)
    requires
        post@.len() == pre@.len() + 1,
        forall|i: int| 0 <= i < pre@.len() ==> post@[i] == pre@[i],
    ensures
        post.deep_view() =~= pre.deep_view().push(post@[pre@.len() as int].deep_view()),
{
    assert forall|k: int| 0 <= k < post.deep_view().len() implies post.deep_view()[k]
        == pre.deep_view().push(post@[pre@.len() as int].deep_view())[k] by {
        if k < pre@.len() {
            assert(post@[k] == pre@[k]);
        }
    }
}

} // verus!
