//! Small bridging lemmas between a vector's element-wise model (its deep
//! view) and the vector operations the matching engine uses.

use vstd::prelude::*;

verus! {

/// The deep view has the vector's length and models its elements in place.
pub proof fn lemma_deep_len_index<T: DeepView>(v: Vec<T>)
    ensures
        v.deep_view().len() == v@.len(),
        forall|k: int| 0 <= k < v@.len() ==> v.deep_view()[k] == v@[k].deep_view(),
{
}

/// Pushing an element pushes its model onto the deep view.
pub proof fn lemma_deep_push<T: DeepView>(pre: Vec<T>, post: Vec<T>, e: T)
    requires
        post@ == pre@.push(e),
    ensures
        post.deep_view() =~= pre.deep_view().push(e.deep_view()),
{
    lemma_deep_len_index(pre);
    lemma_deep_len_index(post);
}

/// Removing the front element drops the front of the deep view.
pub proof fn lemma_deep_remove_front<T: DeepView>(pre: Vec<T>, post: Vec<T>)
    requires
        pre@.len() > 0,
        post@ == pre@.remove(0),
    ensures
        post.deep_view() =~= pre.deep_view().drop_first(),
{
    lemma_deep_len_index(pre);
    lemma_deep_len_index(post);
}

/// Concatenating two vectors concatenates their deep views.
pub proof fn lemma_deep_concat<T: DeepView>(a: Vec<T>, b: Vec<T>, c: Vec<T>)
    requires
        c@ == a@ + b@,
    ensures
        c.deep_view() =~= a.deep_view() + b.deep_view(),
{
    lemma_deep_len_index(a);
    lemma_deep_len_index(b);
    lemma_deep_len_index(c);
}

} // verus!
