//! The views of the elements of a vector, as one sequence.

use vstd::prelude::*;

verus! {

/// The views of the elements of a sequence, in order.
pub open spec fn views<T: View>(s: Seq<T>) -> Seq<T::V> {
    Seq::new(s.len(), |i: int| s[i]@)
}

/// Pushing an element and then taking views is pushing its view.
pub proof fn lemma_views_push<T: View>(s: Seq<T>, x: T)
    ensures
        views(s.push(x)) == views(s).push(x@),
{
    assert(views(s.push(x)) =~= views(s).push(x@));
}

/// Pushes `x`; said over the views too.
pub fn push_view<T: View>(v: &mut Vec<T>, x: T)
    ensures
        final(v)@ == old(v)@.push(x),
        views(final(v)@) == views(old(v)@).push(x@),
{
    proof {
        lemma_views_push(v@, x);
    }
    v.push(x);
}

/// The views of two sequences in a row are the views of the first followed
/// by the views of the second.
pub proof fn lemma_views_add<T: View>(a: Seq<T>, b: Seq<T>)
    ensures
        views(a + b) == views(a) + views(b),
{
    assert(views(a + b) =~= views(a) + views(b));
}

/// Moves the elements of `tail` to the end of `v`; said over the views too.
pub fn append_view<T: View>(v: &mut Vec<T>, tail: Vec<T>)
    ensures
        final(v)@ == old(v)@ + tail@,
        views(final(v)@) == views(old(v)@) + views(tail@),
{
    proof {
        lemma_views_add(v@, tail@);
    }
    let mut tail = tail;
    v.append(&mut tail);
}

} // verus!
