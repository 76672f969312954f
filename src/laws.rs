use vstd::prelude::*;
use crate::apply::Apply;
use crate::builtin::{dup, pop};
use crate::sequence::{Join, Sequence};

verus! {

/// Duplicating the top value and then dropping the top leaves the stack
/// beneath untouched, with a clone of the value back on top.
pub proof fn lemma_dup_then_pop<S: Sequence, I: Clone>(s: S, x: I, d: ((S, I), I), p: (S, I))
    requires
        call_ensures(dup::<S, I>, ((s, x),), d),
        call_ensures(pop::<(S, I), I>, (d,), p),
    ensures
        p.0 == s,
        cloned(x, p.1),
{
}

/// A composition runs its tail first and its head on what the tail left:
/// it may run exactly when the tail may run and the head may run on every
/// outcome of the tail, and its outcomes are those of the head applied to
/// an outcome of the tail.
pub proof fn lemma_compose_tail_first<I: Sequence, P: Sequence + Apply<I>, Q: Apply<<P as Apply<I>>::Output>>(
    p: P,
    q: Q,
    s: I,
)
    ensures
        (p, q).pre(s) <==> (p.pre(s) && forall|m| #[trigger] p.post(s, m) ==> q.pre(m)),
        forall|o| #[trigger] (p, q).post(s, o) <==> exists|m| #[trigger] p.post(s, m) && q.post(m, o),
{
    assert forall|o| #[trigger] (p, q).post(s, o) <==> exists|m| #[trigger] p.post(s, m) && q.post(m, o) by {
        let pq = (p, q);
        assert(pq.0 == p && pq.1 == q);
    }
}

/// Joining the empty stack onto a stack leaves it as it was.
pub proof fn lemma_join_empty<A: Sequence>(a: A)
    ensures
        a.joined(()) == a,
{
}


/// Joining is associative: `(a ++ b) ++ c` and `a ++ (b ++ c)` are the same
/// stack. Every stack shape `C` has this trait, for every `A` and `B`; the
/// proof goes by induction on the shape of `C`.
pub trait JoinAssociative<A: Sequence, B: Sequence>: Sequence where
    A: Join<B>,
    <A as Join<B>>::Output: Join<Self>,
    B: Join<Self>,
    A: Join<<B as Join<Self>>::Output, Output = <<A as Join<B>>::Output as Join<Self>>::Output>,
 {
    proof fn lemma_join_associative(a: A, b: B, c: Self)
        ensures
            <<A as Join<B>>::Output as Join<Self>>::joined(<A as Join<B>>::joined(a, b), c)
                == <A as Join<<B as Join<Self>>::Output>>::joined(a, <B as Join<Self>>::joined(b, c)),
    ;
}

impl<A: Sequence + Join<B>, B: Sequence> JoinAssociative<A, B> for () {
    proof fn lemma_join_associative(a: A, b: B, c: ()) {
    }
}

impl<A: Sequence, B: Sequence, T: Sequence, H> JoinAssociative<A, B> for (T, H) where
    A: Join<B>,
    <A as Join<B>>::Output: Join<T>,
    B: Join<T>,
    A: Join<<B as Join<T>>::Output, Output = <<A as Join<B>>::Output as Join<T>>::Output>,
    T: JoinAssociative<A, B>,
 {
    proof fn lemma_join_associative(a: A, b: B, c: (T, H)) {
        T::lemma_join_associative(a, b, c.0);
    }
}

/// Joining a stack onto the empty stack gives that stack back. Every stack
/// shape has this trait; the proof goes by induction on the shape.
pub trait JoinLeftIdentity: Sequence where (): Join<Self, Output = Self> {
    proof fn lemma_join_left_identity(a: Self)
        ensures
            <() as Join<Self>>::joined((), a) == a,
    ;
}

impl JoinLeftIdentity for () {
    proof fn lemma_join_left_identity(a: ()) {
    }
}

impl<T: Sequence, H> JoinLeftIdentity for (T, H) where (): Join<T, Output = T>, T: JoinLeftIdentity {
    proof fn lemma_join_left_identity(a: (T, H)) {
        T::lemma_join_left_identity(a.0);
    }
}

} // verus!
