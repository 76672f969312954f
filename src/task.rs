use vstd::prelude::*;
use crate::apply::Apply;

verus! {

/// The body of a forked unit of work that takes one value: runs `q` on a
/// fresh stack holding only `i` and hands back the one value it leaves.
pub fn run_task<I, O, Q: Apply<((), I), Output = ((), O)>>(q: Q, i: I) -> (o: O)
    requires
        q.pre(((), i)),
    ensures
        q.post(((), i), ((), o)),
{
    let out = q.apply(((), i));
    let ghost g = out;
    let ((), o) = out;
    assert(g == ((), o));
    o
}

/// The body of a forked unit of work that takes nothing: runs `q` on the
/// empty stack and hands back the one value it leaves.
pub fn run_producer<O, Q: Apply<(), Output = ((), O)>>(q: Q) -> (o: O)
    requires
        q.pre(()),
    ensures
        q.post((), ((), o)),
{
    let out = q.apply(());
    let ghost g = out;
    let ((), o) = out;
    assert(g == ((), o));
    o
}

} // verus!
