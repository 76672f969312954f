use vstd::prelude::*;
use core::ops::{Add, BitAnd, BitOr, BitXor, Div, Mul, Neg, Not, Rem, Sub};
use vstd::std_specs::ops::{AddSpec, BitAndSpec, BitOrSpec, BitXorSpec, DivSpec, MulSpec, NegSpec, NotSpec, RemSpec, SubSpec};
use vstd::std_specs::cmp::{PartialEqSpec, PartialOrdSpec};
use core::cmp::Ordering;
use crate::apply::Apply;
use crate::sequence::{Join, Sequence};

verus! {

/// `.. q => q(..)`: invokes the program on top on the rest of the stack.
pub fn i<S: Sequence, Q: Apply<S>>(input: (S, Q)) -> (r: Q::Output)
    requires
        input.1.pre(input.0),
    ensures
        input.1.post(input.0, r),
{
    let (s, q) = input;
    q.apply(s)
}

/// `.. x q => q(..) x`: runs `q` beneath the value `x`, then puts `x` back.
pub fn dip<S: Sequence, P, Q: Apply<S>>(input: ((S, P), Q)) -> (r: (Q::Output, P))
    requires
        input.1.pre(input.0.0),
    ensures
        input.1.post(input.0.0, r.0),
        r.1 == input.0.1,
{
    let ((s, p), q) = input;
    (q.apply(s), p)
}

/// `.. x => .. x' x`: duplicates the top value; the copy below is a clone.
pub fn dup<S: Sequence, I: Clone>(input: (S, I)) -> (r: ((S, I), I))
    ensures
        r.0.0 == input.0,
        cloned(input.1, r.0.1),
        r.1 == input.1,
{
    let (s, i) = input;
    ((s, i.clone()), i)
}

/// `.. x => ..`: discards the top value.
pub fn pop<S: Sequence, I>(input: (S, I)) -> (r: S)
    ensures
        r == input.0,
{
    let (s, _) = input;
    s
}

/// `.. x y => .. y x`: exchanges the two top values.
pub fn swap<S: Sequence, L, R>(input: ((S, L), R)) -> (r: ((S, R), L))
    ensures
        r == ((input.0.0, input.1), input.0.1),
{
    let ((s, l), r) = input;
    ((s, r), l)
}

/// `.. x => .. !x`
pub fn not<S: Sequence, I: Not>(input: (S, I)) -> (r: (S, I::Output))
    requires
        input.1.not_req(),
    ensures
        r.0 == input.0,
        I::obeys_not_spec() ==> r.1 == input.1.not_spec(),
{
    let (s, i) = input;
    (s, !i)
}

/// `.. x y => .. x & y`
pub fn and<S: Sequence, L: BitAnd<R>, R>(input: ((S, L), R)) -> (r: (S, L::Output))
    requires
        input.0.1.bitand_req(input.1),
    ensures
        r.0 == input.0.0,
        L::obeys_bitand_spec() ==> r.1 == input.0.1.bitand_spec(input.1),
{
    let ((s, l), r) = input;
    (s, l & r)
}

/// `.. x y => .. x | y`
pub fn or<S: Sequence, L: BitOr<R>, R>(input: ((S, L), R)) -> (r: (S, L::Output))
    requires
        input.0.1.bitor_req(input.1),
    ensures
        r.0 == input.0.0,
        L::obeys_bitor_spec() ==> r.1 == input.0.1.bitor_spec(input.1),
{
    let ((s, l), r) = input;
    (s, l | r)
}

/// `.. x y => .. x ^ y`
pub fn xor<S: Sequence, L: BitXor<R>, R>(input: ((S, L), R)) -> (r: (S, L::Output))
    requires
        input.0.1.bitxor_req(input.1),
    ensures
        r.0 == input.0.0,
        L::obeys_bitxor_spec() ==> r.1 == input.0.1.bitxor_spec(input.1),
{
    let ((s, l), r) = input;
    (s, l ^ r)
}

/// `.. x => .. -x`
pub fn neg<S: Sequence, I: Neg>(input: (S, I)) -> (r: (S, I::Output))
    requires
        input.1.neg_req(),
    ensures
        r.0 == input.0,
        I::obeys_neg_spec() ==> r.1 == input.1.neg_spec(),
{
    let (s, i) = input;
    (s, i.neg())
}

/// `.. x y => .. x + y`
pub fn add<S: Sequence, L: Add<R>, R>(input: ((S, L), R)) -> (r: (S, L::Output))
    requires
        input.0.1.add_req(input.1),
    ensures
        r.0 == input.0.0,
        L::obeys_add_spec() ==> r.1 == input.0.1.add_spec(input.1),
{
    let ((s, l), r) = input;
    (s, l + r)
}

/// `.. x y => .. x - y`
pub fn sub<S: Sequence, L: Sub<R>, R>(input: ((S, L), R)) -> (r: (S, L::Output))
    requires
        input.0.1.sub_req(input.1),
    ensures
        r.0 == input.0.0,
        L::obeys_sub_spec() ==> r.1 == input.0.1.sub_spec(input.1),
{
    let ((s, l), r) = input;
    (s, l - r)
}

/// `.. x y => .. x * y`
pub fn mul<S: Sequence, L: Mul<R>, R>(input: ((S, L), R)) -> (r: (S, L::Output))
    requires
        input.0.1.mul_req(input.1),
    ensures
        r.0 == input.0.0,
        L::obeys_mul_spec() ==> r.1 == input.0.1.mul_spec(input.1),
{
    let ((s, l), r) = input;
    (s, l * r)
}

/// `.. x y => .. x / y`
pub fn div<S: Sequence, L: Div<R>, R>(input: ((S, L), R)) -> (r: (S, L::Output))
    requires
        input.0.1.div_req(input.1),
    ensures
        r.0 == input.0.0,
        L::obeys_div_spec() ==> r.1 == input.0.1.div_spec(input.1),
{
    let ((s, l), r) = input;
    (s, l / r)
}

/// `.. x y => .. x % y`
pub fn rem<S: Sequence, L: Rem<R>, R>(input: ((S, L), R)) -> (r: (S, L::Output))
    requires
        input.0.1.rem_req(input.1),
    ensures
        r.0 == input.0.0,
        L::obeys_rem_spec() ==> r.1 == input.0.1.rem_spec(input.1),
{
    let ((s, l), r) = input;
    (s, l % r)
}

/// `.. n => .. n+1` on integers.
pub fn incr<S: Sequence>(input: (S, i64)) -> (r: (S, i64))
    requires
        input.1 < i64::MAX,
    ensures
        r == (input.0, (input.1 + 1) as i64),
{
    let (s, i) = input;
    (s, i + 1)
}

/// `.. n => .. n-1` on integers.
pub fn decr<S: Sequence>(input: (S, i64)) -> (r: (S, i64))
    requires
        input.1 > i64::MIN,
    ensures
        r == (input.0, (input.1 - 1) as i64),
{
    let (s, i) = input;
    (s, i - 1)
}

/// `.. x y => .. (x == y)`
pub fn eq<S: Sequence, I: Ord>(input: ((S, I), I)) -> (r: (S, bool))
    ensures
        r.0 == input.0.0,
        I::obeys_eq_spec() ==> r.1 == input.0.1.eq_spec(&input.1),
{
    let ((s, l), r) = input;
    (s, l == r)
}

/// `.. x y => .. (x != y)`
pub fn ne<S: Sequence, I: Ord>(input: ((S, I), I)) -> (r: (S, bool))
    ensures
        r.0 == input.0.0,
        I::obeys_eq_spec() ==> r.1 == !input.0.1.eq_spec(&input.1),
{
    let ((s, l), r) = input;
    (s, l != r)
}

/// `.. x y => .. (x < y)`
pub fn lt<S: Sequence, I: Ord>(input: ((S, I), I)) -> (r: (S, bool))
    ensures
        r.0 == input.0.0,
        I::obeys_partial_cmp_spec() ==> (r.1 <==> (input.0.1.partial_cmp_spec(&input.1) == Some(Ordering::Less))),
{
    let ((s, l), r) = input;
    (s, l < r)
}

/// `.. x y => .. (x <= y)`
pub fn le<S: Sequence, I: Ord>(input: ((S, I), I)) -> (r: (S, bool))
    ensures
        r.0 == input.0.0,
        I::obeys_partial_cmp_spec() ==> (r.1 <==> (input.0.1.partial_cmp_spec(&input.1) == Some(Ordering::Less) || input.0.1.partial_cmp_spec(&input.1) == Some(Ordering::Equal))),
{
    let ((s, l), r) = input;
    (s, l <= r)
}

/// `.. x y => .. (x > y)`
pub fn gt<S: Sequence, I: Ord>(input: ((S, I), I)) -> (r: (S, bool))
    ensures
        r.0 == input.0.0,
        I::obeys_partial_cmp_spec() ==> (r.1 <==> (input.0.1.partial_cmp_spec(&input.1) == Some(Ordering::Greater))),
{
    let ((s, l), r) = input;
    (s, l > r)
}

/// `.. x y => .. (x >= y)`
pub fn ge<S: Sequence, I: Ord>(input: ((S, I), I)) -> (r: (S, bool))
    ensures
        r.0 == input.0.0,
        I::obeys_partial_cmp_spec() ==> (r.1 <==> (input.0.1.partial_cmp_spec(&input.1) == Some(Ordering::Greater) || input.0.1.partial_cmp_spec(&input.1) == Some(Ordering::Equal))),
{
    let ((s, l), r) = input;
    (s, l >= r)
}

/// `.. b q => q(..)` when `b` holds, else `..`; `q` keeps the shape.
pub fn if_true<S: Sequence, Q: Apply<S, Output = S>>(input: ((S, bool), Q)) -> (r: S)
    requires
        input.0.1 ==> input.1.pre(input.0.0),
    ensures
        input.0.1 ==> input.1.post(input.0.0, r),
        !input.0.1 ==> r == input.0.0,
{
    let ((s, c), q) = input;
    if c {
        q.apply(s)
    } else {
        s
    }
}

/// `.. b q => q(..)` when `b` does not hold, else `..`; `q` keeps the shape.
pub fn if_false<S: Sequence, Q: Apply<S, Output = S>>(input: ((S, bool), Q)) -> (r: S)
    requires
        !input.0.1 ==> input.1.pre(input.0.0),
    ensures
        input.0.1 ==> r == input.0.0,
        !input.0.1 ==> input.1.post(input.0.0, r),
{
    let ((s, c), q) = input;
    if c {
        s
    } else {
        q.apply(s)
    }
}

/// `.. b qt qf => qt(..)` when `b` holds, else `qf(..)`.
pub fn if_else<S: Sequence, Z: Sequence, Qt: Apply<S, Output = Z>, Qf: Apply<S, Output = Z>>(
    input: (((S, bool), Qt), Qf),
) -> (r: Z)
    requires
        input.0.0.1 ==> input.0.1.pre(input.0.0.0),
        !input.0.0.1 ==> input.1.pre(input.0.0.0),
    ensures
        input.0.0.1 ==> input.0.1.post(input.0.0.0, r),
        !input.0.0.1 ==> input.1.post(input.0.0.0, r),
{
    let (((s, c), qt), qf) = input;
    if c {
        qt.apply(s)
    } else {
        qf.apply(s)
    }
}

/// `.. b t f => .. t` when `b` holds, else `.. f`: a selection between two
/// plain values; neither is run.
pub fn select<S: Sequence, T>(input: (((S, bool), T), T)) -> (r: (S, T))
    ensures
        r == (input.0.0.0, if input.0.0.1 { input.0.1 } else { input.1 }),
{
    let (((s, c), t), f) = input;
    if c {
        (s, t)
    } else {
        (s, f)
    }
}

/// `.. => () ..`: nests the whole stack as one value on a fresh stack.
pub fn stack<S: Sequence>(s: S) -> (r: ((), S))
    ensures
        r == ((), s),
{
    ((), s)
}

/// `S T => S ++ T`: splices a nested stack back onto the stack beneath it.
pub fn unstack<S: Sequence + Join<T>, T: Sequence>(input: (S, T)) -> (r: <S as Join<T>>::Output)
    ensures
        r == input.0.joined(input.1),
{
    let (s, t) = input;
    s.join(t)
}

/// One turn of [`while_do`]: the condition held on `s`, and the body took
/// the stack that the condition left to `t`.
pub open spec fn while_turn<
    S: Sequence,
    Qc: Apply<S, Output = (S, bool)>,
    Qa: Apply<S, Output = S>,
>(
    qc: Qc,
    qa: Qa,
    s: S,
    t: S,
) -> bool {
    exists|m: S| #[trigger] qc.post(s, (m, true)) && qa.post(m, t)
}

/// `trace` lists the stacks that [`while_do`] stands on, one turn apart.
pub open spec fn while_trace<
    S: Sequence,
    Qc: Apply<S, Output = (S, bool)>,
    Qa: Apply<S, Output = S>,
>(
    qc: Qc,
    qa: Qa,
    trace: Seq<S>,
) -> bool {
    &&& trace.len() > 0
    &&& forall|i: int| 0 <= i < trace.len() - 1 ==> #[trigger] while_turn(qc, qa, trace[i], trace[i + 1])
}

/// From `s`, [`while_do`] meets the precondition of every program it runs
/// and stops within `n` turns, whatever each program returns.
pub open spec fn while_safe<
    S: Sequence,
    Qc: Apply<S, Output = (S, bool)>,
    Qa: Apply<S, Output = S>,
>(
    qc: Qc,
    qa: Qa,
    s: S,
    n: nat,
) -> bool
    decreases n,
{
    &&& qc.pre(s)
    &&& if n == 0 {
        forall|m: S| !#[trigger] qc.post(s, (m, true))
    } else {
        forall|m: S|
            #[trigger] qc.post(s, (m, true)) ==> {
                &&& qa.pre(m)
                &&& forall|t: S| #[trigger] qa.post(m, t) ==> while_safe(qc, qa, t, (n - 1) as nat)
            }
    }
}

/// `.. qc qa => ..'`: runs the condition `qc`; while it yields `true`, runs
/// the body `qa` and tries again. Returns the stack that the first `false`
/// condition left; the body never runs after it.
pub fn while_do<
    S: Sequence,
    Qc: Copy + Apply<S, Output = (S, bool)>,
    Qa: Copy + Apply<S, Output = S>,
>(
    input: ((S, Qc), Qa),
) -> (r: S)
    requires
        exists|n: nat| while_safe(input.0.1, input.1, input.0.0, n),
    ensures
        exists|trace: Seq<S>|
            {
                &&& #[trigger] while_trace(input.0.1, input.1, trace)
                &&& trace[0] == input.0.0
                &&& input.0.1.post(trace.last(), (r, false))
            },
{
    let ((s0, qc), qa) = input;
    let ghost n0: nat = choose|n: nat| while_safe(qc, qa, s0, n);
    let mut s = s0;
    let ghost mut fuel: nat = n0;
    let ghost mut trace: Seq<S> = seq![s0];
    loop
        invariant
            qc == input.0.1,
            qa == input.1,
            s0 == input.0.0,
            while_safe(qc, qa, s, fuel),
            while_trace(qc, qa, trace),
            trace[0] == s0,
            trace.last() == s,
        decreases fuel,
    {
        let ghost prev = s;
        let (m, c) = qc.apply(s);
        if !c {
            assert(qc.post(trace.last(), (m, false)));
            return m;
        }
        s = qa.apply(m);
        proof {
            assert(qc.post(prev, (m, true)));
            assert(while_turn(qc, qa, prev, s));
            let next = trace.push(s);
            assert forall|i: int| 0 <= i < next.len() - 1 implies #[trigger] while_turn(qc, qa, next[i], next[i + 1]) by {
                if i < trace.len() - 1 {
                    assert(next[i] == trace[i] && next[i + 1] == trace[i + 1]);
                }
            }
            trace = next;
            fuel = (fuel - 1) as nat;
        }
    }
}

/// The base case of a recursion scheme: the test `qc` held on `t` and the
/// base transform `ql` took the value it left to `r`.
pub open spec fn rec_base<
    T,
    Qc: Apply<((), T), Output = (((), T), bool)>,
    Ql: Apply<((), T), Output = ((), T)>,
>(qc: Qc, ql: Ql, t: T, r: T) -> bool {
    exists|u: T| #[trigger] qc.post(((), t), (((), u), true)) && ql.post(((), u), ((), r))
}

/// [`linrec`] may take `t` to `r` with recursion at most `n` deep.
pub open spec fn linrec_result<
    T,
    Qc: Apply<((), T), Output = (((), T), bool)>,
    Ql: Apply<((), T), Output = ((), T)>,
    Qs: Apply<((), T), Output = (((), T), T)>,
    Qm: Apply<(((), T), T), Output = ((), T)>,
>(qc: Qc, ql: Ql, qs: Qs, qm: Qm, t: T, r: T, n: nat) -> bool
    decreases n,
{
    ||| rec_base(qc, ql, t, r)
    ||| n > 0 && exists|u: T, a: T, b: T, c: T|
        #![trigger qs.post(((), u), (((), a), b)), qm.post((((), a), c), ((), r))]
        {
            &&& qc.post(((), t), (((), u), false))
            &&& qs.post(((), u), (((), a), b))
            &&& linrec_result(qc, ql, qs, qm, b, c, (n - 1) as nat)
            &&& qm.post((((), a), c), ((), r))
        }
}

/// [`linrec`] may take `t` to `r`.
pub open spec fn linrec_gives<
    T,
    Qc: Apply<((), T), Output = (((), T), bool)>,
    Ql: Apply<((), T), Output = ((), T)>,
    Qs: Apply<((), T), Output = (((), T), T)>,
    Qm: Apply<(((), T), T), Output = ((), T)>,
>(qc: Qc, ql: Ql, qs: Qs, qm: Qm, t: T, r: T) -> bool {
    exists|n: nat| #[trigger] linrec_result(qc, ql, qs, qm, t, r, n)
}

/// From `t`, [`linrec`] meets the precondition of every program it runs and
/// recurses at most `n` deep, whatever each program returns.
pub open spec fn linrec_safe<
    T,
    Qc: Apply<((), T), Output = (((), T), bool)>,
    Ql: Apply<((), T), Output = ((), T)>,
    Qs: Apply<((), T), Output = (((), T), T)>,
    Qm: Apply<(((), T), T), Output = ((), T)>,
>(qc: Qc, ql: Ql, qs: Qs, qm: Qm, t: T, n: nat) -> bool
    decreases n,
{
    &&& qc.pre(((), t))
    &&& forall|u: T| #[trigger] qc.post(((), t), (((), u), true)) ==> ql.pre(((), u))
    &&& forall|u: T| #[trigger] qc.post(((), t), (((), u), false)) ==> {
        &&& n > 0
        &&& qs.pre(((), u))
        &&& forall|a: T, b: T| #[trigger] qs.post(((), u), (((), a), b)) ==> {
            &&& linrec_safe(qc, ql, qs, qm, b, (n - 1) as nat)
            &&& forall|c: T| #[trigger] linrec_result(qc, ql, qs, qm, b, c, (n - 1) as nat) ==> qm.pre((((), a), c))
        }
    }
}

fn linrec_run<
    T,
    Qc: Copy + Apply<((), T), Output = (((), T), bool)>,
    Ql: Apply<((), T), Output = ((), T)>,
    Qs: Copy + Apply<((), T), Output = (((), T), T)>,
    Qm: Copy + Apply<(((), T), T), Output = ((), T)>,
>(
    t: T,
    qc: Qc,
    ql: Ql,
    qs: Qs,
    qm: Qm,
    Ghost(n): Ghost<nat>,
) -> (r: T)
    requires
        linrec_safe(qc, ql, qs, qm, t, n),
    ensures
        linrec_result(qc, ql, qs, qm, t, r, n),
    decreases n,
{
    let tested = qc.apply(((), t));
    let ghost gt = tested;
    let (((), u), c) = tested;
    assert(gt == (((), u), c));
    if c {
        assert(qc.post(((), t), (((), u), true)));
        let based = ql.apply(((), u));
        let ghost gb = based;
        let ((), r) = based;
        assert(gb == ((), r));
        assert(rec_base(qc, ql, t, r));
        r
    } else {
        assert(qc.post(((), t), (((), u), false)));
        let split = qs.apply(((), u));
        let ghost gs = split;
        let (((), a), b) = split;
        assert(gs == (((), a), b));
        let c = linrec_run(b, qc, ql, qs, qm, Ghost((n - 1) as nat));
        let ghost ga = a;
        let merged = qm.apply((((), a), c));
        let ghost gm = merged;
        let ((), r) = merged;
        assert(gm == ((), r));
        assert(qs.post(((), u), (((), ga), b)) && qm.post((((), ga), c), ((), r)));
        r
    }
}

/// `.. t qc ql qs qm => .. t'`: linear recursion on an isolated stack. When
/// `qc` holds of `t`, `ql` transforms it; otherwise `qs` splits it into `a b`,
/// the scheme recurses on `b`, and `qm` combines `a` with that result.
pub fn linrec<
    S: Sequence,
    T,
    Qc: Copy + Apply<((), T), Output = (((), T), bool)>,
    Ql: Apply<((), T), Output = ((), T)>,
    Qs: Copy + Apply<((), T), Output = (((), T), T)>,
    Qm: Copy + Apply<(((), T), T), Output = ((), T)>,
>(
    input: (((((S, T), Qc), Ql), Qs), Qm),
) -> (out: (S, T))
    requires
        exists|n: nat| linrec_safe(input.0.0.0.1, input.0.0.1, input.0.1, input.1, input.0.0.0.0.1, n),
    ensures
        out.0 == input.0.0.0.0.0,
        linrec_gives(input.0.0.0.1, input.0.0.1, input.0.1, input.1, input.0.0.0.0.1, out.1),
{
    let (((((s, t), qc), ql), qs), qm) = input;
    let ghost n = choose|n: nat| linrec_safe(qc, ql, qs, qm, t, n);
    let r = linrec_run(t, qc, ql, qs, qm, Ghost(n));
    (s, r)
}

/// [`binrec`] may take `t` to `r` with recursion at most `n` deep.
pub open spec fn binrec_result<
    T,
    Qc: Apply<((), T), Output = (((), T), bool)>,
    Ql: Apply<((), T), Output = ((), T)>,
    Qs: Apply<((), T), Output = (((), T), T)>,
    Qm: Apply<(((), T), T), Output = ((), T)>,
>(qc: Qc, ql: Ql, qs: Qs, qm: Qm, t: T, r: T, n: nat) -> bool
    decreases n,
{
    ||| rec_base(qc, ql, t, r)
    ||| n > 0 && exists|u: T, a: T, b: T, c: T, d: T|
        #![trigger qs.post(((), u), (((), a), b)), qm.post((((), c), d), ((), r))]
        {
            &&& qc.post(((), t), (((), u), false))
            &&& qs.post(((), u), (((), a), b))
            &&& binrec_result(qc, ql, qs, qm, a, c, (n - 1) as nat)
            &&& binrec_result(qc, ql, qs, qm, b, d, (n - 1) as nat)
            &&& qm.post((((), c), d), ((), r))
        }
}

/// [`binrec`] may take `t` to `r`.
pub open spec fn binrec_gives<
    T,
    Qc: Apply<((), T), Output = (((), T), bool)>,
    Ql: Apply<((), T), Output = ((), T)>,
    Qs: Apply<((), T), Output = (((), T), T)>,
    Qm: Apply<(((), T), T), Output = ((), T)>,
>(qc: Qc, ql: Ql, qs: Qs, qm: Qm, t: T, r: T) -> bool {
    exists|n: nat| #[trigger] binrec_result(qc, ql, qs, qm, t, r, n)
}

/// From `t`, [`binrec`] meets the precondition of every program it runs and
/// recurses at most `n` deep, whatever each program returns.
pub open spec fn binrec_safe<
    T,
    Qc: Apply<((), T), Output = (((), T), bool)>,
    Ql: Apply<((), T), Output = ((), T)>,
    Qs: Apply<((), T), Output = (((), T), T)>,
    Qm: Apply<(((), T), T), Output = ((), T)>,
>(qc: Qc, ql: Ql, qs: Qs, qm: Qm, t: T, n: nat) -> bool
    decreases n,
{
    &&& qc.pre(((), t))
    &&& forall|u: T| #[trigger] qc.post(((), t), (((), u), true)) ==> ql.pre(((), u))
    &&& forall|u: T| #[trigger] qc.post(((), t), (((), u), false)) ==> {
        &&& n > 0
        &&& qs.pre(((), u))
        &&& forall|a: T, b: T| #[trigger] qs.post(((), u), (((), a), b)) ==> {
            &&& binrec_safe(qc, ql, qs, qm, a, (n - 1) as nat)
            &&& binrec_safe(qc, ql, qs, qm, b, (n - 1) as nat)
            &&& forall|c: T, d: T|
                #![trigger binrec_result(qc, ql, qs, qm, a, c, (n - 1) as nat), binrec_result(qc, ql, qs, qm, b, d, (n - 1) as nat)]
                binrec_result(qc, ql, qs, qm, a, c, (n - 1) as nat) && binrec_result(qc, ql, qs, qm, b, d, (n - 1) as nat)
                    ==> qm.pre((((), c), d))
        }
    }
}

fn binrec_run<
    T,
    Qc: Copy + Apply<((), T), Output = (((), T), bool)>,
    Ql: Copy + Apply<((), T), Output = ((), T)>,
    Qs: Copy + Apply<((), T), Output = (((), T), T)>,
    Qm: Copy + Apply<(((), T), T), Output = ((), T)>,
>(
    t: T,
    qc: Qc,
    ql: Ql,
    qs: Qs,
    qm: Qm,
    Ghost(n): Ghost<nat>,
) -> (r: T)
    requires
        binrec_safe(qc, ql, qs, qm, t, n),
    ensures
        binrec_result(qc, ql, qs, qm, t, r, n),
    decreases n,
{
    let tested = qc.apply(((), t));
    let ghost gt = tested;
    let (((), u), c) = tested;
    assert(gt == (((), u), c));
    if c {
        assert(qc.post(((), t), (((), u), true)));
        let based = ql.apply(((), u));
        let ghost gb = based;
        let ((), r) = based;
        assert(gb == ((), r));
        assert(rec_base(qc, ql, t, r));
        r
    } else {
        assert(qc.post(((), t), (((), u), false)));
        let split = qs.apply(((), u));
        let ghost gs = split;
        let (((), a), b) = split;
        assert(gs == (((), a), b));
        let ghost (ga, gb) = (a, b);
        let c = binrec_run(a, qc, ql, qs, qm, Ghost((n - 1) as nat));
        let d = binrec_run(b, qc, ql, qs, qm, Ghost((n - 1) as nat));
        let ghost (gc, gd) = (c, d);
        let merged = qm.apply((((), c), d));
        let ghost gm = merged;
        let ((), r) = merged;
        assert(gm == ((), r));
        assert(qs.post(((), u), (((), ga), gb)) && qm.post((((), gc), gd), ((), r)));
        r
    }
}

/// `.. t qc ql qs qm => .. t'`: binary recursion on an isolated stack. When
/// `qc` holds of `t`, `ql` transforms it; otherwise `qs` splits it into `a b`,
/// the scheme recurses on `a` and on `b`, and `qm` combines both results.
pub fn binrec<
    S: Sequence,
    T,
    Qc: Copy + Apply<((), T), Output = (((), T), bool)>,
    Ql: Copy + Apply<((), T), Output = ((), T)>,
    Qs: Copy + Apply<((), T), Output = (((), T), T)>,
    Qm: Copy + Apply<(((), T), T), Output = ((), T)>,
>(
    input: (((((S, T), Qc), Ql), Qs), Qm),
) -> (out: (S, T))
    requires
        exists|n: nat| binrec_safe(input.0.0.0.1, input.0.0.1, input.0.1, input.1, input.0.0.0.0.1, n),
    ensures
        out.0 == input.0.0.0.0.0,
        binrec_gives(input.0.0.0.1, input.0.0.1, input.0.1, input.1, input.0.0.0.0.1, out.1),
{
    let (((((s, t), qc), ql), qs), qm) = input;
    let ghost n = choose|n: nat| binrec_safe(qc, ql, qs, qm, t, n);
    let r = binrec_run(t, qc, ql, qs, qm, Ghost(n));
    (s, r)
}

/// How long `sleep` waits for a request of `millis` milliseconds: a
/// negative request waits for no time at all.
pub fn sleep_millis(millis: i64) -> (r: u64)
    ensures
        r == if millis < 0 { 0 } else { millis as int },
{
    if millis < 0 {
        0
    } else {
        millis as u64
    }
}

} // verus!
