use cat::apply::Apply;
use cat::builtin;
use cat::builtin::{
    binrec, decr, dip, dup, eq, ge, gt, i, if_else, if_false, if_true, incr, le, linrec, lt, ne,
    neg, not, pop, select, stack, swap, unstack, while_do,
};
use cat::quote::Quote;

#[test]
fn dup_then_pop_is_no_op() {
    let s = (((), 'a'), 9i64);
    assert_eq!(dup(s), ((((), 'a'), 9i64), 9i64));
    assert_eq!(pop(dup(s)), s);
    let t = (((), 1i64), String::from("text"));
    assert_eq!(pop(dup(t.clone())), t);
}

#[test]
fn shuffles() {
    assert_eq!(swap(((((), 0i64), 1i64), 'c')), ((((), 0i64), 'c'), 1i64));
    assert_eq!(pop((((), 1i64), 2i64)), ((), 1i64));
    let r = dip(((((), 2i64), 'k'), ((), 5i64)));
    assert_eq!(r, ((((), 2i64), 5i64), 'k'));
    assert_eq!(i((((), 1i64), (((), 2i64), 3i64))), ((((), 1i64), 2i64), 3i64));
}

#[test]
fn arithmetic() {
    assert_eq!(builtin::add(((((), 0i64), 3i64), 4i64)), (((), 0i64), 7i64));
    assert_eq!(builtin::sub((((), 3i64), 10i64)), ((), -7i64));
    assert_eq!(builtin::mul((((), 6i64), 7i64)), ((), 42i64));
    assert_eq!(builtin::div((((), 17i64), 5i64)), ((), 3i64));
    assert_eq!(builtin::div((((), -17i64), 5i64)), ((), -3i64));
    assert_eq!(builtin::rem((((), 17i64), 5i64)), ((), 2i64));
    assert_eq!(builtin::rem((((), -17i64), 5i64)), ((), -2i64));
    assert_eq!(neg(((), 5i64)), ((), -5i64));
    assert_eq!(incr(((), 41i64)), ((), 42i64));
    assert_eq!(decr(((), 0i64)), ((), -1i64));
}

#[test]
fn bitwise() {
    assert_eq!(builtin::and((((), 12i64), 10i64)), ((), 8i64));
    assert_eq!(builtin::or((((), 12i64), 10i64)), ((), 14i64));
    assert_eq!(builtin::xor((((), 12i64), 10i64)), ((), 6i64));
    assert_eq!(builtin::and((((), true), false)), ((), false));
    assert_eq!(builtin::or((((), true), false)), ((), true));
    assert_eq!(builtin::xor((((), true), true)), ((), false));
    assert_eq!(not(((), true)), ((), false));
    assert_eq!(not(((), 0i64)), ((), -1i64));
}

#[test]
fn comparisons() {
    assert_eq!(eq((((), 3i64), 3i64)), ((), true));
    assert_eq!(ne((((), 3i64), 3i64)), ((), false));
    assert_eq!(lt((((), 2i64), 3i64)), ((), true));
    assert_eq!(lt((((), 3i64), 3i64)), ((), false));
    assert_eq!(le((((), 3i64), 3i64)), ((), true));
    assert_eq!(gt((((), 3i64), 2i64)), ((), true));
    assert_eq!(ge((((), 2i64), 3i64)), ((), false));
    assert_eq!(eq((((), "cinema"), "cinema")), ((), true));
    assert_eq!(lt((((), 'a'), 'b')), ((), true));
}

#[test]
fn conditionals() {
    let negate = ((), neg);
    assert_eq!(if_true(((((), -42i64), true), negate)), ((), 42i64));
    assert_eq!(if_true(((((), -42i64), false), negate)), ((), -42i64));
    assert_eq!(if_false(((((), -42i64), false), negate)), ((), 42i64));
    assert_eq!(if_false(((((), -42i64), true), negate)), ((), -42i64));
    let yes = ((), 1i64);
    let no = ((), 0i64);
    assert_eq!(if_else((((((), 'z'), true), yes), no)), (((), 'z'), 1i64));
    assert_eq!(if_else((((((), 'z'), false), yes), no)), (((), 'z'), 0i64));
}

#[test]
fn abs_program() {
    let abs = ((((((), dup), 0i64), lt), Quote(((), neg))), if_true);
    assert_eq!(abs.apply(((), -42i64)), ((), 42i64));
    assert_eq!(abs.apply(((), 42i64)), ((), 42i64));
}

/// Values that are not programs: `select` can only hand one of them back.
#[derive(Debug, PartialEq)]
struct Marker(u8);

#[test]
fn select_keeps_one_value_unrun() {
    assert_eq!(select((((((), 0i64), true), Marker(1)), Marker(2))), (((), 0i64), Marker(1)));
    assert_eq!(select((((((), 0i64), false), Marker(1)), Marker(2))), (((), 0i64), Marker(2)));
    let r = select((((((), 0i64), true), "ack"), "KO"));
    assert_eq!(r, (((), 0i64), "ack"));
}

#[test]
fn stack_and_unstack_round_trip() {
    let s = (((), 1i64), 'a');
    let nested = stack(s);
    assert_eq!(nested, ((), (((), 1i64), 'a')));
    let joined: ((((), i64), i64), char) = unstack::<((), i64), (((), i64), char)>((((), 0i64), s));
    assert_eq!(joined, ((((), 0i64), 1i64), 'a'));
}

#[test]
fn while_counts_down_exactly() {
    // stack: counter, turns taken
    let cond = (((((((), swap), dup), 0i64), gt), Quote(((), swap))), dip);
    let body = (((((), incr), swap), decr), swap);
    let r = while_do((((((), 5i64), 0i64), cond), body));
    assert_eq!(r, (((), 0i64), 5i64));
    let r0 = while_do((((((), 0i64), 0i64), cond), body));
    assert_eq!(r0, (((), 0i64), 0i64));
}

#[test]
fn while_stops_on_first_false() {
    let cond = ((), false);
    let body = ((), incr);
    assert_eq!(while_do(((((), 3i64), cond), body)), ((), 3i64));
}

#[test]
fn factorial_by_linrec() {
    let fact = (((((((), 5i64),
        Quote(((((), dup), 1i64), le))),
        Quote((((), pop), 1i64))),
        Quote((((), dup), decr))),
        Quote(((), builtin::mul))),
        linrec);
    assert_eq!(fact.apply(((), 'x')), (((), 'x'), 120i64));
}

#[test]
fn fibonacci_by_binrec() {
    let fib = (((((((), 30i64),
        Quote(((((), dup), 3i64), lt))),
        Quote((((), pop), 1i64))),
        Quote(((((), decr), dup), decr))),
        Quote(((), builtin::add))),
        binrec);
    assert_eq!(fib.apply(()), ((), 832040i64));
}

#[test]
fn recursion_base_case_only() {
    let r = linrec((((((((), 7i64), 1i64), ((((), dup), 1i64), le)), (((), pop), 1i64)), (((), dup), decr)), ((), builtin::mul)));
    assert_eq!(r, (((), 7i64), 1i64));
    let r = binrec(((((((), 2i64), ((((), dup), 3i64), lt)), (((), pop), 1i64)), ((((), decr), dup), decr)), ((), builtin::add)));
    assert_eq!(r, ((), 1i64));
}

#[test]
fn sleep_clamps_negative_requests() {
    assert_eq!(builtin::sleep_millis(-5), 0);
    assert_eq!(builtin::sleep_millis(0), 0);
    assert_eq!(builtin::sleep_millis(250), 250);
}
