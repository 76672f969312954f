use cat::apply::Apply;
use cat::quote::Quote;
use cat::sequence::{Join, Push};

#[test]
fn push_grows_by_one() {
    let s = ().push(1i64).push(true);
    assert_eq!(s, (((), 1i64), true));
}

#[test]
fn join_appends_in_order() {
    let a = (((), 1i64), 2i64);
    let b = (((), 'x'), "y");
    assert_eq!(a.join(b), (((((), 1i64), 2i64), 'x'), "y"));
}

#[test]
fn join_is_associative() {
    let a = (((), 1i64), 2i64);
    let b = ((), 'm');
    let c = ((((), 3i64), false), "c");
    let left = a.join(b).join(c);
    let right = a.join(b.join(c));
    assert_eq!(left, right);
    assert_eq!(left, (((((((), 1i64), 2i64), 'm'), 3i64), false), "c"));
}

#[test]
fn join_with_empty_is_identity() {
    let a = ((((), 1i64), 'a'), true);
    assert_eq!(a.join(()), a);
    assert_eq!(().join(a), a);
    assert_eq!(().join(()), ());
}

#[test]
fn values_push_themselves() {
    assert_eq!(7i64.apply(()), ((), 7i64));
    assert_eq!(true.apply(((), 1i64)), (((), 1i64), true));
    assert_eq!('q'.apply(()), ((), 'q'));
    assert_eq!("hi".apply(()), ((), "hi"));
    assert_eq!(String::from("s").apply(()), ((), String::from("s")));
    assert_eq!(vec![1i64, 2].apply(()), ((), vec![1i64, 2]));
    assert_eq!([3i64, 4].apply(()), ((), [3i64, 4]));
}

#[test]
fn empty_program_is_identity() {
    assert_eq!(().apply((((), 1i64), 2i64)), (((), 1i64), 2i64));
}

#[test]
fn composition_runs_tail_first() {
    let program = ((((), 1i64), 2i64), 3i64);
    assert_eq!(program.apply(()), ((((), 1i64), 2i64), 3i64));
    let tail = ((), 10i64);
    let head = cat::builtin::swap;
    let composed = (tail, head);
    let stepwise = head.apply(tail.apply(((), 'a')));
    assert_eq!(composed.apply(((), 'a')), stepwise);
    assert_eq!(stepwise, (((), 10i64), 'a'));
}

#[test]
fn quote_pushes_without_running() {
    let q = Quote((((), 1i64), 2i64));
    assert_eq!(q.apply(()), ((), (((), 1i64), 2i64)));
}

#[test]
fn quote_accessors() {
    let mut q = Quote(5i64);
    assert_eq!(*q.as_ref(), 5);
    *q.as_mut() = 6;
    assert_eq!(q.into_inner(), 6);
    let c = q;
    assert_eq!(c.0, 6);
    assert_eq!(format!("{:?}", Quote(3i64)), "Quote(3)");
}
