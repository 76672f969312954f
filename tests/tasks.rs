use cat::builtin::{decr, dup, eq};
use cat::task::{run_producer, run_task};

#[test]
fn task_runs_on_its_input_alone() {
    assert_eq!(run_task((((), "cinema"), eq), "cinema"), true);
    assert_eq!(run_task((((), "cinema"), eq), "park"), false);
    assert_eq!(run_task(((), decr), 10i64), 9i64);
}

#[test]
fn producer_runs_on_the_empty_stack() {
    assert_eq!(run_producer(((), "syn")), "syn");
    assert_eq!(run_producer(((((((), 2i64), dup), cat::builtin::mul), 'x'), cat::builtin::pop)), 4i64);
}

#[test]
fn both_copies_of_a_forked_input_agree() {
    let (((), copy), kept) = dup(((), String::from("hello")));
    let mut mine = copy;
    mine.push_str(" there");
    assert_eq!(kept, "hello");
    assert_eq!(mine, "hello there");
}
