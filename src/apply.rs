use vstd::prelude::*;
use crate::quote::Quote;
use crate::sequence::Sequence;

verus! {

/// A program that consumes a stack of shape `I` and returns one of shape
/// `Output`.
///
/// `pre(input)` says when the program may run on `input`, and
/// `post(input, output)` which outputs it may return from it.
pub trait Apply<I: Sequence>: Sized {
    type Output: Sequence;

    spec fn pre(&self, input: I) -> bool;

    spec fn post(&self, input: I, output: Self::Output) -> bool;

    fn apply(self, input: I) -> (r: Self::Output)
        requires
            self.pre(input),
        ensures
            self.post(input, r),
    ;
}

/// A function is a program: it runs under its own contract.
impl<I: Sequence, O: Sequence, F: FnOnce(I) -> O> Apply<I> for F {
    type Output = O;

    open spec fn pre(&self, input: I) -> bool {
        call_requires(*self, (input,))
    }

    open spec fn post(&self, input: I, output: O) -> bool {
        call_ensures(*self, (input,), output)
    }

    fn apply(self, input: I) -> (r: O) {
        (self)(input)
    }
}

/// The empty program leaves the stack as it is.
impl<I: Sequence> Apply<I> for () {
    type Output = I;

    open spec fn pre(&self, input: I) -> bool {
        true
    }

    open spec fn post(&self, input: I, output: I) -> bool {
        output == input
    }

    fn apply(self, input: I) -> (r: I) {
        input
    }
}

/// A composition runs its tail program first, then its head program on
/// what the tail returned.
impl<I: Sequence, T: Sequence + Apply<I>, H: Apply<<T as Apply<I>>::Output>> Apply<I> for (T, H) {
    type Output = <H as Apply<<T as Apply<I>>::Output>>::Output;

    open spec fn pre(&self, input: I) -> bool {
        &&& self.0.pre(input)
        &&& forall|mid| #[trigger] self.0.post(input, mid) ==> self.1.pre(mid)
    }

    open spec fn post(&self, input: I, output: Self::Output) -> bool {
        exists|mid| #[trigger] self.0.post(input, mid) && self.1.post(mid, output)
    }

    fn apply(self, input: I) -> (r: Self::Output) {
        let (tail, head) = self;
        head.apply(tail.apply(input))
    }
}

/// A plain value pushes itself.
impl<S: Sequence> Apply<S> for bool {
    type Output = (S, bool);

    open spec fn pre(&self, input: S) -> bool {
        true
    }

    open spec fn post(&self, input: S, output: (S, bool)) -> bool {
        output == (input, *self)
    }

    fn apply(self, input: S) -> (r: (S, bool)) {
        (input, self)
    }
}

impl<S: Sequence> Apply<S> for char {
    type Output = (S, char);

    open spec fn pre(&self, input: S) -> bool {
        true
    }

    open spec fn post(&self, input: S, output: (S, char)) -> bool {
        output == (input, *self)
    }

    fn apply(self, input: S) -> (r: (S, char)) {
        (input, self)
    }
}

impl<S: Sequence> Apply<S> for i64 {
    type Output = (S, i64);

    open spec fn pre(&self, input: S) -> bool {
        true
    }

    open spec fn post(&self, input: S, output: (S, i64)) -> bool {
        output == (input, *self)
    }

    fn apply(self, input: S) -> (r: (S, i64)) {
        (input, self)
    }
}

impl<S: Sequence> Apply<S> for String {
    type Output = (S, String);

    open spec fn pre(&self, input: S) -> bool {
        true
    }

    open spec fn post(&self, input: S, output: (S, String)) -> bool {
        output == (input, *self)
    }

    fn apply(self, input: S) -> (r: (S, String)) {
        (input, self)
    }
}

impl<'a, S: Sequence> Apply<S> for &'a str {
    type Output = (S, &'a str);

    open spec fn pre(&self, input: S) -> bool {
        true
    }

    open spec fn post(&self, input: S, output: (S, &'a str)) -> bool {
        output == (input, *self)
    }

    fn apply(self, input: S) -> (r: (S, &'a str)) {
        (input, self)
    }
}

impl<U, S: Sequence> Apply<S> for Vec<U> {
    type Output = (S, Vec<U>);

    open spec fn pre(&self, input: S) -> bool {
        true
    }

    open spec fn post(&self, input: S, output: (S, Vec<U>)) -> bool {
        output == (input, *self)
    }

    fn apply(self, input: S) -> (r: (S, Vec<U>)) {
        (input, self)
    }
}

impl<U, S: Sequence, const N: usize> Apply<S> for [U; N] {
    type Output = (S, [U; N]);

    open spec fn pre(&self, input: S) -> bool {
        true
    }

    open spec fn post(&self, input: S, output: (S, [U; N])) -> bool {
        output == (input, *self)
    }

    fn apply(self, input: S) -> (r: (S, [U; N])) {
        (input, self)
    }
}

/// A quotation pushes the program it holds, without running it.
impl<U, S: Sequence> Apply<S> for Quote<U> {
    type Output = (S, U);

    open spec fn pre(&self, input: S) -> bool {
        true
    }

    open spec fn post(&self, input: S, output: (S, U)) -> bool {
        output == (input, self.0)
    }

    fn apply(self, input: S) -> (r: (S, U)) {
        (input, self.into_inner())
    }
}

} // verus!
