use vstd::prelude::*;

verus! {

/// A stack: the empty stack `()`, or a stack `T` with one more value `H`
/// pushed on top, written `(T, H)`.
pub trait Sequence: Sized {}

impl Sequence for () {}

impl<T: Sequence, H> Sequence for (T, H) {}

/// Growth of a stack by one value.
pub trait Push<U>: Sequence {
    type Output: Sequence;

    /// The stack with `value` on top.
    spec fn pushed(self, value: U) -> Self::Output;

    fn push(self, value: U) -> (r: Self::Output)
        ensures
            r == self.pushed(value),
    ;
}

impl<U> Push<U> for () {
    type Output = ((), U);

    open spec fn pushed(self, value: U) -> ((), U) {
        (self, value)
    }

    fn push(self, value: U) -> (r: ((), U)) {
        (self, value)
    }
}

impl<T: Sequence, H, U> Push<U> for (T, H) {
    type Output = ((T, H), U);

    open spec fn pushed(self, value: U) -> ((T, H), U) {
        (self, value)
    }

    fn push(self, value: U) -> (r: ((T, H), U)) {
        (self, value)
    }
}

/// Concatenation of a stack `S` onto the top of `Self`.
pub trait Join<S: Sequence>: Sequence {
    type Output: Sequence;

    /// The values of `other`, in order, placed on top of `self`.
    spec fn joined(self, other: S) -> Self::Output;

    fn join(self, other: S) -> (r: Self::Output)
        ensures
            r == self.joined(other),
    ;
}

impl<S: Sequence> Join<()> for S {
    type Output = S;

    open spec fn joined(self, other: ()) -> S {
        self
    }

    fn join(self, other: ()) -> (r: S) {
        self
    }
}

impl<T: Sequence, H, S: Sequence + Join<T>> Join<(T, H)> for S {
    type Output = (<S as Join<T>>::Output, H);

    open spec fn joined(self, other: (T, H)) -> Self::Output {
        (self.joined(other.0), other.1)
    }

    fn join(self, other: (T, H)) -> (r: Self::Output) {
        let (tail, head) = other;
        (self.join(tail), head)
    }
}

} // verus!
