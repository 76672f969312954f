use vstd::prelude::*;

verus! {

/// A program held as an ordinary value, so that it can sit in a stack slot,
/// be duplicated, handed to a builtin and invoked later.
#[derive(Clone, Copy, Debug)]
pub struct Quote<A>(pub A);

impl<A> Quote<A> {
    /// The program that this quotation holds.
    pub fn into_inner(self) -> (r: A)
        ensures
            r == self.0,
    {
        let Quote(inner) = self;
        inner
    }
}

impl<A> AsRef<A> for Quote<A> {
    fn as_ref(&self) -> (r: &A)
        ensures
            *r == self.0,
    {
        &self.0
    }
}

impl<A> AsMut<A> for Quote<A> {
    fn as_mut(&mut self) -> (r: &mut A)
        ensures
            *r == old(self).0,
            *final(r) == final(self).0,
    {
        &mut self.0
    }
}

} // verus!
