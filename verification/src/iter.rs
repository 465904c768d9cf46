//! Sequences read from their end.

use vstd::prelude::*;

verus! {

/// What can be had in reverse order.
pub trait Reversed: Sized {
    type Item;

    /// The elements, in order.
    spec fn elements(&self) -> Seq<Self::Item>;

    /// A copy with the elements in reverse order.
    fn reversed(&self) -> (turned: Self)
        ensures
            turned.elements() == self.elements().reverse(),
    ;
}

impl<T: Copy> Reversed for Vec<T> {
    type Item = T;

    open spec fn elements(&self) -> Seq<T> {
        self@
    }

    fn reversed(&self) -> (turned: Self) {
        let mut turned: Vec<T> = Vec::new();
        let mut i: usize = self.len();
        while i > 0
            invariant
                i <= self.len(),
                turned@.len() == self.len() - i,
                forall|k: int|
                    0 <= k < turned@.len() ==> turned@[k] == self@[self.len() - 1 - k],
            decreases i,
        {
            i -= 1;
            turned.push(self[i]);
        }
        assert(turned@ =~= self@.reverse());
        turned
    }
}

} // verus!
