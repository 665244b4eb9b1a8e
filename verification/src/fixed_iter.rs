//! Owning iterators over fixed vectors.
use vstd::prelude::*;

verus! {

/// Iterator to a fixed vector.
///
/// Elements are taken from the front with [`next`](Self::next).
pub struct FixedIter<T, const N: usize> {
    items: Vec<T>,
}

impl<T, const N: usize> View for FixedIter<T, N> {
    type V = Seq<T>;

    /// The elements not taken yet.
    closed spec fn view(&self) -> Seq<T> {
        self.items@
    }
}

impl<T, const N: usize> FixedIter<T, N> {
    /// Constructs an iterator over the given elements.
    pub fn new(items: Vec<T>) -> (r: Self)
        ensures
            r@ == items@,
    {
        FixedIter { items }
    }

    /// Takes the next element, if any is left.
    pub fn next(&mut self) -> (r: Option<T>)
        ensures
            old(self)@.len() == 0 ==> r is None && final(self)@ == old(self)@,
            old(self)@.len() > 0 ==> r == Some(old(self)@[0]) && final(self)@ == old(self)@.drop_first(),
    {
        if self.items.len() == 0 {
            None
        } else {
            let x = self.items.remove(0);
            proof {
                assert(self.items@ =~= old(self)@.drop_first());
            }
            Some(x)
        }
    }
}

} // verus!
