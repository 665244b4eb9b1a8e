//! Owning iterators over sized slices.
use vstd::prelude::*;

verus! {

/// Iterator to a sized slice.
///
/// Elements are taken from the front with [`next`](Self::next) and from the back with
/// [`next_back`](Self::next_back).
pub struct SizedIter<T, const N: usize> {
    items: Vec<T>,
}

impl<T, const N: usize> View for SizedIter<T, N> {
    type V = Seq<T>;

    /// The elements not taken yet.
    closed spec fn view(&self) -> Seq<T> {
        self.items@
    }
}

impl<T, const N: usize> SizedIter<T, N> {
    /// Constructs a new, fixed-size iterator over the given elements.
    pub(crate) fn new(items: Vec<T>) -> (r: Self)
        ensures
            r@ == items@,
    {
        SizedIter { items }
    }

    /// Gets a slice of the remaining elements.
    pub fn as_slice(&self) -> (r: &[T])
        ensures
            r@ == self@,
    {
        self.items.as_slice()
    }

    /// Returns the number of remaining elements.
    pub fn len(&self) -> (r: usize)
        ensures
            r == self@.len(),
    {
        self.items.len()
    }

    /// Takes the first remaining element.
    pub fn next(&mut self) -> (r: Option<T>)
        ensures
            old(self)@.len() == 0 ==> r is None && final(self)@ == old(self)@,
            old(self)@.len() > 0 ==> r == Some(old(self)@[0]) && final(self)@ == old(self)@.drop_first(),
    {
        if self.items.len() == 0 {
            None
        } else {
            let x = self.items.remove(0);
            proof {
                assert(self.items@ =~= old(self)@.drop_first());
            }
            Some(x)
        }
    }

    /// Takes the last remaining element.
    pub fn next_back(&mut self) -> (r: Option<T>)
        ensures
            old(self)@.len() == 0 ==> r is None && final(self)@ == old(self)@,
            old(self)@.len() > 0 ==> r == Some(old(self)@.last()) && final(self)@ == old(self)@.drop_last(),
    {
        self.items.pop()
    }
}


impl<T: Clone, const N: usize> Clone for SizedIter<T, N> {
    /// Clones the remaining elements.
    fn clone(&self) -> (r: Self)
        ensures
            r@.len() == self@.len(),
            forall|i: int| 0 <= i < self@.len() ==> cloned::<T>(self@[i], #[trigger] r@[i]),
    {
        SizedIter { items: self.items.clone() }
    }
}

} // verus!
