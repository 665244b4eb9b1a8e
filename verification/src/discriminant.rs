//! Discriminants of enumeration variants.
use vstd::prelude::*;

verus! {

/// An enumeration discriminant.
#[derive(Clone, Copy, Debug, Default, PartialEq, Eq, Structural, Hash)]
pub struct Discriminant(pub isize);

/// The discriminant of a variant: its own where it gives one, else one more than that of the
/// variant before it, else zero for the first variant.
pub open spec fn next_discriminant(prev: Option<isize>, explicit: Option<isize>) -> int {
    match explicit {
        Some(d) => d as int,
        None => match prev {
            Some(p) => p + 1,
            None => 0,
        },
    }
}

/// Assigns discriminants to the variants of an enumeration, one after the other.
pub struct DiscriminantIter {
    prev: Option<Discriminant>,
}

impl DiscriminantIter {
    /// The discriminant of the variant before the next one, if there was one.
    pub closed spec fn prev(&self) -> Option<isize> {
        match self.prev {
            Some(d) => Some(d.0),
            None => None,
        }
    }

    /// Starts before the first variant.
    pub fn new() -> (r: Self)
        ensures
            r.prev() == None::<isize>,
    {
        DiscriminantIter { prev: None }
    }

    /// Assigns the discriminant of the next variant, which gives `explicit` as its own, if any.
    ///
    /// A variant without one must not follow a variant whose discriminant is `isize::MAX`, as
    /// the next discriminant would overflow.
    pub fn next(&mut self, explicit: Option<Discriminant>) -> (r: Discriminant)
        requires
            explicit is None ==> (old(self).prev() matches Some(p) ==> p < isize::MAX),
        ensures
            r.0 == next_discriminant(old(self).prev(), match explicit {
                Some(d) => Some(d.0),
                None => None,
            }),
            final(self).prev() == Some(r.0),
    {
        let discriminant = match explicit {
            Some(d) => d,
            None => match self.prev {
                Some(p) => Discriminant(p.0 + 1),
                None => Discriminant(0),
            },
        };
        self.prev = Some(discriminant);
        discriminant
    }
}

} // verus!
