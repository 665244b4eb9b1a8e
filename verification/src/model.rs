//! The abstract values that encodings speak of.
use vstd::prelude::*;
use std::marker::PhantomData;
use std::ops::{Range, RangeInclusive};
use std::rc::Rc;
use std::sync::Arc;

verus! {

/// A type whose values have a mathematical model.
///
/// Contracts of [`Encode`](crate::Encode) and [`Decode`](crate::Decode) state what is written and
/// read in terms of the model of a value.
pub trait Model {
    /// The type of the model.
    type M;

    /// The model of `self`.
    spec fn model(&self) -> Self::M;

    /// Holds of the model of every value of the type.
    spec fn model_wf(m: Self::M) -> bool;
}

/// The model of an outcome that carries a value of `T` or an error.
pub open spec fn result_model<T: Model, E>(r: Result<T, E>) -> Result<T::M, E> {
    match r {
        Ok(v) => Ok(v.model()),
        Err(e) => Err(e),
    }
}

/// The models of a sequence of values.
pub open spec fn seq_model<T: Model>(s: Seq<T>) -> Seq<T::M> {
    s.map_values(|v: T| v.model())
}

/// Every model in the sequence is well-formed.
pub open spec fn seq_wf<T: Model>(s: Seq<T::M>) -> bool {
    forall|i: int| 0 <= i < s.len() ==> T::model_wf(#[trigger] s[i])
}

impl Model for u8 {
    type M = u8;

    open spec fn model(&self) -> u8 {
        *self
    }

    open spec fn model_wf(m: u8) -> bool {
        true
    }
}

impl Model for u16 {
    type M = u16;

    open spec fn model(&self) -> u16 {
        *self
    }

    open spec fn model_wf(m: u16) -> bool {
        true
    }
}

impl Model for u32 {
    type M = u32;

    open spec fn model(&self) -> u32 {
        *self
    }

    open spec fn model_wf(m: u32) -> bool {
        true
    }
}

impl Model for u64 {
    type M = u64;

    open spec fn model(&self) -> u64 {
        *self
    }

    open spec fn model_wf(m: u64) -> bool {
        true
    }
}

impl Model for u128 {
    type M = u128;

    open spec fn model(&self) -> u128 {
        *self
    }

    open spec fn model_wf(m: u128) -> bool {
        true
    }
}

impl Model for i8 {
    type M = i8;

    open spec fn model(&self) -> i8 {
        *self
    }

    open spec fn model_wf(m: i8) -> bool {
        true
    }
}

impl Model for i16 {
    type M = i16;

    open spec fn model(&self) -> i16 {
        *self
    }

    open spec fn model_wf(m: i16) -> bool {
        true
    }
}

impl Model for i32 {
    type M = i32;

    open spec fn model(&self) -> i32 {
        *self
    }

    open spec fn model_wf(m: i32) -> bool {
        true
    }
}

impl Model for i64 {
    type M = i64;

    open spec fn model(&self) -> i64 {
        *self
    }

    open spec fn model_wf(m: i64) -> bool {
        true
    }
}

impl Model for i128 {
    type M = i128;

    open spec fn model(&self) -> i128 {
        *self
    }

    open spec fn model_wf(m: i128) -> bool {
        true
    }
}

impl Model for usize {
    type M = usize;

    open spec fn model(&self) -> usize {
        *self
    }

    open spec fn model_wf(m: usize) -> bool {
        true
    }
}

impl Model for isize {
    type M = isize;

    open spec fn model(&self) -> isize {
        *self
    }

    open spec fn model_wf(m: isize) -> bool {
        true
    }
}

impl Model for bool {
    type M = bool;

    open spec fn model(&self) -> bool {
        *self
    }

    open spec fn model_wf(m: bool) -> bool {
        true
    }
}

impl Model for char {
    type M = char;

    open spec fn model(&self) -> char {
        *self
    }

    open spec fn model_wf(m: char) -> bool {
        true
    }
}

impl Model for () {
    type M = ();

    open spec fn model(&self) -> () {
        *self
    }

    open spec fn model_wf(m: ()) -> bool {
        true
    }
}

impl<T: Model> Model for Option<T> {
    type M = Option<T::M>;

    open spec fn model(&self) -> Option<T::M> {
        match self {
            Some(v) => Some(v.model()),
            None => None,
        }
    }

    open spec fn model_wf(m: Option<T::M>) -> bool {
        match m {
            Some(v) => T::model_wf(v),
            None => true,
        }
    }
}

impl<T: Model, E: Model> Model for Result<T, E> {
    type M = Result<T::M, E::M>;

    open spec fn model(&self) -> Result<T::M, E::M> {
        match self {
            Ok(v) => Ok(v.model()),
            Err(e) => Err(e.model()),
        }
    }

    open spec fn model_wf(m: Result<T::M, E::M>) -> bool {
        match m {
            Ok(v) => T::model_wf(v),
            Err(e) => E::model_wf(e),
        }
    }
}

impl<T> Model for PhantomData<T> {
    type M = ();

    open spec fn model(&self) -> () {
        ()
    }

    open spec fn model_wf(m: ()) -> bool {
        true
    }
}

impl<T: Model> Model for Vec<T> {
    type M = Seq<T::M>;

    open spec fn model(&self) -> Seq<T::M> {
        seq_model(self@)
    }

    open spec fn model_wf(m: Seq<T::M>) -> bool {
        seq_wf::<T>(m)
    }
}

impl<T: Model> Model for [T] {
    type M = Seq<T::M>;

    open spec fn model(&self) -> Seq<T::M> {
        seq_model(self@)
    }

    open spec fn model_wf(m: Seq<T::M>) -> bool {
        seq_wf::<T>(m)
    }
}

impl<T: Model, const N: usize> Model for [T; N] {
    type M = Seq<T::M>;

    open spec fn model(&self) -> Seq<T::M> {
        seq_model(self@)
    }

    open spec fn model_wf(m: Seq<T::M>) -> bool {
        m.len() == N && seq_wf::<T>(m)
    }
}

impl Model for str {
    type M = Seq<char>;

    open spec fn model(&self) -> Seq<char> {
        self@
    }

    open spec fn model_wf(m: Seq<char>) -> bool {
        true
    }
}

impl Model for String {
    type M = Seq<char>;

    open spec fn model(&self) -> Seq<char> {
        self@
    }

    open spec fn model_wf(m: Seq<char>) -> bool {
        true
    }
}

impl<T: Model> Model for Box<T> {
    type M = T::M;

    open spec fn model(&self) -> T::M {
        (**self).model()
    }

    open spec fn model_wf(m: T::M) -> bool {
        T::model_wf(m)
    }
}

impl<T: Model> Model for Rc<T> {
    type M = T::M;

    open spec fn model(&self) -> T::M {
        (**self).model()
    }

    open spec fn model_wf(m: T::M) -> bool {
        T::model_wf(m)
    }
}

impl<T: Model> Model for Arc<T> {
    type M = T::M;

    open spec fn model(&self) -> T::M {
        (**self).model()
    }

    open spec fn model_wf(m: T::M) -> bool {
        T::model_wf(m)
    }
}

impl<T: Model> Model for Range<T> {
    type M = (T::M, T::M);

    open spec fn model(&self) -> (T::M, T::M) {
        (self.start.model(), self.end.model())
    }

    open spec fn model_wf(m: (T::M, T::M)) -> bool {
        T::model_wf(m.0) && T::model_wf(m.1)
    }
}

/// The lower bound of an inclusive range (`RangeInclusive::start`) is the one it was made
/// with.
pub assume_specification<Idx>[ RangeInclusive::<Idx>::start ](r: &RangeInclusive<Idx>) -> (ret: &Idx)
    ensures
        *ret == r@.start,
;

/// The upper bound of an inclusive range (`RangeInclusive::end`) is the one it was made with.
pub assume_specification<Idx>[ RangeInclusive::<Idx>::end ](r: &RangeInclusive<Idx>) -> (ret: &Idx)
    ensures
        *ret == r@.end,
;

impl<T: Model> Model for RangeInclusive<T> {
    type M = (T::M, T::M);

    open spec fn model(&self) -> (T::M, T::M) {
        (self@.start.model(), self@.end.model())
    }

    open spec fn model_wf(m: (T::M, T::M)) -> bool {
        T::model_wf(m.0) && T::model_wf(m.1)
    }
}

impl<'a, T: Model> Model for &'a T {
    type M = T::M;

    open spec fn model(&self) -> T::M {
        (**self).model()
    }

    open spec fn model_wf(m: T::M) -> bool {
        T::model_wf(m)
    }
}

impl<'a, T: Model> Model for &'a mut T {
    type M = T::M;

    open spec fn model(&self) -> T::M {
        (**self).model()
    }

    open spec fn model_wf(m: T::M) -> bool {
        T::model_wf(m)
    }
}

} // verus!
