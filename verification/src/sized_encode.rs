//! Encodings of bounded size.
use vstd::prelude::*;
use crate::bytes::{lemma_be_bytes_len, twos};
use crate::encode::{Encode, encode_seq};
use crate::model::seq_wf;
use std::marker::PhantomData;
use std::ops::{Range, RangeInclusive};
use std::rc::Rc;
use std::sync::Arc;
use vstd::utf8::encode_utf8;
use crate::sized_slice::SizedSlice;
use crate::sized_str::SizedStr;
use crate::values::{Enum, EnumModel, Named, Unit, Unnamed, enum_discriminant};

verus! {

/// Denotes a size-constrained, encodable type.
///
/// When using [`Encode`], the size of the resulting encoding cannot always be known beforehand.
/// This trait defines an upper bound for these sizes.
pub trait SizedEncode: Encode + Sized {
    /// The maximum guaranteed amount of bytes that can result from an encoding.
    const MAX_ENCODED_SIZE: usize;
}

/// Types whose encodings are no longer than their maximum encoded size.
pub trait SizedEncodeBound: SizedEncode {
    /// The computation of [`MAX_ENCODED_SIZE`](SizedEncode::MAX_ENCODED_SIZE) does not overflow.
    spec fn max_size_fits() -> bool;

    /// No encoding is longer than [`MAX_ENCODED_SIZE`](SizedEncode::MAX_ENCODED_SIZE).
    proof fn lemma_encoded_size(m: Self::M)
        requires
            Self::model_wf(m),
            Self::max_size_fits(),
        ensures
            Self::spec_encode(m).0.len() <= Self::MAX_ENCODED_SIZE,
    ;
}

/// The encoding of a sequence of values is no longer than the sum of their bounds.
pub proof fn lemma_encode_seq_size<T: SizedEncodeBound>(s: Seq<T::M>)
    requires
        seq_wf::<T>(s),
        T::max_size_fits(),
    ensures
        encode_seq::<T>(s).0.len() <= s.len() * T::MAX_ENCODED_SIZE,
    decreases s.len(),
{
    if s.len() > 0 {
        lemma_encode_seq_size::<T>(s.drop_last());
        T::lemma_encoded_size(s.last());
        assert(s.len() * T::MAX_ENCODED_SIZE == (s.len() - 1) * T::MAX_ENCODED_SIZE + T::MAX_ENCODED_SIZE) by (nonlinear_arith);
    }
}

impl SizedEncode for u8 {
    const MAX_ENCODED_SIZE: usize = 1;
}

impl SizedEncodeBound for u8 {
    open spec fn max_size_fits() -> bool {
        true
    }

    proof fn lemma_encoded_size(m: u8) {
        
    }
}

impl SizedEncode for u16 {
    const MAX_ENCODED_SIZE: usize = 2;
}

impl SizedEncodeBound for u16 {
    open spec fn max_size_fits() -> bool {
        true
    }

    proof fn lemma_encoded_size(m: u16) {
        lemma_be_bytes_len(m as nat, 2);
    }
}

impl SizedEncode for u32 {
    const MAX_ENCODED_SIZE: usize = 4;
}

impl SizedEncodeBound for u32 {
    open spec fn max_size_fits() -> bool {
        true
    }

    proof fn lemma_encoded_size(m: u32) {
        lemma_be_bytes_len(m as nat, 4);
    }
}

impl SizedEncode for u64 {
    const MAX_ENCODED_SIZE: usize = 8;
}

impl SizedEncodeBound for u64 {
    open spec fn max_size_fits() -> bool {
        true
    }

    proof fn lemma_encoded_size(m: u64) {
        lemma_be_bytes_len(m as nat, 8);
    }
}

impl SizedEncode for u128 {
    const MAX_ENCODED_SIZE: usize = 16;
}

impl SizedEncodeBound for u128 {
    open spec fn max_size_fits() -> bool {
        true
    }

    proof fn lemma_encoded_size(m: u128) {
        lemma_be_bytes_len(m as nat, 16);
    }
}

impl SizedEncode for i8 {
    const MAX_ENCODED_SIZE: usize = 1;
}

impl SizedEncodeBound for i8 {
    open spec fn max_size_fits() -> bool {
        true
    }

    proof fn lemma_encoded_size(m: i8) {
        lemma_be_bytes_len(twos(m as int, 1), 1);
    }
}

impl SizedEncode for i16 {
    const MAX_ENCODED_SIZE: usize = 2;
}

impl SizedEncodeBound for i16 {
    open spec fn max_size_fits() -> bool {
        true
    }

    proof fn lemma_encoded_size(m: i16) {
        lemma_be_bytes_len(twos(m as int, 2), 2);
    }
}

impl SizedEncode for i32 {
    const MAX_ENCODED_SIZE: usize = 4;
}

impl SizedEncodeBound for i32 {
    open spec fn max_size_fits() -> bool {
        true
    }

    proof fn lemma_encoded_size(m: i32) {
        lemma_be_bytes_len(twos(m as int, 4), 4);
    }
}

impl SizedEncode for i64 {
    const MAX_ENCODED_SIZE: usize = 8;
}

impl SizedEncodeBound for i64 {
    open spec fn max_size_fits() -> bool {
        true
    }

    proof fn lemma_encoded_size(m: i64) {
        lemma_be_bytes_len(twos(m as int, 8), 8);
    }
}

impl SizedEncode for i128 {
    const MAX_ENCODED_SIZE: usize = 16;
}

impl SizedEncodeBound for i128 {
    open spec fn max_size_fits() -> bool {
        true
    }

    proof fn lemma_encoded_size(m: i128) {
        lemma_be_bytes_len(twos(m as int, 16), 16);
    }
}

impl SizedEncode for usize {
    const MAX_ENCODED_SIZE: usize = 2;
}

impl SizedEncodeBound for usize {
    open spec fn max_size_fits() -> bool {
        true
    }

    proof fn lemma_encoded_size(m: usize) {
        lemma_be_bytes_len(m as nat, 2);
    }
}

impl SizedEncode for isize {
    const MAX_ENCODED_SIZE: usize = 2;
}

impl SizedEncodeBound for isize {
    open spec fn max_size_fits() -> bool {
        true
    }

    proof fn lemma_encoded_size(m: isize) {
        lemma_be_bytes_len(twos(m as int, 2), 2);
    }
}

impl SizedEncode for bool {
    const MAX_ENCODED_SIZE: usize = 1;
}

impl SizedEncodeBound for bool {
    open spec fn max_size_fits() -> bool {
        true
    }

    proof fn lemma_encoded_size(m: bool) {
        
    }
}

impl SizedEncode for char {
    const MAX_ENCODED_SIZE: usize = 4;
}

impl SizedEncodeBound for char {
    open spec fn max_size_fits() -> bool {
        true
    }

    proof fn lemma_encoded_size(m: char) {
        lemma_be_bytes_len(m as u32 as nat, 4);
    }
}

impl SizedEncode for () {
    const MAX_ENCODED_SIZE: usize = 0;
}

impl SizedEncodeBound for () {
    open spec fn max_size_fits() -> bool {
        true
    }

    proof fn lemma_encoded_size(m: ()) {
        
    }
}

impl<T> SizedEncode for PhantomData<T> {
    const MAX_ENCODED_SIZE: usize = 0;
}

impl<T> SizedEncodeBound for PhantomData<T> {
    open spec fn max_size_fits() -> bool {
        true
    }

    proof fn lemma_encoded_size(m: ()) {
    }
}

impl<T: SizedEncode> SizedEncode for Option<T> {
    const MAX_ENCODED_SIZE: usize = 1 + T::MAX_ENCODED_SIZE;
}

impl<T: SizedEncodeBound> SizedEncodeBound for Option<T> {
    open spec fn max_size_fits() -> bool {
        T::max_size_fits() && T::MAX_ENCODED_SIZE < usize::MAX
    }

    proof fn lemma_encoded_size(m: Option<T::M>) {
        if let Some(v) = m {
            T::lemma_encoded_size(v);
        }
    }
}

impl<T: SizedEncode, const N: usize> SizedEncode for [T; N] {
    const MAX_ENCODED_SIZE: usize = T::MAX_ENCODED_SIZE * N;
}

impl<T: SizedEncodeBound, const N: usize> SizedEncodeBound for [T; N] {
    open spec fn max_size_fits() -> bool {
        T::max_size_fits() && T::MAX_ENCODED_SIZE * N <= usize::MAX
    }

    proof fn lemma_encoded_size(m: Seq<T::M>) {
        lemma_encode_seq_size::<T>(m);
        assert(m.len() * T::MAX_ENCODED_SIZE == T::MAX_ENCODED_SIZE * N) by (nonlinear_arith)
            requires
                m.len() == N,
        ;
    }
}

impl<T: SizedEncode> SizedEncode for Box<T> {
    const MAX_ENCODED_SIZE: usize = T::MAX_ENCODED_SIZE;
}

impl<T: SizedEncodeBound> SizedEncodeBound for Box<T> {
    open spec fn max_size_fits() -> bool {
        T::max_size_fits()
    }

    proof fn lemma_encoded_size(m: T::M) {
        T::lemma_encoded_size(m);
    }
}

impl<T: SizedEncode> SizedEncode for Rc<T> {
    const MAX_ENCODED_SIZE: usize = T::MAX_ENCODED_SIZE;
}

impl<T: SizedEncodeBound> SizedEncodeBound for Rc<T> {
    open spec fn max_size_fits() -> bool {
        T::max_size_fits()
    }

    proof fn lemma_encoded_size(m: T::M) {
        T::lemma_encoded_size(m);
    }
}

impl<T: SizedEncode> SizedEncode for Arc<T> {
    const MAX_ENCODED_SIZE: usize = T::MAX_ENCODED_SIZE;
}

impl<T: SizedEncodeBound> SizedEncodeBound for Arc<T> {
    open spec fn max_size_fits() -> bool {
        T::max_size_fits()
    }

    proof fn lemma_encoded_size(m: T::M) {
        T::lemma_encoded_size(m);
    }
}

impl<T: SizedEncode> SizedEncode for Range<T> {
    const MAX_ENCODED_SIZE: usize = T::MAX_ENCODED_SIZE * 2;
}

impl<T: SizedEncodeBound> SizedEncodeBound for Range<T> {
    open spec fn max_size_fits() -> bool {
        T::max_size_fits() && T::MAX_ENCODED_SIZE * 2 <= usize::MAX
    }

    proof fn lemma_encoded_size(m: (T::M, T::M)) {
        T::lemma_encoded_size(m.0);
        T::lemma_encoded_size(m.1);
    }
}

impl<T0: SizedEncode> SizedEncode for (T0,) {
    const MAX_ENCODED_SIZE: usize = T0::MAX_ENCODED_SIZE;
}

impl<T0: SizedEncodeBound> SizedEncodeBound for (T0,) {
    open spec fn max_size_fits() -> bool {
        T0::max_size_fits() && T0::MAX_ENCODED_SIZE as int <= usize::MAX
    }

    proof fn lemma_encoded_size(m: (T0::M,)) {
        T0::lemma_encoded_size(m.0);
    }
}

impl<T0: SizedEncode, T1: SizedEncode> SizedEncode for (T0, T1) {
    const MAX_ENCODED_SIZE: usize = T0::MAX_ENCODED_SIZE + T1::MAX_ENCODED_SIZE;
}

impl<T0: SizedEncodeBound, T1: SizedEncodeBound> SizedEncodeBound for (T0, T1) {
    open spec fn max_size_fits() -> bool {
        T0::max_size_fits() && T1::max_size_fits() && T0::MAX_ENCODED_SIZE as int + T1::MAX_ENCODED_SIZE as int <= usize::MAX
    }

    proof fn lemma_encoded_size(m: (T0::M, T1::M)) {
        T0::lemma_encoded_size(m.0);
        T1::lemma_encoded_size(m.1);
    }
}

impl<T0: SizedEncode, T1: SizedEncode, T2: SizedEncode> SizedEncode for (T0, T1, T2) {
    const MAX_ENCODED_SIZE: usize = T0::MAX_ENCODED_SIZE + T1::MAX_ENCODED_SIZE + T2::MAX_ENCODED_SIZE;
}

impl<T0: SizedEncodeBound, T1: SizedEncodeBound, T2: SizedEncodeBound> SizedEncodeBound for (T0, T1, T2) {
    open spec fn max_size_fits() -> bool {
        T0::max_size_fits() && T1::max_size_fits() && T2::max_size_fits() && T0::MAX_ENCODED_SIZE as int + T1::MAX_ENCODED_SIZE as int + T2::MAX_ENCODED_SIZE as int <= usize::MAX
    }

    proof fn lemma_encoded_size(m: (T0::M, T1::M, T2::M)) {
        T0::lemma_encoded_size(m.0);
        T1::lemma_encoded_size(m.1);
        T2::lemma_encoded_size(m.2);
    }
}

impl<T0: SizedEncode, T1: SizedEncode, T2: SizedEncode, T3: SizedEncode> SizedEncode for (T0, T1, T2, T3) {
    const MAX_ENCODED_SIZE: usize = T0::MAX_ENCODED_SIZE + T1::MAX_ENCODED_SIZE + T2::MAX_ENCODED_SIZE + T3::MAX_ENCODED_SIZE;
}

impl<T0: SizedEncodeBound, T1: SizedEncodeBound, T2: SizedEncodeBound, T3: SizedEncodeBound> SizedEncodeBound for (T0, T1, T2, T3) {
    open spec fn max_size_fits() -> bool {
        T0::max_size_fits() && T1::max_size_fits() && T2::max_size_fits() && T3::max_size_fits() && T0::MAX_ENCODED_SIZE as int + T1::MAX_ENCODED_SIZE as int + T2::MAX_ENCODED_SIZE as int + T3::MAX_ENCODED_SIZE as int <= usize::MAX
    }

    proof fn lemma_encoded_size(m: (T0::M, T1::M, T2::M, T3::M)) {
        T0::lemma_encoded_size(m.0);
        T1::lemma_encoded_size(m.1);
        T2::lemma_encoded_size(m.2);
        T3::lemma_encoded_size(m.3);
    }
}

impl<T0: SizedEncode, T1: SizedEncode, T2: SizedEncode, T3: SizedEncode, T4: SizedEncode> SizedEncode for (T0, T1, T2, T3, T4) {
    const MAX_ENCODED_SIZE: usize = T0::MAX_ENCODED_SIZE + T1::MAX_ENCODED_SIZE + T2::MAX_ENCODED_SIZE + T3::MAX_ENCODED_SIZE + T4::MAX_ENCODED_SIZE;
}

impl<T0: SizedEncodeBound, T1: SizedEncodeBound, T2: SizedEncodeBound, T3: SizedEncodeBound, T4: SizedEncodeBound> SizedEncodeBound for (T0, T1, T2, T3, T4) {
    open spec fn max_size_fits() -> bool {
        T0::max_size_fits() && T1::max_size_fits() && T2::max_size_fits() && T3::max_size_fits() && T4::max_size_fits() && T0::MAX_ENCODED_SIZE as int + T1::MAX_ENCODED_SIZE as int + T2::MAX_ENCODED_SIZE as int + T3::MAX_ENCODED_SIZE as int + T4::MAX_ENCODED_SIZE as int <= usize::MAX
    }

    proof fn lemma_encoded_size(m: (T0::M, T1::M, T2::M, T3::M, T4::M)) {
        T0::lemma_encoded_size(m.0);
        T1::lemma_encoded_size(m.1);
        T2::lemma_encoded_size(m.2);
        T3::lemma_encoded_size(m.3);
        T4::lemma_encoded_size(m.4);
    }
}

impl<T0: SizedEncode, T1: SizedEncode, T2: SizedEncode, T3: SizedEncode, T4: SizedEncode, T5: SizedEncode> SizedEncode for (T0, T1, T2, T3, T4, T5) {
    const MAX_ENCODED_SIZE: usize = T0::MAX_ENCODED_SIZE + T1::MAX_ENCODED_SIZE + T2::MAX_ENCODED_SIZE + T3::MAX_ENCODED_SIZE + T4::MAX_ENCODED_SIZE + T5::MAX_ENCODED_SIZE;
}

impl<T0: SizedEncodeBound, T1: SizedEncodeBound, T2: SizedEncodeBound, T3: SizedEncodeBound, T4: SizedEncodeBound, T5: SizedEncodeBound> SizedEncodeBound for (T0, T1, T2, T3, T4, T5) {
    open spec fn max_size_fits() -> bool {
        T0::max_size_fits() && T1::max_size_fits() && T2::max_size_fits() && T3::max_size_fits() && T4::max_size_fits() && T5::max_size_fits() && T0::MAX_ENCODED_SIZE as int + T1::MAX_ENCODED_SIZE as int + T2::MAX_ENCODED_SIZE as int + T3::MAX_ENCODED_SIZE as int + T4::MAX_ENCODED_SIZE as int + T5::MAX_ENCODED_SIZE as int <= usize::MAX
    }

    proof fn lemma_encoded_size(m: (T0::M, T1::M, T2::M, T3::M, T4::M, T5::M)) {
        T0::lemma_encoded_size(m.0);
        T1::lemma_encoded_size(m.1);
        T2::lemma_encoded_size(m.2);
        T3::lemma_encoded_size(m.3);
        T4::lemma_encoded_size(m.4);
        T5::lemma_encoded_size(m.5);
    }
}

impl<T0: SizedEncode, T1: SizedEncode, T2: SizedEncode, T3: SizedEncode, T4: SizedEncode, T5: SizedEncode, T6: SizedEncode> SizedEncode for (T0, T1, T2, T3, T4, T5, T6) {
    const MAX_ENCODED_SIZE: usize = T0::MAX_ENCODED_SIZE + T1::MAX_ENCODED_SIZE + T2::MAX_ENCODED_SIZE + T3::MAX_ENCODED_SIZE + T4::MAX_ENCODED_SIZE + T5::MAX_ENCODED_SIZE + T6::MAX_ENCODED_SIZE;
}

impl<T0: SizedEncodeBound, T1: SizedEncodeBound, T2: SizedEncodeBound, T3: SizedEncodeBound, T4: SizedEncodeBound, T5: SizedEncodeBound, T6: SizedEncodeBound> SizedEncodeBound for (T0, T1, T2, T3, T4, T5, T6) {
    open spec fn max_size_fits() -> bool {
        T0::max_size_fits() && T1::max_size_fits() && T2::max_size_fits() && T3::max_size_fits() && T4::max_size_fits() && T5::max_size_fits() && T6::max_size_fits() && T0::MAX_ENCODED_SIZE as int + T1::MAX_ENCODED_SIZE as int + T2::MAX_ENCODED_SIZE as int + T3::MAX_ENCODED_SIZE as int + T4::MAX_ENCODED_SIZE as int + T5::MAX_ENCODED_SIZE as int + T6::MAX_ENCODED_SIZE as int <= usize::MAX
    }

    proof fn lemma_encoded_size(m: (T0::M, T1::M, T2::M, T3::M, T4::M, T5::M, T6::M)) {
        T0::lemma_encoded_size(m.0);
        T1::lemma_encoded_size(m.1);
        T2::lemma_encoded_size(m.2);
        T3::lemma_encoded_size(m.3);
        T4::lemma_encoded_size(m.4);
        T5::lemma_encoded_size(m.5);
        T6::lemma_encoded_size(m.6);
    }
}

impl<T0: SizedEncode, T1: SizedEncode, T2: SizedEncode, T3: SizedEncode, T4: SizedEncode, T5: SizedEncode, T6: SizedEncode, T7: SizedEncode> SizedEncode for (T0, T1, T2, T3, T4, T5, T6, T7) {
    const MAX_ENCODED_SIZE: usize = T0::MAX_ENCODED_SIZE + T1::MAX_ENCODED_SIZE + T2::MAX_ENCODED_SIZE + T3::MAX_ENCODED_SIZE + T4::MAX_ENCODED_SIZE + T5::MAX_ENCODED_SIZE + T6::MAX_ENCODED_SIZE + T7::MAX_ENCODED_SIZE;
}

impl<T0: SizedEncodeBound, T1: SizedEncodeBound, T2: SizedEncodeBound, T3: SizedEncodeBound, T4: SizedEncodeBound, T5: SizedEncodeBound, T6: SizedEncodeBound, T7: SizedEncodeBound> SizedEncodeBound for (T0, T1, T2, T3, T4, T5, T6, T7) {
    open spec fn max_size_fits() -> bool {
        T0::max_size_fits() && T1::max_size_fits() && T2::max_size_fits() && T3::max_size_fits() && T4::max_size_fits() && T5::max_size_fits() && T6::max_size_fits() && T7::max_size_fits() && T0::MAX_ENCODED_SIZE as int + T1::MAX_ENCODED_SIZE as int + T2::MAX_ENCODED_SIZE as int + T3::MAX_ENCODED_SIZE as int + T4::MAX_ENCODED_SIZE as int + T5::MAX_ENCODED_SIZE as int + T6::MAX_ENCODED_SIZE as int + T7::MAX_ENCODED_SIZE as int <= usize::MAX
    }

    proof fn lemma_encoded_size(m: (T0::M, T1::M, T2::M, T3::M, T4::M, T5::M, T6::M, T7::M)) {
        T0::lemma_encoded_size(m.0);
        T1::lemma_encoded_size(m.1);
        T2::lemma_encoded_size(m.2);
        T3::lemma_encoded_size(m.3);
        T4::lemma_encoded_size(m.4);
        T5::lemma_encoded_size(m.5);
        T6::lemma_encoded_size(m.6);
        T7::lemma_encoded_size(m.7);
    }
}

impl<T0: SizedEncode, T1: SizedEncode, T2: SizedEncode, T3: SizedEncode, T4: SizedEncode, T5: SizedEncode, T6: SizedEncode, T7: SizedEncode, T8: SizedEncode> SizedEncode for (T0, T1, T2, T3, T4, T5, T6, T7, T8) {
    const MAX_ENCODED_SIZE: usize = T0::MAX_ENCODED_SIZE + T1::MAX_ENCODED_SIZE + T2::MAX_ENCODED_SIZE + T3::MAX_ENCODED_SIZE + T4::MAX_ENCODED_SIZE + T5::MAX_ENCODED_SIZE + T6::MAX_ENCODED_SIZE + T7::MAX_ENCODED_SIZE + T8::MAX_ENCODED_SIZE;
}

impl<T0: SizedEncodeBound, T1: SizedEncodeBound, T2: SizedEncodeBound, T3: SizedEncodeBound, T4: SizedEncodeBound, T5: SizedEncodeBound, T6: SizedEncodeBound, T7: SizedEncodeBound, T8: SizedEncodeBound> SizedEncodeBound for (T0, T1, T2, T3, T4, T5, T6, T7, T8) {
    open spec fn max_size_fits() -> bool {
        T0::max_size_fits() && T1::max_size_fits() && T2::max_size_fits() && T3::max_size_fits() && T4::max_size_fits() && T5::max_size_fits() && T6::max_size_fits() && T7::max_size_fits() && T8::max_size_fits() && T0::MAX_ENCODED_SIZE as int + T1::MAX_ENCODED_SIZE as int + T2::MAX_ENCODED_SIZE as int + T3::MAX_ENCODED_SIZE as int + T4::MAX_ENCODED_SIZE as int + T5::MAX_ENCODED_SIZE as int + T6::MAX_ENCODED_SIZE as int + T7::MAX_ENCODED_SIZE as int + T8::MAX_ENCODED_SIZE as int <= usize::MAX
    }

    proof fn lemma_encoded_size(m: (T0::M, T1::M, T2::M, T3::M, T4::M, T5::M, T6::M, T7::M, T8::M)) {
        T0::lemma_encoded_size(m.0);
        T1::lemma_encoded_size(m.1);
        T2::lemma_encoded_size(m.2);
        T3::lemma_encoded_size(m.3);
        T4::lemma_encoded_size(m.4);
        T5::lemma_encoded_size(m.5);
        T6::lemma_encoded_size(m.6);
        T7::lemma_encoded_size(m.7);
        T8::lemma_encoded_size(m.8);
    }
}

impl<T0: SizedEncode, T1: SizedEncode, T2: SizedEncode, T3: SizedEncode, T4: SizedEncode, T5: SizedEncode, T6: SizedEncode, T7: SizedEncode, T8: SizedEncode, T9: SizedEncode> SizedEncode for (T0, T1, T2, T3, T4, T5, T6, T7, T8, T9) {
    const MAX_ENCODED_SIZE: usize = T0::MAX_ENCODED_SIZE + T1::MAX_ENCODED_SIZE + T2::MAX_ENCODED_SIZE + T3::MAX_ENCODED_SIZE + T4::MAX_ENCODED_SIZE + T5::MAX_ENCODED_SIZE + T6::MAX_ENCODED_SIZE + T7::MAX_ENCODED_SIZE + T8::MAX_ENCODED_SIZE + T9::MAX_ENCODED_SIZE;
}

impl<T0: SizedEncodeBound, T1: SizedEncodeBound, T2: SizedEncodeBound, T3: SizedEncodeBound, T4: SizedEncodeBound, T5: SizedEncodeBound, T6: SizedEncodeBound, T7: SizedEncodeBound, T8: SizedEncodeBound, T9: SizedEncodeBound> SizedEncodeBound for (T0, T1, T2, T3, T4, T5, T6, T7, T8, T9) {
    open spec fn max_size_fits() -> bool {
        T0::max_size_fits() && T1::max_size_fits() && T2::max_size_fits() && T3::max_size_fits() && T4::max_size_fits() && T5::max_size_fits() && T6::max_size_fits() && T7::max_size_fits() && T8::max_size_fits() && T9::max_size_fits() && T0::MAX_ENCODED_SIZE as int + T1::MAX_ENCODED_SIZE as int + T2::MAX_ENCODED_SIZE as int + T3::MAX_ENCODED_SIZE as int + T4::MAX_ENCODED_SIZE as int + T5::MAX_ENCODED_SIZE as int + T6::MAX_ENCODED_SIZE as int + T7::MAX_ENCODED_SIZE as int + T8::MAX_ENCODED_SIZE as int + T9::MAX_ENCODED_SIZE as int <= usize::MAX
    }

    proof fn lemma_encoded_size(m: (T0::M, T1::M, T2::M, T3::M, T4::M, T5::M, T6::M, T7::M, T8::M, T9::M)) {
        T0::lemma_encoded_size(m.0);
        T1::lemma_encoded_size(m.1);
        T2::lemma_encoded_size(m.2);
        T3::lemma_encoded_size(m.3);
        T4::lemma_encoded_size(m.4);
        T5::lemma_encoded_size(m.5);
        T6::lemma_encoded_size(m.6);
        T7::lemma_encoded_size(m.7);
        T8::lemma_encoded_size(m.8);
        T9::lemma_encoded_size(m.9);
    }
}

impl<T0: SizedEncode, T1: SizedEncode, T2: SizedEncode, T3: SizedEncode, T4: SizedEncode, T5: SizedEncode, T6: SizedEncode, T7: SizedEncode, T8: SizedEncode, T9: SizedEncode, T10: SizedEncode> SizedEncode for (T0, T1, T2, T3, T4, T5, T6, T7, T8, T9, T10) {
    const MAX_ENCODED_SIZE: usize = T0::MAX_ENCODED_SIZE + T1::MAX_ENCODED_SIZE + T2::MAX_ENCODED_SIZE + T3::MAX_ENCODED_SIZE + T4::MAX_ENCODED_SIZE + T5::MAX_ENCODED_SIZE + T6::MAX_ENCODED_SIZE + T7::MAX_ENCODED_SIZE + T8::MAX_ENCODED_SIZE + T9::MAX_ENCODED_SIZE + T10::MAX_ENCODED_SIZE;
}

impl<T0: SizedEncodeBound, T1: SizedEncodeBound, T2: SizedEncodeBound, T3: SizedEncodeBound, T4: SizedEncodeBound, T5: SizedEncodeBound, T6: SizedEncodeBound, T7: SizedEncodeBound, T8: SizedEncodeBound, T9: SizedEncodeBound, T10: SizedEncodeBound> SizedEncodeBound for (T0, T1, T2, T3, T4, T5, T6, T7, T8, T9, T10) {
    open spec fn max_size_fits() -> bool {
        T0::max_size_fits() && T1::max_size_fits() && T2::max_size_fits() && T3::max_size_fits() && T4::max_size_fits() && T5::max_size_fits() && T6::max_size_fits() && T7::max_size_fits() && T8::max_size_fits() && T9::max_size_fits() && T10::max_size_fits() && T0::MAX_ENCODED_SIZE as int + T1::MAX_ENCODED_SIZE as int + T2::MAX_ENCODED_SIZE as int + T3::MAX_ENCODED_SIZE as int + T4::MAX_ENCODED_SIZE as int + T5::MAX_ENCODED_SIZE as int + T6::MAX_ENCODED_SIZE as int + T7::MAX_ENCODED_SIZE as int + T8::MAX_ENCODED_SIZE as int + T9::MAX_ENCODED_SIZE as int + T10::MAX_ENCODED_SIZE as int <= usize::MAX
    }

    proof fn lemma_encoded_size(m: (T0::M, T1::M, T2::M, T3::M, T4::M, T5::M, T6::M, T7::M, T8::M, T9::M, T10::M)) {
        T0::lemma_encoded_size(m.0);
        T1::lemma_encoded_size(m.1);
        T2::lemma_encoded_size(m.2);
        T3::lemma_encoded_size(m.3);
        T4::lemma_encoded_size(m.4);
        T5::lemma_encoded_size(m.5);
        T6::lemma_encoded_size(m.6);
        T7::lemma_encoded_size(m.7);
        T8::lemma_encoded_size(m.8);
        T9::lemma_encoded_size(m.9);
        T10::lemma_encoded_size(m.10);
    }
}

impl<T0: SizedEncode, T1: SizedEncode, T2: SizedEncode, T3: SizedEncode, T4: SizedEncode, T5: SizedEncode, T6: SizedEncode, T7: SizedEncode, T8: SizedEncode, T9: SizedEncode, T10: SizedEncode, T11: SizedEncode> SizedEncode for (T0, T1, T2, T3, T4, T5, T6, T7, T8, T9, T10, T11) {
    const MAX_ENCODED_SIZE: usize = T0::MAX_ENCODED_SIZE + T1::MAX_ENCODED_SIZE + T2::MAX_ENCODED_SIZE + T3::MAX_ENCODED_SIZE + T4::MAX_ENCODED_SIZE + T5::MAX_ENCODED_SIZE + T6::MAX_ENCODED_SIZE + T7::MAX_ENCODED_SIZE + T8::MAX_ENCODED_SIZE + T9::MAX_ENCODED_SIZE + T10::MAX_ENCODED_SIZE + T11::MAX_ENCODED_SIZE;
}

impl<T0: SizedEncodeBound, T1: SizedEncodeBound, T2: SizedEncodeBound, T3: SizedEncodeBound, T4: SizedEncodeBound, T5: SizedEncodeBound, T6: SizedEncodeBound, T7: SizedEncodeBound, T8: SizedEncodeBound, T9: SizedEncodeBound, T10: SizedEncodeBound, T11: SizedEncodeBound> SizedEncodeBound for (T0, T1, T2, T3, T4, T5, T6, T7, T8, T9, T10, T11) {
    open spec fn max_size_fits() -> bool {
        T0::max_size_fits() && T1::max_size_fits() && T2::max_size_fits() && T3::max_size_fits() && T4::max_size_fits() && T5::max_size_fits() && T6::max_size_fits() && T7::max_size_fits() && T8::max_size_fits() && T9::max_size_fits() && T10::max_size_fits() && T11::max_size_fits() && T0::MAX_ENCODED_SIZE as int + T1::MAX_ENCODED_SIZE as int + T2::MAX_ENCODED_SIZE as int + T3::MAX_ENCODED_SIZE as int + T4::MAX_ENCODED_SIZE as int + T5::MAX_ENCODED_SIZE as int + T6::MAX_ENCODED_SIZE as int + T7::MAX_ENCODED_SIZE as int + T8::MAX_ENCODED_SIZE as int + T9::MAX_ENCODED_SIZE as int + T10::MAX_ENCODED_SIZE as int + T11::MAX_ENCODED_SIZE as int <= usize::MAX
    }

    proof fn lemma_encoded_size(m: (T0::M, T1::M, T2::M, T3::M, T4::M, T5::M, T6::M, T7::M, T8::M, T9::M, T10::M, T11::M)) {
        T0::lemma_encoded_size(m.0);
        T1::lemma_encoded_size(m.1);
        T2::lemma_encoded_size(m.2);
        T3::lemma_encoded_size(m.3);
        T4::lemma_encoded_size(m.4);
        T5::lemma_encoded_size(m.5);
        T6::lemma_encoded_size(m.6);
        T7::lemma_encoded_size(m.7);
        T8::lemma_encoded_size(m.8);
        T9::lemma_encoded_size(m.9);
        T10::lemma_encoded_size(m.10);
        T11::lemma_encoded_size(m.11);
    }
}

impl<T: SizedEncode, const N: usize> SizedEncode for SizedSlice<T, N> {
    /// The length, then up to `N` elements.
    const MAX_ENCODED_SIZE: usize = <usize as SizedEncode>::MAX_ENCODED_SIZE + T::MAX_ENCODED_SIZE * N;
}

impl<T: SizedEncodeBound, const N: usize> SizedEncodeBound for SizedSlice<T, N> {
    open spec fn max_size_fits() -> bool {
        T::max_size_fits() && 2 + T::MAX_ENCODED_SIZE * N <= usize::MAX
    }

    proof fn lemma_encoded_size(m: Seq<T::M>) {
        lemma_encode_seq_size::<T>(m);
        lemma_be_bytes_len(m.len(), 2);
        assert(m.len() * T::MAX_ENCODED_SIZE <= T::MAX_ENCODED_SIZE * N) by (nonlinear_arith)
            requires
                m.len() <= N,
        ;
    }
}

impl<const N: usize> SizedEncode for SizedStr<N> {
    /// The length, then up to `N` octets.
    const MAX_ENCODED_SIZE: usize = <usize as SizedEncode>::MAX_ENCODED_SIZE + <u8 as SizedEncode>::MAX_ENCODED_SIZE * N;
}

impl<const N: usize> SizedEncodeBound for SizedStr<N> {
    open spec fn max_size_fits() -> bool {
        N + 2 <= usize::MAX
    }

    proof fn lemma_encoded_size(m: Seq<char>) {
        lemma_be_bytes_len(encode_utf8(m).len(), 2);
    }
}

impl SizedEncode for Unit {
    const MAX_ENCODED_SIZE: usize = 0;
}

impl SizedEncode for Unnamed {
    const MAX_ENCODED_SIZE: usize = 0 + <u32 as SizedEncode>::MAX_ENCODED_SIZE;
}

impl SizedEncode for Named {
    const MAX_ENCODED_SIZE: usize = 0 + <u8 as SizedEncode>::MAX_ENCODED_SIZE * 8;
}

impl SizedEncode for Enum {
    /// The size of the largest variant, [`Named`](Enum::Named): its discriminant and its field.
    const MAX_ENCODED_SIZE: usize = <isize as SizedEncode>::MAX_ENCODED_SIZE + <Named as SizedEncode>::MAX_ENCODED_SIZE;
}

impl SizedEncodeBound for Unit {
    open spec fn max_size_fits() -> bool {
        true
    }

    proof fn lemma_encoded_size(m: ()) {
    }
}

impl SizedEncodeBound for Unnamed {
    open spec fn max_size_fits() -> bool {
        true
    }

    proof fn lemma_encoded_size(m: u32) {
        <u32 as SizedEncodeBound>::lemma_encoded_size(m);
    }
}

impl SizedEncodeBound for Named {
    open spec fn max_size_fits() -> bool {
        true
    }

    proof fn lemma_encoded_size(m: Seq<u8>) {
        <[u8; 8] as SizedEncodeBound>::lemma_encoded_size(m);
    }
}

impl SizedEncodeBound for Enum {
    open spec fn max_size_fits() -> bool {
        true
    }

    proof fn lemma_encoded_size(m: EnumModel) {
        <isize as SizedEncodeBound>::lemma_encoded_size(enum_discriminant(m));
        match m {
            EnumModel::Unit => {},
            EnumModel::Unnamed(v) => <Unnamed as SizedEncodeBound>::lemma_encoded_size(v),
            EnumModel::Named(v) => <Named as SizedEncodeBound>::lemma_encoded_size(v),
        }
    }
}

impl<T: SizedEncode> SizedEncode for RangeInclusive<T> {
    const MAX_ENCODED_SIZE: usize = T::MAX_ENCODED_SIZE * 2;
}

impl<T: SizedEncodeBound> SizedEncodeBound for RangeInclusive<T> {
    open spec fn max_size_fits() -> bool {
        T::max_size_fits() && T::MAX_ENCODED_SIZE * 2 <= usize::MAX
    }

    proof fn lemma_encoded_size(m: (T::M, T::M)) {
        T::lemma_encoded_size(m.0);
        T::lemma_encoded_size(m.1);
    }
}


/// The maximum encoded sizes of the primitive types.
pub proof fn lemma_primitive_sizes()
    ensures
        <u8 as SizedEncode>::MAX_ENCODED_SIZE == 1,
        <u16 as SizedEncode>::MAX_ENCODED_SIZE == 2,
        <u32 as SizedEncode>::MAX_ENCODED_SIZE == 4,
        <u64 as SizedEncode>::MAX_ENCODED_SIZE == 8,
        <u128 as SizedEncode>::MAX_ENCODED_SIZE == 16,
        <i8 as SizedEncode>::MAX_ENCODED_SIZE == 1,
        <i16 as SizedEncode>::MAX_ENCODED_SIZE == 2,
        <i32 as SizedEncode>::MAX_ENCODED_SIZE == 4,
        <i64 as SizedEncode>::MAX_ENCODED_SIZE == 8,
        <i128 as SizedEncode>::MAX_ENCODED_SIZE == 16,
        <usize as SizedEncode>::MAX_ENCODED_SIZE == 2,
        <isize as SizedEncode>::MAX_ENCODED_SIZE == 2,
        <bool as SizedEncode>::MAX_ENCODED_SIZE == 1,
        <char as SizedEncode>::MAX_ENCODED_SIZE == 4,
        <() as SizedEncode>::MAX_ENCODED_SIZE == 0,
{
}

} // verus!
