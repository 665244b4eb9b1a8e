//! Decoding what was encoded gives back the encoded value.
use vstd::prelude::*;
use crate::bytes::{be_bytes, lemma_be_value_of_bytes, lemma_pow256_values, lemma_take_append, lemma_twos_roundtrip, twos};
use crate::decode::{Decode, decode_many};
use crate::encode::{Encode, encode_counted, encode_seq};
use crate::error::DecodeError;
use crate::model::{Model, seq_wf};
use std::marker::PhantomData;
use std::ops::{Range, RangeInclusive};
use std::rc::Rc;
use std::sync::Arc;
use vstd::utf8::{char_u32_cast, encode_utf8, encode_utf8_decode_utf8, encode_utf8_valid_utf8};

verus! {

/// Types whose decoding undoes their encoding.
///
/// Decoding the bytes of a successful encoding of a value, whatever follows them, gives back the
/// value and consumes exactly those bytes.
pub trait Roundtrip: Encode + Decode {
    proof fn lemma_roundtrip(m: Self::M, rest: Seq<u8>)
        requires
            Self::model_wf(m),
            Self::spec_encode(m).1 is None,
        ensures
            Self::spec_decode(Self::spec_encode(m).0 + rest) == Some(
                (Ok::<Self::M, DecodeError>(m), Self::spec_encode(m).0.len()),
            ),
    ;
}

/// Decoding the encodings of a sequence of values gives back the values.
pub proof fn lemma_roundtrip_seq<T: Roundtrip>(m: Seq<T::M>, rest: Seq<u8>)
    requires
        forall|i: int| 0 <= i < m.len() ==> T::model_wf(#[trigger] m[i]),
        encode_seq::<T>(m).1 is None,
    ensures
        decode_many::<T>(m.len(), encode_seq::<T>(m).0 + rest) == Some(
            (Ok::<Seq<T::M>, DecodeError>(m), encode_seq::<T>(m).0.len()),
        ),
    decreases m.len(),
{
    if m.len() == 0 {
        assert(Seq::<u8>::empty() + rest =~= rest);
        assert(m =~= Seq::<T::M>::empty());
    } else {
        let p = m.drop_last();
        let x = m.last();
        let ep = encode_seq::<T>(p).0;
        let ex = T::spec_encode(x).0;
        assert(encode_seq::<T>(p).1 is None);
        assert forall|i: int| 0 <= i < p.len() implies T::model_wf(#[trigger] p[i]) by {
            assert(p[i] == m[i]);
        }
        lemma_roundtrip_seq::<T>(p, ex + rest);
        T::lemma_roundtrip(x, rest);
        let bytes = encode_seq::<T>(m).0 + rest;
        assert(bytes =~= ep + (ex + rest));
        assert(bytes.skip(ep.len() as int) =~= ex + rest);
        assert(p.push(x) =~= m);
    }
}

impl Roundtrip for u8 {
    proof fn lemma_roundtrip(m: u8, rest: Seq<u8>) {
    }
}

impl Roundtrip for u16 {
    proof fn lemma_roundtrip(m: u16, rest: Seq<u8>) {
        lemma_pow256_values();
        lemma_be_value_of_bytes(m as nat, 2);
        lemma_take_append(Self::spec_encode(m).0, rest);
    }
}

impl Roundtrip for u32 {
    proof fn lemma_roundtrip(m: u32, rest: Seq<u8>) {
        lemma_pow256_values();
        lemma_be_value_of_bytes(m as nat, 4);
        lemma_take_append(Self::spec_encode(m).0, rest);
    }
}

impl Roundtrip for u64 {
    proof fn lemma_roundtrip(m: u64, rest: Seq<u8>) {
        lemma_pow256_values();
        lemma_be_value_of_bytes(m as nat, 8);
        lemma_take_append(Self::spec_encode(m).0, rest);
    }
}

impl Roundtrip for u128 {
    proof fn lemma_roundtrip(m: u128, rest: Seq<u8>) {
        lemma_pow256_values();
        lemma_be_value_of_bytes(m as nat, 16);
        lemma_take_append(Self::spec_encode(m).0, rest);
    }
}

impl Roundtrip for i8 {
    proof fn lemma_roundtrip(m: i8, rest: Seq<u8>) {
        lemma_pow256_values();
        lemma_twos_roundtrip(m as int, 1);
        lemma_be_value_of_bytes(twos(m as int, 1), 1);
        lemma_take_append(Self::spec_encode(m).0, rest);
    }
}

impl Roundtrip for i16 {
    proof fn lemma_roundtrip(m: i16, rest: Seq<u8>) {
        lemma_pow256_values();
        lemma_twos_roundtrip(m as int, 2);
        lemma_be_value_of_bytes(twos(m as int, 2), 2);
        lemma_take_append(Self::spec_encode(m).0, rest);
    }
}

impl Roundtrip for i32 {
    proof fn lemma_roundtrip(m: i32, rest: Seq<u8>) {
        lemma_pow256_values();
        lemma_twos_roundtrip(m as int, 4);
        lemma_be_value_of_bytes(twos(m as int, 4), 4);
        lemma_take_append(Self::spec_encode(m).0, rest);
    }
}

impl Roundtrip for i64 {
    proof fn lemma_roundtrip(m: i64, rest: Seq<u8>) {
        lemma_pow256_values();
        lemma_twos_roundtrip(m as int, 8);
        lemma_be_value_of_bytes(twos(m as int, 8), 8);
        lemma_take_append(Self::spec_encode(m).0, rest);
    }
}

impl Roundtrip for i128 {
    proof fn lemma_roundtrip(m: i128, rest: Seq<u8>) {
        lemma_pow256_values();
        lemma_twos_roundtrip(m as int, 16);
        lemma_be_value_of_bytes(twos(m as int, 16), 16);
        lemma_take_append(Self::spec_encode(m).0, rest);
    }
}

impl Roundtrip for usize {
    proof fn lemma_roundtrip(m: usize, rest: Seq<u8>) {
        lemma_pow256_values();
        lemma_be_value_of_bytes(m as nat, 2);
        lemma_take_append(Self::spec_encode(m).0, rest);
    }
}

impl Roundtrip for isize {
    proof fn lemma_roundtrip(m: isize, rest: Seq<u8>) {
        lemma_pow256_values();
        lemma_twos_roundtrip(m as int, 2);
        lemma_be_value_of_bytes(twos(m as int, 2), 2);
        lemma_take_append(Self::spec_encode(m).0, rest);
    }
}

impl Roundtrip for bool {
    proof fn lemma_roundtrip(m: bool, rest: Seq<u8>) {
    }
}

impl Roundtrip for char {
    proof fn lemma_roundtrip(m: char, rest: Seq<u8>) {
        lemma_pow256_values();
        lemma_be_value_of_bytes(m as u32 as nat, 4);
        lemma_take_append(Self::spec_encode(m).0, rest);
        char_u32_cast(m, m as u32);
    }
}

impl Roundtrip for () {
    proof fn lemma_roundtrip(m: (), rest: Seq<u8>) {
    }
}

impl<T> Roundtrip for PhantomData<T> {
    proof fn lemma_roundtrip(m: (), rest: Seq<u8>) {
    }
}

impl<T: Roundtrip> Roundtrip for Option<T> {
    proof fn lemma_roundtrip(m: Option<T::M>, rest: Seq<u8>) {
        match m {
            None => {},
            Some(v) => {
                let e = T::spec_encode(v).0;
                T::lemma_roundtrip(v, rest);
                assert((seq![1u8] + e + rest).skip(1) =~= e + rest);
                assert(seq![1u8] + e + rest =~= Self::spec_encode(m).0 + rest);
            },
        }
    }
}

impl<T: Roundtrip, E: Roundtrip> Roundtrip for Result<T, E> {
    proof fn lemma_roundtrip(m: Result<T::M, E::M>, rest: Seq<u8>) {
        match m {
            Ok(v) => {
                let e = T::spec_encode(v).0;
                T::lemma_roundtrip(v, rest);
                assert((seq![0u8] + e + rest).skip(1) =~= e + rest);
                assert(seq![0u8] + e + rest =~= Self::spec_encode(m).0 + rest);
            },
            Err(v) => {
                let e = E::spec_encode(v).0;
                E::lemma_roundtrip(v, rest);
                assert((seq![1u8] + e + rest).skip(1) =~= e + rest);
                assert(seq![1u8] + e + rest =~= Self::spec_encode(m).0 + rest);
            },
        }
    }
}

impl<T: Roundtrip, const N: usize> Roundtrip for [T; N] {
    proof fn lemma_roundtrip(m: Seq<T::M>, rest: Seq<u8>) {
        lemma_roundtrip_seq::<T>(m, rest);
    }
}

/// Decoding a sequence encoded with its length gives back the sequence.
pub proof fn lemma_roundtrip_counted<T: Roundtrip>(m: Seq<T::M>, rest: Seq<u8>)
    requires
        seq_wf::<T>(m),
        encode_counted::<T>(m).1 is None,
    ensures
        <usize as Decode>::spec_decode(encode_counted::<T>(m).0 + rest) == Some((Ok::<usize, DecodeError>(m.len() as usize), 2nat)),
        (encode_counted::<T>(m).0 + rest).skip(2) == encode_seq::<T>(m).0 + rest,
        decode_many::<T>(m.len(), encode_seq::<T>(m).0 + rest) == Some(
            (Ok::<Seq<T::M>, DecodeError>(m), encode_seq::<T>(m).0.len()),
        ),
        encode_counted::<T>(m).0.len() == 2 + encode_seq::<T>(m).0.len(),
{
    let el = be_bytes(m.len(), 2);
    let es = encode_seq::<T>(m).0;
    lemma_pow256_values();
    lemma_be_value_of_bytes(m.len(), 2);
    lemma_roundtrip_seq::<T>(m, rest);
    let bytes = encode_counted::<T>(m).0 + rest;
    assert(bytes =~= el + (es + rest));
    lemma_take_append(el, es + rest);
}

impl<T: Roundtrip> Roundtrip for Vec<T> {
    proof fn lemma_roundtrip(m: Seq<T::M>, rest: Seq<u8>) {
        let el = be_bytes(m.len(), 2);
        let es = encode_seq::<T>(m).0;
        lemma_pow256_values();
        lemma_be_value_of_bytes(m.len(), 2);
        lemma_roundtrip_seq::<T>(m, rest);
        let bytes = Self::spec_encode(m).0 + rest;
        assert(bytes =~= el + (es + rest));
        lemma_take_append(el, es + rest);
    }
}

impl Roundtrip for String {
    proof fn lemma_roundtrip(m: Seq<char>, rest: Seq<u8>) {
        let bs = encode_utf8(m);
        let el = be_bytes(bs.len(), 2);
        lemma_pow256_values();
        lemma_be_value_of_bytes(bs.len(), 2);
        encode_utf8_valid_utf8(m);
        encode_utf8_decode_utf8(m);
        let bytes = Self::spec_encode(m).0 + rest;
        assert(bytes =~= el + (bs + rest));
        lemma_take_append(el, bs + rest);
        <u8 as Roundtrip>::lemma_roundtrip(0, rest);
        lemma_roundtrip_bytes(bs, rest);
        assert(crate::model::seq_model(bs) =~= bs);
    }
}

/// Decoding the bytes of a byte string one by one gives them back.
proof fn lemma_roundtrip_bytes(bs: Seq<u8>, rest: Seq<u8>)
    ensures
        decode_many::<u8>(bs.len(), bs + rest) == Some((Ok::<Seq<u8>, DecodeError>(bs), bs.len())),
{
    lemma_encode_seq_bytes(bs);
    lemma_roundtrip_seq::<u8>(bs, rest);
}

/// Encoding the bytes of a byte string one by one gives the byte string.
proof fn lemma_encode_seq_bytes(bs: Seq<u8>)
    ensures
        encode_seq::<u8>(bs) == (bs, Option::<crate::error::EncodeError>::None),
    decreases bs.len(),
{
    if bs.len() > 0 {
        lemma_encode_seq_bytes(bs.drop_last());
        assert(bs.drop_last() + seq![bs.last()] =~= bs);
    } else {
        assert(bs =~= Seq::<u8>::empty());
    }
}

impl<T: Roundtrip> Roundtrip for Box<T> {
    proof fn lemma_roundtrip(m: T::M, rest: Seq<u8>) {
        T::lemma_roundtrip(m, rest);
    }
}

impl<T: Roundtrip> Roundtrip for Rc<T> {
    proof fn lemma_roundtrip(m: T::M, rest: Seq<u8>) {
        T::lemma_roundtrip(m, rest);
    }
}

impl<T: Roundtrip> Roundtrip for Arc<T> {
    proof fn lemma_roundtrip(m: T::M, rest: Seq<u8>) {
        T::lemma_roundtrip(m, rest);
    }
}

impl<T: Roundtrip> Roundtrip for Range<T> {
    proof fn lemma_roundtrip(m: (T::M, T::M), rest: Seq<u8>) {
        let e0 = T::spec_encode(m.0).0;
        let e1 = T::spec_encode(m.1).0;
        T::lemma_roundtrip(m.0, e1 + rest);
        T::lemma_roundtrip(m.1, rest);
        assert(e0 + e1 + rest =~= e0 + (e1 + rest));
        assert((e0 + (e1 + rest)).skip(e0.len() as int) =~= e1 + rest);
    }
}

impl<T: Roundtrip> Roundtrip for RangeInclusive<T> {
    proof fn lemma_roundtrip(m: (T::M, T::M), rest: Seq<u8>) {
        <Range<T> as Roundtrip>::lemma_roundtrip(m, rest);
    }
}

} // verus!
