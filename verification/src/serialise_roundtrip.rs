//! Deserialising what was serialised gives back the serialised value.
use vstd::prelude::*;
use crate::bytes::{be_bytes, lemma_be_value_of_bytes, lemma_pow256_values, lemma_take_append, lemma_twos_roundtrip, twos};
use crate::deserialise::{Deserialise, deserialise_many};
use crate::error::Error;
use crate::model::Model;
use crate::serialise::{Serialise, lemma_flatten_append, lemma_write_once, serialise_seq, serialised_bytes};
use std::marker::PhantomData;
use vstd::utf8::char_u32_cast;

verus! {

/// Types whose deserialisation undoes their serialisation.
///
/// Deserialising the bytes of a successful serialisation of a value, whatever follows them,
/// gives back the value and consumes exactly those bytes.
pub trait SerialiseRoundtrip: Serialise + Deserialise {
    proof fn lemma_serialise_roundtrip(m: Self::M, rest: Seq<u8>)
        requires
            Self::model_wf(m),
            Self::spec_serialise(m).1 is None,
        ensures
            Self::spec_deserialise(serialised_bytes(Self::spec_serialise(m)) + rest) == Some(
                (Ok::<Self::M, Error>(m), serialised_bytes(Self::spec_serialise(m)).len()),
            ),
    ;
}

/// Deserialising the serialisations of a sequence of values gives back the values.
pub proof fn lemma_serialise_roundtrip_seq<T: SerialiseRoundtrip>(m: Seq<T::M>, rest: Seq<u8>)
    requires
        forall|i: int| 0 <= i < m.len() ==> T::model_wf(#[trigger] m[i]),
        serialise_seq::<T>(m).1 is None,
    ensures
        deserialise_many::<T>(m.len(), serialised_bytes(serialise_seq::<T>(m)) + rest) == Some(
            (Ok::<Seq<T::M>, Error>(m), serialised_bytes(serialise_seq::<T>(m)).len()),
        ),
    decreases m.len(),
{
    if m.len() == 0 {
        assert(Seq::<u8>::empty() + rest =~= rest);
        assert(m =~= Seq::<T::M>::empty());
    } else {
        let p = m.drop_last();
        let x = m.last();
        let sp = serialise_seq::<T>(p);
        let sx = T::spec_serialise(x);
        lemma_flatten_append(sp.0, sx.0);
        let ep = serialised_bytes(sp);
        let ex = serialised_bytes(sx);
        assert forall|i: int| 0 <= i < p.len() implies T::model_wf(#[trigger] p[i]) by {
            assert(p[i] == m[i]);
        }
        lemma_serialise_roundtrip_seq::<T>(p, ex + rest);
        T::lemma_serialise_roundtrip(x, rest);
        let bytes = serialised_bytes(serialise_seq::<T>(m)) + rest;
        assert(bytes =~= ep + (ex + rest));
        assert(bytes.skip(ep.len() as int) =~= ex + rest);
        assert(p.push(x) =~= m);
    }
}

impl SerialiseRoundtrip for u8 {
    proof fn lemma_serialise_roundtrip(m: u8, rest: Seq<u8>) {
        lemma_pow256_values();
        lemma_write_once(be_bytes(m as nat, 1), 0);
        lemma_be_value_of_bytes(m as nat, 1);
        lemma_take_append(be_bytes(m as nat, 1), rest);
    }
}

impl SerialiseRoundtrip for u16 {
    proof fn lemma_serialise_roundtrip(m: u16, rest: Seq<u8>) {
        lemma_pow256_values();
        lemma_write_once(be_bytes(m as nat, 2), 0);
        lemma_be_value_of_bytes(m as nat, 2);
        lemma_take_append(be_bytes(m as nat, 2), rest);
    }
}

impl SerialiseRoundtrip for u32 {
    proof fn lemma_serialise_roundtrip(m: u32, rest: Seq<u8>) {
        lemma_pow256_values();
        lemma_write_once(be_bytes(m as nat, 4), 0);
        lemma_be_value_of_bytes(m as nat, 4);
        lemma_take_append(be_bytes(m as nat, 4), rest);
    }
}

impl SerialiseRoundtrip for u64 {
    proof fn lemma_serialise_roundtrip(m: u64, rest: Seq<u8>) {
        lemma_pow256_values();
        lemma_write_once(be_bytes(m as nat, 8), 0);
        lemma_be_value_of_bytes(m as nat, 8);
        lemma_take_append(be_bytes(m as nat, 8), rest);
    }
}

impl SerialiseRoundtrip for u128 {
    proof fn lemma_serialise_roundtrip(m: u128, rest: Seq<u8>) {
        lemma_pow256_values();
        lemma_write_once(be_bytes(m as nat, 16), 0);
        lemma_be_value_of_bytes(m as nat, 16);
        lemma_take_append(be_bytes(m as nat, 16), rest);
    }
}

impl SerialiseRoundtrip for i8 {
    proof fn lemma_serialise_roundtrip(m: i8, rest: Seq<u8>) {
        lemma_pow256_values();
        lemma_twos_roundtrip(m as int, 1);
        lemma_write_once(be_bytes(twos(m as int, 1), 1), 0);
        lemma_be_value_of_bytes(twos(m as int, 1), 1);
        lemma_take_append(be_bytes(twos(m as int, 1), 1), rest);
    }
}

impl SerialiseRoundtrip for i16 {
    proof fn lemma_serialise_roundtrip(m: i16, rest: Seq<u8>) {
        lemma_pow256_values();
        lemma_twos_roundtrip(m as int, 2);
        lemma_write_once(be_bytes(twos(m as int, 2), 2), 0);
        lemma_be_value_of_bytes(twos(m as int, 2), 2);
        lemma_take_append(be_bytes(twos(m as int, 2), 2), rest);
    }
}

impl SerialiseRoundtrip for i32 {
    proof fn lemma_serialise_roundtrip(m: i32, rest: Seq<u8>) {
        lemma_pow256_values();
        lemma_twos_roundtrip(m as int, 4);
        lemma_write_once(be_bytes(twos(m as int, 4), 4), 0);
        lemma_be_value_of_bytes(twos(m as int, 4), 4);
        lemma_take_append(be_bytes(twos(m as int, 4), 4), rest);
    }
}

impl SerialiseRoundtrip for i64 {
    proof fn lemma_serialise_roundtrip(m: i64, rest: Seq<u8>) {
        lemma_pow256_values();
        lemma_twos_roundtrip(m as int, 8);
        lemma_write_once(be_bytes(twos(m as int, 8), 8), 0);
        lemma_be_value_of_bytes(twos(m as int, 8), 8);
        lemma_take_append(be_bytes(twos(m as int, 8), 8), rest);
    }
}

impl SerialiseRoundtrip for i128 {
    proof fn lemma_serialise_roundtrip(m: i128, rest: Seq<u8>) {
        lemma_pow256_values();
        lemma_twos_roundtrip(m as int, 16);
        lemma_write_once(be_bytes(twos(m as int, 16), 16), 0);
        lemma_be_value_of_bytes(twos(m as int, 16), 16);
        lemma_take_append(be_bytes(twos(m as int, 16), 16), rest);
    }
}

impl SerialiseRoundtrip for usize {
    proof fn lemma_serialise_roundtrip(m: usize, rest: Seq<u8>) {
        lemma_pow256_values();
        lemma_write_once(be_bytes(m as nat, 4), 0);
        lemma_be_value_of_bytes(m as nat, 4);
        lemma_take_append(be_bytes(m as nat, 4), rest);
    }
}

impl SerialiseRoundtrip for isize {
    proof fn lemma_serialise_roundtrip(m: isize, rest: Seq<u8>) {
        lemma_pow256_values();
        lemma_twos_roundtrip(m as int, 4);
        lemma_write_once(be_bytes(twos(m as int, 4), 4), 0);
        lemma_be_value_of_bytes(twos(m as int, 4), 4);
        lemma_take_append(be_bytes(twos(m as int, 4), 4), rest);
    }
}

impl SerialiseRoundtrip for bool {
    proof fn lemma_serialise_roundtrip(m: bool, rest: Seq<u8>) {
        let v: u8 = if m { 1 } else { 0 };
        lemma_pow256_values();
        lemma_write_once(be_bytes(v as nat, 1), 0);
        lemma_be_value_of_bytes(v as nat, 1);
        lemma_take_append(be_bytes(v as nat, 1), rest);
    }
}

impl SerialiseRoundtrip for char {
    proof fn lemma_serialise_roundtrip(m: char, rest: Seq<u8>) {
        lemma_pow256_values();
        lemma_write_once(be_bytes(m as u32 as nat, 4), 0);
        lemma_be_value_of_bytes(m as u32 as nat, 4);
        lemma_take_append(be_bytes(m as u32 as nat, 4), rest);
        char_u32_cast(m, m as u32);
    }
}

impl SerialiseRoundtrip for () {
    proof fn lemma_serialise_roundtrip(m: (), rest: Seq<u8>) {
        assert(Seq::<u8>::empty() + rest =~= rest);
    }
}

impl<T> SerialiseRoundtrip for PhantomData<T> {
    proof fn lemma_serialise_roundtrip(m: (), rest: Seq<u8>) {
        assert(Seq::<u8>::empty() + rest =~= rest);
    }
}

impl<T: SerialiseRoundtrip> SerialiseRoundtrip for Option<T> {
    proof fn lemma_serialise_roundtrip(m: Option<T::M>, rest: Seq<u8>) {
        match m {
            None => {
                <bool as SerialiseRoundtrip>::lemma_serialise_roundtrip(false, rest);
            },
            Some(v) => {
                let sign = <bool as Serialise>::spec_serialise(true);
                let sv = T::spec_serialise(v);
                lemma_flatten_append(sign.0, sv.0);
                lemma_write_once(be_bytes(1, 1), 0);
                let e = serialised_bytes(sv);
                T::lemma_serialise_roundtrip(v, rest);
                <bool as SerialiseRoundtrip>::lemma_serialise_roundtrip(true, e + rest);
                assert(serialised_bytes(Self::spec_serialise(m)) + rest =~= serialised_bytes(sign) + (e + rest));
                assert((serialised_bytes(sign) + (e + rest)).skip(1) =~= e + rest);
            },
        }
    }
}

impl<T: SerialiseRoundtrip, const N: usize> SerialiseRoundtrip for [T; N] {
    proof fn lemma_serialise_roundtrip(m: Seq<T::M>, rest: Seq<u8>) {
        lemma_serialise_roundtrip_seq::<T>(m, rest);
    }
}

} // verus!
