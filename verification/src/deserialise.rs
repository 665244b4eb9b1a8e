//! Deserialisation from d-streams.
use vstd::prelude::*;
use crate::bytes::{be_value, lemma_be_value_bound, lemma_pow256_values, lemma_untwos_roundtrip, untwos};
use crate::d_stream::Dstream;
use crate::decode::{array_from_vec, lemma_skip_skip};
use crate::error::Error;
use crate::model::{Model, result_model, seq_model};
use crate::text::{char_from_u32, is_code_point};
use std::marker::PhantomData;

verus! {

/// What deserialising some bytes gives: the outcome, as a model, and the number of bytes consumed.
///
/// `None` stands for input that runs out before the deserialisation is done.
pub type Deserialising<M> = Option<(Result<M, Error>, nat)>;

/// `after` is `before` advanced past a deserialisation that `spec` describes and that gave `r`.
pub open spec fn deserialised<T: Model>(
    after: Dstream,
    before: Dstream,
    spec: Deserialising<T::M>,
    r: Result<T, Error>,
) -> bool {
    &&& spec matches Some((m, n))
    &&& m == result_model(r)
    &&& n <= before.rest().len()
    &&& after.data() == before.data()
    &&& after.pos() == before.pos() + n
    &&& after.rest() == before.rest().skip(n as int)
}

/// Deserialising with `first`, then with `second` from where `first` stopped.
///
/// `second` is given the model that `first` produced and the bytes that follow it.
pub open spec fn deserialise_then<A, B>(
    first: Deserialising<A>,
    bytes: Seq<u8>,
    second: spec_fn(A, Seq<u8>) -> Deserialising<B>,
) -> Deserialising<B> {
    match first {
        None => None,
        Some((Err(e), n)) => Some((Err(e), n)),
        Some((Ok(a), n)) => match second(a, bytes.skip(n as int)) {
            None => None,
            Some((r, k)) => Some((r, n + k)),
        },
    }
}

/// Deserialisation that gives `r` after consuming `n` bytes, where the input holds them.
pub open spec fn deserialise_fixed<M>(bytes: Seq<u8>, n: nat, r: Result<M, Error>) -> Deserialising<M> {
    if n <= bytes.len() {
        Some((r, n))
    } else {
        None
    }
}

/// Two deserialisations in a row consume what both consume.
pub proof fn lemma_deserialised_then<A: Model, B: Model>(
    s0: Dstream,
    s1: Dstream,
    s2: Dstream,
    first: Deserialising<A::M>,
    ra: Result<A, Error>,
    second: Deserialising<B::M>,
    rb: Result<B, Error>,
)
    requires
        deserialised(s1, s0, first, ra),
        deserialised(s2, s1, second, rb),
    ensures
        s2.data() == s0.data(),
        s2.pos() == s0.pos() + first.unwrap().1 + second.unwrap().1,
        first.unwrap().1 + second.unwrap().1 <= s0.rest().len(),
        s2.rest() == s0.rest().skip(first.unwrap().1 + second.unwrap().1 as int),
        s1.rest() == s0.rest().skip(first.unwrap().1 as int),
{
    lemma_skip_skip(s0.rest(), first.unwrap().1 as int, second.unwrap().1 as int);
}

/// Deserialising `k` values of `T` one after the other.
pub open spec fn deserialise_many<T: Deserialise>(k: nat, bytes: Seq<u8>) -> Deserialising<Seq<T::M>>
    decreases k,
{
    if k == 0 {
        Some((Ok(Seq::empty()), 0))
    } else {
        deserialise_then(
            deserialise_many::<T>((k - 1) as nat, bytes),
            bytes,
            |s: Seq<T::M>, rest: Seq<u8>|
                match T::spec_deserialise(rest) {
                    None => None,
                    Some((Err(e), n)) => Some((Err(e), n)),
                    Some((Ok(v), n)) => Some((Ok(s.push(v)), n)),
                },
        )
    }
}

/// Where deserialising `k` values succeeds in part, so does decoding fewer of them.
pub proof fn lemma_deserialise_many_prefix<T: Deserialise>(k: nat, i: nat, bytes: Seq<u8>)
    requires
        i <= k,
        deserialise_many::<T>(k, bytes) is Some,
    ensures
        deserialise_many::<T>(i, bytes) is Some,
        deserialise_many::<T>(i, bytes) matches Some((Ok(s), c)) ==> s.len() == i && (i < k ==> T::spec_deserialise(bytes.skip(c as int)) is Some),
        deserialise_many::<T>(i, bytes) matches Some((Err(e), c)) ==> deserialise_many::<T>(k, bytes) == deserialise_many::<T>(i, bytes),
    decreases k,
{
    if i < k {
        lemma_deserialise_many_prefix::<T>((k - 1) as nat, i, bytes);
        if i + 1 == k {
            lemma_deserialise_many_len::<T>(i, bytes);
        }
    } else {
        lemma_deserialise_many_len::<T>(i, bytes);
    }
}

/// A successful deserialisation of `k` values gives `k` values.
pub proof fn lemma_deserialise_many_len<T: Deserialise>(k: nat, bytes: Seq<u8>)
    ensures
        deserialise_many::<T>(k, bytes) matches Some((Ok(s), c)) ==> s.len() == k,
    decreases k,
{
    if k > 0 {
        lemma_deserialise_many_len::<T>((k - 1) as nat, bytes);
    }
}

/// Denotes a type capable of being deserialised.
pub trait Deserialise: Model + Sized {
    /// What deserialising the given bytes gives.
    spec fn spec_deserialise(bytes: Seq<u8>) -> Deserialising<Self::M>;

    /// Deserialises an object from the provided stream.
    ///
    /// # Errors
    ///
    /// If deserialisation fails due to e.g. an invalid byte sequence in the stream, then an error is
    /// returned.
    ///
    /// The stream must hold enough bytes for the deserialisation (the caller's obligation).
    fn deserialise(stream: &mut Dstream) -> (r: Result<Self, Error>)
        requires
            Self::spec_deserialise(old(stream).rest()) is Some,
        ensures
            deserialised(*final(stream), *old(stream), Self::spec_deserialise(old(stream).rest()), r),
    ;
}

impl Deserialise for u8 {
    open spec fn spec_deserialise(bytes: Seq<u8>) -> Deserialising<u8> {
        deserialise_fixed(bytes, 1, Ok(bytes[0]))
    }

    fn deserialise(stream: &mut Dstream) -> (r: Result<u8, Error>) {
        let s = stream.read_exact(1);
        Ok(s[0])
    }
}

impl Deserialise for u16 {
    open spec fn spec_deserialise(bytes: Seq<u8>) -> Deserialising<u16> {
        deserialise_fixed(bytes, 2, Ok(be_value(bytes.take(2)) as u16))
    }

    fn deserialise(stream: &mut Dstream) -> (r: Result<u16, Error>) {
        proof {
            lemma_pow256_values();
        }
        let v = stream.read_be(2);
        Ok(v as u16)
    }
}

impl Deserialise for u32 {
    open spec fn spec_deserialise(bytes: Seq<u8>) -> Deserialising<u32> {
        deserialise_fixed(bytes, 4, Ok(be_value(bytes.take(4)) as u32))
    }

    fn deserialise(stream: &mut Dstream) -> (r: Result<u32, Error>) {
        proof {
            lemma_pow256_values();
        }
        let v = stream.read_be(4);
        Ok(v as u32)
    }
}

impl Deserialise for u64 {
    open spec fn spec_deserialise(bytes: Seq<u8>) -> Deserialising<u64> {
        deserialise_fixed(bytes, 8, Ok(be_value(bytes.take(8)) as u64))
    }

    fn deserialise(stream: &mut Dstream) -> (r: Result<u64, Error>) {
        proof {
            lemma_pow256_values();
        }
        let v = stream.read_be(8);
        Ok(v as u64)
    }
}

impl Deserialise for u128 {
    open spec fn spec_deserialise(bytes: Seq<u8>) -> Deserialising<u128> {
        deserialise_fixed(bytes, 16, Ok(be_value(bytes.take(16)) as u128))
    }

    fn deserialise(stream: &mut Dstream) -> (r: Result<u128, Error>) {
        proof {
            lemma_pow256_values();
        }
        let v = stream.read_be(16);
        Ok(v as u128)
    }
}

impl Deserialise for i8 {
    open spec fn spec_deserialise(bytes: Seq<u8>) -> Deserialising<i8> {
        deserialise_fixed(bytes, 1, Ok(untwos(be_value(bytes.take(1)), 1) as i8))
    }

    fn deserialise(stream: &mut Dstream) -> (r: Result<i8, Error>) {
        proof {
            lemma_pow256_values();
        }
        let u = stream.read_be(1);
        let v: i8 = if u < 0x80 {
            u as i8
        } else {
            (u as i128 - 0x100) as i8
        };
        Ok(v)
    }
}

impl Deserialise for i16 {
    open spec fn spec_deserialise(bytes: Seq<u8>) -> Deserialising<i16> {
        deserialise_fixed(bytes, 2, Ok(untwos(be_value(bytes.take(2)), 2) as i16))
    }

    fn deserialise(stream: &mut Dstream) -> (r: Result<i16, Error>) {
        proof {
            lemma_pow256_values();
        }
        let u = stream.read_be(2);
        let v: i16 = if u < 0x8000 {
            u as i16
        } else {
            (u as i128 - 0x1_0000) as i16
        };
        Ok(v)
    }
}

impl Deserialise for i32 {
    open spec fn spec_deserialise(bytes: Seq<u8>) -> Deserialising<i32> {
        deserialise_fixed(bytes, 4, Ok(untwos(be_value(bytes.take(4)), 4) as i32))
    }

    fn deserialise(stream: &mut Dstream) -> (r: Result<i32, Error>) {
        proof {
            lemma_pow256_values();
        }
        let u = stream.read_be(4);
        let v: i32 = if u < 0x8000_0000 {
            u as i32
        } else {
            (u as i128 - 0x1_0000_0000) as i32
        };
        Ok(v)
    }
}

impl Deserialise for i64 {
    open spec fn spec_deserialise(bytes: Seq<u8>) -> Deserialising<i64> {
        deserialise_fixed(bytes, 8, Ok(untwos(be_value(bytes.take(8)), 8) as i64))
    }

    fn deserialise(stream: &mut Dstream) -> (r: Result<i64, Error>) {
        proof {
            lemma_pow256_values();
        }
        let u = stream.read_be(8);
        let v: i64 = if u < 0x8000_0000_0000_0000 {
            u as i64
        } else {
            (u as i128 - 0x1_0000_0000_0000_0000) as i64
        };
        Ok(v)
    }
}

impl Deserialise for i128 {
    open spec fn spec_deserialise(bytes: Seq<u8>) -> Deserialising<i128> {
        deserialise_fixed(bytes, 16, Ok(untwos(be_value(bytes.take(16)), 16) as i128))
    }

    fn deserialise(stream: &mut Dstream) -> (r: Result<i128, Error>) {
        proof {
            lemma_pow256_values();
        }
        let u = stream.read_be(16);
        let v: i128 = if u < 0x8000_0000_0000_0000_0000_0000_0000_0000 {
            u as i128
        } else {
            (u - 0x8000_0000_0000_0000_0000_0000_0000_0000) as i128 + i128::MIN
        };
        Ok(v)
    }
}

impl Deserialise for bool {
    open spec fn spec_deserialise(bytes: Seq<u8>) -> Deserialising<bool> {
        deserialise_fixed(
            bytes,
            1,
            if bytes[0] == 0 {
                Ok(false)
            } else if bytes[0] == 1 {
                Ok(true)
            } else {
                Err(Error::InvalidBoolean(bytes[0]))
            },
        )
    }

    fn deserialise(stream: &mut Dstream) -> (r: Result<bool, Error>) {
        let value = u8::deserialise(stream)?;
        match value {
            0 => Ok(false),
            1 => Ok(true),
            _ => Err(Error::InvalidBoolean(value)),
        }
    }
}

impl Deserialise for () {
    open spec fn spec_deserialise(bytes: Seq<u8>) -> Deserialising<()> {
        Some((Ok(()), 0))
    }

    fn deserialise(stream: &mut Dstream) -> (r: Result<(), Error>) {
        proof {
            assert(stream.rest().skip(0) =~= stream.rest());
        }
        Ok(())
    }
}

impl<T> Deserialise for PhantomData<T> {
    open spec fn spec_deserialise(bytes: Seq<u8>) -> Deserialising<()> {
        Some((Ok(()), 0))
    }

    fn deserialise(stream: &mut Dstream) -> (r: Result<PhantomData<T>, Error>) {
        proof {
            assert(stream.rest().skip(0) =~= stream.rest());
        }
        Ok(PhantomData)
    }
}

impl<T: Deserialise> Deserialise for Option<T> {
    open spec fn spec_deserialise(bytes: Seq<u8>) -> Deserialising<Option<T::M>> {
        deserialise_then(
            <bool as Deserialise>::spec_deserialise(bytes),
            bytes,
            |sign: bool, rest: Seq<u8>|
                if sign {
                    match T::spec_deserialise(rest) {
                        None => None,
                        Some((Err(e), k)) => Some((Err(e), k)),
                        Some((Ok(v), k)) => Some((Ok(Some(v)), k)),
                    }
                } else {
                    Some((Ok(None), 0))
                },
        )
    }

    fn deserialise(stream: &mut Dstream) -> (r: Result<Option<T>, Error>) {
        let ghost s0 = *stream;
        let sign = bool::deserialise(stream)?;
        if sign {
            let ghost s1 = *stream;
            proof {
                lemma_skip_skip(s0.rest(), 0, 1);
            }
            let v = T::deserialise(stream);
            proof {
                lemma_deserialised_then(s0, s1, *stream, <bool as Deserialise>::spec_deserialise(s0.rest()), Ok::<bool, Error>(sign), T::spec_deserialise(s1.rest()), v);
            }
            match v {
                Ok(v) => Ok(Some(v)),
                Err(e) => Err(e),
            }
        } else {
            proof {
                assert(s0.rest().skip(1).skip(0) =~= s0.rest().skip(1));
            }
            Ok(None)
        }
    }
}

impl<T: Deserialise, E: Deserialise> Deserialise for Result<T, E> {
    open spec fn spec_deserialise(bytes: Seq<u8>) -> Deserialising<Result<T::M, E::M>> {
        deserialise_then(
            <bool as Deserialise>::spec_deserialise(bytes),
            bytes,
            |sign: bool, rest: Seq<u8>|
                if sign {
                    match E::spec_deserialise(rest) {
                        None => None,
                        Some((Err(e), k)) => Some((Err(e), k)),
                        Some((Ok(v), k)) => Some((Ok(Err(v)), k)),
                    }
                } else {
                    match T::spec_deserialise(rest) {
                        None => None,
                        Some((Err(e), k)) => Some((Err(e), k)),
                        Some((Ok(v), k)) => Some((Ok(Ok(v)), k)),
                    }
                },
        )
    }

    fn deserialise(stream: &mut Dstream) -> (r: Result<Result<T, E>, Error>) {
        let ghost s0 = *stream;
        let sign = bool::deserialise(stream)?;
        let ghost s1 = *stream;
        proof {
            lemma_skip_skip(s0.rest(), 0, 1);
        }
        if sign {
            let v = E::deserialise(stream);
            proof {
                lemma_deserialised_then(s0, s1, *stream, <bool as Deserialise>::spec_deserialise(s0.rest()), Ok::<bool, Error>(sign), E::spec_deserialise(s1.rest()), v);
            }
            match v {
                Ok(v) => Ok(Err(v)),
                Err(e) => Err(e),
            }
        } else {
            let v = T::deserialise(stream);
            proof {
                lemma_deserialised_then(s0, s1, *stream, <bool as Deserialise>::spec_deserialise(s0.rest()), Ok::<bool, Error>(sign), T::spec_deserialise(s1.rest()), v);
            }
            match v {
                Ok(v) => Ok(Ok(v)),
                Err(e) => Err(e),
            }
        }
    }
}

/// Deserialises `k` values one after the other.
pub(crate) fn deserialise_elements<T: Deserialise>(stream: &mut Dstream, k: usize) -> (r: Result<Vec<T>, Error>)
    requires
        deserialise_many::<T>(k as nat, old(stream).rest()) is Some,
    ensures
        deserialised(*final(stream), *old(stream), deserialise_many::<T>(k as nat, old(stream).rest()), r),
{
    let ghost s0 = *stream;
    let ghost bytes = s0.rest();
    let mut v: Vec<T> = Vec::new();
    let mut i: usize = 0;
    proof {
        assert(bytes.skip(0) =~= bytes);
        assert(seq_model(v@) =~= Seq::<T::M>::empty());
    }
    while i < k
        invariant
            0 <= i <= k,
            s0 == *old(stream),
            bytes == s0.rest(),
            deserialise_many::<T>(k as nat, bytes) is Some,
            deserialise_many::<T>(i as nat, bytes) matches Some((Ok(s), c)) && s == seq_model(v@)
                && c <= bytes.len() && stream.data() == s0.data() && stream.pos() == s0.pos() + c
                && stream.rest() == bytes.skip(c as int),
        decreases k - i,
    {
        let ghost c = deserialise_many::<T>(i as nat, bytes).unwrap().1;
        let ghost s1 = *stream;
        proof {
            lemma_deserialise_many_prefix::<T>(k as nat, i as nat, bytes);
        }
        let x = T::deserialise(stream);
        proof {
            let step = T::spec_deserialise(s1.rest());
            lemma_skip_skip(bytes, c as int, step.unwrap().1 as int);
        }
        match x {
            Err(e) => {
                proof {
                    lemma_deserialise_many_prefix::<T>(k as nat, (i + 1) as nat, bytes);
                }
                return Err(e);
            },
            Ok(x) => {
                let ghost before = v@;
                v.push(x);
                proof {
                    assert(seq_model(v@) =~= seq_model(before).push(x.model()));
                }
            },
        }
        i = i + 1;
    }
    Ok(v)
}

impl<T: Deserialise, const N: usize> Deserialise for [T; N] {
    open spec fn spec_deserialise(bytes: Seq<u8>) -> Deserialising<Seq<T::M>> {
        deserialise_many::<T>(N as nat, bytes)
    }

    fn deserialise(stream: &mut Dstream) -> (r: Result<[T; N], Error>) {
        let v = deserialise_elements::<T>(stream, N);
        proof {
            lemma_deserialise_many_len::<T>(N as nat, old(stream).rest());
        }
        match v {
            Ok(v) => Ok(array_from_vec(v)),
            Err(e) => Err(e),
        }
    }
}

impl Deserialise for usize {
    open spec fn spec_deserialise(bytes: Seq<u8>) -> Deserialising<usize> {
        deserialise_fixed(bytes, 4, Ok(be_value(bytes.take(4)) as usize))
    }

    fn deserialise(stream: &mut Dstream) -> (r: Result<usize, Error>) {
        proof {
            lemma_pow256_values();
            lemma_be_value_bound(stream.rest().take(4));
        }
        let v = u32::deserialise(stream)?;
        Ok(v as usize)
    }
}

impl Deserialise for isize {
    open spec fn spec_deserialise(bytes: Seq<u8>) -> Deserialising<isize> {
        deserialise_fixed(bytes, 4, Ok(untwos(be_value(bytes.take(4)), 4) as isize))
    }

    fn deserialise(stream: &mut Dstream) -> (r: Result<isize, Error>) {
        proof {
            lemma_pow256_values();
            lemma_be_value_bound(stream.rest().take(4));
            lemma_untwos_roundtrip(be_value(stream.rest().take(4)), 4);
        }
        let v = i32::deserialise(stream)?;
        Ok(v as isize)
    }
}

/// What deserialising a character with code `v` gives.
pub open spec fn char_of_code(v: u32) -> Result<char, Error> {
    if is_code_point(v) {
        Ok(v as char)
    } else {
        Err(Error::InvalidCodePoint { value: v })
    }
}

impl Deserialise for char {
    open spec fn spec_deserialise(bytes: Seq<u8>) -> Deserialising<char> {
        deserialise_fixed(bytes, 4, char_of_code(be_value(bytes.take(4)) as u32))
    }

    fn deserialise(stream: &mut Dstream) -> (r: Result<char, Error>) {
        let value = u32::deserialise(stream)?;
        match char_from_u32(value) {
            Some(c) => Ok(c),
            None => Err(Error::InvalidCodePoint { value }),
        }
    }
}

} // verus!
