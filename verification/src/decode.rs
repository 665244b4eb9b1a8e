//! Decoding from i-streams.
use vstd::prelude::*;
use crate::bytes::{be_value, lemma_be_value_bound, lemma_pow256_values, lemma_untwos_roundtrip, untwos};
use crate::error::{DecodeError, Utf8Error};
use crate::i_stream::IStream;
use crate::model::{Model, result_model, seq_model};
use crate::text::{char_from_u32, is_code_point, lemma_utf8_valid_up_to_bound, str_from_utf8, utf8_valid_up_to};
use std::marker::PhantomData;
use std::ops::{Range, RangeInclusive};
use std::rc::Rc;
use std::sync::Arc;
use vstd::utf8::{decode_utf8, encode_utf8_decode_utf8, valid_utf8};

verus! {

/// What decoding some bytes gives: the outcome, as a model, and the number of bytes consumed.
///
/// `None` stands for input that runs out before the decoding is done.
pub type Decoding<M> = Option<(Result<M, DecodeError>, nat)>;

/// `after` is `before` advanced past a decoding that `spec` describes and that gave `r`.
pub open spec fn decoded<T: Model>(
    after: IStream,
    before: IStream,
    spec: Decoding<T::M>,
    r: Result<T, DecodeError>,
) -> bool {
    &&& spec matches Some((m, n))
    &&& m == result_model(r)
    &&& n <= before.rest().len()
    &&& after.data() == before.data()
    &&& after.pos() == before.pos() + n
    &&& after.rest() == before.rest().skip(n as int)
}

/// Decoding with `first`, then with `second` from where `first` stopped.
///
/// `second` is given the model that `first` produced and the bytes that follow it.
pub open spec fn decode_then<A, B>(
    first: Decoding<A>,
    bytes: Seq<u8>,
    second: spec_fn(A, Seq<u8>) -> Decoding<B>,
) -> Decoding<B> {
    match first {
        None => None,
        Some((Err(e), n)) => Some((Err(e), n)),
        Some((Ok(a), n)) => match second(a, bytes.skip(n as int)) {
            None => None,
            Some((r, k)) => Some((r, n + k)),
        },
    }
}

/// Decoding that gives `r` after consuming `n` bytes, where the input holds them.
pub open spec fn decode_fixed<M>(bytes: Seq<u8>, n: nat, r: Result<M, DecodeError>) -> Decoding<M> {
    if n <= bytes.len() {
        Some((r, n))
    } else {
        None
    }
}

pub proof fn lemma_skip_skip(s: Seq<u8>, a: int, b: int)
    requires
        0 <= a,
        0 <= b,
        a + b <= s.len(),
    ensures
        s.skip(a).skip(b) == s.skip(a + b),
{
    assert(s.skip(a).skip(b) =~= s.skip(a + b));
}

/// Two decodings in a row consume what both consume.
pub proof fn lemma_decoded_then<A: Model, B: Model>(
    s0: IStream,
    s1: IStream,
    s2: IStream,
    first: Decoding<A::M>,
    ra: Result<A, DecodeError>,
    second: Decoding<B::M>,
    rb: Result<B, DecodeError>,
)
    requires
        decoded(s1, s0, first, ra),
        decoded(s2, s1, second, rb),
    ensures
        s2.data() == s0.data(),
        s2.pos() == s0.pos() + first.unwrap().1 + second.unwrap().1,
        first.unwrap().1 + second.unwrap().1 <= s0.rest().len(),
        s2.rest() == s0.rest().skip(first.unwrap().1 + second.unwrap().1 as int),
        s1.rest() == s0.rest().skip(first.unwrap().1 as int),
{
    lemma_skip_skip(s0.rest(), first.unwrap().1 as int, second.unwrap().1 as int);
}

/// Decoding `k` values of `T` one after the other.
pub open spec fn decode_many<T: Decode>(k: nat, bytes: Seq<u8>) -> Decoding<Seq<T::M>>
    decreases k,
{
    if k == 0 {
        Some((Ok(Seq::empty()), 0))
    } else {
        decode_then(
            decode_many::<T>((k - 1) as nat, bytes),
            bytes,
            |s: Seq<T::M>, rest: Seq<u8>|
                match T::spec_decode(rest) {
                    None => None,
                    Some((Err(e), n)) => Some((Err(e), n)),
                    Some((Ok(v), n)) => Some((Ok(s.push(v)), n)),
                },
        )
    }
}

/// Where decoding `k` values succeeds in part, so does decoding fewer of them.
pub proof fn lemma_decode_many_prefix<T: Decode>(k: nat, i: nat, bytes: Seq<u8>)
    requires
        i <= k,
        decode_many::<T>(k, bytes) is Some,
    ensures
        decode_many::<T>(i, bytes) is Some,
        decode_many::<T>(i, bytes) matches Some((Ok(s), c)) ==> s.len() == i && (i < k ==> T::spec_decode(bytes.skip(c as int)) is Some),
        decode_many::<T>(i, bytes) matches Some((Err(e), c)) ==> decode_many::<T>(k, bytes) == decode_many::<T>(i, bytes),
    decreases k,
{
    if i < k {
        lemma_decode_many_prefix::<T>((k - 1) as nat, i, bytes);
        if i + 1 == k {
            lemma_decode_many_len::<T>(i, bytes);
        }
    } else {
        lemma_decode_many_len::<T>(i, bytes);
    }
}

/// A successful decoding of `k` values gives `k` values.
pub proof fn lemma_decode_many_len<T: Decode>(k: nat, bytes: Seq<u8>)
    ensures
        decode_many::<T>(k, bytes) matches Some((Ok(s), c)) ==> s.len() == k,
    decreases k,
{
    if k > 0 {
        lemma_decode_many_len::<T>((k - 1) as nat, bytes);
    }
}

/// Denotes a type capable of being decoded.
pub trait Decode: Model + Sized {
    /// What decoding the given bytes gives.
    spec fn spec_decode(bytes: Seq<u8>) -> Decoding<Self::M>;

    /// Decodes an object from the provided stream.
    ///
    /// # Errors
    ///
    /// If decoding fails due to e.g. an invalid byte sequence in the stream, then an error is
    /// returned.
    ///
    /// The stream must hold enough bytes for the decoding (the caller's obligation).
    fn decode(stream: &mut IStream) -> (r: Result<Self, DecodeError>)
        requires
            Self::spec_decode(old(stream).rest()) is Some,
        ensures
            decoded(*final(stream), *old(stream), Self::spec_decode(old(stream).rest()), r),
    ;
}

impl Decode for u8 {
    open spec fn spec_decode(bytes: Seq<u8>) -> Decoding<u8> {
        decode_fixed(bytes, 1, Ok(bytes[0]))
    }

    fn decode(stream: &mut IStream) -> (r: Result<u8, DecodeError>) {
        let s = stream.read(1);
        Ok(s[0])
    }
}

impl Decode for u16 {
    open spec fn spec_decode(bytes: Seq<u8>) -> Decoding<u16> {
        decode_fixed(bytes, 2, Ok(be_value(bytes.take(2)) as u16))
    }

    fn decode(stream: &mut IStream) -> (r: Result<u16, DecodeError>) {
        proof {
            lemma_pow256_values();
        }
        let v = stream.read_be(2);
        Ok(v as u16)
    }
}

impl Decode for u32 {
    open spec fn spec_decode(bytes: Seq<u8>) -> Decoding<u32> {
        decode_fixed(bytes, 4, Ok(be_value(bytes.take(4)) as u32))
    }

    fn decode(stream: &mut IStream) -> (r: Result<u32, DecodeError>) {
        proof {
            lemma_pow256_values();
        }
        let v = stream.read_be(4);
        Ok(v as u32)
    }
}

impl Decode for u64 {
    open spec fn spec_decode(bytes: Seq<u8>) -> Decoding<u64> {
        decode_fixed(bytes, 8, Ok(be_value(bytes.take(8)) as u64))
    }

    fn decode(stream: &mut IStream) -> (r: Result<u64, DecodeError>) {
        proof {
            lemma_pow256_values();
        }
        let v = stream.read_be(8);
        Ok(v as u64)
    }
}

impl Decode for u128 {
    open spec fn spec_decode(bytes: Seq<u8>) -> Decoding<u128> {
        decode_fixed(bytes, 16, Ok(be_value(bytes.take(16)) as u128))
    }

    fn decode(stream: &mut IStream) -> (r: Result<u128, DecodeError>) {
        proof {
            lemma_pow256_values();
        }
        let v = stream.read_be(16);
        Ok(v as u128)
    }
}

impl Decode for i8 {
    open spec fn spec_decode(bytes: Seq<u8>) -> Decoding<i8> {
        decode_fixed(bytes, 1, Ok(untwos(be_value(bytes.take(1)), 1) as i8))
    }

    fn decode(stream: &mut IStream) -> (r: Result<i8, DecodeError>) {
        proof {
            lemma_pow256_values();
        }
        let u = stream.read_be(1);
        let v: i8 = if u < 0x80 {
            u as i8
        } else {
            (u as i128 - 0x100) as i8
        };
        Ok(v)
    }
}

impl Decode for i16 {
    open spec fn spec_decode(bytes: Seq<u8>) -> Decoding<i16> {
        decode_fixed(bytes, 2, Ok(untwos(be_value(bytes.take(2)), 2) as i16))
    }

    fn decode(stream: &mut IStream) -> (r: Result<i16, DecodeError>) {
        proof {
            lemma_pow256_values();
        }
        let u = stream.read_be(2);
        let v: i16 = if u < 0x8000 {
            u as i16
        } else {
            (u as i128 - 0x1_0000) as i16
        };
        Ok(v)
    }
}

impl Decode for i32 {
    open spec fn spec_decode(bytes: Seq<u8>) -> Decoding<i32> {
        decode_fixed(bytes, 4, Ok(untwos(be_value(bytes.take(4)), 4) as i32))
    }

    fn decode(stream: &mut IStream) -> (r: Result<i32, DecodeError>) {
        proof {
            lemma_pow256_values();
        }
        let u = stream.read_be(4);
        let v: i32 = if u < 0x8000_0000 {
            u as i32
        } else {
            (u as i128 - 0x1_0000_0000) as i32
        };
        Ok(v)
    }
}

impl Decode for i64 {
    open spec fn spec_decode(bytes: Seq<u8>) -> Decoding<i64> {
        decode_fixed(bytes, 8, Ok(untwos(be_value(bytes.take(8)), 8) as i64))
    }

    fn decode(stream: &mut IStream) -> (r: Result<i64, DecodeError>) {
        proof {
            lemma_pow256_values();
        }
        let u = stream.read_be(8);
        let v: i64 = if u < 0x8000_0000_0000_0000 {
            u as i64
        } else {
            (u as i128 - 0x1_0000_0000_0000_0000) as i64
        };
        Ok(v)
    }
}

impl Decode for i128 {
    open spec fn spec_decode(bytes: Seq<u8>) -> Decoding<i128> {
        decode_fixed(bytes, 16, Ok(untwos(be_value(bytes.take(16)), 16) as i128))
    }

    fn decode(stream: &mut IStream) -> (r: Result<i128, DecodeError>) {
        proof {
            lemma_pow256_values();
        }
        let u = stream.read_be(16);
        let v: i128 = if u < 0x8000_0000_0000_0000_0000_0000_0000_0000 {
            u as i128
        } else {
            (u - 0x8000_0000_0000_0000_0000_0000_0000_0000) as i128 + i128::MIN
        };
        Ok(v)
    }
}

impl Decode for bool {
    open spec fn spec_decode(bytes: Seq<u8>) -> Decoding<bool> {
        decode_fixed(
            bytes,
            1,
            if bytes[0] == 0 {
                Ok(false)
            } else if bytes[0] == 1 {
                Ok(true)
            } else {
                Err(DecodeError::InvalidBoolean(bytes[0]))
            },
        )
    }

    fn decode(stream: &mut IStream) -> (r: Result<bool, DecodeError>) {
        let value = u8::decode(stream)?;
        match value {
            0 => Ok(false),
            1 => Ok(true),
            _ => Err(DecodeError::InvalidBoolean(value)),
        }
    }
}

impl Decode for usize {
    open spec fn spec_decode(bytes: Seq<u8>) -> Decoding<usize> {
        decode_fixed(bytes, 2, Ok(be_value(bytes.take(2)) as usize))
    }

    fn decode(stream: &mut IStream) -> (r: Result<usize, DecodeError>) {
        proof {
            lemma_pow256_values();
            lemma_be_value_bound(stream.rest().take(2));
        }
        let v = u16::decode(stream)?;
        Ok(v as usize)
    }
}

impl Decode for isize {
    open spec fn spec_decode(bytes: Seq<u8>) -> Decoding<isize> {
        decode_fixed(bytes, 2, Ok(untwos(be_value(bytes.take(2)), 2) as isize))
    }

    fn decode(stream: &mut IStream) -> (r: Result<isize, DecodeError>) {
        proof {
            lemma_pow256_values();
            lemma_be_value_bound(stream.rest().take(2));
            lemma_untwos_roundtrip(be_value(stream.rest().take(2)), 2);
        }
        let v = i16::decode(stream)?;
        Ok(v as isize)
    }
}

/// What decoding a character with code `v` gives.
pub open spec fn char_from_code(v: u32) -> Result<char, DecodeError> {
    if is_code_point(v) {
        Ok(v as char)
    } else {
        Err(DecodeError::InvalidCodePoint(v))
    }
}

impl Decode for char {
    open spec fn spec_decode(bytes: Seq<u8>) -> Decoding<char> {
        decode_fixed(bytes, 4, char_from_code(be_value(bytes.take(4)) as u32))
    }

    fn decode(stream: &mut IStream) -> (r: Result<char, DecodeError>) {
        let value = u32::decode(stream)?;
        match char_from_u32(value) {
            Some(c) => Ok(c),
            None => Err(DecodeError::InvalidCodePoint(value)),
        }
    }
}

impl Decode for () {
    open spec fn spec_decode(bytes: Seq<u8>) -> Decoding<()> {
        Some((Ok(()), 0))
    }

    fn decode(stream: &mut IStream) -> (r: Result<(), DecodeError>) {
        proof {
            assert(stream.rest().skip(0) =~= stream.rest());
        }
        Ok(())
    }
}

impl<T> Decode for PhantomData<T> {
    open spec fn spec_decode(bytes: Seq<u8>) -> Decoding<()> {
        Some((Ok(()), 0))
    }

    fn decode(stream: &mut IStream) -> (r: Result<PhantomData<T>, DecodeError>) {
        proof {
            assert(stream.rest().skip(0) =~= stream.rest());
        }
        Ok(PhantomData)
    }
}

impl<T: Decode> Decode for Option<T> {
    open spec fn spec_decode(bytes: Seq<u8>) -> Decoding<Option<T::M>> {
        decode_then(
            <bool as Decode>::spec_decode(bytes),
            bytes,
            |sign: bool, rest: Seq<u8>|
                if sign {
                    match T::spec_decode(rest) {
                        None => None,
                        Some((Err(e), k)) => Some((Err(e), k)),
                        Some((Ok(v), k)) => Some((Ok(Some(v)), k)),
                    }
                } else {
                    Some((Ok(None), 0))
                },
        )
    }

    fn decode(stream: &mut IStream) -> (r: Result<Option<T>, DecodeError>) {
        let ghost s0 = *stream;
        let sign = bool::decode(stream)?;
        if sign {
            let ghost s1 = *stream;
            proof {
                lemma_skip_skip(s0.rest(), 0, 1);
            }
            let v = T::decode(stream);
            proof {
                lemma_decoded_then(s0, s1, *stream, <bool as Decode>::spec_decode(s0.rest()), Ok::<bool, DecodeError>(sign), T::spec_decode(s1.rest()), v);
            }
            match v {
                Ok(v) => Ok(Some(v)),
                Err(e) => Err(e),
            }
        } else {
            proof {
                assert(s0.rest().skip(1).skip(0) =~= s0.rest().skip(1));
            }
            Ok(None)
        }
    }
}

impl<T: Decode, E: Decode> Decode for Result<T, E> {
    open spec fn spec_decode(bytes: Seq<u8>) -> Decoding<Result<T::M, E::M>> {
        decode_then(
            <bool as Decode>::spec_decode(bytes),
            bytes,
            |sign: bool, rest: Seq<u8>|
                if sign {
                    match E::spec_decode(rest) {
                        None => None,
                        Some((Err(e), k)) => Some((Err(e), k)),
                        Some((Ok(v), k)) => Some((Ok(Err(v)), k)),
                    }
                } else {
                    match T::spec_decode(rest) {
                        None => None,
                        Some((Err(e), k)) => Some((Err(e), k)),
                        Some((Ok(v), k)) => Some((Ok(Ok(v)), k)),
                    }
                },
        )
    }

    fn decode(stream: &mut IStream) -> (r: Result<Result<T, E>, DecodeError>) {
        let ghost s0 = *stream;
        let sign = bool::decode(stream)?;
        let ghost s1 = *stream;
        proof {
            lemma_skip_skip(s0.rest(), 0, 1);
        }
        if sign {
            let v = E::decode(stream);
            proof {
                lemma_decoded_then(s0, s1, *stream, <bool as Decode>::spec_decode(s0.rest()), Ok::<bool, DecodeError>(sign), E::spec_decode(s1.rest()), v);
            }
            match v {
                Ok(v) => Ok(Err(v)),
                Err(e) => Err(e),
            }
        } else {
            let v = T::decode(stream);
            proof {
                lemma_decoded_then(s0, s1, *stream, <bool as Decode>::spec_decode(s0.rest()), Ok::<bool, DecodeError>(sign), T::spec_decode(s1.rest()), v);
            }
            match v {
                Ok(v) => Ok(Ok(v)),
                Err(e) => Err(e),
            }
        }
    }
}

/// Decodes `k` values one after the other.
pub(crate) fn decode_elements<T: Decode>(stream: &mut IStream, k: usize) -> (r: Result<Vec<T>, DecodeError>)
    requires
        decode_many::<T>(k as nat, old(stream).rest()) is Some,
    ensures
        decoded(*final(stream), *old(stream), decode_many::<T>(k as nat, old(stream).rest()), r),
{
    let ghost s0 = *stream;
    let ghost bytes = s0.rest();
    let mut v: Vec<T> = Vec::new();
    let mut i: usize = 0;
    proof {
        assert(bytes.skip(0) =~= bytes);
        assert(seq_model(v@) =~= Seq::<T::M>::empty());
    }
    while i < k
        invariant
            0 <= i <= k,
            s0 == *old(stream),
            bytes == s0.rest(),
            decode_many::<T>(k as nat, bytes) is Some,
            decode_many::<T>(i as nat, bytes) matches Some((Ok(s), c)) && s == seq_model(v@)
                && c <= bytes.len() && stream.data() == s0.data() && stream.pos() == s0.pos() + c
                && stream.rest() == bytes.skip(c as int),
        decreases k - i,
    {
        let ghost c = decode_many::<T>(i as nat, bytes).unwrap().1;
        let ghost s1 = *stream;
        proof {
            lemma_decode_many_prefix::<T>(k as nat, i as nat, bytes);
        }
        let x = T::decode(stream);
        proof {
            let step = T::spec_decode(s1.rest());
            lemma_skip_skip(bytes, c as int, step.unwrap().1 as int);
        }
        match x {
            Err(e) => {
                proof {
                    lemma_decode_many_prefix::<T>(k as nat, (i + 1) as nat, bytes);
                }
                return Err(e);
            },
            Ok(x) => {
                let ghost before = v@;
                v.push(x);
                proof {
                    assert(seq_model(v@) =~= seq_model(before).push(x.model()));
                }
            },
        }
        i = i + 1;
    }
    Ok(v)
}

/// Converts a vector of exactly `N` elements into an array (`TryFrom<Vec<T>>` for `[T; N]`).
#[verifier::external_body]
pub(crate) fn array_from_vec<T, const N: usize>(v: Vec<T>) -> (r: [T; N])
    requires
        v@.len() == N,
    ensures
        r@ == v@,
{
    <[T; N]>::try_from(v).ok().unwrap()
}

impl<T: Decode, const N: usize> Decode for [T; N] {
    open spec fn spec_decode(bytes: Seq<u8>) -> Decoding<Seq<T::M>> {
        decode_many::<T>(N as nat, bytes)
    }

    fn decode(stream: &mut IStream) -> (r: Result<[T; N], DecodeError>) {
        let v = decode_elements::<T>(stream, N);
        proof {
            lemma_decode_many_len::<T>(N as nat, old(stream).rest());
        }
        match v {
            Ok(v) => Ok(array_from_vec(v)),
            Err(e) => Err(e),
        }
    }
}

impl<T: Decode> Decode for Vec<T> {
    open spec fn spec_decode(bytes: Seq<u8>) -> Decoding<Seq<T::M>> {
        decode_then(
            <usize as Decode>::spec_decode(bytes),
            bytes,
            |n: usize, rest: Seq<u8>| decode_many::<T>(n as nat, rest),
        )
    }

    fn decode(stream: &mut IStream) -> (r: Result<Vec<T>, DecodeError>) {
        let ghost s0 = *stream;
        let len = usize::decode(stream)?;
        let ghost s1 = *stream;
        let v = decode_elements::<T>(stream, len);
        proof {
            lemma_decoded_then(s0, s1, *stream, <usize as Decode>::spec_decode(s0.rest()), Ok::<usize, DecodeError>(len), decode_many::<T>(len as nat, s1.rest()), v);
        }
        v
    }
}

/// What decoding a string whose bytes are `bs` gives.
pub open spec fn decode_string(bs: Seq<u8>) -> Result<Seq<char>, DecodeError> {
    if valid_utf8(bs) {
        Ok(decode_utf8(bs))
    } else {
        Err(DecodeError::BadString(Utf8Error { value: bs[utf8_valid_up_to(bs) as int], index: utf8_valid_up_to(bs) as usize }))
    }
}

impl Decode for String {
    open spec fn spec_decode(bytes: Seq<u8>) -> Decoding<Seq<char>> {
        decode_then(
            <Vec<u8> as Decode>::spec_decode(bytes),
            bytes,
            |bs: Seq<u8>, rest: Seq<u8>| Some((decode_string(bs), 0)),
        )
    }

    fn decode(stream: &mut IStream) -> (r: Result<String, DecodeError>) {
        let data = Vec::<u8>::decode(stream)?;
        proof {
            assert(seq_model(data@) =~= data@);
            assert(stream.rest().skip(0) =~= stream.rest());
        }
        match str_from_utf8(data.as_slice()) {
            Ok(s) => {
                proof {
                    encode_utf8_decode_utf8(s@);
                }
                Ok(s.to_owned())
            },
            Err(i) => {
                proof {
                    lemma_utf8_valid_up_to_bound(data@);
                }
                Err(DecodeError::BadString(Utf8Error { value: data[i], index: i }))
            },
        }
    }
}

impl<T: Decode> Decode for Box<T> {
    open spec fn spec_decode(bytes: Seq<u8>) -> Decoding<T::M> {
        T::spec_decode(bytes)
    }

    fn decode(stream: &mut IStream) -> (r: Result<Box<T>, DecodeError>) {
        let value = T::decode(stream)?;
        Ok(Box::new(value))
    }
}

impl<T: Decode> Decode for Rc<T> {
    open spec fn spec_decode(bytes: Seq<u8>) -> Decoding<T::M> {
        T::spec_decode(bytes)
    }

    fn decode(stream: &mut IStream) -> (r: Result<Rc<T>, DecodeError>) {
        let value = T::decode(stream)?;
        Ok(Rc::new(value))
    }
}

impl<T: Decode> Decode for Arc<T> {
    open spec fn spec_decode(bytes: Seq<u8>) -> Decoding<T::M> {
        T::spec_decode(bytes)
    }

    fn decode(stream: &mut IStream) -> (r: Result<Arc<T>, DecodeError>) {
        let value = T::decode(stream)?;
        Ok(Arc::new(value))
    }
}

impl<T: Decode> Decode for Range<T> {
    open spec fn spec_decode(bytes: Seq<u8>) -> Decoding<(T::M, T::M)> {
        decode_then(
            T::spec_decode(bytes),
            bytes,
            |start: T::M, rest: Seq<u8>|
                match T::spec_decode(rest) {
                    None => None,
                    Some((Err(e), k)) => Some((Err(e), k)),
                    Some((Ok(end), k)) => Some((Ok((start, end)), k)),
                },
        )
    }

    fn decode(stream: &mut IStream) -> (r: Result<Range<T>, DecodeError>) {
        let ghost s0 = *stream;
        let start = T::decode(stream)?;
        let ghost s1 = *stream;
        let end = T::decode(stream);
        proof {
            lemma_decoded_then(s0, s1, *stream, T::spec_decode(s0.rest()), Ok::<T, DecodeError>(start), T::spec_decode(s1.rest()), end);
        }
        match end {
            Ok(end) => Ok(Range { start, end }),
            Err(e) => Err(e),
        }
    }
}

impl<T: Decode> Decode for RangeInclusive<T> {
    open spec fn spec_decode(bytes: Seq<u8>) -> Decoding<(T::M, T::M)> {
        <Range<T> as Decode>::spec_decode(bytes)
    }

    fn decode(stream: &mut IStream) -> (r: Result<RangeInclusive<T>, DecodeError>) {
        let ghost s0 = *stream;
        let start = T::decode(stream)?;
        let ghost s1 = *stream;
        let end = T::decode(stream);
        proof {
            lemma_decoded_then(s0, s1, *stream, T::spec_decode(s0.rest()), Ok::<T, DecodeError>(start), T::spec_decode(s1.rest()), end);
        }
        match end {
            Ok(end) => Ok(RangeInclusive::new(start, end)),
            Err(e) => Err(e),
        }
    }
}

} // verus!
