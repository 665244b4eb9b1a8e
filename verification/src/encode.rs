//! Encoding into o-streams.
use vstd::prelude::*;
use crate::bytes::{be_bytes, lemma_be_bytes_len, lemma_pow256_values, twos};
use crate::error::EncodeError;
use crate::model::{Model, seq_model};
use crate::o_stream::{OStream, lemma_wrote_nothing, lemma_wrote_then};
use std::marker::PhantomData;
use std::ops::{Range, RangeInclusive};
use std::rc::Rc;
use std::sync::Arc;
use vstd::utf8::encode_utf8;

verus! {

/// The outcome that an encoding ending with `err` reports.
pub open spec fn encode_result(err: Option<EncodeError>) -> Result<(), EncodeError> {
    match err {
        Some(e) => Err(e),
        None => Ok(()),
    }
}

/// The encoding of one value followed by that of another.
///
/// Where the first encoding fails, nothing of the second is written.
pub open spec fn encode_then(
    first: (Seq<u8>, Option<EncodeError>),
    second: (Seq<u8>, Option<EncodeError>),
) -> (Seq<u8>, Option<EncodeError>) {
    match first.1 {
        Some(e) => first,
        None => (first.0 + second.0, second.1),
    }
}

/// Chaining encodings is associative.
pub proof fn lemma_encode_then_assoc(
    a: (Seq<u8>, Option<EncodeError>),
    b: (Seq<u8>, Option<EncodeError>),
    c: (Seq<u8>, Option<EncodeError>),
)
    ensures
        encode_then(encode_then(a, b), c) == encode_then(a, encode_then(b, c)),
{
    if a.1 is None && b.1 is None {
        assert(a.0 + b.0 + c.0 =~= a.0 + (b.0 + c.0));
    }
}

/// The encoding of a sequence of values, one after the other, without any length.
///
/// The encoding stops at the first value that cannot be encoded.
pub open spec fn encode_seq<T: Encode>(s: Seq<T::M>) -> (Seq<u8>, Option<EncodeError>)
    decreases s.len(),
{
    if s.len() == 0 {
        (Seq::empty(), None)
    } else {
        encode_then(encode_seq::<T>(s.drop_last()), T::spec_encode(s.last()))
    }
}

/// The encoding of a length, which is that of a `usize`.
pub open spec fn encode_len(n: nat) -> (Seq<u8>, Option<EncodeError>) {
    if n > 0xFFFF {
        (Seq::empty(), Some(EncodeError::UsizeOutOfRange(n as usize)))
    } else {
        (be_bytes(n, 2), None)
    }
}

/// The encoding of a sequence of values preceded by its length.
pub open spec fn encode_counted<T: Encode>(s: Seq<T::M>) -> (Seq<u8>, Option<EncodeError>) {
    encode_then(encode_len(s.len()), encode_seq::<T>(s))
}

/// The encoding of a prefix of a sequence is no longer than that of the sequence.
pub proof fn lemma_encode_seq_prefix_len<T: Encode>(s: Seq<T::M>, i: int)
    requires
        0 <= i <= s.len(),
    ensures
        encode_seq::<T>(s.take(i)).0.len() <= encode_seq::<T>(s).0.len(),
    decreases s.len(),
{
    if i < s.len() {
        assert(s.drop_last().take(i) =~= s.take(i));
        lemma_encode_seq_prefix_len::<T>(s.drop_last(), i);
    } else {
        assert(s.take(i) =~= s);
    }
}

/// Once the encoding of a prefix fails, the encoding of the whole is that of the prefix.
pub proof fn lemma_encode_seq_stops<T: Encode>(s: Seq<T::M>, i: int)
    requires
        0 <= i <= s.len(),
        encode_seq::<T>(s.take(i)).1 is Some,
    ensures
        encode_seq::<T>(s) == encode_seq::<T>(s.take(i)),
    decreases s.len(),
{
    if i < s.len() {
        assert(s.drop_last().take(i) =~= s.take(i));
        lemma_encode_seq_stops::<T>(s.drop_last(), i);
    } else {
        assert(s.take(i) =~= s);
    }
}

/// Encodes the elements of a slice one after the other.
fn encode_elements<T: Encode>(items: &[T], stream: &mut OStream) -> (r: Result<(), EncodeError>)
    requires
        encode_seq::<T>(seq_model(items@)).0.len() <= old(stream).room(),
    ensures
        final(stream).wrote(*old(stream), encode_seq::<T>(seq_model(items@)).0),
        r == encode_result(encode_seq::<T>(seq_model(items@)).1),
{
    let ghost s0 = *stream;
    let ghost m = seq_model(items@);
    let n = items.len();
    let mut i: usize = 0;
    proof {
        assert(m.take(0) =~= Seq::<T::M>::empty());
        lemma_wrote_nothing(s0, *stream);
    }
    while i < n
        invariant
            0 <= i <= n,
            n == items@.len(),
            m == seq_model(items@),
            m.len() == n,
            s0 == *old(stream),
            encode_seq::<T>(m).0.len() <= s0.room(),
            stream.wrote(s0, encode_seq::<T>(m.take(i as int)).0),
            encode_seq::<T>(m.take(i as int)).1 is None,
        decreases n - i,
    {
        let ghost s1 = *stream;
        proof {
            assert(m.take(i + 1).drop_last() =~= m.take(i as int));
            lemma_encode_seq_prefix_len::<T>(m, i + 1);
        }
        let r = items[i].encode(stream);
        proof {
            lemma_wrote_then(s0, s1, *stream, encode_seq::<T>(m.take(i as int)).0, T::spec_encode(m[i as int]).0);
        }
        match r {
            Err(e) => {
                proof {
                    assert(m.take(i + 1).last() == m[i as int]);
                    assert(encode_seq::<T>(m.take(i + 1)) == encode_then(
                        encode_seq::<T>(m.take(i as int)),
                        T::spec_encode(m[i as int]),
                    ));
                    lemma_encode_seq_stops::<T>(m, i + 1);
                    assert(stream.wrote(s0, encode_seq::<T>(m.take(i + 1)).0));
                }
                return Err(e);
            },
            Ok(()) => {},
        }
        i = i + 1;
    }
    proof {
        assert(m.take(n as int) =~= m);
    }
    Ok(())
}

/// Denotes a type capable of being encoded.
///
/// It is recommended to simply derive this trait for custom types.
/// It can, however, also be manually implemented.
///
/// If all possible encodings have a known maximum size, then the
/// [`SizedEncode`](crate::SizedEncode) trait should additionally be implemented.
pub trait Encode: Model {
    /// The bytes that encoding a value with model `m` writes, and the error the encoding ends
    /// with, if it fails.
    spec fn spec_encode(m: Self::M) -> (Seq<u8>, Option<EncodeError>);

    /// Encodes `self` into the provided stream.
    ///
    /// # Errors
    ///
    /// If encoding fails, such as if `self` is unencodable, an error is returned.
    ///
    /// The stream must have room for the resulting encoding.
    fn encode(&self, stream: &mut OStream) -> (r: Result<(), EncodeError>)
        requires
            Self::spec_encode(self.model()).0.len() <= old(stream).room(),
        ensures
            final(stream).wrote(*old(stream), Self::spec_encode(self.model()).0),
            r == encode_result(Self::spec_encode(self.model()).1),
    ;
}

impl Encode for u8 {
    open spec fn spec_encode(m: u8) -> (Seq<u8>, Option<EncodeError>) {
        (seq![m], None)
    }

    fn encode(&self, stream: &mut OStream) -> (r: Result<(), EncodeError>) {
        stream.write_byte(*self);
        Ok(())
    }
}

impl Encode for u16 {
    open spec fn spec_encode(m: u16) -> (Seq<u8>, Option<EncodeError>) {
        (be_bytes(m as nat, 2), None)
    }

    fn encode(&self, stream: &mut OStream) -> (r: Result<(), EncodeError>) {
        proof {
            lemma_be_bytes_len(*self as nat, 2);
        }
        stream.write_be(*self as u128, 2);
        Ok(())
    }
}

impl Encode for u32 {
    open spec fn spec_encode(m: u32) -> (Seq<u8>, Option<EncodeError>) {
        (be_bytes(m as nat, 4), None)
    }

    fn encode(&self, stream: &mut OStream) -> (r: Result<(), EncodeError>) {
        proof {
            lemma_be_bytes_len(*self as nat, 4);
        }
        stream.write_be(*self as u128, 4);
        Ok(())
    }
}

impl Encode for u64 {
    open spec fn spec_encode(m: u64) -> (Seq<u8>, Option<EncodeError>) {
        (be_bytes(m as nat, 8), None)
    }

    fn encode(&self, stream: &mut OStream) -> (r: Result<(), EncodeError>) {
        proof {
            lemma_be_bytes_len(*self as nat, 8);
        }
        stream.write_be(*self as u128, 8);
        Ok(())
    }
}

impl Encode for u128 {
    open spec fn spec_encode(m: u128) -> (Seq<u8>, Option<EncodeError>) {
        (be_bytes(m as nat, 16), None)
    }

    fn encode(&self, stream: &mut OStream) -> (r: Result<(), EncodeError>) {
        proof {
            lemma_be_bytes_len(*self as nat, 16);
        }
        stream.write_be(*self as u128, 16);
        Ok(())
    }
}

impl Encode for i8 {
    open spec fn spec_encode(m: i8) -> (Seq<u8>, Option<EncodeError>) {
        (be_bytes(twos(m as int, 1), 1), None)
    }

    fn encode(&self, stream: &mut OStream) -> (r: Result<(), EncodeError>) {
        proof {
            lemma_pow256_values();
            lemma_be_bytes_len(twos(*self as int, 1), 1);
        }
        let u: u128 = if *self >= 0 {
            *self as u128
        } else {
            (*self as i128 + 0x100) as u128
        };
        stream.write_be(u, 1);
        Ok(())
    }
}

impl Encode for i16 {
    open spec fn spec_encode(m: i16) -> (Seq<u8>, Option<EncodeError>) {
        (be_bytes(twos(m as int, 2), 2), None)
    }

    fn encode(&self, stream: &mut OStream) -> (r: Result<(), EncodeError>) {
        proof {
            lemma_pow256_values();
            lemma_be_bytes_len(twos(*self as int, 2), 2);
        }
        let u: u128 = if *self >= 0 {
            *self as u128
        } else {
            (*self as i128 + 0x1_0000) as u128
        };
        stream.write_be(u, 2);
        Ok(())
    }
}

impl Encode for i32 {
    open spec fn spec_encode(m: i32) -> (Seq<u8>, Option<EncodeError>) {
        (be_bytes(twos(m as int, 4), 4), None)
    }

    fn encode(&self, stream: &mut OStream) -> (r: Result<(), EncodeError>) {
        proof {
            lemma_pow256_values();
            lemma_be_bytes_len(twos(*self as int, 4), 4);
        }
        let u: u128 = if *self >= 0 {
            *self as u128
        } else {
            (*self as i128 + 0x1_0000_0000) as u128
        };
        stream.write_be(u, 4);
        Ok(())
    }
}

impl Encode for i64 {
    open spec fn spec_encode(m: i64) -> (Seq<u8>, Option<EncodeError>) {
        (be_bytes(twos(m as int, 8), 8), None)
    }

    fn encode(&self, stream: &mut OStream) -> (r: Result<(), EncodeError>) {
        proof {
            lemma_pow256_values();
            lemma_be_bytes_len(twos(*self as int, 8), 8);
        }
        let u: u128 = if *self >= 0 {
            *self as u128
        } else {
            (*self as i128 + 0x1_0000_0000_0000_0000) as u128
        };
        stream.write_be(u, 8);
        Ok(())
    }
}

impl Encode for i128 {
    open spec fn spec_encode(m: i128) -> (Seq<u8>, Option<EncodeError>) {
        (be_bytes(twos(m as int, 16), 16), None)
    }

    fn encode(&self, stream: &mut OStream) -> (r: Result<(), EncodeError>) {
        proof {
            lemma_pow256_values();
            lemma_be_bytes_len(twos(*self as int, 16), 16);
        }
        let u: u128 = if *self >= 0 {
            *self as u128
        } else {
            ((*self + 1 + i128::MAX) as u128) + 0x8000_0000_0000_0000_0000_0000_0000_0000
        };
        stream.write_be(u, 16);
        Ok(())
    }
}

/// This implementation casts `self` to `u16` before encoding.
/// If this conversion isn't possible for the given value, then the
/// [`UsizeOutOfRange`](EncodeError::UsizeOutOfRange) error is returned.
impl Encode for usize {
    open spec fn spec_encode(m: usize) -> (Seq<u8>, Option<EncodeError>) {
        encode_len(m as nat)
    }

    fn encode(&self, stream: &mut OStream) -> (r: Result<(), EncodeError>) {
        if *self > 0xFFFF {
            proof {
                lemma_wrote_nothing(*stream, *stream);
            }
            return Err(EncodeError::UsizeOutOfRange(*self));
        }
        let v = *self as u16;
        v.encode(stream)
    }
}

/// This implementation casts `self` to `i16` before encoding.
/// If this conversion isn't possible for the given value, then the
/// [`IsizeOutOfRange`](EncodeError::IsizeOutOfRange) error is returned.
impl Encode for isize {
    open spec fn spec_encode(m: isize) -> (Seq<u8>, Option<EncodeError>) {
        if m < -0x8000 || m > 0x7FFF {
            (Seq::empty(), Some(EncodeError::IsizeOutOfRange(m)))
        } else {
            <i16 as Encode>::spec_encode(m as i16)
        }
    }

    fn encode(&self, stream: &mut OStream) -> (r: Result<(), EncodeError>) {
        if *self < -0x8000 || *self > 0x7FFF {
            proof {
                lemma_wrote_nothing(*stream, *stream);
            }
            return Err(EncodeError::IsizeOutOfRange(*self));
        }
        let v = *self as i16;
        v.encode(stream)
    }
}

impl Encode for bool {
    open spec fn spec_encode(m: bool) -> (Seq<u8>, Option<EncodeError>) {
        <u8 as Encode>::spec_encode(if m { 1u8 } else { 0u8 })
    }

    fn encode(&self, stream: &mut OStream) -> (r: Result<(), EncodeError>) {
        let v: u8 = if *self { 1 } else { 0 };
        v.encode(stream)
    }
}

impl Encode for char {
    open spec fn spec_encode(m: char) -> (Seq<u8>, Option<EncodeError>) {
        <u32 as Encode>::spec_encode(m as u32)
    }

    fn encode(&self, stream: &mut OStream) -> (r: Result<(), EncodeError>) {
        let v = *self as u32;
        v.encode(stream)
    }
}

impl Encode for () {
    open spec fn spec_encode(m: ()) -> (Seq<u8>, Option<EncodeError>) {
        (Seq::empty(), None)
    }

    fn encode(&self, stream: &mut OStream) -> (r: Result<(), EncodeError>) {
        proof {
            lemma_wrote_nothing(*stream, *stream);
        }
        Ok(())
    }
}

impl<T> Encode for PhantomData<T> {
    open spec fn spec_encode(m: ()) -> (Seq<u8>, Option<EncodeError>) {
        (Seq::empty(), None)
    }

    fn encode(&self, stream: &mut OStream) -> (r: Result<(), EncodeError>) {
        proof {
            lemma_wrote_nothing(*stream, *stream);
        }
        Ok(())
    }
}

/// This implementation encodes a sign denoting the optional's variant.
/// The sign is `false` for `None` instances and `true` for `Some` instances.
/// The contained value is encoded proceeding the sign.
impl<T: Encode> Encode for Option<T> {
    open spec fn spec_encode(m: Option<T::M>) -> (Seq<u8>, Option<EncodeError>) {
        match m {
            None => <bool as Encode>::spec_encode(false),
            Some(v) => encode_then(<bool as Encode>::spec_encode(true), T::spec_encode(v)),
        }
    }

    fn encode(&self, stream: &mut OStream) -> (r: Result<(), EncodeError>) {
        match self {
            None => false.encode(stream),
            Some(v) => {
                let ghost s0 = *stream;
                true.encode(stream)?;
                let ghost s1 = *stream;
                let r = v.encode(stream);
                proof {
                    lemma_wrote_then(s0, s1, *stream, seq![1u8], T::spec_encode(v.model()).0);
                }
                r
            },
        }
    }
}

/// This implementation encodes a sign denoting the result's variant.
/// The sign is `false` for denoting `Ok` and `true` for denoting `Err`.
/// The contained value is encoded proceeding the sign.
impl<T: Encode, E: Encode> Encode for Result<T, E> {
    open spec fn spec_encode(m: Result<T::M, E::M>) -> (Seq<u8>, Option<EncodeError>) {
        match m {
            Ok(v) => encode_then(<bool as Encode>::spec_encode(false), T::spec_encode(v)),
            Err(e) => encode_then(<bool as Encode>::spec_encode(true), E::spec_encode(e)),
        }
    }

    fn encode(&self, stream: &mut OStream) -> (r: Result<(), EncodeError>) {
        let ghost s0 = *stream;
        match self {
            Ok(v) => {
                false.encode(stream)?;
                let ghost s1 = *stream;
                let r = v.encode(stream);
                proof {
                    lemma_wrote_then(s0, s1, *stream, seq![0u8], T::spec_encode(v.model()).0);
                }
                r
            },
            Err(e) => {
                true.encode(stream)?;
                let ghost s1 = *stream;
                let r = e.encode(stream);
                proof {
                    lemma_wrote_then(s0, s1, *stream, seq![1u8], E::spec_encode(e.model()).0);
                }
                r
            },
        }
    }
}

impl<T: Encode, const N: usize> Encode for [T; N] {
    open spec fn spec_encode(m: Seq<T::M>) -> (Seq<u8>, Option<EncodeError>) {
        encode_seq::<T>(m)
    }

    fn encode(&self, stream: &mut OStream) -> (r: Result<(), EncodeError>) {
        encode_elements(self.as_slice(), stream)
    }
}

impl<T: Encode> Encode for [T] {
    open spec fn spec_encode(m: Seq<T::M>) -> (Seq<u8>, Option<EncodeError>) {
        encode_counted::<T>(m)
    }

    fn encode(&self, stream: &mut OStream) -> (r: Result<(), EncodeError>) {
        let ghost s0 = *stream;
        let n = self.len();
        n.encode(stream)?;
        let ghost s1 = *stream;
        let r = encode_elements(self, stream);
        proof {
            lemma_wrote_then(s0, s1, *stream, encode_len(n as nat).0, encode_seq::<T>(self.model()).0);
        }
        r
    }
}

impl<T: Encode> Encode for Vec<T> {
    open spec fn spec_encode(m: Seq<T::M>) -> (Seq<u8>, Option<EncodeError>) {
        encode_counted::<T>(m)
    }

    fn encode(&self, stream: &mut OStream) -> (r: Result<(), EncodeError>) {
        self.as_slice().encode(stream)
    }
}

impl Encode for str {
    open spec fn spec_encode(m: Seq<char>) -> (Seq<u8>, Option<EncodeError>) {
        encode_then(encode_len(encode_utf8(m).len()), (encode_utf8(m), None))
    }

    fn encode(&self, stream: &mut OStream) -> (r: Result<(), EncodeError>) {
        let ghost s0 = *stream;
        let bytes = self.as_bytes();
        let n = bytes.len();
        n.encode(stream)?;
        let ghost s1 = *stream;
        stream.write(bytes);
        proof {
            lemma_wrote_then(s0, s1, *stream, encode_len(n as nat).0, bytes@);
        }
        Ok(())
    }
}

impl Encode for String {
    open spec fn spec_encode(m: Seq<char>) -> (Seq<u8>, Option<EncodeError>) {
        <str as Encode>::spec_encode(m)
    }

    fn encode(&self, stream: &mut OStream) -> (r: Result<(), EncodeError>) {
        self.as_str().encode(stream)
    }
}

impl<T: Encode> Encode for Box<T> {
    open spec fn spec_encode(m: T::M) -> (Seq<u8>, Option<EncodeError>) {
        T::spec_encode(m)
    }

    fn encode(&self, stream: &mut OStream) -> (r: Result<(), EncodeError>) {
        (**self).encode(stream)
    }
}

impl<T: Encode> Encode for Rc<T> {
    open spec fn spec_encode(m: T::M) -> (Seq<u8>, Option<EncodeError>) {
        T::spec_encode(m)
    }

    fn encode(&self, stream: &mut OStream) -> (r: Result<(), EncodeError>) {
        (**self).encode(stream)
    }
}

impl<T: Encode> Encode for Arc<T> {
    open spec fn spec_encode(m: T::M) -> (Seq<u8>, Option<EncodeError>) {
        T::spec_encode(m)
    }

    fn encode(&self, stream: &mut OStream) -> (r: Result<(), EncodeError>) {
        (**self).encode(stream)
    }
}

impl<T: Encode> Encode for Range<T> {
    open spec fn spec_encode(m: (T::M, T::M)) -> (Seq<u8>, Option<EncodeError>) {
        encode_then(T::spec_encode(m.0), T::spec_encode(m.1))
    }

    fn encode(&self, stream: &mut OStream) -> (r: Result<(), EncodeError>) {
        let ghost s0 = *stream;
        self.start.encode(stream)?;
        let ghost s1 = *stream;
        let r = self.end.encode(stream);
        proof {
            lemma_wrote_then(s0, s1, *stream, T::spec_encode(self.start.model()).0, T::spec_encode(self.end.model()).0);
        }
        r
    }
}

impl<T: Encode> Encode for RangeInclusive<T> {
    open spec fn spec_encode(m: (T::M, T::M)) -> (Seq<u8>, Option<EncodeError>) {
        encode_then(T::spec_encode(m.0), T::spec_encode(m.1))
    }

    fn encode(&self, stream: &mut OStream) -> (r: Result<(), EncodeError>) {
        let ghost s0 = *stream;
        self.start().encode(stream)?;
        let ghost s1 = *stream;
        let r = self.end().encode(stream);
        proof {
            lemma_wrote_then(s0, s1, *stream, T::spec_encode(self@.start.model()).0, T::spec_encode(self@.end.model()).0);
        }
        r
    }
}

impl<'a, T: Encode> Encode for &'a T {
    open spec fn spec_encode(m: T::M) -> (Seq<u8>, Option<EncodeError>) {
        T::spec_encode(m)
    }

    fn encode(&self, stream: &mut OStream) -> (r: Result<(), EncodeError>) {
        (**self).encode(stream)
    }
}

impl<'a, T: Encode> Encode for &'a mut T {
    open spec fn spec_encode(m: T::M) -> (Seq<u8>, Option<EncodeError>) {
        T::spec_encode(m)
    }

    fn encode(&self, stream: &mut OStream) -> (r: Result<(), EncodeError>) {
        (**self).encode(stream)
    }
}

/// A `usize` is encoded as the `u16` of the same value: for every value up to
/// `u16::MAX` the encoding succeeds and is two bytes, high byte first. Only a
/// larger value is refused, with `UsizeOutOfRange`, and then nothing is written.
pub proof fn lemma_usize_encoding(n: usize)
    ensures
        n <= 0xFFFF ==> <usize as Encode>::spec_encode(n) == <u16 as Encode>::spec_encode(n as u16),
        n <= 0xFFFF ==> <usize as Encode>::spec_encode(n).1 is None,
        n <= 0xFFFF ==> <usize as Encode>::spec_encode(n).0 == seq![(n / 256) as u8, (n % 256) as u8],
        n > 0xFFFF ==> <usize as Encode>::spec_encode(n) == (Seq::<u8>::empty(), Some(EncodeError::UsizeOutOfRange(n))),
{
    if n <= 0xFFFF {
        reveal_with_fuel(be_bytes, 3);
        assert(be_bytes(n as nat, 2) =~= seq![(n / 256) as u8, (n % 256) as u8]);
    }
}

/// A vector of at most `u16::MAX` values is encoded as its length, two bytes
/// high byte first, followed by its values one after the other; no length up
/// to `u16::MAX` is refused.
pub proof fn lemma_vec_length_prefix<T: Encode>(s: Seq<T::M>)
    requires
        s.len() <= 0xFFFF,
    ensures
        <Vec<T> as Encode>::spec_encode(s).0 == seq![(s.len() / 256) as u8, (s.len() % 256) as u8]
            + encode_seq::<T>(s).0,
        <Vec<T> as Encode>::spec_encode(s).1 == encode_seq::<T>(s).1,
{
    reveal_with_fuel(be_bytes, 3);
    assert(be_bytes(s.len(), 2) =~= seq![(s.len() / 256) as u8, (s.len() % 256) as u8]);
}

/// A string of at most `u16::MAX` bytes is encoded as its byte length, two
/// bytes high byte first, followed by its UTF-8 bytes; it is never refused.
pub proof fn lemma_string_length_prefix(m: Seq<char>)
    requires
        encode_utf8(m).len() <= 0xFFFF,
    ensures
        <String as Encode>::spec_encode(m) == (
            seq![(encode_utf8(m).len() / 256) as u8, (encode_utf8(m).len() % 256) as u8] + encode_utf8(m),
            Option::<EncodeError>::None,
        ),
{
    let n = encode_utf8(m).len();
    reveal_with_fuel(be_bytes, 3);
    assert(be_bytes(n, 2) =~= seq![(n / 256) as u8, (n % 256) as u8]);
}

/// An `isize` is encoded as the `i16` of the same value: for every value in the range of `i16`
/// the encoding succeeds and is two bytes of two's complement, high byte first. Only a value
/// outside that range is refused, with `IsizeOutOfRange`, and then nothing is written.
pub proof fn lemma_isize_encoding(n: isize)
    ensures
        -0x8000 <= n <= 0x7FFF ==> <isize as Encode>::spec_encode(n) == <i16 as Encode>::spec_encode(n as i16),
        -0x8000 <= n <= 0x7FFF ==> <isize as Encode>::spec_encode(n).1 is None,
        -0x8000 <= n <= 0x7FFF ==> <isize as Encode>::spec_encode(n).0 == ({
            let u = if n >= 0 { n as int } else { n + 0x1_0000 };
            seq![(u / 256) as u8, (u % 256) as u8]
        }),
        !(-0x8000 <= n <= 0x7FFF) ==> <isize as Encode>::spec_encode(n) == (
            Seq::<u8>::empty(),
            Some(EncodeError::IsizeOutOfRange(n)),
        ),
{
    if -0x8000 <= n <= 0x7FFF {
        lemma_pow256_values();
        let u = twos(n as int, 2);
        reveal_with_fuel(be_bytes, 3);
        assert(be_bytes(u, 2) =~= seq![(u / 256) as u8, (u % 256) as u8]);
    }
}

} // verus!
