//! Vectors with a maximum length.
use vstd::prelude::*;
use vstd::std_specs::iter::IteratorSpec;
use crate::decode::{Decode, Decoding, decode_many, decode_then, lemma_decoded_then, lemma_skip_skip, decode_elements};
use crate::encode::{Encode, encode_counted};
use crate::error::{DecodeError, EncodeError, SizeError};
use crate::i_stream::IStream;
use crate::model::{Model, seq_model, seq_wf};
use crate::o_stream::OStream;
use crate::roundtrip::{Roundtrip, lemma_roundtrip_counted};
use crate::sized_encode::SizedEncode;
use crate::sized_iter::SizedIter;
use vstd::std_specs::convert::{FromSpecImpl, TryFromSpecImpl};

verus! {

/// Vector with maximum length.
///
/// This type is intended as a [sized-encodable](SizedEncode) alternative to [`Vec`] for cases
/// where [arrays](array) may not be wanted.
///
/// Note that this type is immutable in the sense that it does **not** define methods like `push`
/// and `pop`, unlike `Vec`.
pub struct SizedSlice<T, const N: usize> {
    buf: Vec<T>,
}

/// Borrows the elements of a vector mutably (`Vec::as_mut_slice`).
///
/// The slice cannot change its length while borrowed, so the vector keeps its length too.
#[verifier::external_body]
pub(crate) fn vec_as_mut_slice<T>(v: &mut Vec<T>) -> (r: &mut [T])
    ensures
        r@ == old(v)@,
        final(v)@ == final(r)@,
        final(r)@.len() == r@.len(),
    no_unwind
{
    v.as_mut_slice()
}

impl<T, const N: usize> View for SizedSlice<T, N> {
    type V = Seq<T>;

    closed spec fn view(&self) -> Seq<T> {
        self.buf@
    }
}

impl<T, const N: usize> SizedSlice<T, N> {
    #[verifier::type_invariant]
    spec fn inv(&self) -> bool {
        self.buf@.len() <= N
    }

    /// Constructs a sized slice of the given elements, which must be at most `N`.
    pub(crate) fn from_vec(buf: Vec<T>) -> (r: Self)
        requires
            buf@.len() <= N,
        ensures
            r@ == buf@,
    {
        SizedSlice { buf }
    }

    /// Borrows the vector as a slice.
    pub fn as_slice(&self) -> (r: &[T])
        ensures
            r@ == self@,
    {
        self.buf.as_slice()
    }

    /// Borrows the vector as a mutable slice.
    ///
    /// The range of the returned slice only includes the elements of the vector, whose number
    /// stays as it is.
    pub fn as_mut_slice(&mut self) -> (r: &mut [T])
        ensures
            r@ == old(self)@,
            final(self)@ == final(r)@,
    {
        proof {
            use_type_invariant(&*self);
        }
        vec_as_mut_slice(&mut self.buf)
    }

    /// Returns the total capacity of the vector.
    ///
    /// By definition, this is always exactly equal to the value of `N`.
    pub fn capacity(&self) -> (r: usize)
        ensures
            r == N,
    {
        N
    }

    /// Returns the length of the vector.
    pub fn len(&self) -> (r: usize)
        ensures
            r == self@.len(),
            r <= N,
    {
        proof {
            use_type_invariant(self);
        }
        self.buf.len()
    }

    /// Checks if the vector is empty, i.e. no elements are recorded.
    pub fn is_empty(&self) -> (r: bool)
        ensures
            r == (self@.len() == 0),
    {
        self.buf.len() == 0
    }

    /// Checks if the vector is full, i.e. it cannot hold any more elements.
    pub fn is_full(&self) -> (r: bool)
        ensures
            r == (self@.len() == N),
    {
        self.buf.len() == N
    }

    /// Destructs the vector into its elements and their number.
    pub fn into_raw_parts(self) -> (r: (Vec<T>, usize))
        ensures
            r.0@ == self@,
            r.1 == self@.len(),
    {
        let n = self.buf.len();
        (self.buf, n)
    }

    /// Converts the vector into a dynamic vector.
    pub fn into_vec(self) -> (r: Vec<T>)
        ensures
            r@ == self@,
    {
        self.buf
    }

    /// Converts the vector into an iterator over its elements.
    pub fn into_iter(self) -> (r: SizedIter<T, N>)
        ensures
            r@ == self@,
    {
        SizedIter::new(self.buf)
    }
}

/// Moves the elements of an array into a vector (`From<[T; N]>` for `Vec<T>`).
#[verifier::external_body]
fn vec_from_array<T, const N: usize>(a: [T; N]) -> (r: Vec<T>)
    ensures
        r@ == a@,
{
    Vec::from(a)
}

impl<T: Clone, const N: usize> SizedSlice<T, N> {
    /// Constructs a fixed-size vector holding clones of the given elements.
    ///
    /// # Errors
    ///
    /// If `data` holds more than `N` elements, an error is returned.
    pub fn new(data: &[T]) -> (r: Result<Self, SizeError>)
        ensures
            r is Err <==> data@.len() > N,
            r matches Err(e) ==> e == (SizeError { req: data@.len() as usize, len: N }),
            r matches Ok(s) ==> s@.len() == data@.len()
                && forall|i: int| 0 <= i < data@.len() ==> cloned::<T>(data@[i], #[trigger] s@[i]),
    {
        let n = data.len();
        if n > N {
            return Err(SizeError { req: n, len: N });
        }
        let mut buf: Vec<T> = Vec::new();
        let mut i: usize = 0;
        while i < n
            invariant
                i <= n <= N,
                n == data@.len(),
                buf@.len() == i,
                forall|j: int| 0 <= j < i ==> cloned::<T>(data@[j], #[trigger] buf@[j]),
            decreases n - i,
        {
            buf.push(data[i].clone());
            i = i + 1;
        }
        Ok(SizedSlice { buf })
    }
}

impl<T: Model, const N: usize> Model for SizedSlice<T, N> {
    type M = Seq<T::M>;

    open spec fn model(&self) -> Seq<T::M> {
        seq_model(self@)
    }

    open spec fn model_wf(m: Seq<T::M>) -> bool {
        m.len() <= N && seq_wf::<T>(m)
    }
}

impl<T: Encode, const N: usize> Encode for SizedSlice<T, N> {
    open spec fn spec_encode(m: Seq<T::M>) -> (Seq<u8>, Option<EncodeError>) {
        encode_counted::<T>(m)
    }

    fn encode(&self, stream: &mut OStream) -> (r: Result<(), EncodeError>) {
        self.as_slice().encode(stream)
    }
}

impl<T: Decode, const N: usize> Decode for SizedSlice<T, N> {
    open spec fn spec_decode(bytes: Seq<u8>) -> Decoding<Seq<T::M>> {
        decode_then(
            <usize as Decode>::spec_decode(bytes),
            bytes,
            |n: usize, rest: Seq<u8>|
                if n > N {
                    Some((Err(DecodeError::SmallBuffer(SizeError { req: n, len: N })), 0))
                } else {
                    decode_many::<T>(n as nat, rest)
                },
        )
    }

    fn decode(stream: &mut IStream) -> (r: Result<SizedSlice<T, N>, DecodeError>) {
        let ghost s0 = *stream;
        let len = usize::decode(stream)?;
        if len > N {
            proof {
                lemma_skip_skip(s0.rest(), 2, 0);
            }
            return Err(DecodeError::SmallBuffer(SizeError { req: len, len: N }));
        }
        let ghost s1 = *stream;
        let v = decode_elements::<T>(stream, len);
        proof {
            lemma_decoded_then(s0, s1, *stream, <usize as Decode>::spec_decode(s0.rest()), Ok::<usize, DecodeError>(len), decode_many::<T>(len as nat, s1.rest()), v);
            crate::decode::lemma_decode_many_len::<T>(len as nat, s1.rest());
        }
        match v {
            Ok(v) => Ok(SizedSlice { buf: v }),
            Err(e) => Err(e),
        }
    }
}

impl<T: Roundtrip, const N: usize> Roundtrip for SizedSlice<T, N> {
    proof fn lemma_roundtrip(m: Seq<T::M>, rest: Seq<u8>) {
        lemma_roundtrip_counted::<T>(m, rest);
    }
}

impl<T, const N: usize> Default for SizedSlice<T, N> {
    fn default() -> (r: Self)
        ensures
            r@ == Seq::<T>::empty(),
    {
        SizedSlice { buf: Vec::new() }
    }
}


impl<T, const N: usize> From<[T; N]> for SizedSlice<T, N> {
    /// Constructs a vector from a fixed-size array, which it fills.
    fn from(value: [T; N]) -> (r: Self)
        ensures
            r@ == value@,
    {
        SizedSlice { buf: vec_from_array(value) }
    }
}

impl<T, const N: usize> FromSpecImpl<[T; N]> for SizedSlice<T, N> {
    /// The vector's contents are stated by [`from`](From::from) itself, over its view.
    open spec fn obeys_from_spec() -> bool {
        false
    }

    open spec fn from_spec(v: [T; N]) -> Self {
        choose|s: Self| s@ == v@
    }
}

impl<'a, T: Clone, const N: usize> TryFrom<&'a [T]> for SizedSlice<T, N> {
    type Error = SizeError;

    fn try_from(data: &'a [T]) -> (r: Result<Self, SizeError>)
        ensures
            r is Err <==> data@.len() > N,
            r matches Err(e) ==> e == (SizeError { req: data@.len() as usize, len: N }),
            r matches Ok(s) ==> s@.len() == data@.len()
                && forall|i: int| 0 <= i < data@.len() ==> cloned::<T>(data@[i], #[trigger] s@[i]),
    {
        Self::new(data)
    }
}

impl<'a, T: Clone, const N: usize> TryFromSpecImpl<&'a [T]> for SizedSlice<T, N> {
    /// The vector is a value that the choice may pick among the clones;
    /// [`try_from`](TryFrom::try_from) states its outcome over the view.
    open spec fn obeys_try_from_spec() -> bool {
        false
    }

    open spec fn try_from_spec(v: &'a [T]) -> Result<Self, SizeError> {
        if v@.len() > N {
            Err(SizeError { req: v@.len() as usize, len: N })
        } else {
            Ok(
                choose|s: Self|
                    s@.len() == v@.len() && forall|i: int|
                        0 <= i < v@.len() ==> cloned::<T>(v@[i], #[trigger] s@[i]),
            )
        }
    }
}


impl<T: Clone, const N: usize> Clone for SizedSlice<T, N> {
    fn clone(&self) -> (r: Self)
        ensures
            r@.len() == self@.len(),
            forall|i: int| 0 <= i < self@.len() ==> cloned::<T>(self@[i], #[trigger] r@[i]),
    {
        proof {
            use_type_invariant(self);
        }
        SizedSlice { buf: self.buf.clone() }
    }
}

impl<T, const N: usize> From<SizedSlice<T, N>> for Vec<T> {
    fn from(value: SizedSlice<T, N>) -> (r: Vec<T>)
        ensures
            r@ == value@,
    {
        value.into_vec()
    }
}

impl<T, const N: usize> FromSpecImpl<SizedSlice<T, N>> for Vec<T> {
    /// The vector's contents are stated by [`from`](From::from) itself, over its view.
    open spec fn obeys_from_spec() -> bool {
        false
    }

    open spec fn from_spec(v: SizedSlice<T, N>) -> Vec<T> {
        choose|r: Vec<T>| r@ == v@
    }
}


/// Takes items from an iterator until `n` items are taken or the iterator is done.
///
/// Of an iterator that follows the laws of [`Iterator::next`], these are the first `n` items it
/// would give, or all of them where there are fewer.
fn take_up_to<I: Iterator>(it: &mut I, n: usize) -> (r: Vec<I::Item>)
    ensures
        r@.len() <= n,
        (*old(it)).obeys_prophetic_iter_laws() ==> r@ == (*old(it)).remaining().take(
            if (*old(it)).remaining().len() < n {
                (*old(it)).remaining().len() as int
            } else {
                n as int
            },
        ),
{
    let mut r: Vec<I::Item> = Vec::new();
    let ghost start = (*old(it)).remaining();
    let ghost obeys = (*old(it)).obeys_prophetic_iter_laws();
    while r.len() < n
        invariant
            r@.len() <= n,
            (*it).obeys_prophetic_iter_laws() == obeys,
            obeys ==> r@.len() <= start.len() && r@ == start.take(r@.len() as int) && (*it).remaining()
                == start.skip(r@.len() as int),
        ensures
            r@.len() <= n,
            obeys ==> r@ == start.take(
                if start.len() < n {
                    start.len() as int
                } else {
                    n as int
                },
            ),
        decreases n - r@.len(),
    {
        match I::next(it) {
            Some(x) => {
                proof {
                    if obeys {
                        assert(start.take(r@.len() as int + 1) =~= start.take(r@.len() as int).push(x));
                        assert(start.skip(r@.len() as int + 1) =~= start.skip(r@.len() as int).drop_first());
                    }
                }
                r.push(x);
            },
            None => {
                proof {
                    if obeys {
                        assert(start.take(start.len() as int) =~= start);
                    }
                }
                break;
            },
        }
    }
    r
}

impl<T, const N: usize> SizedSlice<T, N> {
    /// Collects at most `N` items from `iter`; the rest are left untaken.
    ///
    /// Of an iterator that follows the laws of [`Iterator::next`], these are its first `N` items,
    /// or all of them where it has fewer.
    pub fn from_iter<I: Iterator<Item = T>>(iter: I) -> (r: Self)
        ensures
            r@.len() <= N,
            iter.obeys_prophetic_iter_laws() ==> r@ == iter.remaining().take(
                if iter.remaining().len() < N {
                    iter.remaining().len() as int
                } else {
                    N as int
                },
            ),
    {
        let mut it = iter;
        let buf = take_up_to(&mut it, N);
        SizedSlice { buf }
    }
}

} // verus!
