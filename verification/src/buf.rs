//! Typed encode buffers.
use vstd::prelude::*;
use vstd::slice::slice_subrange;
use crate::bytes::splice;
use crate::decode::Decode;
use crate::encode::{Encode, encode_result};
use crate::error::{DecodeError, EncodeError};
use crate::i_stream::IStream;
use crate::model::{Model, result_model};
use crate::o_stream::OStream;
use crate::roundtrip::Roundtrip;
use crate::sized_encode::SizedEncode;
use crate::sized_slice::vec_as_mut_slice;
use std::marker::PhantomData;
use vstd::std_specs::cmp::{PartialEqSpec, PartialEqSpecImpl};
use core::cmp::Ordering;
use crate::lexical::{compare_bytes, lemma_lex_order_equal};

verus! {

/// Typed encode buffer.
///
/// This structure is intended as a lightweight byte buffer suitable for encoding a single,
/// predefined type.
///
/// The methods [`write`](Self::write) and [`read`](Self::read) can be used to handle the
/// buffer's contents.
#[derive(Debug)]
pub struct Buf<T> {
    buf: Vec<u8>,
    len: usize,
    _ty: PhantomData<T>,
}

impl<T> Buf<T> {
    #[verifier::type_invariant]
    spec fn inv(&self) -> bool {
        self.len <= self.buf@.len()
    }

    /// The whole buffer, used part and rest.
    pub closed spec fn data(&self) -> Seq<u8> {
        self.buf@
    }

    /// The length of the used part of the buffer.
    pub closed spec fn spec_len(&self) -> nat {
        self.len as nat
    }

    /// The used part of the buffer.
    pub open spec fn used(&self) -> Seq<u8> {
        self.data().take(self.spec_len() as int)
    }

    /// Allocates a new buffer suitable for encoding.
    ///
    /// The given capacity should be large enough to hold any expected encoding of `T`.
    pub fn with_capacity(cap: usize) -> (r: Self)
        ensures
            r.data() == Seq::new(cap as nat, |i: int| 0u8),
            r.spec_len() == 0,
    {
        let mut buf: Vec<u8> = Vec::with_capacity(cap);
        let mut i: usize = 0;
        while i < cap
            invariant
                i <= cap,
                buf@ == Seq::new(i as nat, |j: int| 0u8),
            decreases cap - i,
        {
            buf.push(0);
            i = i + 1;
            proof {
                assert(buf@ =~= Seq::new(i as nat, |j: int| 0u8));
            }
        }
        Buf { buf, len: 0, _ty: PhantomData }
    }

    /// Gets a slice of the buffer.
    ///
    /// The returned slice will only include the used part of the buffer (as specified by
    /// [`len`](Self::len)).
    pub fn as_slice(&self) -> (r: &[u8])
        ensures
            r@ == self.used(),
    {
        proof {
            use_type_invariant(self);
        }
        let r = slice_subrange(self.buf.as_slice(), 0, self.len);
        proof {
            assert(r@ =~= self.used());
        }
        r
    }

    /// Gets a mutable slice of the whole buffer (as specified by [`capacity`](Self::capacity)).
    ///
    /// The length of the used part stays as it is; [`set_len`](Self::set_len) changes it.
    pub fn as_mut_slice(&mut self) -> (r: &mut [u8])
        ensures
            r@ == old(self).data(),
            final(self).data() == final(r)@,
            final(self).spec_len() == old(self).spec_len(),
    {
        proof {
            use_type_invariant(&*self);
        }
        vec_as_mut_slice(&mut self.buf)
    }

    /// Copies data from another slice.
    ///
    /// The length of `self` is updated to reflect the new data.
    ///
    /// `self` must be able to contain the entirety of `data` (the caller's obligation).
    pub fn copy_from_slice(&mut self, data: &[u8])
        requires
            data@.len() <= old(self).data().len(),
        ensures
            final(self).data() == splice(old(self).data(), 0, data@),
            final(self).spec_len() == data@.len(),
    {
        proof {
            use_type_invariant(&*self);
        }
        let mut tmp: Buf<T> = Buf { buf: Vec::new(), len: 0, _ty: PhantomData };
        std::mem::swap(self, &mut tmp);
        let Buf { buf, len, _ty } = tmp;
        let mut stream = OStream::new(buf);
        stream.write(data);
        let (buf, n) = stream.into_parts();
        *self = Buf { buf, len: n, _ty: PhantomData };
    }

    /// Sets the length of the buffer.
    ///
    /// The provided size must not be greater than the buffer's capacity (the caller's obligation).
    pub fn set_len(&mut self, len: usize)
        requires
            len <= old(self).data().len(),
        ensures
            final(self).data() == old(self).data(),
            final(self).spec_len() == len,
    {
        proof {
            use_type_invariant(&*self);
        }
        let mut tmp: Buf<T> = Buf { buf: Vec::new(), len: 0, _ty: PhantomData };
        std::mem::swap(self, &mut tmp);
        let Buf { buf, len: _, _ty } = tmp;
        *self = Buf { buf, len, _ty: PhantomData };
    }

    /// Retrieves the capacity of the buffer.
    pub fn capacity(&self) -> (r: usize)
        ensures
            r == self.data().len(),
    {
        self.buf.len()
    }

    /// Retrieves the length of the buffer.
    ///
    /// This value specifically denotes the length of the previous encoding (if any).
    pub fn len(&self) -> (r: usize)
        ensures
            r == self.spec_len(),
            r <= self.data().len(),
    {
        proof {
            use_type_invariant(self);
        }
        self.len
    }

    /// Tests if the buffer is empty.
    pub fn is_empty(&self) -> (r: bool)
        ensures
            r == (self.spec_len() == 0),
    {
        self.len == 0
    }

    /// Tests if the buffer is full.
    pub fn is_full(&self) -> (r: bool)
        ensures
            r == (self.spec_len() == self.data().len()),
    {
        self.len == self.buf.len()
    }
}

impl<T: Encode> Buf<T> {
    /// Encodes an object into the buffer.
    ///
    /// The object is encoded from the start of the buffer, and the length of the buffer is set to
    /// that of the encoding.
    ///
    /// # Errors
    ///
    /// Any error that occurs during encoding is passed on and returned from this method; the
    /// length of the buffer is then left as it was.
    ///
    /// The buffer must have room for the encoding (the caller's obligation).
    pub fn write(&mut self, value: T) -> (r: Result<(), EncodeError>)
        requires
            T::spec_encode(value.model()).0.len() <= old(self).data().len(),
        ensures
            final(self).data() == splice(old(self).data(), 0, T::spec_encode(value.model()).0),
            r == encode_result(T::spec_encode(value.model()).1),
            final(self).spec_len() == (if r is Ok {
                T::spec_encode(value.model()).0.len()
            } else {
                old(self).spec_len()
            }),
    {
        proof {
            use_type_invariant(&*self);
        }
        let mut tmp: Buf<T> = Buf { buf: Vec::new(), len: 0, _ty: PhantomData };
        std::mem::swap(self, &mut tmp);
        let Buf { buf, len, _ty } = tmp;
        let mut stream = OStream::new(buf);
        let r = value.encode(&mut stream);
        let (buf, n) = stream.into_parts();
        match r {
            Ok(()) => {
                *self = Buf { buf, len: n, _ty: PhantomData };
                Ok(())
            },
            Err(e) => {
                *self = Buf { buf, len, _ty: PhantomData };
                Err(e)
            },
        }
    }
}

impl<T: Decode> Buf<T> {
    /// Decodes an object from the buffer.
    ///
    /// This is done as by passing the buffer's contents to
    /// <code><T as [Decode]>::[decode](Decode::decode)</code>.
    ///
    /// Only the used part of the buffer (as specified by [`len`](Self::len)) is passed.
    ///
    /// # Errors
    ///
    /// Any error that occurs during decoding is passed on and returned from this method.
    ///
    /// The buffer must hold enough bytes for the decoding (the caller's obligation).
    pub fn read(&self) -> (r: Result<T, DecodeError>)
        requires
            T::spec_decode(self.used()) is Some,
        ensures
            result_model(r) == T::spec_decode(self.used()).unwrap().0,
    {
        let mut stream = IStream::new(self.as_slice());
        T::decode(&mut stream)
    }
}

impl<T: SizedEncode> Buf<T> {
    /// Allocates a new buffer suitable for encoding.
    ///
    /// The capacity of the buffer is set so that any encoding of `T` may be stored (as specified
    /// by [`MAX_ENCODED_SIZE`](SizedEncode::MAX_ENCODED_SIZE)).
    pub fn new() -> (r: Self)
        ensures
            r.data() == Seq::new(T::MAX_ENCODED_SIZE as nat, |i: int| 0u8),
            r.spec_len() == 0,
    {
        Self::with_capacity(T::MAX_ENCODED_SIZE)
    }
}

impl<'a, T> PartialEq<&'a [u8]> for Buf<T> {
    fn eq(&self, other: &&'a [u8]) -> (r: bool) {
        let o = compare_bytes(self.as_slice(), other);
        proof {
            lemma_lex_order_equal(self.used(), other@);
        }
        match o {
            Ordering::Equal => true,
            _ => false,
        }
    }
}

impl<'a, T> PartialEqSpecImpl<&'a [u8]> for Buf<T> {
    open spec fn obeys_eq_spec() -> bool {
        true
    }

    open spec fn eq_spec(&self, other: &&'a [u8]) -> bool {
        self.used() == other@
    }
}

/// Reading a buffer gives back the value last written to it.
///
/// After a successful [`write`](Buf::write) of a value into a buffer that held `before`, the
/// used part of the buffer is the encoding of the value, and it decodes to that value.
pub proof fn lemma_buf_write_read<T: Roundtrip>(before: Seq<u8>, m: T::M)
    requires
        T::model_wf(m),
        T::spec_encode(m).1 is None,
        T::spec_encode(m).0.len() <= before.len(),
    ensures
        splice(before, 0, T::spec_encode(m).0).take(T::spec_encode(m).0.len() as int)
            == T::spec_encode(m).0,
        T::spec_decode(T::spec_encode(m).0) == Some(
            (Ok::<T::M, DecodeError>(m), T::spec_encode(m).0.len()),
        ),
{
    let e = T::spec_encode(m).0;
    assert(splice(before, 0, e).take(e.len() as int) =~= e);
    T::lemma_roundtrip(m, Seq::empty());
    assert(e + Seq::<u8>::empty() =~= e);
}

/// A buffer equals a byte slice exactly when the slice is the encoding last written to it.
///
/// After a successful [`write`](Buf::write) of a value into a buffer that held `before`, the
/// buffer compares equal to a slice exactly when the slice holds the value's encoding, whatever
/// the buffer's capacity and whatever lies beyond the encoding.
pub proof fn lemma_buf_eq_after_write<'a, T: Encode>(b: Buf<T>, before: Seq<u8>, m: T::M, s: &'a [u8])
    requires
        T::spec_encode(m).1 is None,
        T::spec_encode(m).0.len() <= before.len(),
        b.data() == splice(before, 0, T::spec_encode(m).0),
        b.spec_len() == T::spec_encode(m).0.len(),
    ensures
        PartialEqSpec::eq_spec(&b, &s) <==> (s@ == T::spec_encode(m).0),
{
    let e = T::spec_encode(m).0;
    assert(splice(before, 0, e).take(e.len() as int) =~= e);
}

/// Whether a buffer equals a byte slice depends on its used part alone: two buffers whose used
/// parts are the same compare alike with every slice, whatever lies beyond.
pub proof fn lemma_buf_eq_used_part<'a, T, U>(b: Buf<T>, c: Buf<U>, s: &'a [u8])
    requires
        b.data().take(b.spec_len() as int) == c.data().take(c.spec_len() as int),
    ensures
        PartialEqSpec::eq_spec(&b, &s) == PartialEqSpec::eq_spec(&c, &s),
        PartialEqSpec::eq_spec(&b, &s) <==> (s@ == b.data().take(b.spec_len() as int)),
{
}

impl<T: SizedEncode> Default for Buf<T> {
    fn default() -> (r: Self)
        ensures
            r.data() == Seq::new(T::MAX_ENCODED_SIZE as nat, |i: int| 0u8),
            r.spec_len() == 0,
    {
        Self::new()
    }
}

} // verus!
