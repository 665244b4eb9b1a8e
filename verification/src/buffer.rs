//! Typed serialisation buffers.
use vstd::prelude::*;
use vstd::slice::slice_subrange;
use vstd::std_specs::cmp::PartialEqSpecImpl;
use core::cmp::Ordering;
use crate::bytes::splice;
use crate::d_stream::Dstream;
use crate::deserialise::Deserialise;
use crate::error::Error;
use crate::lexical::{compare_bytes, lemma_lex_order_equal};
use crate::model::{Model, result_model};
use crate::s_stream::Sstream;
use crate::serialise::{Serialise, outcome, serialise_result, serialised_bytes};
use crate::serialise_roundtrip::SerialiseRoundtrip;
use crate::sized_slice::vec_as_mut_slice;
use std::marker::PhantomData;

verus! {

/// A vector of `n` zeroes.
pub(crate) fn zeroes(n: usize) -> (r: Vec<u8>)
    ensures
        r@ == Seq::new(n as nat, |i: int| 0u8),
{
    let mut buf: Vec<u8> = Vec::with_capacity(n);
    let mut i: usize = 0;
    while i < n
        invariant
            i <= n,
            buf@ == Seq::new(i as nat, |j: int| 0u8),
        decreases n - i,
    {
        buf.push(0);
        i = i + 1;
        proof {
            assert(buf@ =~= Seq::new(i as nat, |j: int| 0u8));
        }
    }
    buf
}

/// Container type for (de)serialisations.
///
/// The buffer holds a fixed amount of bytes, of which the first [`len`](Self::len) are those of
/// the last serialisation.
#[derive(Debug)]
pub struct Buffer<T> {
    buf: Vec<u8>,
    len: usize,
    _phantom: PhantomData<T>,
}

impl<T> Buffer<T> {
    /// The used part never exceeds the buffer.
    #[verifier::type_invariant]
    spec fn inv(&self) -> bool {
        self.len <= self.buf@.len()
    }

    /// The whole buffer, used part and rest.
    pub closed spec fn data(&self) -> Seq<u8> {
        self.buf@
    }

    /// The length of the used part of the buffer.
    pub closed spec fn spec_len(&self) -> nat {
        self.len as nat
    }

    /// The used part of the buffer.
    pub open spec fn used(&self) -> Seq<u8> {
        self.data().take(self.spec_len() as int)
    }

    /// Allocates a new buffer of the given size, filled with zeroes.
    pub fn with_capacity(len: usize) -> (r: Self)
        ensures
            r.data() == Seq::new(len as nat, |i: int| 0u8),
            r.spec_len() == 0,
    {
        Buffer { buf: zeroes(len), len: 0, _phantom: PhantomData }
    }

    /// Sets the length of the used part of the buffer.
    ///
    /// The length must not exceed the capacity (the caller's obligation).
    pub fn set_len(&mut self, len: usize)
        requires
            len <= old(self).data().len(),
        ensures
            final(self).data() == old(self).data(),
            final(self).spec_len() == len,
    {
        let mut tmp: Buffer<T> = Buffer { buf: Vec::new(), len: 0, _phantom: PhantomData };
        std::mem::swap(self, &mut tmp);
        let Buffer { buf, len: _, _phantom } = tmp;
        *self = Buffer { buf, len, _phantom: PhantomData };
    }

    /// Gets a slice of the used part of the buffer.
    pub fn as_slice(&self) -> (r: &[u8])
        ensures
            r@ == self.used(),
    {
        proof {
            use_type_invariant(self);
        }
        let r = slice_subrange(self.buf.as_slice(), 0, self.len);
        proof {
            assert(r@ =~= self.used());
        }
        r
    }

    /// Gets a mutable slice of the whole buffer.
    pub fn as_mut_slice(&mut self) -> (r: &mut [u8])
        ensures
            r@ == old(self).data(),
            final(self).data() == final(r)@,
            final(self).spec_len() == old(self).spec_len(),
    {
        proof {
            use_type_invariant(&*self);
        }
        vec_as_mut_slice(&mut self.buf)
    }

    /// Retrieves the length of the used part of the buffer.
    pub fn len(&self) -> (r: usize)
        ensures
            r == self.spec_len(),
            r <= self.data().len(),
    {
        proof {
            use_type_invariant(self);
        }
        self.len
    }

    /// Retrieves the capacity of the buffer.
    pub fn capacity(&self) -> (r: usize)
        ensures
            r == self.data().len(),
    {
        self.buf.len()
    }
}

impl<T: Serialise> Buffer<T> {
    /// Allocates a new buffer suitable for serialisation.
    ///
    /// The capacity of the buffer is set so that any serialisation of `T` may be stored (as
    /// specified by [`MAX_SERIALISED_SIZE`](Serialise::MAX_SERIALISED_SIZE)).
    pub fn new() -> (r: Self)
        ensures
            r.data() == Seq::new(T::MAX_SERIALISED_SIZE as nat, |i: int| 0u8),
            r.spec_len() == 0,
    {
        Self::with_capacity(T::MAX_SERIALISED_SIZE)
    }

    /// Serialises into the buffer.
    ///
    /// The value is serialised from the start of the buffer, and the length of the buffer is set
    /// to that of the serialisation.
    ///
    /// # Errors
    ///
    /// Any error that occurs during serialisation is passed on and returned from this method;
    /// the length of the buffer is then left as it was.
    ///
    /// A successful serialisation must not exceed
    /// [`MAX_SERIALISED_SIZE`](Serialise::MAX_SERIALISED_SIZE) (the caller's obligation).
    pub fn write(&mut self, value: &T) -> (r: Result<(), Error>)
        requires
            outcome(T::spec_serialise(value.model()), old(self).data().len() as int).1 is None
                ==> outcome(T::spec_serialise(value.model()), old(self).data().len() as int).0.len()
                <= T::MAX_SERIALISED_SIZE,
        ensures
            ({
                let o = outcome(T::spec_serialise(value.model()), old(self).data().len() as int);
                &&& final(self).data() == splice(old(self).data(), 0, o.0)
                &&& r == serialise_result(o.1)
                &&& final(self).spec_len() == (if r is Ok {
                    o.0.len()
                } else {
                    old(self).spec_len()
                })
            }),
    {
        proof {
            use_type_invariant(&*self);
        }
        let mut tmp: Buffer<T> = Buffer { buf: Vec::new(), len: 0, _phantom: PhantomData };
        std::mem::swap(self, &mut tmp);
        let Buffer { buf, len, _phantom } = tmp;
        let mut stream = Sstream::new(buf);
        let r = value.serialise(&mut stream);
        let (buf, n) = stream.into_parts();
        match r {
            Ok(()) => {
                *self = Buffer { buf, len: n, _phantom: PhantomData };
                Ok(())
            },
            Err(e) => {
                *self = Buffer { buf, len, _phantom: PhantomData };
                Err(e)
            },
        }
    }
}

impl<T: Deserialise> Buffer<T> {
    /// Deserialises the contents of the used part of the buffer.
    ///
    /// # Errors
    ///
    /// Any error that occurs during deserialisation is passed on and returned from this method.
    ///
    /// The used part must hold enough bytes for the deserialisation (the caller's obligation).
    pub fn read(&self) -> (r: Result<T, Error>)
        requires
            T::spec_deserialise(self.used()) is Some,
        ensures
            result_model(r) == T::spec_deserialise(self.used()).unwrap().0,
    {
        let mut stream = Dstream::new(self.as_slice());
        T::deserialise(&mut stream)
    }
}

impl<'a, T> PartialEq<&'a [u8]> for Buffer<T> {
    fn eq(&self, other: &&'a [u8]) -> (r: bool) {
        let o = compare_bytes(self.as_slice(), other);
        proof {
            lemma_lex_order_equal(self.used(), other@);
        }
        match o {
            Ordering::Equal => true,
            _ => false,
        }
    }
}

impl<'a, T> PartialEqSpecImpl<&'a [u8]> for Buffer<T> {
    open spec fn obeys_eq_spec() -> bool {
        true
    }

    open spec fn eq_spec(&self, other: &&'a [u8]) -> bool {
        self.used() == other@
    }
}

/// Reading a buffer gives back the value last written to it.
///
/// After a successful [`write`](Buffer::write) of a value, the used part of the buffer is its
/// serialisation, and deserialising it gives the value back.
pub proof fn lemma_buffer_write_read<T: SerialiseRoundtrip>(data: Seq<u8>, m: T::M)
    requires
        T::model_wf(m),
        T::spec_serialise(m).1 is None,
        serialised_bytes(T::spec_serialise(m)).len() <= data.len(),
    ensures
        outcome(T::spec_serialise(m), data.len() as int) == (
            serialised_bytes(T::spec_serialise(m)),
            None::<Error>,
        ),
        splice(data, 0, serialised_bytes(T::spec_serialise(m))).take(
            serialised_bytes(T::spec_serialise(m)).len() as int,
        ) == serialised_bytes(T::spec_serialise(m)),
        T::spec_deserialise(serialised_bytes(T::spec_serialise(m))) == Some(
            (Ok::<T::M, Error>(m), serialised_bytes(T::spec_serialise(m)).len()),
        ),
{
    let e = serialised_bytes(T::spec_serialise(m));
    crate::serialise::lemma_perform_fits(T::spec_serialise(m).0, T::spec_serialise(m).1, data.len() as int);
    assert(splice(data, 0, e).take(e.len() as int) =~= e);
    T::lemma_serialise_roundtrip(m, Seq::empty());
    assert(e + Seq::<u8>::empty() =~= e);
}

impl<T: Serialise> Default for Buffer<T> {
    fn default() -> (r: Self)
        ensures
            r.data() == Seq::new(T::MAX_SERIALISED_SIZE as nat, |i: int| 0u8),
            r.spec_len() == 0,
    {
        Self::new()
    }
}

} // verus!
