//! Byte streams for serialisation.
use vstd::prelude::*;
use vstd::slice::slice_subrange;
use crate::bytes::{be_bytes, lemma_be_bytes_len, splice};
use crate::error::Error;
use crate::lexical::{compare_bytes, lemma_lex_order_equal};
use core::cmp::Ordering;
use vstd::std_specs::cmp::PartialEqSpecImpl;
use crate::o_stream::{OStream, be_vec};

verus! {

/// Byte stream for serialisation.
///
/// The stream owns a buffer of fixed length; writes that the rest of the buffer cannot take fail
/// and leave the stream as it was.
pub struct Sstream {
    inner: OStream,
}

impl Sstream {
    /// The written part never exceeds the buffer.
    #[verifier::type_invariant]
    pub closed spec fn inv(&self) -> bool {
        self.inner.pos() <= self.inner.data().len()
    }

    /// The whole buffer, written part and rest.
    pub closed spec fn data(&self) -> Seq<u8> {
        self.inner.data()
    }

    /// The number of bytes written so far.
    pub closed spec fn pos(&self) -> nat {
        self.inner.pos()
    }

    /// The number of bytes that can still be written.
    pub open spec fn room(&self) -> int {
        self.data().len() - self.pos()
    }

    /// The bytes written so far.
    pub open spec fn written(&self) -> Seq<u8> {
        self.data().take(self.pos() as int)
    }

    /// `self` is `prev` with `bytes` written at its position.
    pub open spec fn wrote(&self, prev: Self, bytes: Seq<u8>) -> bool {
        &&& self.data() == splice(prev.data(), prev.pos() as int, bytes)
        &&& self.pos() == prev.pos() + bytes.len()
    }

    /// Constructs a new s-stream over the given buffer.
    pub fn new(buf: Vec<u8>) -> (r: Self)
        ensures
            r.data() == buf@,
            r.pos() == 0,
    {
        Sstream { inner: OStream::new(buf) }
    }

    /// Writes bytes to the stream.
    ///
    /// # Errors
    ///
    /// If the rest of the buffer cannot take all of `bytes`, an [`EndOfStream`](Error::EndOfStream)
    /// error is returned and nothing is written.
    pub fn write(&mut self, bytes: &[u8]) -> (r: Result<(), Error>)
        ensures
            bytes@.len() <= old(self).room() ==> r == Ok::<(), Error>(()) && final(self).wrote(*old(self), bytes@),
            bytes@.len() > old(self).room() ==> r == Err::<(), Error>(
                Error::EndOfStream { req: bytes@.len() as usize, rem: old(self).room() as usize },
            ) && *final(self) == *old(self) && final(self).wrote(*old(self), Seq::empty()),
            0 <= old(self).room(),
    {
        proof {
            use_type_invariant(&*self);
        }
        let rem = self.inner.capacity() - self.inner.len();
        let req = bytes.len();
        if rem < req {
            proof {
                lemma_wrote_nothing(*self);
            }
            return Err(Error::EndOfStream { req, rem });
        }
        let mut tmp = Sstream { inner: OStream::new(Vec::new()) };
        std::mem::swap(self, &mut tmp);
        let Sstream { inner } = tmp;
        let mut inner = inner;
        inner.write(bytes);
        *self = Sstream { inner };
        Ok(())
    }

    /// Writes the `n` low-order bytes of `v`, most significant first.
    pub(crate) fn write_be(&mut self, v: u128, n: usize) -> (r: Result<(), Error>)
        ensures
            n <= old(self).room() ==> r == Ok::<(), Error>(()) && final(self).wrote(
                *old(self),
                be_bytes(v as nat, n as nat),
            ),
            n > old(self).room() ==> r == Err::<(), Error>(
                Error::EndOfStream { req: n, rem: old(self).room() as usize },
            ) && *final(self) == *old(self) && final(self).wrote(*old(self), Seq::empty()),
            0 <= old(self).room(),
    {
        let bytes = be_vec(v, n);
        proof {
            lemma_be_bytes_len(v as nat, n as nat);
        }
        self.write(bytes.as_slice())
    }

    /// Gets a slice of the written bytes.
    pub fn as_slice(&self) -> (r: &[u8])
        ensures
            r@ == self.written(),
    {
        proof {
            use_type_invariant(self);
        }
        let (buf, pos) = self.inner.parts();
        let r = slice_subrange(buf, 0, pos);
        proof {
            assert(r@ =~= self.written());
        }
        r
    }

    /// Returns the number of bytes written so far.
    pub fn len(&self) -> (r: usize)
        ensures
            r == self.pos(),
            r <= self.data().len(),
    {
        proof {
            use_type_invariant(self);
        }
        self.inner.len()
    }

    /// Tests if the stream is empty.
    ///
    /// If no serialisations have been made so far, this method returns `false`.
    pub fn is_empty(&self) -> (r: bool)
        ensures
            r == (self.pos() != 0),
    {
        !self.inner.is_empty()
    }

    /// Tests if the stream cannot take any more bytes.
    pub fn is_full(&self) -> (r: bool)
        ensures
            r == (self.pos() == self.data().len()),
    {
        self.inner.is_full()
    }

    /// Closes the stream, giving back the buffer and the amount of bytes written.
    pub fn into_parts(self) -> (r: (Vec<u8>, usize))
        ensures
            r.0@ == self.data(),
            r.1 == self.pos(),
            r.1 <= r.0@.len(),
    {
        proof {
            use_type_invariant(&self);
        }
        let Sstream { inner } = self;
        inner.into_parts()
    }
}

/// Writing `x` and then `y` is writing `x + y`.
pub proof fn lemma_wrote_then(s0: Sstream, s1: Sstream, s2: Sstream, x: Seq<u8>, y: Seq<u8>)
    requires
        s1.wrote(s0, x),
        s2.wrote(s1, y),
        x.len() + y.len() <= s0.room(),
    ensures
        s2.wrote(s0, x + y),
{
    assert(s2.data() =~= splice(s0.data(), s0.pos() as int, x + y));
}

/// Writing nothing leaves the stream as it was, and a stream never has negative room.
pub proof fn lemma_wrote_nothing(s: Sstream)
    requires
        s.inv(),
    ensures
        s.wrote(s, Seq::empty()),
        0 <= s.room(),
{
    assert(s.data() =~= splice(s.data(), s.pos() as int, Seq::empty()));
}

impl<'a> PartialEq<&'a [u8]> for Sstream {
    fn eq(&self, other: &&'a [u8]) -> (r: bool) {
        let o = compare_bytes(self.as_slice(), other);
        proof {
            lemma_lex_order_equal(self.written(), other@);
        }
        match o {
            Ordering::Equal => true,
            _ => false,
        }
    }
}

impl<'a> PartialEqSpecImpl<&'a [u8]> for Sstream {
    open spec fn obeys_eq_spec() -> bool {
        true
    }

    open spec fn eq_spec(&self, other: &&'a [u8]) -> bool {
        self.written() == other@
    }
}

} // verus!
