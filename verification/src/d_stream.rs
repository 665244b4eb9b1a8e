//! Byte streams for deserialisation.
use vstd::prelude::*;
use vstd::slice::slice_subrange;
use crate::error::Error;
use crate::lexical::{compare_bytes, lemma_lex_order_equal};
use core::cmp::Ordering;
use vstd::std_specs::cmp::PartialEqSpecImpl;
use vstd::std_specs::convert::FromSpecImpl;
use crate::bytes::{be_value, lemma_be_value_bound, lemma_pow256_monotone, lemma_pow256_values, pow256};

verus! {

/// Byte stream for deserialisation.
///
/// Reads that the rest of the data cannot serve fail and leave the stream as it was.
pub struct Dstream<'a> {
    buf: &'a [u8],
    pos: usize,
}

impl<'a> Dstream<'a> {
    #[verifier::type_invariant]
    spec fn inv(&self) -> bool {
        self.pos <= self.buf@.len()
    }

    /// The whole input.
    pub closed spec fn data(&self) -> Seq<u8> {
        self.buf@
    }

    /// The number of bytes read so far.
    pub closed spec fn pos(&self) -> nat {
        self.pos as nat
    }

    /// The bytes read so far.
    pub open spec fn consumed(&self) -> Seq<u8> {
        self.data().take(self.pos() as int)
    }

    /// The bytes not read yet.
    pub open spec fn rest(&self) -> Seq<u8> {
        self.data().skip(self.pos() as int)
    }

    /// Constructs a new d-stream.
    pub fn new(buf: &'a [u8]) -> (r: Self)
        ensures
            r.data() == buf@,
            r.pos() == 0,
            r.rest() == buf@,
    {
        let r = Dstream { buf, pos: 0 };
        proof {
            assert(buf@.skip(0) =~= buf@);
        }
        r
    }

    /// Reads bytes from the stream.
    ///
    /// # Errors
    ///
    /// If the stream holds fewer than `count` unread bytes, an
    /// [`EndOfStream`](Error::EndOfStream) error is returned and nothing is read.
    pub fn read(&mut self, count: usize) -> (r: Result<&'a [u8], Error>)
        ensures
            count <= old(self).rest().len() ==> {
                &&& r matches Ok(d) && d@ == old(self).rest().take(count as int)
                &&& final(self).data() == old(self).data()
                &&& final(self).pos() == old(self).pos() + count
                &&& final(self).rest() == old(self).rest().skip(count as int)
            },
            count > old(self).rest().len() ==> r == Err::<&'a [u8], Error>(
                Error::EndOfStream { req: count, rem: old(self).rest().len() as usize },
            ) && *final(self) == *old(self),
    {
        proof {
            use_type_invariant(&*self);
        }
        let start = self.pos;
        let rem = self.buf.len() - start;
        if rem < count {
            return Err(Error::EndOfStream { req: count, rem });
        }
        let data = slice_subrange(self.buf, start, start + count);
        self.pos = start + count;
        proof {
            assert(data@ =~= old(self).rest().take(count as int));
            assert(self.rest() =~= old(self).rest().skip(count as int));
        }
        Ok(data)
    }

    /// Reads bytes that the stream is known to hold.
    pub(crate) fn read_exact(&mut self, count: usize) -> (r: &'a [u8])
        requires
            count <= old(self).rest().len(),
        ensures
            r@ == old(self).rest().take(count as int),
            final(self).data() == old(self).data(),
            final(self).pos() == old(self).pos() + count,
            final(self).rest() == old(self).rest().skip(count as int),
    {
        match self.read(count) {
            Ok(d) => d,
            Err(_) => {
                proof {
                    assert(false);
                }
                &[]
            },
        }
    }

    /// Reads `n` bytes, at most sixteen, as a big-endian unsigned number.
    pub(crate) fn read_be(&mut self, n: usize) -> (r: u128)
        requires
            n <= 16,
            n <= old(self).rest().len(),
        ensures
            r == be_value(old(self).rest().take(n as int)),
            r < pow256(n as nat),
            final(self).data() == old(self).data(),
            final(self).pos() == old(self).pos() + n,
            final(self).rest() == old(self).rest().skip(n as int),
    {
        let s = self.read_exact(n);
        let mut acc: u128 = 0;
        let mut i: usize = 0;
        proof {
            lemma_pow256_values();
        }
        while i < n
            invariant
                0 <= i <= n <= 16,
                s@.len() == n,
                acc == be_value(s@.take(i as int)),
                acc < pow256(i as nat),
                pow256(16) == 0x1_0000_0000_0000_0000_0000_0000_0000_0000,
            decreases n - i,
        {
            proof {
                lemma_be_value_bound(s@.take(i as int));
                lemma_pow256_monotone((i + 1) as nat, 16);
                assert(s@.take(i + 1).drop_last() == s@.take(i as int));
            }
            acc = acc * 256 + s[i] as u128;
            i = i + 1;
        }
        proof {
            assert(s@.take(n as int) == s@);
        }
        acc
    }

    /// Gets a slice of the bytes read so far.
    pub fn as_slice(&self) -> (r: &'a [u8])
        ensures
            r@ == self.data().take(self.pos() as int),
    {
        proof {
            use_type_invariant(self);
        }
        let r = slice_subrange(self.buf, 0, self.pos);
        proof {
            assert(r@ =~= self.data().take(self.pos() as int));
        }
        r
    }

    /// Returns the number of bytes read so far.
    pub fn len(&self) -> (r: usize)
        ensures
            r == self.pos(),
            r <= self.data().len(),
    {
        proof {
            use_type_invariant(self);
        }
        self.pos
    }

    /// Tests if the stream is empty.
    ///
    /// If no deserialisations have been made at the time of calling, this method returns `false`.
    pub fn is_empty(&self) -> (r: bool)
        ensures
            r == (self.pos() != 0),
    {
        self.pos != 0
    }

    /// Tests if the stream cannot give any more bytes.
    pub fn is_full(&self) -> (r: bool)
        ensures
            r == (self.pos() == self.data().len()),
    {
        self.pos == self.buf.len()
    }
}

impl<'a, 'b> PartialEq<&'b [u8]> for Dstream<'a> {
    fn eq(&self, other: &&'b [u8]) -> (r: bool) {
        let o = compare_bytes(self.as_slice(), other);
        proof {
            lemma_lex_order_equal(self.consumed(), other@);
        }
        match o {
            Ordering::Equal => true,
            _ => false,
        }
    }
}

impl<'a, 'b> PartialEqSpecImpl<&'b [u8]> for Dstream<'a> {
    open spec fn obeys_eq_spec() -> bool {
        true
    }

    open spec fn eq_spec(&self, other: &&'b [u8]) -> bool {
        self.consumed() == other@
    }
}

impl<'a> From<&'a [u8]> for Dstream<'a> {
    fn from(value: &'a [u8]) -> (r: Self)
        ensures
            r.data() == value@,
            r.pos() == 0,
    {
        Self::new(value)
    }
}

impl<'a> FromSpecImpl<&'a [u8]> for Dstream<'a> {
    /// The stream is stated by [`from`](From::from) itself, over its data and position.
    open spec fn obeys_from_spec() -> bool {
        false
    }

    open spec fn from_spec(v: &'a [u8]) -> Self {
        choose|r: Self| r.data() == v@ && r.pos() == 0
    }
}

} // verus!
