//! Output byte streams.
use vstd::prelude::*;
use crate::bytes::{be_bytes, lemma_be_bytes_len, splice};

verus! {

/// Byte stream suitable for output.
///
/// The stream owns a buffer of fixed length and keeps track of how many bytes have been written
/// to it so far.
pub struct OStream {
    buf: Vec<u8>,
    pos: usize,
}

impl OStream {
    /// The whole buffer, written part and rest.
    pub closed spec fn data(&self) -> Seq<u8> {
        self.buf@
    }

    /// The number of bytes written so far.
    pub closed spec fn pos(&self) -> nat {
        self.pos as nat
    }

    /// The number of bytes that can still be written.
    pub open spec fn room(&self) -> int {
        self.data().len() - self.pos()
    }

    /// The bytes written so far.
    pub open spec fn written(&self) -> Seq<u8> {
        self.data().take(self.pos() as int)
    }

    /// `self` is `prev` with `bytes` written at its position.
    pub open spec fn wrote(&self, prev: Self, bytes: Seq<u8>) -> bool {
        &&& self.data() == splice(prev.data(), prev.pos() as int, bytes)
        &&& self.pos() == prev.pos() + bytes.len()
    }

    /// Constructs a new o-stream over the given buffer.
    ///
    /// The capacity of the stream is the length of the buffer.
    pub fn new(buf: Vec<u8>) -> (r: Self)
        ensures
            r.data() == buf@,
            r.pos() == 0,
    {
        OStream { buf, pos: 0 }
    }

    /// Writes bytes to the stream.
    ///
    /// The stream must have room for all of `data` (the caller's obligation).
    pub fn write(&mut self, data: &[u8])
        requires
            data@.len() <= old(self).room(),
        ensures
            final(self).wrote(*old(self), data@),
    {
        let start = self.pos;
        let n = data.len();
        let cap = self.buf.len();
        let ghost base = self.buf@;
        let mut i: usize = 0;
        while i < n
            invariant
                0 <= i <= n,
                n == data@.len(),
                start + n <= self.buf@.len(),
                cap == self.buf@.len(),
                self.pos == start,
                base.len() == self.buf@.len(),
                self.buf@ == splice(base, start as int, data@.take(i as int)),
            decreases n - i,
        {
            self.buf.set(start + i, data[i]);
            proof {
                assert(data@.take(i as int).push(data@[i as int]) == data@.take(i + 1));
            }
            i = i + 1;
        }
        self.pos = start + n;
        proof {
            assert(data@.take(n as int) == data@);
        }
    }

    /// Writes a single byte to the stream.
    pub fn write_byte(&mut self, b: u8)
        requires
            1 <= old(self).room(),
        ensures
            final(self).wrote(*old(self), seq![b]),
    {
        let p = self.pos;
        let cap = self.buf.len();
        self.buf.set(p, b);
        self.pos = p + 1;
        proof {
            assert(self.buf@ =~= splice(old(self).buf@, p as int, seq![b]));
        }
    }

    /// Writes the `n` low-order bytes of `v`, most significant first.
    pub fn write_be(&mut self, v: u128, n: usize)
        requires
            n <= old(self).room(),
        ensures
            final(self).wrote(*old(self), be_bytes(v as nat, n as nat)),
    {
        let bytes = be_vec(v, n);
        proof {
            lemma_be_bytes_len(v as nat, n as nat);
        }
        self.write(bytes.as_slice());
    }

    /// Returns the number of bytes written so far.
    pub fn len(&self) -> (r: usize)
        ensures
            r == self.pos(),
    {
        self.pos
    }

    /// Returns the total capacity of the stream.
    pub fn capacity(&self) -> (r: usize)
        ensures
            r == self.data().len(),
    {
        self.buf.len()
    }

    /// Tests if nothing has been written yet.
    pub fn is_empty(&self) -> (r: bool)
        ensures
            r == (self.pos() == 0),
    {
        self.pos == 0
    }

    /// Tests if the stream cannot take any more bytes.
    pub fn is_full(&self) -> (r: bool)
        ensures
            r == (self.pos() == self.data().len()),
    {
        self.pos == self.buf.len()
    }

    /// Borrows the whole buffer, along with the number of bytes written.
    pub(crate) fn parts(&self) -> (r: (&[u8], usize))
        ensures
            r.0@ == self.data(),
            r.1 == self.pos(),
    {
        (self.buf.as_slice(), self.pos)
    }

    /// Closes the stream.
    ///
    /// The total amount of bytes written is returned.
    pub fn close(self) -> (r: usize)
        ensures
            r == self.pos(),
    {
        self.pos
    }

    /// Closes the stream, giving back the buffer and the amount of bytes written.
    pub fn into_parts(self) -> (r: (Vec<u8>, usize))
        ensures
            r.0@ == self.data(),
            r.1 == self.pos(),
    {
        let OStream { buf, pos } = self;
        (buf, pos)
    }
}

/// Writing `x` and then `y` is writing `x + y`.
pub proof fn lemma_wrote_then(s0: OStream, s1: OStream, s2: OStream, x: Seq<u8>, y: Seq<u8>)
    requires
        s1.wrote(s0, x),
        s2.wrote(s1, y),
        x.len() + y.len() <= s0.room(),
    ensures
        s2.wrote(s0, x + y),
{
    assert(s2.data() =~= splice(s0.data(), s0.pos() as int, x + y));
}

/// Writing nothing leaves the stream as it was.
pub proof fn lemma_wrote_nothing(s0: OStream, s1: OStream)
    requires
        s0.data() == s1.data(),
        s0.pos() == s1.pos(),
        s0.pos() <= s0.data().len(),
    ensures
        s1.wrote(s0, Seq::empty()),
{
    assert(s1.data() =~= splice(s0.data(), s0.pos() as int, Seq::empty()));
}

/// The `n` low-order bytes of `v`, most significant first.
pub(crate) fn be_vec(v: u128, n: usize) -> (r: Vec<u8>)
    ensures
        r@ == be_bytes(v as nat, n as nat),
    decreases n,
{
    if n == 0 {
        Vec::new()
    } else {
        let mut r = be_vec(v / 256, n - 1);
        r.push((v % 256) as u8);
        r
    }
}

} // verus!
