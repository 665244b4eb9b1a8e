//! Input byte streams.
use vstd::prelude::*;
use vstd::slice::slice_subrange;
use crate::bytes::{be_value, lemma_be_value_bound, lemma_pow256_monotone, lemma_pow256_values, pow256};

verus! {

/// Byte stream suitable for input.
pub struct IStream<'a> {
    buf: &'a [u8],
    pos: usize,
}

impl<'a> IStream<'a> {
    #[verifier::type_invariant]
    spec fn inv(&self) -> bool {
        self.pos <= self.buf@.len()
    }

    /// The whole input.
    pub closed spec fn data(&self) -> Seq<u8> {
        self.buf@
    }

    /// The number of bytes read so far.
    pub closed spec fn pos(&self) -> nat {
        self.pos as nat
    }

    /// The bytes not read yet.
    pub open spec fn rest(&self) -> Seq<u8> {
        self.data().skip(self.pos() as int)
    }

    /// Constructs a new i-stream.
    pub fn new(buf: &'a [u8]) -> (r: Self)
        ensures
            r.data() == buf@,
            r.pos() == 0,
            r.rest() == buf@,
    {
        let r = IStream { buf, pos: 0 };
        proof {
            assert(buf@.skip(0) =~= buf@);
        }
        r
    }

    /// Reads bytes from the stream.
    ///
    /// The stream must hold at least `count` unread bytes (the caller's obligation).
    pub fn read(&mut self, count: usize) -> (r: &'a [u8])
        requires
            count <= old(self).rest().len(),
        ensures
            r@ == old(self).rest().take(count as int),
            final(self).data() == old(self).data(),
            final(self).pos() == old(self).pos() + count,
            final(self).rest() == old(self).rest().skip(count as int),
    {
        proof {
            use_type_invariant(&*self);
        }
        let start = self.pos;
        let len = self.buf.len();
        let data = slice_subrange(self.buf, start, start + count);
        self.pos = start + count;
        proof {
            assert(data@ =~= old(self).rest().take(count as int));
            assert(self.rest() =~= old(self).rest().skip(count as int));
        }
        data
    }

    /// Reads `n` bytes, at most sixteen, as a big-endian unsigned number.
    pub fn read_be(&mut self, n: usize) -> (r: u128)
        requires
            n <= 16,
            n <= old(self).rest().len(),
        ensures
            r == be_value(old(self).rest().take(n as int)),
            r < pow256(n as nat),
            final(self).data() == old(self).data(),
            final(self).pos() == old(self).pos() + n,
            final(self).rest() == old(self).rest().skip(n as int),
    {
        let s = self.read(n);
        let mut acc: u128 = 0;
        let mut i: usize = 0;
        proof {
            lemma_pow256_values();
        }
        while i < n
            invariant
                0 <= i <= n <= 16,
                s@.len() == n,
                acc == be_value(s@.take(i as int)),
                acc < pow256(i as nat),
                pow256(16) == 0x1_0000_0000_0000_0000_0000_0000_0000_0000,
            decreases n - i,
        {
            proof {
                lemma_be_value_bound(s@.take(i as int));
                lemma_pow256_monotone((i + 1) as nat, 16);
                assert(s@.take(i + 1).drop_last() == s@.take(i as int));
            }
            acc = acc * 256 + s[i] as u128;
            i = i + 1;
        }
        proof {
            assert(s@.take(n as int) == s@);
        }
        acc
    }

    /// Closes the stream.
    ///
    /// The total amount of bytes read is returned.
    pub fn close(self) -> (r: usize)
        ensures
            r == self.pos(),
            r <= self.data().len(),
    {
        proof {
            use_type_invariant(&self);
        }
        self.pos
    }
}


/// The sum of the given counts.
pub open spec fn sum_counts(counts: Seq<nat>) -> nat
    decreases counts.len(),
{
    if counts.len() == 0 {
        0
    } else {
        sum_counts(counts.drop_last()) + counts.last()
    }
}

/// `after` is `before` after a [`read`](IStream::read) of `count` bytes, as that function's
/// contract describes it.
pub open spec fn read_step(before: IStream, after: IStream, count: nat) -> bool {
    &&& count <= before.rest().len()
    &&& after.data() == before.data()
    &&& after.pos() == before.pos() + count
}

/// A stream read from, from its start, by reads of the given counts has read their sum, which is
/// no more than its input.
///
/// `streams[0]` is a new stream, and each `streams[i + 1]` is `streams[i]` after a read of
/// `counts[i]` bytes.
pub proof fn lemma_reads_sum(streams: Seq<IStream>, counts: Seq<nat>)
    requires
        streams.len() == counts.len() + 1,
        streams[0].pos() == 0,
        forall|i: int| 0 <= i < counts.len() ==> #[trigger] read_step(streams[i], streams[i + 1], counts[i]),
    ensures
        streams.last().pos() == sum_counts(counts),
        streams.last().data() == streams[0].data(),
        sum_counts(counts) <= streams[0].data().len(),
    decreases counts.len(),
{
    if counts.len() > 0 {
        let k = counts.len() - 1;
        let ps = streams.drop_last();
        let pc = counts.drop_last();
        assert forall|i: int| 0 <= i < pc.len() implies #[trigger] read_step(ps[i], ps[i + 1], pc[i]) by {
            assert(read_step(streams[i], streams[i + 1], counts[i]));
        }
        lemma_reads_sum(ps, pc);
        assert(read_step(streams[k], streams[k + 1], counts[k]));
        assert(streams[k] == ps.last());
        assert(streams[k].rest().len() == streams[k].data().len() - streams[k].pos());
    }
}

} // verus!
