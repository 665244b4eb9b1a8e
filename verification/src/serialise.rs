//! Serialisation into s-streams.
use vstd::prelude::*;
use crate::bytes::{be_bytes, lemma_be_bytes_len, lemma_pow256_values, twos};
use crate::error::Error;
use crate::model::{Model, seq_model, seq_wf};
use crate::fixed_string::FixedString;
use vstd::utf8::encode_utf8;
use crate::s_stream::{Sstream, lemma_wrote_nothing, lemma_wrote_then};
use std::marker::PhantomData;

verus! {

/// What serialising a value does: the byte strings that it writes one after the other, and the
/// error that ends it once they are written, if any.
pub type Serialising = (Seq<Seq<u8>>, Option<Error>);

/// The outcome that a serialisation ending with `err` reports.
pub open spec fn serialise_result(err: Option<Error>) -> Result<(), Error> {
    match err {
        Some(e) => Err(e),
        None => Ok(()),
    }
}

/// Serialising with `first`, then with `second` unless `first` failed.
pub open spec fn serialise_then(first: Serialising, second: Serialising) -> Serialising {
    match first.1 {
        Some(_) => first,
        None => (first.0 + second.0, second.1),
    }
}

/// What performing the `writes` on a stream with `room` bytes left gives: the bytes written,
/// and the error that ends the serialisation, if any.
///
/// A write that the stream cannot take fails with an
/// [`EndOfStream`](Error::EndOfStream) error, and the writes after it are not performed.
pub open spec fn perform(writes: Seq<Seq<u8>>, err: Option<Error>, room: int) -> (
    Seq<u8>,
    Option<Error>,
)
    decreases writes.len(),
{
    if writes.len() == 0 {
        (Seq::empty(), err)
    } else if writes[0].len() > room {
        (
            Seq::empty(),
            Some(Error::EndOfStream { req: writes[0].len() as usize, rem: room as usize }),
        )
    } else {
        let rest = perform(writes.drop_first(), err, room - writes[0].len());
        (writes[0] + rest.0, rest.1)
    }
}

/// What a serialisation gives on a stream with `room` bytes left.
pub open spec fn outcome(s: Serialising, room: int) -> (Seq<u8>, Option<Error>) {
    perform(s.0, s.1, room)
}

/// All the bytes of the writes, one after the other.
pub open spec fn flatten(writes: Seq<Seq<u8>>) -> Seq<u8>
    decreases writes.len(),
{
    if writes.len() == 0 {
        Seq::empty()
    } else {
        writes[0] + flatten(writes.drop_first())
    }
}

/// The bytes of a serialisation that completes.
pub open spec fn serialised_bytes(s: Serialising) -> Seq<u8> {
    flatten(s.0)
}

/// `after` is `before` with the outcome of the serialisation `s` written, and `r` reports it.
pub open spec fn serialised(after: Sstream, before: Sstream, s: Serialising, r: Result<(), Error>) -> bool {
    &&& after.wrote(before, outcome(s, before.room()).0)
    &&& r == serialise_result(outcome(s, before.room()).1)
}

/// Performing two lists of writes is performing the first, then the second where the first
/// went through.
pub proof fn lemma_perform_append(a: Seq<Seq<u8>>, b: Seq<Seq<u8>>, err: Option<Error>, room: int)
    ensures
        perform(a + b, err, room) == ({
            let x = perform(a, None, room);
            if x.1 is Some {
                x
            } else {
                let y = perform(b, err, room - x.0.len());
                (x.0 + y.0, y.1)
            }
        }),
        perform(a, None, room).0.len() <= room || perform(a, None, room).0.len() == 0,
    decreases a.len(),
{
    if a.len() == 0 {
        assert(a + b =~= b);
        assert(Seq::<u8>::empty() + perform(b, err, room).0 =~= perform(b, err, room).0);
    } else {
        assert((a + b)[0] == a[0]);
        assert((a + b).drop_first() =~= a.drop_first() + b);
        if a[0].len() <= room {
            lemma_perform_append(a.drop_first(), b, err, room - a[0].len());
            let x = perform(a.drop_first(), None, room - a[0].len());
            if x.1 is None {
                let y = perform(b, err, room - a[0].len() - x.0.len());
                assert(a[0] + (x.0 + y.0) =~= (a[0] + x.0) + y.0);
            }
        }
    }
}

/// The outcome of serialising with `first` and then `second`.
pub proof fn lemma_outcome_then(a: Serialising, b: Serialising, room: int)
    ensures
        outcome(serialise_then(a, b), room) == ({
            let x = outcome(a, room);
            if x.1 is Some {
                x
            } else {
                let y = outcome(b, room - x.0.len());
                (x.0 + y.0, y.1)
            }
        }),
{
    if a.1 is None {
        lemma_perform_append(a.0, b.0, b.1, room);
    } else {
        lemma_perform_fails(a.0, a.1->0, room);
    }
}

/// A serialisation that ends with an error reports an error.
pub proof fn lemma_perform_fails(writes: Seq<Seq<u8>>, e: Error, room: int)
    ensures
        perform(writes, Some(e), room).1 is Some,
    decreases writes.len(),
{
    if writes.len() > 0 && writes[0].len() <= room {
        lemma_perform_fails(writes.drop_first(), e, room - writes[0].len());
    }
}

/// Performing the writes never writes more than there is room for.
pub proof fn lemma_perform_len(writes: Seq<Seq<u8>>, err: Option<Error>, room: int)
    ensures
        perform(writes, err, room).0.len() == 0 || perform(writes, err, room).0.len() <= room,
        perform(writes, err, room).0.len() <= flatten(writes).len(),
    decreases writes.len(),
{
    if writes.len() > 0 && writes[0].len() <= room {
        lemma_perform_len(writes.drop_first(), err, room - writes[0].len());
    }
}

/// Where the stream has room for all the bytes, the writes all go through.
pub proof fn lemma_perform_fits(writes: Seq<Seq<u8>>, err: Option<Error>, room: int)
    requires
        flatten(writes).len() <= room,
    ensures
        perform(writes, err, room) == (flatten(writes), err),
    decreases writes.len(),
{
    if writes.len() > 0 {
        lemma_perform_fits(writes.drop_first(), err, room - writes[0].len());
    }
}

/// The bytes of a concatenation of writes are the concatenation of their bytes.
pub proof fn lemma_flatten_append(a: Seq<Seq<u8>>, b: Seq<Seq<u8>>)
    ensures
        flatten(a + b) == flatten(a) + flatten(b),
    decreases a.len(),
{
    if a.len() == 0 {
        assert(a + b =~= b);
        assert(flatten(a) + flatten(b) =~= flatten(b));
    } else {
        assert((a + b)[0] == a[0]);
        assert((a + b).drop_first() =~= a.drop_first() + b);
        lemma_flatten_append(a.drop_first(), b);
        assert(flatten(a + b) =~= flatten(a) + flatten(b));
    }
}

/// Serialising a single write.
pub open spec fn write_once(bytes: Seq<u8>) -> Serialising {
    (seq![bytes], None)
}

/// The outcome of a single write.
pub proof fn lemma_write_once(bytes: Seq<u8>, room: int)
    ensures
        bytes.len() <= room ==> outcome(write_once(bytes), room) == (bytes, None::<Error>),
        bytes.len() > room ==> outcome(write_once(bytes), room) == (
            Seq::<u8>::empty(),
            Some(Error::EndOfStream { req: bytes.len() as usize, rem: room as usize }),
        ),
        flatten(write_once(bytes).0) == bytes,
{
    reveal_with_fuel(perform, 2);
    reveal_with_fuel(flatten, 2);
    assert(seq![bytes].drop_first() =~= Seq::<Seq<u8>>::empty());
    assert(bytes + Seq::<u8>::empty() =~= bytes);
}

/// Writes the `n` low-order bytes of `v`, most significant first, as one write.
pub(crate) fn write_number(stream: &mut Sstream, v: u128, n: usize) -> (r: Result<(), Error>)
    ensures
        serialised(*final(stream), *old(stream), write_once(be_bytes(v as nat, n as nat)), r),
{
    proof {
        lemma_be_bytes_len(v as nat, n as nat);
        lemma_write_once(be_bytes(v as nat, n as nat), old(stream).room());
    }
    let r = stream.write_be(v, n);
    proof {
        let b = be_bytes(v as nat, n as nat);
        let o = outcome(write_once(b), old(stream).room());
        if n <= old(stream).room() {
            assert(o == (b, None::<Error>));
        } else {
            assert(b.len() as usize == n);
        }
    }
    r
}

/// A serialisation whose first part went through continues with the second part.
pub proof fn lemma_serialised_then(
    s0: Sstream,
    s1: Sstream,
    s2: Sstream,
    a: Serialising,
    b: Serialising,
    r: Result<(), Error>,
)
    requires
        serialised(s1, s0, a, Ok(())),
        serialised(s2, s1, b, r),
        0 <= s0.room(),
    ensures
        serialised(s2, s0, serialise_then(a, b), r),
{
    lemma_outcome_then(a, b, s0.room());
    lemma_perform_len(a.0, a.1, s0.room());
    assert(s1.room() == s0.room() - outcome(a, s0.room()).0.len());
    lemma_perform_len(b.0, b.1, s1.room());
    lemma_wrote_then(s0, s1, s2, outcome(a, s0.room()).0, outcome(b, s1.room()).0);
}

/// A serialisation whose first part failed stops there.
pub proof fn lemma_serialised_stop(s0: Sstream, s1: Sstream, a: Serialising, b: Serialising, e: Error)
    requires
        serialised(s1, s0, a, Err(e)),
    ensures
        serialised(s1, s0, serialise_then(a, b), Err(e)),
{
    lemma_outcome_then(a, b, s0.room());
}

/// Denotes a type capable of being serialised.
pub trait Serialise: Model + Sized {
    /// The maximum amount of bytes that can result from serialisation.
    const MAX_SERIALISED_SIZE: usize;

    /// What serialising a value with the given model does.
    spec fn spec_serialise(m: Self::M) -> Serialising;

    /// Serialises `self` into a stream.
    ///
    /// # Errors
    ///
    /// If serialisation fails, e.g. by the stream running out of room, an error is returned;
    /// what was written before the failing write stays written.
    fn serialise(&self, stream: &mut Sstream) -> (r: Result<(), Error>)
        ensures
            serialised(*final(stream), *old(stream), Self::spec_serialise(self.model()), r),
    ;
}

impl Serialise for u8 {
    const MAX_SERIALISED_SIZE: usize = 1;

    open spec fn spec_serialise(m: u8) -> Serialising {
        write_once(be_bytes(m as nat, 1))
    }

    fn serialise(&self, stream: &mut Sstream) -> (r: Result<(), Error>) {
        write_number(stream, *self as u128, 1)
    }
}

impl Serialise for u16 {
    const MAX_SERIALISED_SIZE: usize = 2;

    open spec fn spec_serialise(m: u16) -> Serialising {
        write_once(be_bytes(m as nat, 2))
    }

    fn serialise(&self, stream: &mut Sstream) -> (r: Result<(), Error>) {
        write_number(stream, *self as u128, 2)
    }
}

impl Serialise for u32 {
    const MAX_SERIALISED_SIZE: usize = 4;

    open spec fn spec_serialise(m: u32) -> Serialising {
        write_once(be_bytes(m as nat, 4))
    }

    fn serialise(&self, stream: &mut Sstream) -> (r: Result<(), Error>) {
        write_number(stream, *self as u128, 4)
    }
}

impl Serialise for u64 {
    const MAX_SERIALISED_SIZE: usize = 8;

    open spec fn spec_serialise(m: u64) -> Serialising {
        write_once(be_bytes(m as nat, 8))
    }

    fn serialise(&self, stream: &mut Sstream) -> (r: Result<(), Error>) {
        write_number(stream, *self as u128, 8)
    }
}

impl Serialise for u128 {
    const MAX_SERIALISED_SIZE: usize = 16;

    open spec fn spec_serialise(m: u128) -> Serialising {
        write_once(be_bytes(m as nat, 16))
    }

    fn serialise(&self, stream: &mut Sstream) -> (r: Result<(), Error>) {
        write_number(stream, *self as u128, 16)
    }
}

impl Serialise for i8 {
    const MAX_SERIALISED_SIZE: usize = 1;

    open spec fn spec_serialise(m: i8) -> Serialising {
        write_once(be_bytes(twos(m as int, 1), 1))
    }

    fn serialise(&self, stream: &mut Sstream) -> (r: Result<(), Error>) {
        proof {
            lemma_pow256_values();
        }
        let u: u128 = if *self >= 0 {
            *self as u128
        } else {
            (*self as i128 + 0x100) as u128
        };
        write_number(stream, u, 1)
    }
}

impl Serialise for i16 {
    const MAX_SERIALISED_SIZE: usize = 2;

    open spec fn spec_serialise(m: i16) -> Serialising {
        write_once(be_bytes(twos(m as int, 2), 2))
    }

    fn serialise(&self, stream: &mut Sstream) -> (r: Result<(), Error>) {
        proof {
            lemma_pow256_values();
        }
        let u: u128 = if *self >= 0 {
            *self as u128
        } else {
            (*self as i128 + 0x1_0000) as u128
        };
        write_number(stream, u, 2)
    }
}

impl Serialise for i32 {
    const MAX_SERIALISED_SIZE: usize = 4;

    open spec fn spec_serialise(m: i32) -> Serialising {
        write_once(be_bytes(twos(m as int, 4), 4))
    }

    fn serialise(&self, stream: &mut Sstream) -> (r: Result<(), Error>) {
        proof {
            lemma_pow256_values();
        }
        let u: u128 = if *self >= 0 {
            *self as u128
        } else {
            (*self as i128 + 0x1_0000_0000) as u128
        };
        write_number(stream, u, 4)
    }
}

impl Serialise for i64 {
    const MAX_SERIALISED_SIZE: usize = 8;

    open spec fn spec_serialise(m: i64) -> Serialising {
        write_once(be_bytes(twos(m as int, 8), 8))
    }

    fn serialise(&self, stream: &mut Sstream) -> (r: Result<(), Error>) {
        proof {
            lemma_pow256_values();
        }
        let u: u128 = if *self >= 0 {
            *self as u128
        } else {
            (*self as i128 + 0x1_0000_0000_0000_0000) as u128
        };
        write_number(stream, u, 8)
    }
}

impl Serialise for i128 {
    const MAX_SERIALISED_SIZE: usize = 16;

    open spec fn spec_serialise(m: i128) -> Serialising {
        write_once(be_bytes(twos(m as int, 16), 16))
    }

    fn serialise(&self, stream: &mut Sstream) -> (r: Result<(), Error>) {
        proof {
            lemma_pow256_values();
        }
        let u: u128 = if *self >= 0 {
            *self as u128
        } else {
            ((*self + 1 + i128::MAX) as u128) + 0x8000_0000_0000_0000_0000_0000_0000_0000
        };
        write_number(stream, u, 16)
    }
}

/// This implementation casts `self` to `u32` before serialising.
/// If this conversion isn't possible for the given value, then the
/// [`UsizeOutOfRange`](Error::UsizeOutOfRange) error is returned.
impl Serialise for usize {
    const MAX_SERIALISED_SIZE: usize = 4;

    open spec fn spec_serialise(m: usize) -> Serialising {
        if m > 0xFFFF_FFFF {
            (Seq::empty(), Some(Error::UsizeOutOfRange(m)))
        } else {
            <u32 as Serialise>::spec_serialise(m as u32)
        }
    }

    fn serialise(&self, stream: &mut Sstream) -> (r: Result<(), Error>) {
        if *self > 0xFFFF_FFFF {
            proof {
                use_type_invariant(&*stream);
                lemma_wrote_nothing(*stream);
            }
            return Err(Error::UsizeOutOfRange(*self));
        }
        let v = *self as u32;
        v.serialise(stream)
    }
}

/// This implementation casts `self` to `i32` before serialising.
/// If this conversion isn't possible for the given value, then the
/// [`IsizeOutOfRange`](Error::IsizeOutOfRange) error is returned.
impl Serialise for isize {
    const MAX_SERIALISED_SIZE: usize = 4;

    open spec fn spec_serialise(m: isize) -> Serialising {
        if m < -0x8000_0000 || m > 0x7FFF_FFFF {
            (Seq::empty(), Some(Error::IsizeOutOfRange(m)))
        } else {
            <i32 as Serialise>::spec_serialise(m as i32)
        }
    }

    fn serialise(&self, stream: &mut Sstream) -> (r: Result<(), Error>) {
        if *self < -0x8000_0000 || *self > 0x7FFF_FFFF {
            proof {
                use_type_invariant(&*stream);
                lemma_wrote_nothing(*stream);
            }
            return Err(Error::IsizeOutOfRange(*self));
        }
        let v = *self as i32;
        v.serialise(stream)
    }
}

impl Serialise for bool {
    const MAX_SERIALISED_SIZE: usize = 1;

    open spec fn spec_serialise(m: bool) -> Serialising {
        <u8 as Serialise>::spec_serialise(if m { 1u8 } else { 0u8 })
    }

    fn serialise(&self, stream: &mut Sstream) -> (r: Result<(), Error>) {
        let v: u8 = if *self { 1 } else { 0 };
        v.serialise(stream)
    }
}

impl Serialise for char {
    const MAX_SERIALISED_SIZE: usize = 4;

    open spec fn spec_serialise(m: char) -> Serialising {
        <u32 as Serialise>::spec_serialise(m as u32)
    }

    fn serialise(&self, stream: &mut Sstream) -> (r: Result<(), Error>) {
        let v = *self as u32;
        v.serialise(stream)
    }
}

impl Serialise for () {
    const MAX_SERIALISED_SIZE: usize = 0;

    open spec fn spec_serialise(m: ()) -> Serialising {
        (Seq::empty(), None)
    }

    fn serialise(&self, stream: &mut Sstream) -> (r: Result<(), Error>) {
        proof {
            use_type_invariant(&*stream);
            lemma_wrote_nothing(*stream);
        }
        Ok(())
    }
}

impl<T> Serialise for PhantomData<T> {
    const MAX_SERIALISED_SIZE: usize = 0;

    open spec fn spec_serialise(m: ()) -> Serialising {
        (Seq::empty(), None)
    }

    fn serialise(&self, stream: &mut Sstream) -> (r: Result<(), Error>) {
        proof {
            use_type_invariant(&*stream);
            lemma_wrote_nothing(*stream);
        }
        Ok(())
    }
}

impl<T: Serialise> Serialise for Option<T> {
    const MAX_SERIALISED_SIZE: usize = <bool as Serialise>::MAX_SERIALISED_SIZE + T::MAX_SERIALISED_SIZE;

    open spec fn spec_serialise(m: Option<T::M>) -> Serialising {
        match m {
            None => <bool as Serialise>::spec_serialise(false),
            Some(v) => serialise_then(<bool as Serialise>::spec_serialise(true), T::spec_serialise(v)),
        }
    }

    fn serialise(&self, stream: &mut Sstream) -> (r: Result<(), Error>) {
        match self {
            None => false.serialise(stream),
            Some(v) => {
                let ghost s0 = *stream;
                let first = true.serialise(stream);
                if let Err(e) = first {
                    proof {
                        lemma_serialised_stop(s0, *stream, <bool as Serialise>::spec_serialise(true), T::spec_serialise(v.model()), e);
                    }
                    return Err(e);
                }
                let ghost s1 = *stream;
                let r = v.serialise(stream);
                proof {
                    lemma_serialised_then(s0, s1, *stream, <bool as Serialise>::spec_serialise(true), T::spec_serialise(v.model()), r);
                }
                r
            },
        }
    }
}

/// Serialising a sequence of values one after the other, without any length.
pub open spec fn serialise_seq<T: Serialise>(s: Seq<T::M>) -> Serialising
    decreases s.len(),
{
    if s.len() == 0 {
        (Seq::empty(), None)
    } else {
        serialise_then(serialise_seq::<T>(s.drop_last()), T::spec_serialise(s.last()))
    }
}

/// Once serialising a prefix of a sequence fails, serialising the whole fails in the same way.
pub proof fn lemma_serialise_seq_stop<T: Serialise>(s: Seq<T::M>, k: int, room: int)
    requires
        0 <= k <= s.len(),
        outcome(serialise_seq::<T>(s.take(k)), room).1 is Some,
    ensures
        outcome(serialise_seq::<T>(s), room) == outcome(serialise_seq::<T>(s.take(k)), room),
    decreases s.len(),
{
    if k < s.len() {
        assert(s.drop_last().take(k) =~= s.take(k));
        lemma_serialise_seq_stop::<T>(s.drop_last(), k, room);
        lemma_outcome_then(serialise_seq::<T>(s.drop_last()), T::spec_serialise(s.last()), room);
    } else {
        assert(s.take(k) =~= s);
    }
}

impl<T: Serialise, const N: usize> Serialise for [T; N] {
    const MAX_SERIALISED_SIZE: usize = T::MAX_SERIALISED_SIZE * N;

    open spec fn spec_serialise(m: Seq<T::M>) -> Serialising {
        serialise_seq::<T>(m)
    }

    fn serialise(&self, stream: &mut Sstream) -> (r: Result<(), Error>) {
        let ghost s0 = *stream;
        let ghost m = seq_model(self@);
        proof {
            use_type_invariant(&*stream);
            lemma_wrote_nothing(*stream);
            assert(m.take(0) =~= Seq::<T::M>::empty());
        }
        let mut i: usize = 0;
        while i < N
            invariant
                i <= N,
                m == seq_model(self@),
                m.len() == N,
                s0 == *old(stream),
                0 <= s0.room(),
                serialised(*stream, s0, serialise_seq::<T>(m.take(i as int)), Ok(())),
            decreases N - i,
        {
            let ghost s1 = *stream;
            let r = self[i].serialise(stream);
            proof {
                assert(m.take(i + 1).drop_last() =~= m.take(i as int));
                assert(m.take(i + 1).last() == self@[i as int].model());
                lemma_serialised_then(s0, s1, *stream, serialise_seq::<T>(m.take(i as int)), T::spec_serialise(self@[i as int].model()), r);
            }
            if let Err(e) = r {
                proof {
                    lemma_serialise_seq_stop::<T>(m, i + 1, s0.room());
                }
                return Err(e);
            }
            i = i + 1;
        }
        proof {
            assert(m.take(N as int) =~= m);
        }
        Ok(())
    }
}

impl<const N: usize> Serialise for FixedString<N> {
    const MAX_SERIALISED_SIZE: usize = N + <usize as Serialise>::MAX_SERIALISED_SIZE;

    open spec fn spec_serialise(m: Seq<char>) -> Serialising {
        serialise_then(
            <usize as Serialise>::spec_serialise(encode_utf8(m).len() as usize),
            write_once(encode_utf8(m)),
        )
    }

    fn serialise(&self, stream: &mut Sstream) -> (r: Result<(), Error>) {
        let ghost s0 = *stream;
        let bytes = self.as_bytes();
        let first = self.len().serialise(stream);
        if let Err(e) = first {
            proof {
                lemma_serialised_stop(s0, *stream, <usize as Serialise>::spec_serialise(bytes@.len() as usize), write_once(bytes@), e);
            }
            return Err(e);
        }
        let ghost s1 = *stream;
        proof {
            lemma_write_once(bytes@, s1.room());
        }
        let r = stream.write(bytes);
        proof {
            if bytes@.len() > s1.room() {
                assert(bytes@.len() as usize == bytes.len());
            }
            assert(serialised(*stream, s1, write_once(bytes@), r));
            lemma_serialised_then(s0, s1, *stream, <usize as Serialise>::spec_serialise(bytes@.len() as usize), write_once(bytes@), r);
        }
        r
    }
}

/// Types whose serialisations are no longer than their maximum serialised size.
pub trait SerialiseBound: Serialise {
    /// The computation of [`MAX_SERIALISED_SIZE`](Serialise::MAX_SERIALISED_SIZE) does not
    /// overflow.
    spec fn max_size_fits() -> bool;

    /// No serialisation writes more than
    /// [`MAX_SERIALISED_SIZE`](Serialise::MAX_SERIALISED_SIZE) bytes.
    proof fn lemma_serialised_size(m: Self::M)
        requires
            Self::model_wf(m),
            Self::max_size_fits(),
        ensures
            serialised_bytes(Self::spec_serialise(m)).len() <= Self::MAX_SERIALISED_SIZE,
    ;
}

/// Serialising with `first` and then `second` writes no more than both.
pub proof fn lemma_serialise_then_size(a: Serialising, b: Serialising)
    ensures
        serialised_bytes(serialise_then(a, b)).len() <= serialised_bytes(a).len() + serialised_bytes(b).len(),
{
    lemma_flatten_append(a.0, b.0);
}

/// Serialising a sequence of values writes no more than the sum of their bounds.
pub proof fn lemma_serialise_seq_size<T: SerialiseBound>(s: Seq<T::M>)
    requires
        seq_wf::<T>(s),
        T::max_size_fits(),
    ensures
        serialised_bytes(serialise_seq::<T>(s)).len() <= s.len() * T::MAX_SERIALISED_SIZE,
    decreases s.len(),
{
    if s.len() > 0 {
        lemma_serialise_seq_size::<T>(s.drop_last());
        T::lemma_serialised_size(s.last());
        lemma_serialise_then_size(serialise_seq::<T>(s.drop_last()), T::spec_serialise(s.last()));
        assert(s.len() * T::MAX_SERIALISED_SIZE == (s.len() - 1) * T::MAX_SERIALISED_SIZE + T::MAX_SERIALISED_SIZE) by (nonlinear_arith);
    }
}

impl SerialiseBound for u8 {
    open spec fn max_size_fits() -> bool {
        true
    }

    proof fn lemma_serialised_size(m: u8) {
        lemma_be_bytes_len(m as nat, 1);
        lemma_write_once(be_bytes(m as nat, 1), 0);
    }
}

impl SerialiseBound for u16 {
    open spec fn max_size_fits() -> bool {
        true
    }

    proof fn lemma_serialised_size(m: u16) {
        lemma_be_bytes_len(m as nat, 2);
        lemma_write_once(be_bytes(m as nat, 2), 0);
    }
}

impl SerialiseBound for u32 {
    open spec fn max_size_fits() -> bool {
        true
    }

    proof fn lemma_serialised_size(m: u32) {
        lemma_be_bytes_len(m as nat, 4);
        lemma_write_once(be_bytes(m as nat, 4), 0);
    }
}

impl SerialiseBound for u64 {
    open spec fn max_size_fits() -> bool {
        true
    }

    proof fn lemma_serialised_size(m: u64) {
        lemma_be_bytes_len(m as nat, 8);
        lemma_write_once(be_bytes(m as nat, 8), 0);
    }
}

impl SerialiseBound for u128 {
    open spec fn max_size_fits() -> bool {
        true
    }

    proof fn lemma_serialised_size(m: u128) {
        lemma_be_bytes_len(m as nat, 16);
        lemma_write_once(be_bytes(m as nat, 16), 0);
    }
}

impl SerialiseBound for i8 {
    open spec fn max_size_fits() -> bool {
        true
    }

    proof fn lemma_serialised_size(m: i8) {
        lemma_be_bytes_len(twos(m as int, 1), 1);
        lemma_write_once(be_bytes(twos(m as int, 1), 1), 0);
    }
}

impl SerialiseBound for i16 {
    open spec fn max_size_fits() -> bool {
        true
    }

    proof fn lemma_serialised_size(m: i16) {
        lemma_be_bytes_len(twos(m as int, 2), 2);
        lemma_write_once(be_bytes(twos(m as int, 2), 2), 0);
    }
}

impl SerialiseBound for i32 {
    open spec fn max_size_fits() -> bool {
        true
    }

    proof fn lemma_serialised_size(m: i32) {
        lemma_be_bytes_len(twos(m as int, 4), 4);
        lemma_write_once(be_bytes(twos(m as int, 4), 4), 0);
    }
}

impl SerialiseBound for i64 {
    open spec fn max_size_fits() -> bool {
        true
    }

    proof fn lemma_serialised_size(m: i64) {
        lemma_be_bytes_len(twos(m as int, 8), 8);
        lemma_write_once(be_bytes(twos(m as int, 8), 8), 0);
    }
}

impl SerialiseBound for i128 {
    open spec fn max_size_fits() -> bool {
        true
    }

    proof fn lemma_serialised_size(m: i128) {
        lemma_be_bytes_len(twos(m as int, 16), 16);
        lemma_write_once(be_bytes(twos(m as int, 16), 16), 0);
    }
}

impl SerialiseBound for usize {
    open spec fn max_size_fits() -> bool {
        true
    }

    proof fn lemma_serialised_size(m: usize) {
        if m <= 0xFFFF_FFFF {
            <u32 as SerialiseBound>::lemma_serialised_size(m as u32);
        }
    }
}

impl SerialiseBound for isize {
    open spec fn max_size_fits() -> bool {
        true
    }

    proof fn lemma_serialised_size(m: isize) {
        if -0x8000_0000 <= m <= 0x7FFF_FFFF {
            <i32 as SerialiseBound>::lemma_serialised_size(m as i32);
        }
    }
}

impl SerialiseBound for bool {
    open spec fn max_size_fits() -> bool {
        true
    }

    proof fn lemma_serialised_size(m: bool) {
        <u8 as SerialiseBound>::lemma_serialised_size(if m { 1u8 } else { 0u8 });
    }
}

impl SerialiseBound for char {
    open spec fn max_size_fits() -> bool {
        true
    }

    proof fn lemma_serialised_size(m: char) {
        <u32 as SerialiseBound>::lemma_serialised_size(m as u32);
    }
}

impl SerialiseBound for () {
    open spec fn max_size_fits() -> bool {
        true
    }

    proof fn lemma_serialised_size(m: ()) {
    }
}

impl<T> SerialiseBound for PhantomData<T> {
    open spec fn max_size_fits() -> bool {
        true
    }

    proof fn lemma_serialised_size(m: ()) {
    }
}

impl<T: SerialiseBound> SerialiseBound for Option<T> {
    open spec fn max_size_fits() -> bool {
        T::max_size_fits() && 1 + T::MAX_SERIALISED_SIZE <= usize::MAX
    }

    proof fn lemma_serialised_size(m: Option<T::M>) {
        <bool as SerialiseBound>::lemma_serialised_size(true);
        <bool as SerialiseBound>::lemma_serialised_size(false);
        match m {
            None => {},
            Some(v) => {
                T::lemma_serialised_size(v);
                lemma_serialise_then_size(<bool as Serialise>::spec_serialise(true), T::spec_serialise(v));
            },
        }
    }
}

impl<T: SerialiseBound, const N: usize> SerialiseBound for [T; N] {
    open spec fn max_size_fits() -> bool {
        T::max_size_fits() && T::MAX_SERIALISED_SIZE * N <= usize::MAX
    }

    proof fn lemma_serialised_size(m: Seq<T::M>) {
        lemma_serialise_seq_size::<T>(m);
        assert(m.len() * T::MAX_SERIALISED_SIZE == T::MAX_SERIALISED_SIZE * N) by (nonlinear_arith)
            requires
                m.len() == N,
        ;
    }
}

impl<const N: usize> SerialiseBound for FixedString<N> {
    open spec fn max_size_fits() -> bool {
        N + 4 <= usize::MAX
    }

    proof fn lemma_serialised_size(m: Seq<char>) {
        let b = encode_utf8(m);
        <usize as SerialiseBound>::lemma_serialised_size(b.len() as usize);
        lemma_write_once(b, 0);
        lemma_serialise_then_size(<usize as Serialise>::spec_serialise(b.len() as usize), write_once(b));
    }
}


/// The maximum serialised sizes of the primitive types.
pub proof fn lemma_primitive_sizes()
    ensures
        <u8 as Serialise>::MAX_SERIALISED_SIZE == 1,
        <u16 as Serialise>::MAX_SERIALISED_SIZE == 2,
        <u32 as Serialise>::MAX_SERIALISED_SIZE == 4,
        <u64 as Serialise>::MAX_SERIALISED_SIZE == 8,
        <u128 as Serialise>::MAX_SERIALISED_SIZE == 16,
        <i8 as Serialise>::MAX_SERIALISED_SIZE == 1,
        <i16 as Serialise>::MAX_SERIALISED_SIZE == 2,
        <i32 as Serialise>::MAX_SERIALISED_SIZE == 4,
        <i64 as Serialise>::MAX_SERIALISED_SIZE == 8,
        <i128 as Serialise>::MAX_SERIALISED_SIZE == 16,
        <usize as Serialise>::MAX_SERIALISED_SIZE == 4,
        <isize as Serialise>::MAX_SERIALISED_SIZE == 4,
        <bool as Serialise>::MAX_SERIALISED_SIZE == 1,
        <char as Serialise>::MAX_SERIALISED_SIZE == 4,
        <() as Serialise>::MAX_SERIALISED_SIZE == 0,
{
}

/// The four bytes, high byte first, of a number below `2^32`.
pub open spec fn four_bytes(n: nat) -> Seq<u8> {
    seq![
        (n / 256 / 256 / 256 % 256) as u8,
        (n / 256 / 256 % 256) as u8,
        (n / 256 % 256) as u8,
        (n % 256) as u8,
    ]
}

/// A `usize` is serialised as the `u32` of the same value: for every value up to
/// `u32::MAX` it is one write of four bytes, high byte first, which a stream with
/// room for them takes whole. Only a larger value is refused, with
/// `UsizeOutOfRange`, and then nothing is written.
pub proof fn lemma_usize_serialisation(n: usize, room: int)
    ensures
        n <= 0xFFFF_FFFF ==> <usize as Serialise>::spec_serialise(n) == <u32 as Serialise>::spec_serialise(n as u32),
        n <= 0xFFFF_FFFF ==> <usize as Serialise>::spec_serialise(n) == write_once(four_bytes(n as nat)),
        n <= 0xFFFF_FFFF ==> serialised_bytes(<usize as Serialise>::spec_serialise(n)) == four_bytes(n as nat),
        n <= 0xFFFF_FFFF && 4 <= room ==> outcome(<usize as Serialise>::spec_serialise(n), room) == (
            four_bytes(n as nat),
            None::<Error>,
        ),
        n > 0xFFFF_FFFF ==> <usize as Serialise>::spec_serialise(n) == (
            Seq::<Seq<u8>>::empty(),
            Some(Error::UsizeOutOfRange(n)),
        ),
        n > 0xFFFF_FFFF ==> outcome(<usize as Serialise>::spec_serialise(n), room) == (
            Seq::<u8>::empty(),
            Some(Error::UsizeOutOfRange(n)),
        ),
{
    if n <= 0xFFFF_FFFF {
        reveal_with_fuel(be_bytes, 5);
        assert(be_bytes(n as nat, 4) =~= four_bytes(n as nat));
        lemma_write_once(four_bytes(n as nat), room);
    } else {
        assert(Seq::<Seq<u8>>::empty().len() == 0);
    }
}

/// A fixed string whose UTF-8 bytes number at most `u32::MAX` is serialised as
/// that number in four bytes, high byte first, followed by the bytes themselves.
pub proof fn lemma_fixed_string_length_prefix<const N: usize>(m: Seq<char>)
    requires
        encode_utf8(m).len() <= 0xFFFF_FFFF,
    ensures
        <FixedString<N> as Serialise>::spec_serialise(m).1 is None,
        serialised_bytes(<FixedString<N> as Serialise>::spec_serialise(m))
            == four_bytes(encode_utf8(m).len()) + encode_utf8(m),
{
    let b = encode_utf8(m);
    lemma_usize_serialisation(b.len() as usize, 4);
    lemma_write_once(b, 0);
    lemma_flatten_append(seq![four_bytes(b.len())], seq![b]);
    lemma_write_once(four_bytes(b.len()), 4);
}

/// An `isize` is serialised as the `i32` of the same value: for every value in the range of
/// `i32` it is one write of four bytes of two's complement, high byte first. Only a value outside
/// that range is refused, with `IsizeOutOfRange`, and then nothing is written.
pub proof fn lemma_isize_serialisation(n: isize, room: int)
    ensures
        -0x8000_0000 <= n <= 0x7FFF_FFFF ==> <isize as Serialise>::spec_serialise(n)
            == <i32 as Serialise>::spec_serialise(n as i32),
        -0x8000_0000 <= n <= 0x7FFF_FFFF ==> <isize as Serialise>::spec_serialise(n) == write_once(
            four_bytes(if n >= 0 { n as nat } else { (n + 0x1_0000_0000) as nat }),
        ),
        !(-0x8000_0000 <= n <= 0x7FFF_FFFF) ==> outcome(<isize as Serialise>::spec_serialise(n), room) == (
            Seq::<u8>::empty(),
            Some(Error::IsizeOutOfRange(n)),
        ),
{
    if -0x8000_0000 <= n <= 0x7FFF_FFFF {
        lemma_pow256_values();
        let u = twos(n as int, 4);
        reveal_with_fuel(be_bytes, 5);
        assert(be_bytes(u, 4) =~= four_bytes(u));
    }
}

} // verus!
