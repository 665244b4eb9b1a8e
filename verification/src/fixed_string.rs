//! Strings in fixed-size buffers.
use vstd::prelude::*;
use vstd::slice::slice_subrange;
use vstd::string::StrSliceExecFns;
use vstd::utf8::*;
use vstd::std_specs::cmp::{PartialEqSpecImpl, PartialOrdSpec, PartialOrdSpecImpl};
use vstd::std_specs::convert::{FromSpecImpl, TryFromSpecImpl};
use core::cmp::Ordering;
use crate::lexical::{compare_bytes, lemma_lex_order_equal, lemma_lex_order_first_difference, lemma_lex_order_proper_prefix, lex_order};
use crate::d_stream::Dstream;
use crate::decode::lemma_skip_skip;
use crate::deserialise::{Deserialise, Deserialising, deserialise_then};
use crate::error::{Error, Utf8Error};
use crate::model::Model;
use crate::bytes::{be_bytes, lemma_be_value_of_bytes, lemma_pow256_values, lemma_take_append};
use crate::serialise_roundtrip::SerialiseRoundtrip;
use crate::serialise::{lemma_flatten_append, serialised_bytes, Serialise, lemma_write_once};
use crate::text::{is_boundary, lemma_utf8_valid_up_to_bound, utf8_valid_up_to, lemma_decode_utf8_append, lemma_single_scalar, str_from_utf8, string_of_char, string_push_str, string_with_capacity};

use vstd::std_specs::iter::IteratorSpec;
use crate::text::{char_indices_of, indexed_chars};

verus! {

/// The `n` octets that hold `s` at their start and nulls after it.
pub open spec fn padded(s: Seq<u8>, n: nat) -> Seq<u8> {
    s + Seq::new((n - s.len()) as nat, |i: int| 0u8)
}

/// What storing the octets `s` in a buffer of capacity `n` gives: `s` itself, or the error
/// that it does not fit.
pub open spec fn fit_in(s: Seq<u8>, n: usize) -> Result<Seq<u8>, Error> {
    if s.len() > n {
        Err(Error::ArrayTooShort { req: s.len() as usize, len: n })
    } else {
        Ok(s)
    }
}

/// Heap-allocated string with maximum size.
///
/// This is in contrast to [String] -- which has no size limit in practice -- and [str], which is
/// unsized.
///
/// The string itself is encoded in UTF-8 for interoperability wtih Rust's standard string
/// facilities, as well as for memory concerns.
///
/// Keep in mind that the size limit specified by `N` denotes *bytes* and not *characters* --
/// i.e. a value of `8` may translate to between two and eight characters, depending on their
/// codepoints.
#[derive(Debug)]
pub struct FixedString<const N: usize> {
    buf: [u8; N],
    len: usize,
}

impl<const N: usize> View for FixedString<N> {
    type V = Seq<char>;

    /// The characters of the string.
    open spec fn view(&self) -> Seq<char> {
        decode_utf8(self.bytes())
    }
}

impl<const N: usize> FixedString<N> {
    #[verifier::type_invariant]
    spec fn inv(&self) -> bool {
        &&& self.len <= N
        &&& valid_utf8(self.buf@.take(self.len as int))
    }

    /// The used octets of the string.
    pub closed spec fn bytes(&self) -> Seq<u8> {
        self.buf@.take(self.len as int)
    }

    /// The whole internal buffer, used or not.
    pub closed spec fn raw(&self) -> Seq<u8> {
        self.buf@
    }

    /// The number of used octets.
    pub closed spec fn used(&self) -> nat {
        self.len as nat
    }

    /// The string of capacity `N` that holds the characters `s`, its buffer padded with nulls,
    /// where they fit.
    pub open spec fn from_chars(s: Seq<char>) -> Result<Self, Error> {
        match fit_in(encode_utf8(s), N) {
            Ok(b) => Ok(
                choose|f: Self| f.raw() == padded(b, N as nat) && f.used() == b.len(),
            ),
            Err(e) => Err(e),
        }
    }

    /// Constructs the string holding `s`, where it fits.
    fn from_str_checked(s: &str) -> (r: Result<Self, Error>)
        ensures
            r == Self::from_chars(s@),
            r matches Ok(f) ==> f.bytes() == encode_utf8(s@) && f@ == s@,
            r matches Ok(f) ==> f.raw() == padded(encode_utf8(s@), N as nat),
    {
        let bytes = s.as_bytes();
        let len = bytes.len();
        if len > N {
            return Err(Error::ArrayTooShort { req: len, len: N });
        }
        let mut buf = [0u8; N];
        let mut i: usize = 0;
        while i < len
            invariant
                len == bytes@.len(),
                len <= N,
                i <= len,
                buf@.len() == N,
                forall|j: int| 0 <= j < i ==> buf@[j] == bytes@[j],
                forall|j: int| len <= j < N ==> buf@[j] == 0u8,
            decreases len - i,
        {
            buf[i] = bytes[i];
            i = i + 1;
        }
        proof {
            encode_utf8_valid_utf8(s@);
            encode_utf8_decode_utf8(s@);
            assert(buf@.take(len as int) =~= bytes@);
        }
        let r = FixedString { buf, len };
        proof {
            let b = encode_utf8(s@);
            assert(r.raw() =~= padded(b, N as nat));
            let c = choose|f: Self| f.raw() == padded(b, N as nat) && f.used() == b.len();
            assert(c.raw() == padded(b, N as nat) && c.used() == b.len());
            assert(c.buf =~= r.buf);
        }
        Ok(r)
    }

    /// Constructs a new, fixed-size string.
    ///
    /// Note that it is only the internal buffer that is size-constrained.
    /// The string internally keeps track of the amount of used characters and acts accordingly.
    /// One must therefore only see the value of `N` as a size *limit*.
    ///
    /// The constructed string will have a null length.
    /// All characters inside the internal buffer are instanced as `U+0000 NULL`.
    pub fn new() -> (r: Self)
        ensures
            r.bytes() == Seq::<u8>::empty(),
            r.raw() == padded(Seq::<u8>::empty(), N as nat),
            r@ == Seq::<char>::empty(),
    {
        let r = FixedString { buf: [0u8; N], len: 0 };
        proof {
            assert(r.bytes() =~= Seq::<u8>::empty());
            assert(r.raw() =~= padded(Seq::<u8>::empty(), N as nat));
        }
        r
    }

    /// Destructs the provided string into its raw parts.
    ///
    /// The returned byte array is guaranteed to be fully initialised.
    /// However, only octets up to an index of [`len`](Self::len) are also guaranteed to be valid
    /// UTF-8 codepoints.
    pub fn into_raw_parts(self) -> (r: ([u8; N], usize))
        ensures
            r.0@ == self.raw(),
            r.1 == self.bytes().len(),
            r.1 <= N,
            r.0@.take(r.1 as int) == self.bytes(),
            valid_utf8(self.bytes()),
    {
        proof {
            use_type_invariant(&self);
        }
        (self.buf, self.len)
    }

    /// Borrows the string as a byte slice.
    ///
    /// The range of the returned slice only includes characters that are "used."
    pub fn as_bytes(&self) -> (r: &[u8])
        ensures
            r@ == self.bytes(),
            encode_utf8(self@) == self.bytes(),
    {
        proof {
            use_type_invariant(self);
            decode_utf8_encode_utf8(self.bytes());
        }
        let r = slice_subrange(self.buf.as_slice(), 0, self.len);
        proof {
            assert(r@ =~= self.bytes());
        }
        r
    }

    /// Borrows the string as a string slice.
    ///
    /// The range of the returned slice only includes characters that are "used."
    pub fn as_str(&self) -> (r: &str)
        ensures
            r@ == self@,
            encode_utf8(r@) == self.bytes(),
    {
        match str_from_utf8(self.as_bytes()) {
            Ok(r) => {
                proof {
                    encode_utf8_decode_utf8(r@);
                }
                r
            },
            Err(_) => {
                proof {
                    use_type_invariant(self);
                    assert(false);
                }
                ""
            },
        }
    }

    /// Returns the length of the string in octets.
    ///
    /// This does not necessarily equate to the value of `N`, as the internal buffer may be used
    /// but partially.
    pub fn len(&self) -> (r: usize)
        ensures
            r == self.bytes().len(),
            r <= N,
    {
        proof {
            use_type_invariant(self);
        }
        self.len
    }

    /// Checks if the string is empty, i.e. no characters are contained.
    pub fn is_empty(&self) -> (r: bool)
        ensures
            r == (self.bytes().len() == 0),
            r == (self@.len() == 0),
    {
        proof {
            use_type_invariant(self);
            decode_utf8_encode_utf8(self.bytes());
            if self@.len() == 0 {
                assert(encode_utf8(self@) =~= Seq::<u8>::empty());
            }
        }
        self.len == 0
    }

    /// Checks if the string is full, i.e. it cannot hold any more characters.
    pub fn is_full(&self) -> (r: bool)
        ensures
            r == (self.bytes().len() == N),
    {
        proof {
            use_type_invariant(self);
        }
        self.len == N
    }

    /// Returns the total capacity of the string.
    ///
    /// This is defined as being exactly the value of `N`.
    pub fn capacity(&self) -> (r: usize)
        ensures
            r == N,
    {
        N
    }

    /// Gets the substring of the octets in `index`.
    ///
    /// There is one where the range lies within the string and both of its ends are character
    /// boundaries.
    pub fn get(&self, index: core::ops::Range<usize>) -> (r: Option<&str>)
        ensures
            r is Some <==> (index.start <= index.end <= self.bytes().len() && is_char_boundary(
                self.bytes(),
                index.start as int,
            ) && is_char_boundary(self.bytes(), index.end as int)),
            r matches Some(s) ==> encode_utf8(s@) == self.bytes().subrange(
                index.start as int,
                index.end as int,
            ),
    {
        proof {
            use_type_invariant(self);
        }
        let bytes = self.as_bytes();
        if index.start > index.end || index.end > bytes.len() {
            return None;
        }
        if !is_boundary(bytes, index.start) || !is_boundary(bytes, index.end) {
            return None;
        }
        let ghost b = bytes@;
        let ghost s = index.start as int;
        let ghost e = index.end as int;
        proof {
            valid_utf8_split(b, e);
            let p = b.subrange(0, e);
            if s < e {
                is_char_boundary_iff_not_is_continuation_byte(b, s);
                is_char_boundary_iff_not_is_continuation_byte(p, s);
                assert(p[s] == b[s]);
            } else {
                is_char_boundary_start_end_of_seq(p);
            }
            assert(is_char_boundary(p, s));
            valid_utf8_split(p, s);
            assert(p.subrange(s, p.len() as int) =~= b.subrange(s, e));
        }
        match str_from_utf8(slice_subrange(bytes, index.start, index.end)) {
            Ok(s) => Some(s),
            Err(_) => {
                proof {
                    assert(false);
                }
                None
            },
        }
    }

    /// Returns an iterator of the string's characters.
    pub fn chars(&self) -> (r: core::str::Chars<'_>)
        ensures
            r.remaining() == self@,
    {
        broadcast use vstd::string::axiom_spec_iter;

        self.as_str().chars()
    }

    /// Returns the string's characters along with the positions of their first octets.
    pub fn char_indices(&self) -> (r: Vec<(usize, char)>)
        ensures
            r@ == indexed_chars(self@),
    {
        char_indices_of(self.as_str())
    }

    /// Pushes a string slice into the string.
    ///
    /// The internal length is updated accordingly.
    pub fn push_str(&mut self, s: &str)
        requires
            old(self).bytes().len() + encode_utf8(s@).len() <= N,
        ensures
            final(self).bytes() == old(self).bytes() + encode_utf8(s@),
            final(self)@ == old(self)@ + s@,
            final(self).raw() == old(self).raw().take(old(self).bytes().len() as int) + encode_utf8(
                s@,
            ) + old(self).raw().skip(final(self).bytes().len() as int),
    {
        proof {
            use_type_invariant(&*self);
        }
        let bytes = s.as_bytes();
        let start = self.len;
        let mut buf = self.buf;
        let mut i: usize = 0;
        while i < bytes.len()
            invariant
                start == old(self).bytes().len(),
                start + bytes@.len() <= N,
                bytes@ == encode_utf8(s@),
                i <= bytes@.len(),
                buf@.len() == N,
                forall|j: int| 0 <= j < start ==> buf@[j] == old(self).raw()[j],
                forall|j: int| start <= j < start + i ==> buf@[j] == bytes@[j - start],
                forall|j: int| start + bytes@.len() <= j < N ==> buf@[j] == old(self).raw()[j],
            decreases bytes@.len() - i,
        {
            buf[start + i] = bytes[i];
            i = i + 1;
        }
        let ghost old_bytes = old(self).bytes();
        proof {
            encode_utf8_valid_utf8(s@);
            decode_utf8_encode_utf8(old_bytes);
            encode_utf8_decode_utf8(s@);
            lemma_decode_utf8_append(old_bytes, bytes@);
            assert(buf@.take((start + bytes@.len()) as int) =~= old_bytes + bytes@);
            assert(buf@ =~= old(self).raw().take(start as int) + encode_utf8(s@) + old(
                self,
            ).raw().skip((start + bytes@.len()) as int));
        }
        *self = FixedString { buf, len: start + bytes.len() };
    }

    /// Pushes a character into the string.
    ///
    /// The internal length is updated accordingly.
    pub fn push(&mut self, c: char)
        requires
            old(self).bytes().len() + encode_utf8(seq![c]).len() <= N,
        ensures
            final(self).bytes() == old(self).bytes() + encode_utf8(seq![c]),
            final(self)@ == old(self)@.push(c),
            final(self).raw() == old(self).raw().take(old(self).bytes().len() as int) + encode_utf8(
                seq![c],
            ) + old(self).raw().skip(final(self).bytes().len() as int),
    {
        let s = string_of_char(c);
        self.push_str(s.as_str());
        proof {
            assert(old(self)@ + seq![c] =~= old(self)@.push(c));
        }
    }

    /// Pops a character from the string.
    ///
    /// The internal length is updated accordingly; the octets of the character stay in the
    /// buffer beyond it.
    ///
    /// If no characters are left (i.e. the string is empty), an instance of [`None`] is returned.
    pub fn pop(&mut self) -> (r: Option<char>)
        ensures
            old(self)@.len() == 0 ==> r is None && *final(self) == *old(self),
            old(self)@.len() > 0 ==> {
                &&& r == Some(old(self)@.last())
                &&& final(self)@ == old(self)@.drop_last()
                &&& final(self).raw() == old(self).raw()
                &&& final(self).bytes() == old(self).bytes().take(final(self).bytes().len() as int)
                &&& encode_utf8(final(self)@) == final(self).bytes()
            },
    {
        proof {
            use_type_invariant(&*self);
            decode_utf8_encode_utf8(self.bytes());
        }
        if self.len == 0 {
            proof {
                if old(self)@.len() > 0 {
                    assert(encode_utf8(old(self)@).len() > 0);
                }
            }
            return None;
        }
        let ghost bytes = self.bytes();
        let len = self.len;
        let mut i: usize = len - 1;
        while i > 0 && 0x80 <= self.buf[i] && self.buf[i] <= 0xBF
            invariant
                0 <= i < len,
                len <= N,
                self.buf@.len() == N,
                len == bytes.len(),
                bytes == self.buf@.take(len as int),
                valid_utf8(bytes),
                forall|j: int| i < j < len ==> is_continuation_byte(#[trigger] bytes[j]),
            decreases i,
        {
            assert(bytes[i as int] == self.buf@[i as int]);
            i = i - 1;
        }
        proof {
            is_char_boundary_start_end_of_seq(bytes);
            if i > 0 {
                is_char_boundary_iff_not_is_continuation_byte(bytes, i as int);
            }
            assert(is_char_boundary(bytes, i as int));
            valid_utf8_split(bytes, i as int);
            decode_utf8_split(bytes, i as int);
            let tail = bytes.subrange(i as int, len as int);
            if i == 0 {
                is_char_boundary_iff_not_is_continuation_byte(bytes, 0);
            }
            assert forall|j: int| 1 <= j < tail.len() implies is_continuation_byte(#[trigger] tail[j]) by {
                assert(tail[j] == bytes[i + j]);
            }
            lemma_single_scalar(tail);
        }
        let tail = slice_subrange(self.buf.as_slice(), i, len);
        proof {
            assert(tail@ =~= bytes.subrange(i as int, len as int));
        }
        match str_from_utf8(tail) {
            Ok(s) => {
                proof {
                    encode_utf8_decode_utf8(s@);
                }
                let c = s.get_char(0);
                let buf = self.buf;
                proof {
                    assert(buf@.take(i as int) =~= bytes.subrange(0, i as int));
                }
                *self = FixedString { buf, len: i };
                proof {
                    assert(bytes.take(i as int) =~= bytes.subrange(0, i as int));
                    assert(old(self)@.drop_last() =~= decode_utf8(bytes.subrange(0, i as int)));
                    decode_utf8_encode_utf8(bytes.subrange(0, i as int));
                }
                Some(c)
            },
            Err(_) => {
                proof {
                    assert(false);
                }
                None
            },
        }
    }
}

impl<const N: usize> Default for FixedString<N> {
    fn default() -> (r: Self)
        ensures
            r.bytes() == Seq::<u8>::empty(),
            r.raw() == padded(Seq::<u8>::empty(), N as nat),
    {
        Self::new()
    }
}

impl<const N: usize> core::str::FromStr for FixedString<N> {
    type Err = Error;

    fn from_str(s: &str) -> (r: Result<Self, Error>)
        ensures
            r == Self::from_chars(s@),
            r is Ok <==> encode_utf8(s@).len() <= N,
            r matches Err(e) ==> e == (Error::ArrayTooShort { req: encode_utf8(s@).len() as usize, len: N }),
            r matches Ok(f) ==> f@ == s@ && f.bytes() == encode_utf8(s@),
            r matches Ok(f) ==> f.raw() == padded(encode_utf8(s@), N as nat),
    {
        Self::from_str_checked(s)
    }
}

impl<'a, const N: usize> TryFrom<&'a str> for FixedString<N> {
    type Error = Error;

    fn try_from(value: &'a str) -> (r: Result<Self, Error>)
        ensures
            r == Self::from_chars(value@),
            r is Ok <==> encode_utf8(value@).len() <= N,
            r matches Ok(f) ==> f@ == value@ && f.bytes() == encode_utf8(value@),
            r matches Ok(f) ==> f.raw() == padded(encode_utf8(value@), N as nat),
    {
        Self::from_str_checked(value)
    }
}

impl<'a, const N: usize> TryFromSpecImpl<&'a str> for FixedString<N> {
    open spec fn obeys_try_from_spec() -> bool {
        true
    }

    open spec fn try_from_spec(v: &'a str) -> Result<Self, Error> {
        Self::from_chars(v@)
    }
}

impl<const N: usize, const M: usize> PartialEq<FixedString<M>> for FixedString<N> {
    fn eq(&self, other: &FixedString<M>) -> (r: bool) {
        let o = compare_bytes(self.as_bytes(), other.as_bytes());
        proof {
            lemma_lex_order_equal(self.bytes(), other.bytes());
        }
        match o {
            Ordering::Equal => true,
            _ => false,
        }
    }
}

impl<const N: usize, const M: usize> PartialEqSpecImpl<FixedString<M>> for FixedString<N> {
    open spec fn obeys_eq_spec() -> bool {
        true
    }

    open spec fn eq_spec(&self, other: &FixedString<M>) -> bool {
        self.bytes() == other.bytes()
    }
}

impl<const N: usize> Eq for FixedString<N> {

}

impl<'a, const N: usize> PartialEq<&'a str> for FixedString<N> {
    fn eq(&self, other: &&'a str) -> (r: bool) {
        let o = compare_bytes(self.as_bytes(), other.as_bytes());
        proof {
            lemma_lex_order_equal(self.bytes(), encode_utf8(other@));
            encode_utf8_decode_utf8(other@);
        }
        match o {
            Ordering::Equal => true,
            _ => false,
        }
    }
}

impl<'a, const N: usize> PartialEqSpecImpl<&'a str> for FixedString<N> {
    open spec fn obeys_eq_spec() -> bool {
        true
    }

    open spec fn eq_spec(&self, other: &&'a str) -> bool {
        self@ == other@
    }
}

impl<const N: usize, const M: usize> PartialOrd<FixedString<M>> for FixedString<N> {
    fn partial_cmp(&self, other: &FixedString<M>) -> (r: Option<Ordering>) {
        Some(compare_bytes(self.as_bytes(), other.as_bytes()))
    }
}

impl<const N: usize, const M: usize> PartialOrdSpecImpl<FixedString<M>> for FixedString<N> {
    open spec fn obeys_partial_cmp_spec() -> bool {
        true
    }

    open spec fn partial_cmp_spec(&self, other: &FixedString<M>) -> Option<Ordering> {
        Some(lex_order(self.bytes(), other.bytes()))
    }
}

impl<'a, const N: usize> PartialOrd<&'a str> for FixedString<N> {
    fn partial_cmp(&self, other: &&'a str) -> (r: Option<Ordering>) {
        Some(compare_bytes(self.as_bytes(), other.as_bytes()))
    }
}

impl<'a, const N: usize> PartialOrdSpecImpl<&'a str> for FixedString<N> {
    open spec fn obeys_partial_cmp_spec() -> bool {
        true
    }

    open spec fn partial_cmp_spec(&self, other: &&'a str) -> Option<Ordering> {
        Some(lex_order(self.bytes(), encode_utf8(other@)))
    }
}

/// Fixed strings are ordered as `str` is: where their bytes agree before index `i` and differ at
/// it, the bytes at `i` decide, whatever the lengths.
pub proof fn lemma_partial_cmp_first_difference<const N: usize, const M: usize>(
    a: FixedString<N>,
    b: FixedString<M>,
    i: int,
)
    requires
        0 <= i < a.bytes().len(),
        i < b.bytes().len(),
        forall|k: int| 0 <= k < i ==> a.bytes()[k] == b.bytes()[k],
        a.bytes()[i] != b.bytes()[i],
    ensures
        a.bytes()[i] < b.bytes()[i] ==> PartialOrdSpec::partial_cmp_spec(&a, &b) == Some(Ordering::Less),
        a.bytes()[i] > b.bytes()[i] ==> PartialOrdSpec::partial_cmp_spec(&a, &b) == Some(Ordering::Greater),
{
    lemma_lex_order_first_difference(a.bytes(), b.bytes(), i);
}

/// A fixed string whose bytes are a proper prefix of another's comes before it.
pub proof fn lemma_partial_cmp_proper_prefix<const N: usize, const M: usize>(
    a: FixedString<N>,
    b: FixedString<M>,
)
    requires
        a.bytes().len() < b.bytes().len(),
        forall|k: int| 0 <= k < a.bytes().len() ==> a.bytes()[k] == b.bytes()[k],
    ensures
        PartialOrdSpec::partial_cmp_spec(&a, &b) == Some(Ordering::Less),
        PartialOrdSpec::partial_cmp_spec(&b, &a) == Some(Ordering::Greater),
{
    lemma_lex_order_proper_prefix(a.bytes(), b.bytes());
}

/// Two fixed strings compare `Equal` exactly when their bytes are the same, and a fixed string
/// is ordered against a `str` as against a fixed string of the same bytes.
pub proof fn lemma_partial_cmp_equal<'a, const N: usize, const M: usize>(
    a: FixedString<N>,
    b: FixedString<M>,
    s: &'a str,
)
    ensures
        (PartialOrdSpec::partial_cmp_spec(&a, &b) == Some(Ordering::Equal)) <==> (a.bytes() == b.bytes()),
        b.bytes() == encode_utf8(s@) ==> PartialOrdSpec::partial_cmp_spec(&a, &s) == PartialOrdSpec::partial_cmp_spec(&a, &b),
{
    lemma_lex_order_equal(a.bytes(), b.bytes());
}

/// Popping a character from a string that a character was pushed onto gives back that character
/// and the string as it was before the push.
///
/// `pushed` is `before` after [`push`](FixedString::push)ing `c`; `popped` and `r` are what
/// [`pop`](FixedString::pop) makes of `pushed` and returns, as its contract describes them for a
/// string that is not empty.
pub proof fn lemma_pop_undoes_push<const N: usize>(
    before: FixedString<N>,
    pushed: FixedString<N>,
    popped: FixedString<N>,
    c: char,
    r: Option<char>,
)
    requires
        pushed@ == before@.push(c),
        r == Some(pushed@.last()),
        popped@ == pushed@.drop_last(),
    ensures
        pushed@.len() > 0,
        r == Some(c),
        popped@ == before@,
{
    assert(before@.push(c).drop_last() =~= before@);
}

impl<const N: usize> Model for FixedString<N> {
    type M = Seq<char>;

    open spec fn model(&self) -> Seq<char> {
        self@
    }

    open spec fn model_wf(m: Seq<char>) -> bool {
        encode_utf8(m).len() <= N
    }
}

/// What deserialising a string of capacity `n` whose octets, `len` of them, start `rest`
/// gives.
pub open spec fn fixed_string_body(len: usize, rest: Seq<u8>, n: usize) -> Deserialising<Seq<char>> {
    if len > n {
        Some((Err(Error::ArrayTooShort { req: len, len: n }), 0))
    } else if len > rest.len() {
        Some((Err(Error::EndOfStream { req: len, rem: rest.len() as usize }), 0))
    } else if !valid_utf8(rest.take(len as int)) {
        Some(
            (
                Err(
                    Error::BadString {
                        source: Utf8Error {
                            value: rest[utf8_valid_up_to(rest.take(len as int)) as int],
                            index: utf8_valid_up_to(rest.take(len as int)) as usize,
                        },
                    },
                ),
                len as nat,
            ),
        )
    } else {
        Some((Ok(decode_utf8(rest.take(len as int))), len as nat))
    }
}

impl<const N: usize> Deserialise for FixedString<N> {
    open spec fn spec_deserialise(bytes: Seq<u8>) -> Deserialising<Seq<char>> {
        deserialise_then(
            <usize as Deserialise>::spec_deserialise(bytes),
            bytes,
            |len: usize, rest: Seq<u8>| fixed_string_body(len, rest, N),
        )
    }

    fn deserialise(stream: &mut Dstream) -> (r: Result<Self, Error>) {
        let ghost s0 = *stream;
        let len = usize::deserialise(stream)?;
        let ghost s1 = *stream;
        proof {
            lemma_skip_skip(s0.rest(), 4, 0);
        }
        if len > N {
            return Err(Error::ArrayTooShort { req: len, len: N });
        }
        let bytes = match stream.read(len) {
            Ok(b) => b,
            Err(e) => {
                return Err(e);
            },
        };
        proof {
            lemma_skip_skip(s0.rest(), 4, len as int);
        }
        match str_from_utf8(bytes) {
            Ok(s) => {
                proof {
                    encode_utf8_decode_utf8(s@);
                }
                Self::from_str_checked(s)
            },
            Err(i) => {
                proof {
                    lemma_utf8_valid_up_to_bound(bytes@);
                }
                Err(Error::BadString { source: Utf8Error { value: bytes[i], index: i } })
            },
        }
    }
}

impl<const N: usize> SerialiseRoundtrip for FixedString<N> {
    proof fn lemma_serialise_roundtrip(m: Seq<char>, rest: Seq<u8>) {
        let bs = encode_utf8(m);
        let el = be_bytes(bs.len(), 4);
        lemma_pow256_values();
        lemma_be_value_of_bytes(bs.len(), 4);
        lemma_write_once(el, 0);
        lemma_write_once(bs, 0);
        lemma_flatten_append(seq![el], seq![bs]);
        encode_utf8_valid_utf8(m);
        encode_utf8_decode_utf8(m);
        let bytes = serialised_bytes(Self::spec_serialise(m)) + rest;
        assert(bytes =~= el + (bs + rest));
        lemma_take_append(el, bs + rest);
        lemma_take_append(bs, rest);
    }
}

impl<const N: usize> Clone for FixedString<N> {
    fn clone(&self) -> (r: Self)
        ensures
            r == *self,
    {
        proof {
            use_type_invariant(self);
        }
        FixedString { buf: self.buf, len: self.len }
    }
}

impl<const N: usize> TryFrom<char> for FixedString<N> {
    type Error = Error;

    fn try_from(value: char) -> (r: Result<Self, Error>)
        ensures
            r == Self::from_chars(seq![value]),
            r matches Ok(f) ==> f@ == seq![value] && f.bytes() == encode_utf8(seq![value]),
            r matches Ok(f) ==> f.raw() == padded(encode_utf8(seq![value]), N as nat),
    {
        let s = string_of_char(value);
        Self::from_str_checked(s.as_str())
    }
}

impl<const N: usize> TryFromSpecImpl<char> for FixedString<N> {
    open spec fn obeys_try_from_spec() -> bool {
        true
    }

    open spec fn try_from_spec(v: char) -> Result<Self, Error> {
        Self::from_chars(seq![v])
    }
}

impl<const N: usize> TryFrom<String> for FixedString<N> {
    type Error = Error;

    fn try_from(value: String) -> (r: Result<Self, Error>)
        ensures
            r == Self::from_chars(value@),
            r matches Ok(f) ==> f@ == value@ && f.bytes() == encode_utf8(value@),
            r matches Ok(f) ==> f.raw() == padded(encode_utf8(value@), N as nat),
    {
        Self::from_str_checked(value.as_str())
    }
}

impl<const N: usize> TryFromSpecImpl<String> for FixedString<N> {
    open spec fn obeys_try_from_spec() -> bool {
        true
    }

    open spec fn try_from_spec(v: String) -> Result<Self, Error> {
        Self::from_chars(v@)
    }
}

impl<const N: usize> From<FixedString<N>> for String {
    /// Converts the fixed-size string into a dynamic string.
    fn from(value: FixedString<N>) -> (r: String)
        ensures
            r@ == value@,
    {
        let mut r = string_with_capacity(N);
        string_push_str(&mut r, value.as_str());
        proof {
            assert(Seq::<char>::empty() + value@ =~= value@);
        }
        r
    }
}

impl<const N: usize> FromSpecImpl<FixedString<N>> for String {
    /// The string's characters are stated by [`from`](From::from) itself, over the view.
    open spec fn obeys_from_spec() -> bool {
        false
    }

    open spec fn from_spec(v: FixedString<N>) -> String {
        choose|s: String| s@ == v@
    }
}

} // verus!
