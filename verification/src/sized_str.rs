//! Strings with a maximum length.
use vstd::prelude::*;
use vstd::slice::slice_to_vec;
use vstd::utf8::{decode_utf8, encode_utf8, encode_utf8_decode_utf8, encode_utf8_valid_utf8, decode_utf8_encode_utf8, valid_utf8};
use crate::bytes::{lemma_be_value_of_bytes, lemma_pow256_values, lemma_take_append, be_bytes};
use crate::decode::{Decode, Decoding, decode_then, lemma_skip_skip};
use crate::encode::{Encode, encode_len, encode_then};
use crate::error::{DecodeError, EncodeError, SizeError, StringError, Utf8Error};
use crate::i_stream::IStream;
use crate::model::Model;
use crate::o_stream::OStream;
use crate::roundtrip::Roundtrip;

use crate::sized_slice::SizedSlice;
use crate::text::{lemma_utf8_valid_up_to_bound, str_from_utf8, string_of_char, string_push_str, string_with_capacity, utf8_valid_up_to};

use vstd::std_specs::iter::IteratorSpec;
use crate::text::{char_indices_of, indexed_chars};
use vstd::std_specs::convert::{FromSpecImpl, TryFromSpecImpl};
use vstd::std_specs::cmp::{PartialEqSpecImpl, PartialOrdSpec, PartialOrdSpecImpl};
use core::cmp::Ordering;
use crate::lexical::{compare_bytes, lemma_lex_order_equal, lemma_lex_order_first_difference, lemma_lex_order_proper_prefix, lex_order};

verus! {

/// What constructing a string of capacity `n` from the given bytes gives.
pub open spec fn sized_str_from_utf8(bytes: Seq<u8>, n: nat) -> Result<Seq<char>, StringError> {
    if bytes.len() > n {
        Err(StringError::SmallBuffer(SizeError { req: bytes.len() as usize, len: n as usize }))
    } else if !valid_utf8(bytes) {
        Err(
            StringError::BadUtf8(
                Utf8Error {
                    value: bytes[utf8_valid_up_to(bytes) as int],
                    index: utf8_valid_up_to(bytes) as usize,
                },
            ),
        )
    } else {
        Ok(decode_utf8(bytes))
    }
}

/// What decoding the octets of a string of capacity `n` gives.
pub open spec fn sized_str_decode(bytes: Seq<u8>, n: nat) -> Result<Seq<char>, DecodeError> {
    if bytes.len() > n {
        Err(DecodeError::SmallBuffer(SizeError { req: bytes.len() as usize, len: n as usize }))
    } else if !valid_utf8(bytes) {
        Err(
            DecodeError::BadString(
                Utf8Error {
                    value: bytes[utf8_valid_up_to(bytes) as int],
                    index: utf8_valid_up_to(bytes) as usize,
                },
            ),
        )
    } else {
        Ok(decode_utf8(bytes))
    }
}

/// The string of capacity `n` that holds the characters `s`, where they fit.
pub open spec fn sized_str_of<const N: usize>(s: Seq<char>) -> Result<SizedStr<N>, StringError> {
    if encode_utf8(s).len() > N {
        Err(StringError::SmallBuffer(SizeError { req: encode_utf8(s).len() as usize, len: N }))
    } else {
        Ok(choose|t: SizedStr<N>| t.bytes() == encode_utf8(s))
    }
}

/// String with maximum length.
///
/// The string itself is encoded in UTF-8.
///
/// Keep in mind that the size limit specified by `N` denotes *bytes* (octets) and **not**
/// *characters*.
pub struct SizedStr<const N: usize>(SizedSlice<u8, N>);

impl<const N: usize> View for SizedStr<N> {
    type V = Seq<char>;

    open spec fn view(&self) -> Seq<char> {
        decode_utf8(self.bytes())
    }
}

impl<const N: usize> SizedStr<N> {
    #[verifier::type_invariant]
    spec fn inv(&self) -> bool {
        valid_utf8(self.0@) && self.0@.len() <= N
    }

    /// The octets of the string.
    pub closed spec fn bytes(&self) -> Seq<u8> {
        self.0@
    }

    /// Constructs a string of the given octets, which are valid UTF-8 and at most `N`.
    fn from_valid(bytes: &[u8]) -> (r: Self)
        requires
            valid_utf8(bytes@),
            bytes@.len() <= N,
        ensures
            r.bytes() == bytes@,
    {
        SizedStr(SizedSlice::from_vec(slice_to_vec(bytes)))
    }

    /// Constructs a fixed-size string holding `s`.
    ///
    /// # Errors
    ///
    /// If the internal buffer cannot contain the entirety of `s`, then an error is returned.
    pub fn new(s: &str) -> (r: Result<Self, StringError>)
        ensures
            r is Err <==> encode_utf8(s@).len() > N,
            r matches Err(e) ==> e == StringError::SmallBuffer(SizeError { req: encode_utf8(s@).len() as usize, len: N }),
            r matches Ok(t) ==> t@ == s@ && t.bytes() == encode_utf8(s@),
    {
        let bytes = s.as_bytes();
        let n = bytes.len();
        if n > N {
            return Err(StringError::SmallBuffer(SizeError { req: n, len: N }));
        }
        proof {
            encode_utf8_valid_utf8(s@);
            encode_utf8_decode_utf8(s@);
        }
        Ok(Self::from_valid(bytes))
    }

    /// Constructs a fixed-size string from UTF-8 octets.
    ///
    /// # Errors
    ///
    /// If `data` is longer than `N`, or is not valid UTF-8, an error is returned.
    pub fn from_utf8(data: &[u8]) -> (r: Result<Self, StringError>)
        ensures
            match r {
                Ok(t) => sized_str_from_utf8(data@, N as nat) == Ok::<Seq<char>, StringError>(t@) && t.bytes() == data@,
                Err(e) => sized_str_from_utf8(data@, N as nat) == Err::<Seq<char>, StringError>(e),
            },
    {
        let n = data.len();
        if n > N {
            return Err(StringError::SmallBuffer(SizeError { req: n, len: N }));
        }
        match str_from_utf8(data) {
            Ok(s) => Ok(Self::from_valid(data)),
            Err(i) => {
                proof {
                    lemma_utf8_valid_up_to_bound(data@);
                }
                Err(StringError::BadUtf8(Utf8Error { value: data[i], index: i }))
            },
        }
    }

    /// Borrows the string as a byte slice.
    pub fn as_bytes(&self) -> (r: &[u8])
        ensures
            r@ == self.bytes(),
    {
        self.0.as_slice()
    }

    /// Borrows the string as a string slice.
    pub fn as_str(&self) -> (r: &str)
        ensures
            r@ == self@,
            encode_utf8(r@) == self.bytes(),
    {
        proof {
            use_type_invariant(self);
        }
        match str_from_utf8(self.0.as_slice()) {
            Ok(r) => {
                proof {
                    encode_utf8_decode_utf8(r@);
                }
                r
            },
            Err(_) => {
                proof {
                    assert(false);
                }
                ""
            },
        }
    }

    /// Returns the total capacity of the string.
    ///
    /// This is defined as being exactly the value of `N`.
    pub fn capacity(&self) -> (r: usize)
        ensures
            r == N,
    {
        self.0.capacity()
    }

    /// Returns the length of the string in octets.
    pub fn len(&self) -> (r: usize)
        ensures
            r == self.bytes().len(),
    {
        self.0.len()
    }

    /// Checks if the string is empty, i.e. no characters are contained.
    pub fn is_empty(&self) -> (r: bool)
        ensures
            r == (self.bytes().len() == 0),
    {
        self.0.is_empty()
    }

    /// Checks if the string is full, i.e. it cannot hold any more octets.
    pub fn is_full(&self) -> (r: bool)
        ensures
            r == (self.bytes().len() == N),
    {
        self.0.is_full()
    }

    /// Returns an iterator of the string's characters.
    pub fn chars(&self) -> (r: core::str::Chars<'_>)
        ensures
            r.remaining() == self@,
    {
        broadcast use vstd::string::axiom_spec_iter;

        self.as_str().chars()
    }

    /// Returns the string's characters along with the positions of their first octets.
    pub fn char_indices(&self) -> (r: Vec<(usize, char)>)
        ensures
            r@ == indexed_chars(self@),
    {
        char_indices_of(self.as_str())
    }

    /// Converts the fixed-size string into a dynamic string.
    ///
    /// The capacity of the resulting [`String`] is equal to the value of `N`.
    pub fn into_string(self) -> (r: String)
        ensures
            r@ == self@,
    {
        let mut r = string_with_capacity(N);
        string_push_str(&mut r, self.as_str());
        proof {
            assert(Seq::<char>::empty() + self@ =~= self@);
        }
        r
    }
}

impl<const N: usize> Model for SizedStr<N> {
    type M = Seq<char>;

    open spec fn model(&self) -> Seq<char> {
        self@
    }

    open spec fn model_wf(m: Seq<char>) -> bool {
        encode_utf8(m).len() <= N
    }
}

impl<const N: usize> Encode for SizedStr<N> {
    open spec fn spec_encode(m: Seq<char>) -> (Seq<u8>, Option<EncodeError>) {
        encode_then(encode_len(encode_utf8(m).len()), (encode_utf8(m), None))
    }

    fn encode(&self, stream: &mut OStream) -> (r: Result<(), EncodeError>) {
        self.as_str().encode(stream)
    }
}

impl<const N: usize> Decode for SizedStr<N> {
    open spec fn spec_decode(bytes: Seq<u8>) -> Decoding<Seq<char>> {
        decode_then(
            <usize as Decode>::spec_decode(bytes),
            bytes,
            |n: usize, rest: Seq<u8>|
                if n > rest.len() {
                    None
                } else {
                    Some((sized_str_decode(rest.take(n as int), N as nat), n as nat))
                },
        )
    }

    fn decode(stream: &mut IStream) -> (r: Result<SizedStr<N>, DecodeError>) {
        let ghost s0 = *stream;
        let len = usize::decode(stream)?;
        let ghost s1 = *stream;
        let data = stream.read(len);
        proof {
            lemma_skip_skip(s0.rest(), 2, len as int);
        }
        match Self::from_utf8(data) {
            Ok(s) => Ok(s),
            Err(StringError::BadUtf8(e)) => Err(DecodeError::BadString(e)),
            Err(StringError::SmallBuffer(e)) => Err(DecodeError::SmallBuffer(e)),
            Err(StringError::BadUtf16(_)) => vstd::pervasive::unreached(),
        }
    }
}

impl<const N: usize> Roundtrip for SizedStr<N> {
    proof fn lemma_roundtrip(m: Seq<char>, rest: Seq<u8>) {
        let bs = encode_utf8(m);
        let el = be_bytes(bs.len(), 2);
        lemma_pow256_values();
        lemma_be_value_of_bytes(bs.len(), 2);
        encode_utf8_valid_utf8(m);
        encode_utf8_decode_utf8(m);
        let bytes = Self::spec_encode(m).0 + rest;
        assert(bytes =~= el + (bs + rest));
        lemma_take_append(el, bs + rest);
        lemma_take_append(bs, rest);
    }
}

impl<const N: usize> std::str::FromStr for SizedStr<N> {
    type Err = StringError;

    fn from_str(s: &str) -> (r: Result<Self, StringError>)
        ensures
            r is Err <==> encode_utf8(s@).len() > N,
            r matches Err(e) ==> e == StringError::SmallBuffer(SizeError { req: encode_utf8(s@).len() as usize, len: N }),
            r matches Ok(t) ==> t@ == s@ && t.bytes() == encode_utf8(s@),
    {
        Self::new(s)
    }
}

impl<const N: usize> Default for SizedStr<N> {
    fn default() -> (r: Self)
        ensures
            r.bytes() == Seq::<u8>::empty(),
    {
        let r = SizedStr(SizedSlice::default());
        proof {
            assert(valid_utf8(Seq::<u8>::empty()));
        }
        r
    }
}

impl<'a, const N: usize> TryFrom<&'a str> for SizedStr<N> {
    type Error = StringError;

    fn try_from(s: &'a str) -> (r: Result<Self, StringError>)
        ensures
            r is Err <==> encode_utf8(s@).len() > N,
            r matches Err(e) ==> e == StringError::SmallBuffer(SizeError { req: encode_utf8(s@).len() as usize, len: N }),
            r matches Ok(t) ==> t@ == s@ && t.bytes() == encode_utf8(s@),
    {
        Self::new(s)
    }
}

impl<'a, const N: usize> TryFromSpecImpl<&'a str> for SizedStr<N> {
    /// The string is a value that [`sized_str_of`] may choose; [`try_from`](TryFrom::try_from)
    /// states its outcome exactly, over the view and the octets.
    open spec fn obeys_try_from_spec() -> bool {
        false
    }

    open spec fn try_from_spec(v: &'a str) -> Result<Self, StringError> {
        sized_str_of::<N>(v@)
    }
}

impl<const N: usize, const M: usize> PartialEq<SizedStr<M>> for SizedStr<N> {
    fn eq(&self, other: &SizedStr<M>) -> (r: bool) {
        let o = compare_bytes(self.as_bytes(), other.as_bytes());
        proof {
            lemma_lex_order_equal(self.bytes(), other.bytes());
        }
        match o {
            Ordering::Equal => true,
            _ => false,
        }
    }
}

impl<const N: usize, const M: usize> PartialEqSpecImpl<SizedStr<M>> for SizedStr<N> {
    open spec fn obeys_eq_spec() -> bool {
        true
    }

    open spec fn eq_spec(&self, other: &SizedStr<M>) -> bool {
        self.bytes() == other.bytes()
    }
}

impl<const N: usize> Eq for SizedStr<N> {

}

impl<'a, const N: usize> PartialEq<&'a str> for SizedStr<N> {
    fn eq(&self, other: &&'a str) -> (r: bool) {
        let o = compare_bytes(self.as_bytes(), other.as_bytes());
        proof {
            use_type_invariant(self);
            decode_utf8_encode_utf8(self.bytes());
            lemma_lex_order_equal(self.bytes(), encode_utf8(other@));
            encode_utf8_decode_utf8(other@);
        }
        match o {
            Ordering::Equal => true,
            _ => false,
        }
    }
}

impl<'a, const N: usize> PartialEqSpecImpl<&'a str> for SizedStr<N> {
    open spec fn obeys_eq_spec() -> bool {
        true
    }

    open spec fn eq_spec(&self, other: &&'a str) -> bool {
        self@ == other@
    }
}

impl<const N: usize, const M: usize> PartialOrd<SizedStr<M>> for SizedStr<N> {
    fn partial_cmp(&self, other: &SizedStr<M>) -> (r: Option<Ordering>) {
        Some(compare_bytes(self.as_bytes(), other.as_bytes()))
    }
}

impl<const N: usize, const M: usize> PartialOrdSpecImpl<SizedStr<M>> for SizedStr<N> {
    open spec fn obeys_partial_cmp_spec() -> bool {
        true
    }

    open spec fn partial_cmp_spec(&self, other: &SizedStr<M>) -> Option<Ordering> {
        Some(lex_order(self.bytes(), other.bytes()))
    }
}

impl<'a, const N: usize> PartialOrd<&'a str> for SizedStr<N> {
    fn partial_cmp(&self, other: &&'a str) -> (r: Option<Ordering>) {
        Some(compare_bytes(self.as_bytes(), other.as_bytes()))
    }
}

impl<'a, const N: usize> PartialOrdSpecImpl<&'a str> for SizedStr<N> {
    open spec fn obeys_partial_cmp_spec() -> bool {
        true
    }

    open spec fn partial_cmp_spec(&self, other: &&'a str) -> Option<Ordering> {
        Some(lex_order(self.bytes(), encode_utf8(other@)))
    }
}

/// Sized strings are ordered as `str` is: where their bytes agree before index `i` and differ
/// at it, the bytes at `i` decide, whatever the lengths.
pub proof fn lemma_partial_cmp_first_difference<const N: usize, const M: usize>(
    a: SizedStr<N>,
    b: SizedStr<M>,
    i: int,
)
    requires
        0 <= i < a.bytes().len(),
        i < b.bytes().len(),
        forall|k: int| 0 <= k < i ==> a.bytes()[k] == b.bytes()[k],
        a.bytes()[i] != b.bytes()[i],
    ensures
        a.bytes()[i] < b.bytes()[i] ==> PartialOrdSpec::partial_cmp_spec(&a, &b) == Some(Ordering::Less),
        a.bytes()[i] > b.bytes()[i] ==> PartialOrdSpec::partial_cmp_spec(&a, &b) == Some(Ordering::Greater),
{
    lemma_lex_order_first_difference(a.bytes(), b.bytes(), i);
}

/// A sized string whose bytes are a proper prefix of another's comes before it.
pub proof fn lemma_partial_cmp_proper_prefix<const N: usize, const M: usize>(
    a: SizedStr<N>,
    b: SizedStr<M>,
)
    requires
        a.bytes().len() < b.bytes().len(),
        forall|k: int| 0 <= k < a.bytes().len() ==> a.bytes()[k] == b.bytes()[k],
    ensures
        PartialOrdSpec::partial_cmp_spec(&a, &b) == Some(Ordering::Less),
        PartialOrdSpec::partial_cmp_spec(&b, &a) == Some(Ordering::Greater),
{
    lemma_lex_order_proper_prefix(a.bytes(), b.bytes());
}

/// Two sized strings compare `Equal` exactly when their bytes are the same, and a sized string
/// is ordered against a `str` as against a sized string of the same bytes.
pub proof fn lemma_partial_cmp_equal<'a, const N: usize, const M: usize>(
    a: SizedStr<N>,
    b: SizedStr<M>,
    s: &'a str,
)
    ensures
        (PartialOrdSpec::partial_cmp_spec(&a, &b) == Some(Ordering::Equal)) <==> (a.bytes() == b.bytes()),
        b.bytes() == encode_utf8(s@) ==> PartialOrdSpec::partial_cmp_spec(&a, &s)
            == PartialOrdSpec::partial_cmp_spec(&a, &b),
{
    lemma_lex_order_equal(a.bytes(), b.bytes());
}

impl<const N: usize> TryFrom<char> for SizedStr<N> {
    type Error = StringError;

    fn try_from(value: char) -> (r: Result<Self, StringError>)
        ensures
            r is Err <==> encode_utf8(seq![value]).len() > N,
            r matches Err(e) ==> e == StringError::SmallBuffer(SizeError { req: encode_utf8(seq![value]).len() as usize, len: N }),
            r matches Ok(t) ==> t@ == seq![value],
    {
        let s = string_of_char(value);
        Self::new(s.as_str())
    }
}

impl<const N: usize> TryFromSpecImpl<char> for SizedStr<N> {
    /// The string is a value that [`sized_str_of`] may choose; [`try_from`](TryFrom::try_from)
    /// states its outcome exactly, over the view and the octets.
    open spec fn obeys_try_from_spec() -> bool {
        false
    }

    open spec fn try_from_spec(v: char) -> Result<Self, StringError> {
        sized_str_of::<N>(seq![v])
    }
}

impl<const N: usize> TryFrom<String> for SizedStr<N> {
    type Error = StringError;

    fn try_from(value: String) -> (r: Result<Self, StringError>)
        ensures
            r is Err <==> encode_utf8(value@).len() > N,
            r matches Err(e) ==> e == StringError::SmallBuffer(SizeError { req: encode_utf8(value@).len() as usize, len: N }),
            r matches Ok(t) ==> t@ == value@,
    {
        Self::new(value.as_str())
    }
}

impl<const N: usize> TryFromSpecImpl<String> for SizedStr<N> {
    /// The string is a value that [`sized_str_of`] may choose; [`try_from`](TryFrom::try_from)
    /// states its outcome exactly, over the view and the octets.
    open spec fn obeys_try_from_spec() -> bool {
        false
    }

    open spec fn try_from_spec(v: String) -> Result<Self, StringError> {
        sized_str_of::<N>(v@)
    }
}

impl<const N: usize> From<SizedStr<N>> for String {
    /// Converts the fixed-size string into a dynamic string.
    fn from(value: SizedStr<N>) -> (r: String)
        ensures
            r@ == value@,
    {
        value.into_string()
    }
}

impl<const N: usize> FromSpecImpl<SizedStr<N>> for String {
    /// The string's characters are stated by [`from`](From::from) itself, over the view.
    open spec fn obeys_from_spec() -> bool {
        false
    }

    open spec fn from_spec(v: SizedStr<N>) -> String {
        choose|s: String| s@ == v@
    }
}


/// The number of leading characters of `cs` that a string with `room` octets left can take, one
/// after the other, stopping at the first character whose encoding does not fit.
pub open spec fn fitting_chars(cs: Seq<char>, room: int) -> nat
    decreases cs.len(),
{
    if cs.len() == 0 {
        0
    } else if encode_utf8(seq![cs[0]]).len() > room {
        0
    } else {
        1 + fitting_chars(cs.drop_first(), room - encode_utf8(seq![cs[0]]).len())
    }
}

impl<const N: usize> SizedStr<N> {
    /// Collects characters from `iter` for as long as they fit; the first character that does
    /// not fit ends the string.
    ///
    /// Of an iterator that follows the laws of [`Iterator::next`], the string holds its first
    /// [`fitting_chars`] characters.
    pub fn from_iter<I: Iterator<Item = char>>(iter: I) -> (r: Self)
        ensures
            iter.obeys_prophetic_iter_laws() ==> r@ == iter.remaining().take(
                fitting_chars(iter.remaining(), N as int) as int,
            ),
    {
        let ghost start = iter.remaining();
        let ghost obeys = iter.obeys_prophetic_iter_laws();
        let ghost mut k: nat = 0;
        let mut it = iter;
        let mut bytes: Vec<u8> = Vec::new();
        proof {
            assert(start.take(0) =~= Seq::<char>::empty());
            assert(start.skip(0) =~= start);
            assert(encode_utf8(Seq::<char>::empty()) =~= Seq::<u8>::empty());
        }
        loop
            invariant_except_break
                bytes@.len() <= N,
                valid_utf8(bytes@),
                it.obeys_prophetic_iter_laws() == obeys,
                obeys ==> {
                    &&& k <= start.len()
                    &&& bytes@ == encode_utf8(start.take(k as int))
                    &&& it.remaining() == start.skip(k as int)
                    &&& fitting_chars(start, N as int) == k + fitting_chars(
                        start.skip(k as int),
                        N - bytes@.len(),
                    )
                },
            ensures
                bytes@.len() <= N,
                valid_utf8(bytes@),
                obeys ==> bytes@ == encode_utf8(start.take(fitting_chars(start, N as int) as int)),
            decreases N - bytes@.len(),
        {
            let ghost rest = it.remaining();
            match I::next(&mut it) {
                None => {
                    proof {
                        if obeys {
                            assert(start.skip(k as int).len() == 0);
                        }
                    }
                    break;
                },
                Some(c) => {
                    let s = string_of_char(c);
                    let b = s.as_str().as_bytes();
                    proof {
                        reveal_with_fuel(encode_utf8, 2);
                        assert(b@.len() >= 1);
                        encode_utf8_valid_utf8(seq![c]);
                    }
                    if b.len() > N - bytes.len() {
                        proof {
                            if obeys {
                                assert(rest.len() > 0 && c == rest[0]);
                                assert(fitting_chars(rest, N - bytes@.len()) == 0);
                            }
                        }
                        break;
                    }
                    let ghost before = bytes@;
                    let mut i: usize = 0;
                    while i < b.len()
                        invariant
                            i <= b@.len(),
                            bytes@ == before + b@.take(i as int),
                        decreases b@.len() - i,
                    {
                        bytes.push(b[i]);
                        i = i + 1;
                        proof {
                            assert(b@.take(i as int) =~= b@.take(i - 1).push(b@[i - 1]));
                        }
                    }
                    proof {
                        assert(b@.take(b@.len() as int) =~= b@);
                        crate::text::lemma_decode_utf8_append(before, b@);
                        if obeys {
                            assert(rest.len() > 0 && c == rest[0]);
                            assert(start.take(k as int + 1) =~= start.take(k as int) + seq![c]);
                            crate::text::lemma_encode_utf8_append(start.take(k as int), seq![c]);
                            assert(rest.drop_first() =~= start.skip(k as int + 1));
                        }
                        k = k + 1;
                    }
                },
            }
        }
        proof {
            if obeys {
                encode_utf8_decode_utf8(start.take(fitting_chars(start, N as int) as int));
            }
        }
        Self::from_valid(bytes.as_slice())
    }
}

} // verus!
