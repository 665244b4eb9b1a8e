//! The values that the benchmarks encode and decode.
//!
//! Their encodings are those of structures and enumerations in general: the fields one after
//! the other, preceded, for an enumeration, by the discriminant of the variant as an `isize`.
use vstd::prelude::*;
use crate::decode::{Decode, Decoding, decode_then, lemma_decoded_then, lemma_skip_skip};
use crate::encode::{Encode, encode_then};
use crate::error::{DecodeError, EncodeError};
use crate::i_stream::IStream;
use crate::model::Model;
use crate::o_stream::{OStream, lemma_wrote_nothing, lemma_wrote_then};
use crate::roundtrip::Roundtrip;

verus! {

/// A structure without fields.
#[derive(Clone, Copy, Debug, PartialEq, Eq, Structural)]
pub struct Unit;

/// A structure with one unnamed field.
#[derive(Clone, Copy, Debug, PartialEq, Eq, Structural)]
pub struct Unnamed(pub u32);

/// A structure with one named field.
#[derive(Clone, Copy, Debug)]
pub struct Named {
    pub buf: [u8; 8],
}

/// An enumeration with one variant of each of the structures.
#[derive(Clone, Copy, Debug)]
pub enum Enum {
    Unit(Unit),
    Unnamed(Unnamed),
    Named(Named),
}

/// The model of an [`Enum`]: the variant and the model of its field.
pub enum EnumModel {
    Unit,
    Unnamed(u32),
    Named(Seq<u8>),
}

impl Unnamed {
    /// Constructs the structure holding the code point of `value`.
    pub fn from_char(value: char) -> (r: Self)
        ensures
            r.0 == value as u32,
    {
        Self(value as u32)
    }
}

/// The octet that [`Named::from_u64`] takes from `value` at index `i`: the `i`-th octet of
/// `value`, counted from the least significant, masked out and then shifted right by `2 * i`
/// bits, truncated to eight bits.
pub open spec fn from_u64_octet(value: u64, i: int) -> u8 {
    ((value & (0xFFu64 << (8 * i) as u64)) >> (2 * i) as u64) as u8
}

impl Named {
    /// Constructs the structure from the octets of `value`, as the benchmarks do.
    pub fn from_u64(value: u64) -> (r: Self)
        ensures
            forall|i: int| 0 <= i < 8 ==> r.buf[i] == #[trigger] from_u64_octet(value, i),
    {
        let buf: [u8; 8] = [
            (value & 0x00_00_00_00_00_00_00_FF) as u8,
            ((value & 0x00_00_00_00_00_00_FF_00) >> 0x2) as u8,
            ((value & 0x00_00_00_00_00_FF_00_00) >> 0x4) as u8,
            ((value & 0x00_00_00_00_FF_00_00_00) >> 0x6) as u8,
            ((value & 0x00_00_00_FF_00_00_00_00) >> 0x8) as u8,
            ((value & 0x00_00_FF_00_00_00_00_00) >> 0xA) as u8,
            ((value & 0x00_FF_00_00_00_00_00_00) >> 0xC) as u8,
            ((value & 0xFF_00_00_00_00_00_00_00) >> 0xE) as u8,
        ];
        proof {
            assert(0xFFu64 << 0u64 == 0x00_00_00_00_00_00_00_FFu64) by (bit_vector);
            assert(0xFFu64 << 8u64 == 0x00_00_00_00_00_00_FF_00u64) by (bit_vector);
            assert(0xFFu64 << 16u64 == 0x00_00_00_00_00_FF_00_00u64) by (bit_vector);
            assert(0xFFu64 << 24u64 == 0x00_00_00_00_FF_00_00_00u64) by (bit_vector);
            assert(0xFFu64 << 32u64 == 0x00_00_00_FF_00_00_00_00u64) by (bit_vector);
            assert(0xFFu64 << 40u64 == 0x00_00_FF_00_00_00_00_00u64) by (bit_vector);
            assert(0xFFu64 << 48u64 == 0x00_FF_00_00_00_00_00_00u64) by (bit_vector);
            assert(0xFFu64 << 56u64 == 0xFF_00_00_00_00_00_00_00u64) by (bit_vector);
            assert(value & 0xFFu64 == (value & 0xFFu64) >> 0u64) by (bit_vector);
            assert forall|i: int| 0 <= i < 8 implies buf[i] == #[trigger] from_u64_octet(value, i) by {
                if i == 0 {
                } else if i == 1 {
                } else if i == 2 {
                } else if i == 3 {
                } else if i == 4 {
                } else if i == 5 {
                } else if i == 6 {
                } else {
                }
            }
        }
        Self { buf }
    }
}

impl Model for Unit {
    type M = ();

    open spec fn model(&self) -> () {
        ()
    }

    open spec fn model_wf(m: ()) -> bool {
        true
    }
}

impl Model for Unnamed {
    type M = u32;

    open spec fn model(&self) -> u32 {
        self.0
    }

    open spec fn model_wf(m: u32) -> bool {
        true
    }
}

impl Model for Named {
    type M = Seq<u8>;

    open spec fn model(&self) -> Seq<u8> {
        self.buf.model()
    }

    open spec fn model_wf(m: Seq<u8>) -> bool {
        m.len() == 8
    }
}

impl Model for Enum {
    type M = EnumModel;

    open spec fn model(&self) -> EnumModel {
        match self {
            Enum::Unit(_) => EnumModel::Unit,
            Enum::Unnamed(v) => EnumModel::Unnamed(v.model()),
            Enum::Named(v) => EnumModel::Named(v.model()),
        }
    }

    open spec fn model_wf(m: EnumModel) -> bool {
        match m {
            EnumModel::Named(s) => s.len() == 8,
            _ => true,
        }
    }
}

impl Encode for Unit {
    open spec fn spec_encode(m: ()) -> (Seq<u8>, Option<EncodeError>) {
        (Seq::empty(), None)
    }

    fn encode(&self, stream: &mut OStream) -> (r: Result<(), EncodeError>) {
        proof {
            lemma_wrote_nothing(*stream, *stream);
        }
        Ok(())
    }
}

impl Encode for Unnamed {
    open spec fn spec_encode(m: u32) -> (Seq<u8>, Option<EncodeError>) {
        <u32 as Encode>::spec_encode(m)
    }

    fn encode(&self, stream: &mut OStream) -> (r: Result<(), EncodeError>) {
        self.0.encode(stream)
    }
}

impl Encode for Named {
    open spec fn spec_encode(m: Seq<u8>) -> (Seq<u8>, Option<EncodeError>) {
        <[u8; 8] as Encode>::spec_encode(m)
    }

    fn encode(&self, stream: &mut OStream) -> (r: Result<(), EncodeError>) {
        self.buf.encode(stream)
    }
}

/// The discriminant of a variant of [`Enum`], as the variants are numbered in order from zero.
pub open spec fn enum_discriminant(m: EnumModel) -> isize {
    match m {
        EnumModel::Unit => 0,
        EnumModel::Unnamed(_) => 1,
        EnumModel::Named(_) => 2,
    }
}

/// The encoding of the field of a variant of [`Enum`].
pub open spec fn enum_field_encoding(m: EnumModel) -> (Seq<u8>, Option<EncodeError>) {
    match m {
        EnumModel::Unit => <Unit as Encode>::spec_encode(()),
        EnumModel::Unnamed(v) => <Unnamed as Encode>::spec_encode(v),
        EnumModel::Named(v) => <Named as Encode>::spec_encode(v),
    }
}

impl Encode for Enum {
    open spec fn spec_encode(m: EnumModel) -> (Seq<u8>, Option<EncodeError>) {
        encode_then(<isize as Encode>::spec_encode(enum_discriminant(m)), enum_field_encoding(m))
    }

    fn encode(&self, stream: &mut OStream) -> (r: Result<(), EncodeError>) {
        let ghost s0 = *stream;
        let d: isize = match self {
            Enum::Unit(_) => 0,
            Enum::Unnamed(_) => 1,
            Enum::Named(_) => 2,
        };
        d.encode(stream)?;
        let ghost s1 = *stream;
        let r = match self {
            Enum::Unit(v) => v.encode(stream),
            Enum::Unnamed(v) => v.encode(stream),
            Enum::Named(v) => v.encode(stream),
        };
        proof {
            lemma_wrote_then(s0, s1, *stream, <isize as Encode>::spec_encode(d).0, enum_field_encoding(self.model()).0);
        }
        r
    }
}

impl Decode for Unit {
    open spec fn spec_decode(bytes: Seq<u8>) -> Decoding<()> {
        Some((Ok(()), 0))
    }

    fn decode(stream: &mut IStream) -> (r: Result<Unit, DecodeError>) {
        proof {
            assert(stream.rest().skip(0) =~= stream.rest());
        }
        Ok(Unit)
    }
}

impl Decode for Unnamed {
    open spec fn spec_decode(bytes: Seq<u8>) -> Decoding<u32> {
        <u32 as Decode>::spec_decode(bytes)
    }

    fn decode(stream: &mut IStream) -> (r: Result<Unnamed, DecodeError>) {
        let v = u32::decode(stream)?;
        Ok(Unnamed(v))
    }
}

impl Decode for Named {
    open spec fn spec_decode(bytes: Seq<u8>) -> Decoding<Seq<u8>> {
        <[u8; 8] as Decode>::spec_decode(bytes)
    }

    fn decode(stream: &mut IStream) -> (r: Result<Named, DecodeError>) {
        let buf = <[u8; 8]>::decode(stream)?;
        Ok(Named { buf })
    }
}

/// Turns the decoding of a field into that of the variant holding it.
pub open spec fn decode_variant<A>(d: Decoding<A>, variant: spec_fn(A) -> EnumModel) -> Decoding<EnumModel> {
    match d {
        None => None,
        Some((Err(e), k)) => Some((Err(e), k)),
        Some((Ok(v), k)) => Some((Ok(variant(v)), k)),
    }
}

/// What decoding the rest of an [`Enum`] with discriminant `d` gives.
pub open spec fn enum_body(d: isize, rest: Seq<u8>) -> Decoding<EnumModel> {
    if d == 0 {
        decode_variant(<Unit as Decode>::spec_decode(rest), |v: ()| EnumModel::Unit)
    } else if d == 1 {
        decode_variant(<Unnamed as Decode>::spec_decode(rest), |v: u32| EnumModel::Unnamed(v))
    } else if d == 2 {
        decode_variant(<Named as Decode>::spec_decode(rest), |v: Seq<u8>| EnumModel::Named(v))
    } else {
        Some((Err(DecodeError::InvalidDiscriminant(d)), 0))
    }
}

impl Decode for Enum {
    open spec fn spec_decode(bytes: Seq<u8>) -> Decoding<EnumModel> {
        decode_then(<isize as Decode>::spec_decode(bytes), bytes, |d: isize, rest: Seq<u8>| enum_body(d, rest))
    }

    fn decode(stream: &mut IStream) -> (r: Result<Enum, DecodeError>) {
        let ghost s0 = *stream;
        let d = isize::decode(stream)?;
        let ghost s1 = *stream;
        proof {
            lemma_skip_skip(s0.rest(), 2, 0);
        }
        if d == 0 {
            let v = Unit::decode(stream);
            proof {
                lemma_decoded_then(s0, s1, *stream, <isize as Decode>::spec_decode(s0.rest()), Ok::<isize, DecodeError>(d), <Unit as Decode>::spec_decode(s1.rest()), v);
            }
            match v {
                Ok(v) => Ok(Enum::Unit(v)),
                Err(e) => Err(e),
            }
        } else if d == 1 {
            let v = Unnamed::decode(stream);
            proof {
                lemma_decoded_then(s0, s1, *stream, <isize as Decode>::spec_decode(s0.rest()), Ok::<isize, DecodeError>(d), <Unnamed as Decode>::spec_decode(s1.rest()), v);
            }
            match v {
                Ok(v) => Ok(Enum::Unnamed(v)),
                Err(e) => Err(e),
            }
        } else if d == 2 {
            let v = Named::decode(stream);
            proof {
                lemma_decoded_then(s0, s1, *stream, <isize as Decode>::spec_decode(s0.rest()), Ok::<isize, DecodeError>(d), <Named as Decode>::spec_decode(s1.rest()), v);
            }
            match v {
                Ok(v) => Ok(Enum::Named(v)),
                Err(e) => Err(e),
            }
        } else {
            Err(DecodeError::InvalidDiscriminant(d))
        }
    }
}

impl Roundtrip for Unit {
    proof fn lemma_roundtrip(m: (), rest: Seq<u8>) {
        assert(Seq::<u8>::empty() + rest =~= rest);
    }
}

impl Roundtrip for Unnamed {
    proof fn lemma_roundtrip(m: u32, rest: Seq<u8>) {
        <u32 as Roundtrip>::lemma_roundtrip(m, rest);
    }
}

impl Roundtrip for Named {
    proof fn lemma_roundtrip(m: Seq<u8>, rest: Seq<u8>) {
        <[u8; 8] as Roundtrip>::lemma_roundtrip(m, rest);
    }
}

impl Roundtrip for Enum {
    proof fn lemma_roundtrip(m: EnumModel, rest: Seq<u8>) {
        let d = enum_discriminant(m);
        let ed = <isize as Encode>::spec_encode(d).0;
        let ef = enum_field_encoding(m).0;
        match m {
            EnumModel::Unit => <Unit as Roundtrip>::lemma_roundtrip((), rest),
            EnumModel::Unnamed(v) => <Unnamed as Roundtrip>::lemma_roundtrip(v, rest),
            EnumModel::Named(v) => <Named as Roundtrip>::lemma_roundtrip(v, rest),
        }
        <isize as Roundtrip>::lemma_roundtrip(d, ef + rest);
        assert(Self::spec_encode(m).0 + rest =~= ed + (ef + rest));
        assert((ed + (ef + rest)).skip(ed.len() as int) =~= ef + rest);
        match m {
            EnumModel::Unit => {
                assert(ef =~= Seq::<u8>::empty());
            },
            _ => {},
        }
    }
}

} // verus!
