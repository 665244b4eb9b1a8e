//! Binary encoding and decoding.
use vstd::prelude::*;

pub mod buf;
pub mod buffer;
pub mod bytes;
pub mod d_stream;
pub mod decode;
pub mod deserialise;
pub mod discriminant;
pub mod encode;
pub mod error;
pub mod fixed_iter;
pub mod fixed_string;
pub mod i_stream;
pub mod lexical;
pub mod model;
pub mod o_stream;
pub mod roundtrip;
pub mod s_stream;
pub mod serialise;
pub mod serialise_roundtrip;
pub mod sized_encode;
pub mod sized_iter;
pub mod sized_slice;
pub mod sized_str;
pub mod text;
pub mod tuple;
pub mod values;

pub use buf::Buf;
pub use buffer::Buffer;
pub use d_stream::Dstream;
pub use decode::Decode;
pub use deserialise::Deserialise;
pub use discriminant::Discriminant;
pub use encode::Encode;
pub use error::{DecodeError, EncodeError, Error, SizeError, StringError, Utf16Error, Utf8Error};
pub use fixed_iter::FixedIter;
pub use fixed_string::FixedString;
pub use i_stream::IStream;
pub use model::Model;
pub use o_stream::OStream;
pub use roundtrip::Roundtrip;
pub use s_stream::Sstream;
pub use serialise::Serialise;
pub use serialise_roundtrip::SerialiseRoundtrip;
pub use sized_encode::SizedEncode;
pub use sized_iter::SizedIter;
pub use sized_slice::SizedSlice;
pub use sized_str::SizedStr;

verus! {
} // verus!
