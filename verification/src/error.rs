//! Error variants.
//!
//! This module defines the error types used by the library.
use vstd::prelude::*;

verus! {

/// A fixed-size buffer was too small.
#[derive(Debug, PartialEq, Eq, Structural, Clone, Copy)]
pub struct SizeError {
    /// The required amount of bytes.
    pub req: usize,
    /// The total capacity of the buffer.
    pub len: usize,
}

/// An invalid UTF-8 sequence was encountered.
#[derive(Debug, PartialEq, Eq, Structural, Clone, Copy)]
pub struct Utf8Error {
    /// The invalid UTF-8 octet.
    pub value: u8,
    /// The index of the invalid octet.
    pub index: usize,
}

/// An invalid UTF-16 sequence was encountered.
#[derive(Debug, PartialEq, Eq, Structural, Clone, Copy)]
pub struct Utf16Error {
    /// The invalid UTF-16 hextet.
    pub value: u16,
    /// The index of the invalid hextet.
    pub index: usize,
}

/// String error variants.
#[derive(Debug, PartialEq, Eq, Structural, Clone, Copy)]
#[non_exhaustive]
pub enum StringError {
    /// An invalid UTF-8 sequence was encountered.
    BadUtf8(Utf8Error),
    /// An invalid UTF-16 sequence was encountered.
    BadUtf16(Utf16Error),
    /// A fixed-size buffer was too small.
    SmallBuffer(SizeError),
}

/// Encode error variants.
///
/// These errors may be returned from implementations of [`Encode`](crate::Encode).
#[derive(Debug, PartialEq, Eq, Structural, Clone, Copy)]
#[non_exhaustive]
pub enum EncodeError {
    /// An `isize` value could not be cast as `i16`.
    IsizeOutOfRange(isize),
    /// A `usize` value could not be cast as `u16`.
    UsizeOutOfRange(usize),
}

/// Decode error variants.
///
/// These errors may be returned from implementations of [`Decode`](crate::Decode).
#[derive(Debug, PartialEq, Eq, Structural, Clone, Copy)]
#[non_exhaustive]
pub enum DecodeError {
    /// A string contained an invalid UTF-8 sequence.
    BadString(Utf8Error),
    /// A boolean encountered a value outside `0` and `1`.
    InvalidBoolean(u8),
    /// An invalid code point was encountered.
    ///
    /// This includes surrogate points in the inclusive range `U+D800` to `U+DFFF`, as well as all
    /// values larger than `U+10FFFF`.
    InvalidCodePoint(u32),
    /// An invalid enumeration descriminant was provided.
    InvalidDiscriminant(isize),
    /// A timestamp could not be represented.
    NarrowSystemTime {
        /// The unrepresentable timestamp.
        timestamp: i64,
    },
    /// A non-zero integer had the value `0`.
    NullInteger,
    /// A C-like string encountered a null value within bounds.
    NullCString {
        /// The index of the null value.
        index: usize,
    },
    /// An array could not hold the requested amount of elements.
    SmallBuffer(SizeError),
}

/// Error variants of serialisation and deserialisation through s-streams and d-streams.
#[derive(Debug, PartialEq, Eq, Structural, Clone, Copy)]
#[non_exhaustive]
pub enum Error {
    /// A fixed-size string or array could not hold the requested amount of octets.
    ArrayTooShort {
        /// The required amount of octets.
        req: usize,
        /// The capacity.
        len: usize,
    },
    /// A string contained an invalid UTF-8 sequence.
    BadString {
        /// Where the sequence went wrong.
        source: Utf8Error,
    },
    /// A stream could not provide or take the requested amount of bytes.
    EndOfStream {
        /// The requested amount of bytes.
        req: usize,
        /// The remaining amount of bytes.
        rem: usize,
    },
    /// A boolean encountered a value outside `0` and `1`.
    InvalidBoolean(u8),
    /// An invalid code point was encountered.
    InvalidCodePoint {
        /// The invalid value.
        value: u32,
    },
    /// An invalid enumeration descriminant was provided.
    InvalidDiscriminant {
        /// The invalid value.
        value: u32,
    },
    /// An `isize` value could not be cast as `i32`.
    IsizeOutOfRange(isize),
    /// A non-zero integer had the value `0`.
    NullInteger,
    /// A `usize` value could not be cast as `u32`.
    UsizeOutOfRange(usize),
}

} // verus!
