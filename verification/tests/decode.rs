use bzipper::{Buf, SizedEncode};
use bzipper::{Decode, DecodeError, Encode, EncodeError, IStream, OStream, SizedSlice, SizedStr, SizeError, StringError};

#[test]
fn test_decode_errors() {
    let data = [0x02];
    let mut s = IStream::new(&data);
    assert!(matches!(bool::decode(&mut s), Err(DecodeError::InvalidBoolean(2))));

    let data = [0x00, 0x00, 0xD8, 0x00];
    let mut s = IStream::new(&data);
    assert!(matches!(char::decode(&mut s), Err(DecodeError::InvalidCodePoint(0xD800))));

    let data = [0x00, 0x02, 0xC3, 0x28];
    let mut s = IStream::new(&data);
    assert!(matches!(String::decode(&mut s), Err(DecodeError::BadString(e)) if e.index == 0 && e.value == 0xC3));

    let data = [0x00, 0x03, 1, 2, 3];
    let mut s = IStream::new(&data);
    assert!(matches!(SizedSlice::<u8, 2>::decode(&mut s), Err(DecodeError::SmallBuffer(SizeError { req: 3, len: 2 }))));
}

#[test]
fn test_encode_errors() {
    let mut s = OStream::new(vec![0; 4]);
    assert!(matches!(0x1_0000usize.encode(&mut s), Err(EncodeError::UsizeOutOfRange(0x1_0000))));
    assert!(matches!((-0x8001isize).encode(&mut s), Err(EncodeError::IsizeOutOfRange(-0x8001))));
    assert_eq!(s.len(), 0);
    (-0x8000isize).encode(&mut s).unwrap();
    assert_eq!(s.into_parts().0[..2], [0x80, 0x00]);
}

#[test]
fn test_roundtrip_string() {
    let value = String::from("gr\u{00FC}\u{00DF}e");
    let mut s = OStream::new(vec![0; 16]);
    value.encode(&mut s).unwrap();
    let (buf, len) = s.into_parts();
    let mut i = IStream::new(&buf[..len]);
    assert_eq!(String::decode(&mut i).unwrap(), value);
    assert_eq!(i.close(), len);
}

#[test]
fn test_sized_str() {
    let s = SizedStr::<4>::try_from("ab").unwrap();
    assert_eq!(s.len(), 2);
    assert_eq!(s.capacity(), 4);
    assert_eq!(s.as_str(), "ab");
    assert!(!s.is_full());
    assert!(matches!(SizedStr::<1>::try_from("ab"), Err(StringError::SmallBuffer(SizeError { req: 2, len: 1 }))));
    assert!(matches!(SizedStr::<4>::from_utf8(&[0x61, 0xFF]), Err(StringError::BadUtf8(e)) if e.index == 1 && e.value == 0xFF));
    let t = SizedStr::<8>::from_utf8(&[0xC3, 0xB8, 0x61]).unwrap();
    assert_eq!(t.char_indices(), vec![(0, '\u{00F8}'), (2, 'a')]);
    assert_eq!(t.chars().count(), 2);
    assert_eq!(t.into_string(), "\u{00F8}a");
}

#[test]
fn test_sized_slice() {
    let s = SizedSlice::<u8, 4>::new(&[1, 2]).unwrap();
    assert_eq!(s.len(), 2);
    assert_eq!(s.capacity(), 4);
    assert!(!s.is_empty());
    assert!(!s.is_full());
    assert!(matches!(SizedSlice::<u8, 1>::new(&[1, 2]), Err(SizeError { req: 2, len: 1 })));
    let t = SizedSlice::<u8, 2>::try_from([5u8, 6].as_slice()).unwrap();
    assert_eq!(t.into_vec(), vec![5, 6]);
    let (v, len) = s.into_raw_parts();
    assert_eq!(v, vec![1, 2]);
    assert_eq!(len, 2);
}

#[test]
fn test_range_inclusive() {
    let value = 3u16..=0x1FF;
    let mut s = OStream::new(vec![0; 4]);
    value.encode(&mut s).unwrap();
    let (buf, len) = s.into_parts();
    assert_eq!(buf, vec![0x00, 0x03, 0x01, 0xFF]);
    let mut i = IStream::new(&buf[..len]);
    assert_eq!(core::ops::RangeInclusive::<u16>::decode(&mut i).unwrap(), 3..=0x1FF);
}

#[test]
fn test_encode_references() {
    let v = 0x0102u16;
    let r = &v;
    let mut s = OStream::new(vec![0; 2]);
    r.encode(&mut s).unwrap();
    assert_eq!(s.into_parts().0, vec![1, 2]);
}

#[test]
fn test_sized_str_conversions() {
    let s = SizedStr::<4>::try_from('\u{00F8}').unwrap();
    assert_eq!(s.as_bytes(), [0xC3, 0xB8].as_slice());
    assert!(matches!(SizedStr::<1>::try_from('\u{00F8}'), Err(StringError::SmallBuffer(SizeError { req: 2, len: 1 }))));
    let t = SizedStr::<4>::try_from(String::from("ab")).unwrap();
    assert!(t == "ab");
    assert!(t < "b");
    assert_eq!(String::from(t), "ab");
}

#[test]
fn test_sized_slice_into_vec() {
    let s = SizedSlice::<u8, 4>::from([1, 2, 3, 4]);
    assert!(s.is_full());
    let v: Vec<u8> = Vec::from(s);
    assert_eq!(v, vec![1, 2, 3, 4]);
}

#[test]
fn test_sized_slice_from_iter() {
    let s = SizedSlice::<u8, 2>::from_iter([1u8, 2, 3].into_iter());
    assert_eq!(s.len(), 2);
    assert_eq!(s.as_slice(), [1u8, 2].as_slice());
    let t = SizedSlice::<u8, 4>::from_iter([7u8].into_iter());
    assert_eq!(t.as_slice(), [7u8].as_slice());
}

#[test]
fn test_sized_str_into_string_capacity() {
    let s = SizedStr::<8>::try_from("ab").unwrap();
    let t = s.into_string();
    assert_eq!(t, "ab");
    assert!(t.capacity() >= 8);
}

#[test]
fn test_sized_str_from_iter() {
    let s = SizedStr::<3>::from_iter("a\u{00F8}b".chars());
    assert_eq!(s.as_str(), "a\u{00F8}");
    let t = SizedStr::<2>::from_iter("a\u{00F8}b".chars());
    assert_eq!(t.as_str(), "a");
    let u = SizedStr::<8>::from_iter("xyz".chars());
    assert_eq!(u.as_str(), "xyz");
}

#[test]
fn test_sized_slice_max_size() {
    assert_eq!(SizedSlice::<u8, 1>::MAX_ENCODED_SIZE, 3);
    assert_eq!(SizedSlice::<u16, 3>::MAX_ENCODED_SIZE, 8);
    assert_eq!(SizedStr::<5>::MAX_ENCODED_SIZE, 7);
    let mut buf = Buf::<SizedSlice<u8, 2>>::new();
    buf.write(SizedSlice::from([7u8, 8])).unwrap();
    assert!(buf == [0x00, 0x02, 7, 8].as_slice());
}

#[test]
fn test_sized_slice_as_mut_slice() {
    let mut s = SizedSlice::<u8, 4>::new(&[1, 2]).unwrap();
    s.as_mut_slice()[1] = 9;
    assert_eq!(s.as_slice(), [1u8, 9].as_slice());
}
