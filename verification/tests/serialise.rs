use bzipper::{Deserialise, Dstream, Error, Serialise, Sstream};

fn serialised<T: Serialise>(value: &T) -> Vec<u8> {
    let mut stream = Sstream::new(vec![0; T::MAX_SERIALISED_SIZE]);
    value.serialise(&mut stream).unwrap();
    stream.as_slice().to_vec()
}

#[test]
fn test_serialise_numbers() {
    assert_eq!(serialised(&0x12u8), vec![0x12]);
    assert_eq!(serialised(&0x1234u16), vec![0x12, 0x34]);
    assert_eq!(serialised(&-2i32), vec![0xFF, 0xFF, 0xFF, 0xFE]);
    assert_eq!(serialised(&0x0102_0304_0506_0708u64), vec![1, 2, 3, 4, 5, 6, 7, 8]);
    assert_eq!(serialised(&-1i128), vec![0xFF; 16]);
    assert_eq!(serialised(&0x10usize), vec![0, 0, 0, 0x10]);
    assert_eq!(serialised(&-0x10isize), vec![0xFF, 0xFF, 0xFF, 0xF0]);
    assert_eq!(serialised(&true), vec![1]);
    assert_eq!(serialised(&'\u{1F44D}'), vec![0x00, 0x01, 0xF4, 0x4D]);
    assert_eq!(serialised(&()), Vec::<u8>::new());
    assert_eq!(serialised(&Some(3u8)), vec![1, 3]);
    assert_eq!(serialised(&None::<u8>), vec![0]);
    assert_eq!(serialised(&[1u16, 2]), vec![0, 1, 0, 2]);
}

#[test]
fn test_serialise_errors() {
    let mut stream = Sstream::new(vec![0; 3]);
    assert!(matches!(0u32.serialise(&mut stream), Err(Error::EndOfStream { req: 4, rem: 3 })));
    assert!(!stream.is_empty());
    assert_eq!(stream.len(), 0);
    assert!(matches!(Some(0u32).serialise(&mut stream), Err(Error::EndOfStream { req: 4, rem: 2 })));
    assert_eq!(stream.as_slice(), [1].as_slice());

    if usize::BITS > 32 {
        let big = (u32::MAX as usize) + 1;
        let mut stream = Sstream::new(vec![0; 4]);
        assert!(matches!(big.serialise(&mut stream), Err(Error::UsizeOutOfRange(v)) if v == big));
        let big = (i32::MAX as isize) + 1;
        assert!(matches!(big.serialise(&mut stream), Err(Error::IsizeOutOfRange(v)) if v == big));
        assert_eq!(stream.len(), 0);
    }

    let mut stream = Sstream::new(vec![0; 5]);
    assert!(matches!([1u16, 2, 3].serialise(&mut stream), Err(Error::EndOfStream { req: 2, rem: 1 })));
    assert_eq!(stream.as_slice(), [0, 1, 0, 2].as_slice());
    assert!(!stream.is_full());
}

#[test]
fn test_sstream_write() {
    let mut stream = Sstream::new(vec![0; 4]);
    stream.write(&[1, 2]).unwrap();
    assert!(matches!(stream.write(&[3, 4, 5]), Err(Error::EndOfStream { req: 3, rem: 2 })));
    stream.write(&[3, 4]).unwrap();
    assert!(stream.is_full());
    assert_eq!(stream.len(), 4);
    let (buf, len) = stream.into_parts();
    assert_eq!(buf, vec![1, 2, 3, 4]);
    assert_eq!(len, 4);
}

#[test]
fn test_deserialise_values() {
    let data = [0x00, 0x00, 0x00, 0x2A, 0x01, 0x00, 0x00, 0x01, 0x90, 0xFF];
    let mut d = Dstream::new(&data);
    assert_eq!(u32::deserialise(&mut d).unwrap(), 42);
    assert!(bool::deserialise(&mut d).unwrap());
    assert_eq!(char::deserialise(&mut d).unwrap(), '\u{0190}');
    assert_eq!(i8::deserialise(&mut d).unwrap(), -1);
    assert!(d.is_full());
    assert_eq!(d.len(), 10);
    assert_eq!(d.as_slice(), data.as_slice());

    let data = [0x02];
    let mut d = Dstream::new(&data);
    assert!(matches!(bool::deserialise(&mut d), Err(Error::InvalidBoolean(2))));

    let data = [0x00, 0x11, 0x00, 0x00];
    let mut d = Dstream::new(&data);
    assert!(matches!(char::deserialise(&mut d), Err(Error::InvalidCodePoint { value: 0x110000 })));

    let data = [0x01, 0x00, 0x05];
    let mut d = Dstream::new(&data);
    assert_eq!(Result::<u8, u16>::deserialise(&mut d).unwrap(), Err(5));

    let data = [0x01, 0x07, 0x00];
    let mut d = Dstream::new(&data);
    assert_eq!(<[Option<u8>; 2]>::deserialise(&mut d).unwrap(), [Some(7), None]);
}

#[test]
fn test_dstream_read() {
    let data = [1, 2, 3];
    let mut d = Dstream::new(&data);
    assert!(!d.is_empty());
    assert_eq!(d.read(2).unwrap(), [1, 2].as_slice());
    assert!(d.is_empty());
    assert!(matches!(d.read(2), Err(Error::EndOfStream { req: 2, rem: 1 })));
    assert_eq!(d.read(1).unwrap(), [3].as_slice());
    assert!(d.is_full());
}

#[test]
fn test_serialise_roundtrip() {
    let value: [Option<i64>; 3] = [Some(-5), None, Some(i64::MAX)];
    let bytes = serialised(&value);
    let mut d = Dstream::new(&bytes);
    assert_eq!(<[Option<i64>; 3]>::deserialise(&mut d).unwrap(), value);
    assert!(d.is_full());
}

#[test]
fn test_stream_equality() {
    let mut stream = Sstream::new(vec![0; 4]);
    stream.write(&[7, 8]).unwrap();
    assert!(stream == [7u8, 8].as_slice());
    assert!(stream != [7u8].as_slice());

    let data = [1u8, 2, 3];
    let mut d = Dstream::from(data.as_slice());
    assert!(d == [].as_slice());
    d.read(2).unwrap();
    assert!(d == [1u8, 2].as_slice());
}

#[test]
fn test_stream_is_empty_follows_its_doc() {
    let mut stream = Sstream::new(vec![0; 2]);
    assert!(!stream.is_empty());
    stream.write(&[1]).unwrap();
    assert!(stream.is_empty());
}
