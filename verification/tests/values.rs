use bzipper::values::{Enum, Named, Unit, Unnamed};
use bzipper::{Decode, DecodeError, Encode, IStream, OStream, SizedEncode};

fn encoded<T: Encode + SizedEncode>(value: &T) -> Vec<u8> {
    let mut stream = OStream::new(vec![0; T::MAX_ENCODED_SIZE]);
    value.encode(&mut stream).unwrap();
    let (mut buf, len) = stream.into_parts();
    buf.truncate(len);
    buf
}

#[test]
fn test_unnamed_from_char() {
    assert_eq!(Unnamed::from_char('A').0, 0x41);
    assert_eq!(Unnamed::from_char('\u{1F44D}').0, 0x1F44D);
}

#[test]
fn test_named_from_u64() {
    let n = Named::from_u64(0x0102_0304_0506_0708);
    let v: u64 = 0x0102_0304_0506_0708;
    let expected: Vec<u8> = (0..8u64)
        .map(|i| ((v & (0xFF << (8 * i))) >> (2 * i)) as u8)
        .collect();
    assert_eq!(n.buf.to_vec(), expected);
    assert_eq!(Named::from_u64(0xFF).buf, [0xFF, 0, 0, 0, 0, 0, 0, 0]);
    assert_eq!(Named::from_u64(0xFF00).buf, [0x00, 0xC0, 0, 0, 0, 0, 0, 0]);
}

#[test]
fn test_sizes() {
    assert_eq!(Unit::MAX_ENCODED_SIZE, 0);
    assert_eq!(Unnamed::MAX_ENCODED_SIZE, 4);
    assert_eq!(Named::MAX_ENCODED_SIZE, 8);
    assert_eq!(Enum::MAX_ENCODED_SIZE, 10);
}

#[test]
fn test_encode_values() {
    assert_eq!(encoded(&Unit), Vec::<u8>::new());
    assert_eq!(encoded(&Unnamed(0x0102_0304)), vec![1, 2, 3, 4]);
    assert_eq!(encoded(&Named { buf: [1, 2, 3, 4, 5, 6, 7, 8] }), vec![1, 2, 3, 4, 5, 6, 7, 8]);
    assert_eq!(encoded(&Enum::Unit(Unit)), vec![0, 0]);
    assert_eq!(encoded(&Enum::Unnamed(Unnamed(7))), vec![0, 1, 0, 0, 0, 7]);
    assert_eq!(encoded(&Enum::Named(Named { buf: [9; 8] })), vec![0, 2, 9, 9, 9, 9, 9, 9, 9, 9]);
}

#[test]
fn test_decode_values() {
    let data = [0, 1, 0, 0, 0, 7];
    let mut stream = IStream::new(&data);
    match Enum::decode(&mut stream) {
        Ok(Enum::Unnamed(Unnamed(7))) => {}
        other => panic!("unexpected {:?}", other),
    }
    assert_eq!(stream.close(), 6);

    let data = [0, 2, 9, 8, 7, 6, 5, 4, 3, 2];
    let mut stream = IStream::new(&data);
    match Enum::decode(&mut stream) {
        Ok(Enum::Named(n)) => assert_eq!(n.buf, [9, 8, 7, 6, 5, 4, 3, 2]),
        other => panic!("unexpected {:?}", other),
    }

    let data = [0, 3];
    let mut stream = IStream::new(&data);
    assert!(matches!(Enum::decode(&mut stream), Err(DecodeError::InvalidDiscriminant(3))));

    let data = [0xFF, 0xFF];
    let mut stream = IStream::new(&data);
    assert!(matches!(Enum::decode(&mut stream), Err(DecodeError::InvalidDiscriminant(-1))));
}
