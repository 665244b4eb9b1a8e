use bzipper::{Buffer, Error};

#[test]
fn test_buffer() {
    let mut buf = Buffer::<char>::new();

    buf.write(&'\u{1F44D}').unwrap();
    assert_eq!(buf, [0x00, 0x01, 0xF4, 0x4D].as_slice());

    buf.as_mut_slice().copy_from_slice(&[0x00, 0x00, 0xD8, 0x00]);
    assert!(matches!(buf.read(), Err(Error::InvalidCodePoint { value: 0xD800 })));

    buf.as_mut_slice().copy_from_slice(&[0x00, 0x00, 0xFF, 0x3A]);
    assert_eq!(buf.read().unwrap(), '\u{FF3A}');
}

#[test]
fn test_buffer_write_read_roundtrip() {
    let mut buf = Buffer::<Option<i16>>::new();
    assert_eq!(buf.capacity(), 3);
    assert_eq!(buf.len(), 0);
    buf.write(&Some(-2)).unwrap();
    assert_eq!(buf, [0x01, 0xFF, 0xFE].as_slice());
    assert_eq!(buf.read().unwrap(), Some(-2));
    buf.write(&None).unwrap();
    assert_eq!(buf.len(), 1);
    assert_eq!(buf.read().unwrap(), None);
}

#[test]
fn test_buffer_set_len() {
    let mut buf = Buffer::<u32>::with_capacity(8);
    buf.as_mut_slice().copy_from_slice(&[0, 0, 1, 2, 3, 4, 5, 6]);
    buf.set_len(4);
    assert_eq!(buf.as_slice(), [0, 0, 1, 2].as_slice());
    assert_eq!(buf.read().unwrap(), 0x0102);
}

#[test]
fn test_buffer_usize_out_of_range() {
    let mut buf = Buffer::<usize>::new();
    if usize::BITS > 32 {
        let big = (u32::MAX as usize) + 1;
        assert!(matches!(buf.write(&big), Err(Error::UsizeOutOfRange(v)) if v == big));
        assert_eq!(buf.len(), 0);
    }
    buf.write(&7).unwrap();
    assert_eq!(buf, [0, 0, 0, 7].as_slice());
}

#[test]
fn test_buffer_default() {
    let buf = Buffer::<u16>::default();
    assert_eq!(buf.capacity(), 2);
    assert_eq!(buf.len(), 0);
    let b = bzipper::Buf::<u32>::default();
    assert_eq!(b.capacity(), 4);
    assert!(b.is_empty());
}
