use bzipper::Buf;
use bzipper::error::DecodeError;

#[test]
fn test_buf_write_read() {
    let mut buf = Buf::<char>::new();

    buf.write('\u{1F44D}').unwrap();
    assert_eq!(buf, [0x00, 0x01, 0xF4, 0x4D].as_slice());

    buf.copy_from_slice(&[0x00, 0x00, 0xD8, 0x00]);
    match buf.read() {
        Err(DecodeError::InvalidCodePoint(0xD800)) => {}
        value => panic!("value `{value:?}` does not match pattern `{}`", "Err(DecodeError::InvalidCodePoint(0xD800))"),
    }

    buf.copy_from_slice(&[0x00, 0x00, 0xFF, 0x3A]);
    match buf.read() {
        Ok('\u{FF3A}') => {}
        value => panic!("value `{value:?}` does not match pattern `{}`", "Ok('\\u{FF3A}')"),
    }
}

#[test]
fn test_buf_read_uses_only_the_used_part() {
    let mut a = Buf::<u8>::with_capacity(2);
    let mut b = Buf::<u8>::with_capacity(2);
    a.copy_from_slice(&[5, 1]);
    b.copy_from_slice(&[5, 2]);
    a.set_len(1);
    b.set_len(1);
    assert_eq!(a.read().unwrap(), b.read().unwrap());

    let mut c = Buf::<u16>::with_capacity(4);
    c.copy_from_slice(&[0, 0, 0, 0]);
    c.set_len(1);
    assert!(c.len() <= c.capacity());
}

#[test]
fn test_buf_as_mut_slice() {
    let mut buf = Buf::<u16>::new();
    buf.as_mut_slice().copy_from_slice(&[0x01, 0x02]);
    assert_eq!(buf.len(), 0);
    buf.set_len(2);
    assert_eq!(buf.read().unwrap(), 0x0102);
}
