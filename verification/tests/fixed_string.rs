use bzipper::FixedString;
use bzipper::{Dstream, Deserialise, Error, Serialise, Sstream};
use core::cmp::Ordering;
use core::str::FromStr;

#[test]
fn test_fixed_string() {
    let str0 = FixedString::<0x0C>::try_from("Hello there!").unwrap();
    let str1 = FixedString::<0x12>::try_from("MEIN_GRO\u{1E9E}_GOTT").unwrap();
    let str2 = FixedString::<0x05>::try_from("Hello").unwrap();

    assert_eq!(str0.partial_cmp(&str0), Some(Ordering::Equal));
    assert_eq!(str0.partial_cmp(&str1), Some(Ordering::Less));
    assert_eq!(str0.partial_cmp(&str2), Some(Ordering::Greater));

    assert_eq!(str1.partial_cmp(&str0), Some(Ordering::Greater));
    assert_eq!(str1.partial_cmp(&str1), Some(Ordering::Equal));
    assert_eq!(str1.partial_cmp(&str2), Some(Ordering::Greater));

    assert_eq!(str2.partial_cmp(&str0), Some(Ordering::Less));
    assert_eq!(str2.partial_cmp(&str1), Some(Ordering::Less));
    assert_eq!(str2.partial_cmp(&str2), Some(Ordering::Equal));

    assert_eq!(str0, "Hello there!");
    assert_eq!(str1, "MEIN_GRO\u{1E9E}_GOTT");
    assert_eq!(str2, "Hello");
}

#[test]
fn test_fixed_string_too_long() {
    let r = FixedString::<0x04>::try_from("Hello");
    assert!(matches!(r, Err(Error::ArrayTooShort { req: 5, len: 4 })));
    let r = FixedString::<0x04>::from_str("abcd");
    assert!(r.is_ok());
}

#[test]
fn test_fixed_string_push_pop() {
    let mut s = FixedString::<0x08>::new();
    assert!(s.is_empty());
    assert_eq!(s.capacity(), 8);
    s.push('a');
    s.push('\u{00F8}');
    s.push_str("bc");
    assert_eq!(s, "a\u{00F8}bc");
    assert_eq!(s.len(), 5);
    assert_eq!(s.pop(), Some('c'));
    assert_eq!(s.pop(), Some('b'));
    assert_eq!(s.pop(), Some('\u{00F8}'));
    assert_eq!(s.len(), 1);
    assert_eq!(s.pop(), Some('a'));
    assert_eq!(s.pop(), None);
    assert!(s.is_empty());
    s.push_str("\u{1F44D}\u{1F44D}");
    assert!(s.is_full());
    assert_eq!(s.pop(), Some('\u{1F44D}'));
    assert_eq!(s.as_str(), "\u{1F44D}");
}

#[test]
fn test_fixed_string_raw_parts() {
    let mut s = FixedString::<0x06>::try_from("abc").unwrap();
    s.pop();
    let (buf, len) = s.into_raw_parts();
    assert_eq!(buf, [0x61, 0x62, 0x63, 0x00, 0x00, 0x00]);
    assert_eq!(len, 2);
}

#[test]
fn test_fixed_string_get() {
    let s = FixedString::<0x10>::try_from("l\u{00F8}gn").unwrap();
    assert_eq!(s.get(0..1), Some("l"));
    assert_eq!(s.get(1..3), Some("\u{00F8}"));
    assert_eq!(s.get(1..2), None);
    assert_eq!(s.get(3..9), None);
    assert_eq!(s.get(0..5), Some("l\u{00F8}gn"));
}

#[test]
fn test_fixed_string_chars() {
    let s = FixedString::<0x10>::try_from("a\u{00F8}b").unwrap();
    let cs: Vec<char> = s.chars().collect();
    assert_eq!(cs, vec!['a', '\u{00F8}', 'b']);
    assert_eq!(s.char_indices(), vec![(0, 'a'), (1, '\u{00F8}'), (3, 'b')]);
}

#[test]
fn test_fixed_string_ordering_with_str() {
    let s = FixedString::<0x10>::try_from("abc").unwrap();
    assert_eq!(s.partial_cmp(&"abd"), Some(Ordering::Less));
    assert_eq!(s.partial_cmp(&"ab"), Some(Ordering::Greater));
    assert!(s != "abd");
    let t = FixedString::<0x03>::try_from("abc").unwrap();
    assert!(s == t);
}

#[test]
fn test_fixed_string_serialise() {
    let s = FixedString::<0x08>::try_from("Hi\u{00F8}").unwrap();
    let mut stream = Sstream::new(vec![0; 12]);
    s.serialise(&mut stream).unwrap();
    assert_eq!(stream.as_slice(), [0x00, 0x00, 0x00, 0x04, 0x48, 0x69, 0xC3, 0xB8].as_slice());

    let (buf, len) = stream.into_parts();
    let mut d = Dstream::new(&buf[..len]);
    let t = FixedString::<0x08>::deserialise(&mut d).unwrap();
    assert_eq!(t, "Hi\u{00F8}");
    assert!(d.is_full());
}

#[test]
fn test_fixed_string_deserialise_errors() {
    let data = [0x00, 0x00, 0x00, 0x09, 0x41];
    let mut d = Dstream::new(&data);
    assert!(matches!(FixedString::<0x04>::deserialise(&mut d), Err(Error::ArrayTooShort { req: 9, len: 4 })));

    let mut d = Dstream::new(&data);
    assert!(matches!(FixedString::<0x10>::deserialise(&mut d), Err(Error::EndOfStream { req: 9, rem: 1 })));

    let data = [0x00, 0x00, 0x00, 0x02, 0x41, 0xFF];
    let mut d = Dstream::new(&data);
    match FixedString::<0x10>::deserialise(&mut d) {
        Err(Error::BadString { source }) => {
            assert_eq!(source.value, 0xFF);
            assert_eq!(source.index, 1);
        }
        other => panic!("unexpected {:?}", other),
    }
}

#[test]
fn test_fixed_string_serialise_small_stream() {
    let s = FixedString::<0x08>::try_from("abc").unwrap();
    let mut stream = Sstream::new(vec![0; 5]);
    assert!(matches!(s.serialise(&mut stream), Err(Error::EndOfStream { req: 3, rem: 1 })));
    assert_eq!(stream.len(), 4);
}

#[test]
fn test_fixed_string_conversions() {
    let s = FixedString::<4>::try_from('\u{1F44D}').unwrap();
    assert_eq!(s.len(), 4);
    assert!(matches!(FixedString::<3>::try_from('\u{1F44D}'), Err(Error::ArrayTooShort { req: 4, len: 3 })));
    let t = FixedString::<8>::try_from(String::from("abc")).unwrap();
    assert_eq!(String::from(t), "abc");
    let d = FixedString::<8>::default();
    assert!(d.is_empty());
}

#[test]
fn test_fixed_string_get_needs_boundaries() {
    let s = FixedString::<4>::try_from("\u{00DF}").unwrap();
    assert_eq!(s.get(1..1), None);
    assert_eq!(s.get(0..0), Some(""));
    assert_eq!(s.get(2..2), Some(""));
    assert_eq!(s.get(0..2), Some("\u{00DF}"));
}
