use bzipper::{Encode, OStream, SizedStr};

fn check<T: Encode>(value: &T, data: &[u8]) {
    let buf = vec![0x00; data.len()];
    let mut stream = OStream::new(buf);
    value.encode(&mut stream).unwrap();
    let (buf, len) = stream.into_parts();
    assert_eq!(&buf[..len], data);
}

#[test]
fn test_encode() {
    check::<u8>(&0x00, &[0x00]);
    check::<u8>(&0xFF, &[0xFF]);
    check::<u8>(&0x7F, &[0x7F]);

    check::<u16>(&0x0F_7E, &[0x0F, 0x7E]);

    check::<u32>(&0x00_2F_87_E7, &[0x00, 0x2F, 0x87, 0xE7]);

    check::<u64>(&0xF3_37_CF_8B_DB_03_2B_39, &[0xF3, 0x37, 0xCF, 0x8B, 0xDB, 0x03, 0x2B, 0x39]);

    check::<u128>(&0x45_A0_15_6A_36_77_17_8A_83_2E_3C_2C_84_10_58_1A, &[
        0x45, 0xA0, 0x15, 0x6A, 0x36, 0x77, 0x17, 0x8A,
        0x83, 0x2E, 0x3C, 0x2C, 0x84, 0x10, 0x58, 0x1A,
    ]);

    check::<SizedStr<0x1>>(&SizedStr::try_from("A").unwrap(), &[0x00, 0x01, 0x41]);

    check::<SizedStr<0x24>>(&SizedStr::try_from("l\u{00F8}gma\u{00F0}ur").unwrap(), &[
        0x00, 0x0A, 0x6C, 0xC3, 0xB8, 0x67, 0x6D, 0x61,
        0xC3, 0xB0, 0x75, 0x72,
    ]);

    check::<[char; 0x5]>(&['\u{03B4}', '\u{0190}', '\u{03BB}', '\u{03A4}', '\u{03B1}'], &[
        0x00, 0x00, 0x03, 0xB4, 0x00, 0x00, 0x01, 0x90,
        0x00, 0x00, 0x03, 0xBB, 0x00, 0x00, 0x03, 0xA4,
        0x00, 0x00, 0x03, 0xB1,
    ]);

    check::<Result<u16, char>>(&Ok(0x45_45), &[0x00, 0x45, 0x45]);
    check::<Result<u16, char>>(&Err(char::REPLACEMENT_CHARACTER), &[0x01, 0x00, 0x00, 0xFF, 0xFD]);

    check::<Option<()>>(&None, &[0x00]);
    check::<Option<()>>(&Some(()), &[0x01]);

    check::<Vec<u16>>(&From::from([0x8000, 0x8000, 0x8000]), &[0x00, 0x03, 0x80, 0x00, 0x80, 0x00, 0x80, 0x00]);
}
