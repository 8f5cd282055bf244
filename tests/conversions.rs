use codepage_strings::{Coding, ConvertError};

fn replacements(s: &str) -> usize {
    s.chars().filter(|&c| c == '\u{fffd}').count()
}

#[test]
fn utf16_byte_order() {
    let le = Coding::new(1200).unwrap();
    let be = Coding::new(1201).unwrap();
    assert_eq!(le.encode("ąž").unwrap(), vec![0x05, 0x01, 0x7e, 0x01]);
    assert_eq!(be.encode("ąž").unwrap(), vec![0x01, 0x05, 0x01, 0x7e]);
    assert_eq!(be.decode(&[0x01, 0x05, 0x01, 0x7e]).unwrap(), "ąž");
}

#[test]
fn utf16_surrogate_pairs() {
    let le = Coding::new(1200).unwrap();
    let be = Coding::new(1201).unwrap();
    assert_eq!(le.encode("A😀").unwrap(), vec![0x41, 0x00, 0x3d, 0xd8, 0x00, 0xde]);
    assert_eq!(be.encode("😀").unwrap(), vec![0xd8, 0x3d, 0xde, 0x00]);
    assert_eq!(le.decode(&[0x3d, 0xd8, 0x00, 0xde]).unwrap(), "😀");
    assert_eq!(be.decode_lossy(&[0xd8, 0x3d, 0xde, 0x00]), "😀");
}

#[test]
fn utf16_invalid_input() {
    let le = Coding::new(1200).unwrap();
    let be = Coding::new(1201).unwrap();
    // An odd last byte.
    assert_eq!(le.decode(&[0x41, 0x00, 0x42]), Err(ConvertError::StringDecoding));
    assert_eq!(le.decode_lossy(&[0x41, 0x00, 0x42]), "A\u{fffd}");
    assert_eq!(be.decode_lossy(&[0x00, 0x41, 0x42]), "A\u{fffd}");
    // An unpaired high surrogate, then an odd last byte.
    assert_eq!(le.decode(&[0x3d, 0xd8]), Err(ConvertError::StringDecoding));
    assert_eq!(le.decode_lossy(&[0x3d, 0xd8, 0x41]), "\u{fffd}\u{fffd}");
    // An unpaired low surrogate.
    assert_eq!(be.decode_lossy(&[0xde, 0x00, 0x00, 0x41]), "\u{fffd}A");
}

#[test]
fn empty_input() {
    for cp in [65001u16, 1200, 1201, 1257, 869] {
        let coding = Coding::new(cp).unwrap();
        assert_eq!(coding.encode("").unwrap(), Vec::<u8>::new());
        assert_eq!(coding.decode(&[]).unwrap(), "");
        assert_eq!(coding.decode_lossy(&[]), "");
    }
}

#[test]
fn round_trips() {
    let cases: [(u16, &str); 6] = [
        (65001, "ąž 😀 text"),
        (1200, "ąž 😀 text"),
        (1201, "ąž 😀 text"),
        (869, "αβγ Greek"),
        (437, "√α²±ß²"),
        (1257, "ąčęėįšųūž"),
    ];
    for (cp, text) in cases {
        let coding = Coding::new(cp).unwrap();
        let bytes = coding.encode(text).unwrap();
        assert_eq!(coding.decode(&bytes).unwrap(), text);
        assert_eq!(coding.decode_lossy(&bytes), text);
    }
}

#[test]
fn unencodable_text() {
    assert_eq!(Coding::new(869).unwrap().encode("α中"), Err(ConvertError::StringEncoding));
    assert_eq!(Coding::new(1257).unwrap().encode("中"), Err(ConvertError::StringEncoding));
    assert_eq!(Coding::new(437).unwrap().encode("ž"), Err(ConvertError::StringEncoding));
}

#[test]
fn oem_ascii_and_table_bytes() {
    let coding = Coding::new(437).unwrap();
    assert_eq!(coding.encode("π≈22/7").unwrap(), vec![0xe3, 0xf7, 0x32, 0x32, 0x2f, 0x37]);
    assert_eq!(coding.decode(&[0x31, 0xf6, 0xab, 0x3d, 0x32]).unwrap(), "1÷½=2");
}

#[test]
fn lossy_counts_each_invalid_unit() {
    let oem = Coding::new(869).unwrap();
    let out = oem.decode_lossy(&[147, 65, 147, 147]);
    assert_eq!(out, "\u{fffd}A\u{fffd}\u{fffd}");
    assert_eq!(replacements(&out), 3);
    let utf8 = Coding::new(65001).unwrap();
    assert!(replacements(&utf8.decode_lossy(&[0xff, 0x41, 0xfe])) >= 2);
    let baltic = Coding::new(1257).unwrap();
    assert!(replacements(&baltic.decode_lossy(&[161, 161])) >= 1);
}

#[test]
fn strict_agrees_with_lossy() {
    let inputs: [&[u8]; 4] = [&[65, 66], &[214, 147], &[0xe2, 0x82, 0xac], &[0x3d, 0xd8]];
    for cp in [65001u16, 1200, 1201, 1257, 869] {
        let coding = Coding::new(cp).unwrap();
        for bytes in inputs {
            let lossy = coding.decode_lossy(bytes);
            match coding.decode(bytes) {
                Ok(text) => assert_eq!(text, lossy),
                Err(e) => {
                    assert_eq!(e, ConvertError::StringDecoding);
                    assert!(replacements(&lossy) >= 1);
                }
            }
        }
    }
}
