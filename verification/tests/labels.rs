use pure_rng::Label;

#[test]
fn test_encode_unsigned() {
    let r = Label::Unsigned(0x0102030405060708).encode();
    assert_eq!(r, vec![0u8, 0x08, 0x07, 0x06, 0x05, 0x04, 0x03, 0x02, 0x01]);
}

#[test]
fn test_encode_signed() {
    let r = Label::Signed(-1).encode();
    assert_eq!(r, vec![1u8, 0xff, 0xff, 0xff, 0xff, 0xff, 0xff, 0xff, 0xff]);
    let r = Label::Signed(2).encode();
    assert_eq!(r, vec![1u8, 2, 0, 0, 0, 0, 0, 0, 0]);
}

#[test]
fn test_encode_text() {
    let r = Label::Text("ab".to_string()).encode();
    assert_eq!(
        r,
        vec![2u8, 2, 0, 0, 0, 0, 0, 0, 0, 0x61, 0, 0, 0, 0x62, 0, 0, 0],
    );
}

#[test]
fn test_encode_text_unicode() {
    // One character beyond the basic plane: four little-endian code point bytes.
    let r = Label::Text("\u{1F600}".to_string()).encode();
    assert_eq!(r, vec![2u8, 1, 0, 0, 0, 0, 0, 0, 0, 0x00, 0xF6, 0x01, 0x00]);
}

#[test]
fn test_encode_bytes() {
    let r = Label::Bytes(vec![9, 9]).encode();
    assert_eq!(r, vec![3u8, 2, 0, 0, 0, 0, 0, 0, 0, 9, 9]);
}

#[test]
fn test_encode_empty_payloads_differ_by_tag() {
    let t = Label::Text(String::new()).encode();
    let b = Label::Bytes(Vec::new()).encode();
    assert_eq!(t.len(), 9);
    assert_eq!(b.len(), 9);
    assert_ne!(t, b);
}

#[test]
fn test_encode_injective_across_variants() {
    // The same payload bits under different variants encode differently.
    let candidates = vec![
        Label::Unsigned(1).encode(),
        Label::Signed(1).encode(),
        Label::Text("1".to_string()).encode(),
        Label::Bytes(vec![0x31]).encode(),
    ];
    for (i, a) in candidates.iter().enumerate() {
        for (j, b) in candidates.iter().enumerate() {
            if i != j {
                assert_ne!(a, b);
            }
        }
    }
}
