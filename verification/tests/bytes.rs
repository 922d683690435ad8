use asm_schema::{ByteString, HexError, NumError};

#[test]
fn bytes_round_trip() {
    let cases: Vec<Vec<u8>> = vec![
        vec![],
        vec![0x00],
        vec![0xff],
        vec![0xde, 0xad],
        vec![0xde, 0xad, 0xbe, 0xef],
        vec![0x01, 0x00, 0x7f, 0x80, 0xfe],
    ];
    for bs in cases {
        let b = ByteString::from_bytes(&bs);
        assert_eq!(b.bytes(), Ok(bs));
    }
}

#[test]
fn from_bytes_renders_two_digits_per_byte() {
    assert_eq!(ByteString::from_bytes(&[]).into_hex(), "");
    assert_eq!(ByteString::from_bytes(&[0x00]).into_hex(), "00");
    assert_eq!(ByteString::from_bytes(&[0x0a]).into_hex(), "0a");
    assert_eq!(ByteString::from_bytes(&[0xde, 0xad]).into_hex(), "dead");
}

#[test]
fn from_hex_decodes_even_lowercase_text() {
    let b = ByteString::from_hex("deadbeef").unwrap();
    assert_eq!(b.bytes(), Ok(vec![0xde, 0xad, 0xbe, 0xef]));
    let b = ByteString::from_hex("00ff").unwrap();
    assert_eq!(b.bytes(), Ok(vec![0x00, 0xff]));
}

#[test]
fn from_hex_normalizes_case() {
    let b = ByteString::from_hex("DEAD").unwrap();
    assert_eq!(b.into_hex(), "dead");
}

#[test]
fn from_hex_reports_first_bad_character() {
    assert_eq!(
        ByteString::from_hex("deadx"),
        Err(HexError::InvalidHexCharacter { c: 'x', index: 4 })
    );
    assert_eq!(
        ByteString::from_hex("zz"),
        Err(HexError::InvalidHexCharacter { c: 'z', index: 0 })
    );
    // The offending character is reported after lowercasing, as the text
    // is normalized before it is scanned.
    assert_eq!(
        ByteString::from_hex("abGd"),
        Err(HexError::InvalidHexCharacter { c: 'g', index: 2 })
    );
    assert_eq!(
        ByteString::from_hex("0x1f"),
        Err(HexError::InvalidHexCharacter { c: 'x', index: 1 })
    );
}

#[test]
fn odd_length_constructs_but_does_not_decode() {
    let b = ByteString::from_hex("abc").unwrap();
    assert_eq!(b.clone().into_hex(), "abc");
    assert_eq!(b.bytes(), Err(HexError::OddLength));
}

#[test]
fn unsigned_round_trips_use_full_width() {
    assert_eq!(ByteString::from_u16(0x00ff).clone().into_hex(), "00ff");
    assert_eq!(ByteString::from_u16(0x00ff).to_u16(), Ok(0x00ff));

    assert_eq!(ByteString::from_u8(0).into_hex(), "00");
    assert_eq!(ByteString::from_u8(255).to_u8(), Ok(255));
    assert_eq!(ByteString::from_u8(7).to_u8(), Ok(7));

    assert_eq!(ByteString::from_u32(0xdeadbeef).clone().into_hex(), "deadbeef");
    assert_eq!(ByteString::from_u32(0xdeadbeef).to_u32(), Ok(0xdeadbeef));

    assert_eq!(
        ByteString::from_u64(u64::MAX).clone().into_hex(),
        "ffffffffffffffff"
    );
    assert_eq!(ByteString::from_u64(u64::MAX).to_u64(), Ok(u64::MAX));
    assert_eq!(ByteString::from_u64(1).clone().into_hex(), "0000000000000001");
    assert_eq!(ByteString::from_u64(1).to_u64(), Ok(1));

    assert_eq!(ByteString::from_usize(4096).to_usize(), Ok(4096));
}

#[test]
fn nonnegative_signed_round_trips() {
    assert_eq!(ByteString::from_i8(5).clone().into_hex(), "05");
    assert_eq!(ByteString::from_i8(5).to_i8(), Ok(5));
    assert_eq!(ByteString::from_i8(i8::MAX).to_i8(), Ok(i8::MAX));
    assert_eq!(ByteString::from_i16(300).to_i16(), Ok(300));
    assert_eq!(ByteString::from_i32(i32::MAX).to_i32(), Ok(i32::MAX));
    assert_eq!(ByteString::from_i64(i64::MAX).to_i64(), Ok(i64::MAX));
    assert_eq!(ByteString::from_isize(12).to_isize(), Ok(12));
}

#[test]
fn negative_values_encode_twos_complement_and_overflow_back() {
    // The bit pattern of a negative value is a magnitude above the signed
    // maximum, so reading it back reports overflow rather than the value.
    let b = ByteString::from_i8(-1);
    assert_eq!(b.clone().into_hex(), "ff");
    assert_eq!(b.to_i8(), Err(NumError::Overflow));
    assert_eq!(ByteString::from_i16(-2).clone().into_hex(), "fffe");
    assert_eq!(ByteString::from_i64(-1).clone().into_hex(), "ffffffffffffffff");
}

#[test]
fn numeric_errors() {
    let empty = ByteString::from_hex("").unwrap();
    assert_eq!(empty.to_u8(), Err(NumError::Empty));
    assert_eq!(empty.to_u64(), Err(NumError::Empty));
    assert_eq!(empty.to_i32(), Err(NumError::Empty));

    let big = ByteString::from_hex("1ff").unwrap();
    assert_eq!(big.to_u8(), Err(NumError::Overflow));
    assert_eq!(big.to_u16(), Ok(0x1ff));

    let huge = ByteString::from_hex("10000000000000000").unwrap();
    assert_eq!(huge.to_u64(), Err(NumError::Overflow));

    let above_signed = ByteString::from_hex("80").unwrap();
    assert_eq!(above_signed.to_i8(), Err(NumError::Overflow));
    assert_eq!(above_signed.to_u8(), Ok(0x80));

    // Leading zeros do not overflow a narrow type.
    let padded = ByteString::from_hex("00ff").unwrap();
    assert_eq!(padded.to_u8(), Ok(0xff));
}

#[test]
fn free_text_prefers_hex_then_encodes_raw_bytes() {
    // "face" is valid hex by coincidence and is read as hex.
    assert_eq!(ByteString::from_text("face").into_hex(), "face");
    assert_eq!(ByteString::from_text("FACE").into_hex(), "face");
    // Anything else is treated as raw bytes to be hex-encoded.
    assert_eq!(ByteString::from_text("hello!").into_hex(), "68656c6c6f21");
    assert_eq!(ByteString::from_text("").into_hex(), "");
}

#[test]
fn byte_strings_compare_by_canonical_text() {
    let a = ByteString::from_hex("DEAD").unwrap();
    let b = ByteString::from_hex("dead").unwrap();
    assert_eq!(a, b);
    let c = ByteString::from_hex("beef").unwrap();
    assert_ne!(a, c);
}

#[test]
fn encoding_matches_reference_hex_codec() {
    let payload: Vec<u8> = vec![0x00, 0x12, 0xab, 0xff, 0x7e];
    let ours = ByteString::from_bytes(&payload);
    assert_eq!(ours.clone().into_hex(), hex::encode(&payload));
    let text = ours.into_hex();
    assert_eq!(hex::decode(&text).unwrap(), payload);
    let back = ByteString::from_hex(&text).unwrap();
    assert_eq!(back.bytes(), Ok(payload));
}
