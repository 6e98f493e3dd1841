use opal_unlock::atom::{decode_tokens, encode_tokens, CodecError, Token};

fn round_trip(tokens: Vec<Token>) {
    let bytes = encode_tokens(&tokens);
    let decoded = decode_tokens(&bytes).expect("canonical stream must decode");
    assert_eq!(decoded, tokens);
}

#[test]
fn uint_round_trip_all_forms() {
    round_trip(vec![
        Token::UInt(0),
        Token::UInt(5),
        Token::UInt(63),
        Token::UInt(64),
        Token::UInt(255),
        Token::UInt(256),
        Token::UInt(0xFFFF),
        Token::UInt(0x1_0000),
        Token::UInt(0xDEAD_BEEF),
        Token::UInt(u64::MAX),
    ]);
}

#[test]
fn bytes_round_trip_all_forms() {
    round_trip(vec![
        Token::Bytes(vec![]),
        Token::Bytes(vec![0xAB]),
        Token::Bytes(vec![0; 15]),
        Token::Bytes(vec![1; 16]),
        Token::Bytes(vec![2; 255]),
        Token::Bytes(vec![3; 2047]),
        Token::Bytes(vec![4; 2048]),
    ]);
}

#[test]
fn structural_round_trip() {
    round_trip(vec![
        Token::Call,
        Token::StartList,
        Token::StartName,
        Token::UInt(7),
        Token::UInt(1),
        Token::EndName,
        Token::EndList,
        Token::EndOfData,
        Token::EndOfSession,
    ]);
}

#[test]
fn small_integer_encodes_tiny() {
    // The integer 5 takes exactly one byte: never a short or long atom.
    let bytes = encode_tokens(&vec![Token::UInt(5)]);
    assert_eq!(bytes, vec![5u8]);
}

#[test]
fn boundary_integers_encode_minimal() {
    assert_eq!(encode_tokens(&vec![Token::UInt(63)]), vec![63u8]);
    assert_eq!(encode_tokens(&vec![Token::UInt(64)]), vec![0x81, 64]);
    assert_eq!(encode_tokens(&vec![Token::UInt(256)]), vec![0x82, 1, 0]);
}

#[test]
fn short_bytes_encode_with_one_header_byte() {
    let bytes = encode_tokens(&vec![Token::Bytes(vec![0xAA, 0xBB])]);
    assert_eq!(bytes, vec![0xA2, 0xAA, 0xBB]);
}

#[test]
fn medium_and_long_bytes_headers() {
    let b16 = encode_tokens(&vec![Token::Bytes(vec![7; 16])]);
    assert_eq!(&b16[..2], &[0xD0, 16]);
    assert_eq!(b16.len(), 2 + 16);
    let b2048 = encode_tokens(&vec![Token::Bytes(vec![7; 2048])]);
    assert_eq!(&b2048[..4], &[0xE2, 0x00, 0x08, 0x00]);
    assert_eq!(b2048.len(), 4 + 2048);
}

#[test]
fn padded_integer_decodes_and_reencodes_minimal() {
    // A short atom carrying 5 with a leading zero byte is accepted, and
    // re-encoding the value yields the canonical tiny form.
    let padded = vec![0x82u8, 0x00, 0x05];
    let decoded = decode_tokens(&padded).expect("padded form is readable");
    assert_eq!(decoded, vec![Token::UInt(5)]);
    assert_eq!(encode_tokens(&decoded), vec![5u8]);
}

#[test]
fn oversized_byte_string_form_reencodes_minimal() {
    // Two bytes in a medium atom decode fine and re-encode short.
    let wide = vec![0xD0u8, 0x02, 0xAA, 0xBB];
    let decoded = decode_tokens(&wide).expect("oversized form is readable");
    assert_eq!(decoded, vec![Token::Bytes(vec![0xAA, 0xBB])]);
    assert_eq!(encode_tokens(&decoded), vec![0xA2, 0xAA, 0xBB]);
}

#[test]
fn signed_atoms_are_rejected() {
    assert_eq!(decode_tokens(&vec![0x45u8]), Err(CodecError::UnknownToken));
    assert_eq!(decode_tokens(&vec![0x91u8, 0x05]), Err(CodecError::UnknownToken));
}

#[test]
fn reserved_tags_are_rejected() {
    assert_eq!(decode_tokens(&vec![0xFFu8]), Err(CodecError::UnknownToken));
    assert_eq!(decode_tokens(&vec![0xF4u8]), Err(CodecError::UnknownToken));
    assert_eq!(decode_tokens(&vec![0xC1u8, 0, 0]), Err(CodecError::UnknownToken));
}

#[test]
fn truncated_atoms_are_rejected() {
    assert_eq!(decode_tokens(&vec![0x84u8, 1, 2]), Err(CodecError::Truncated));
    assert_eq!(decode_tokens(&vec![0xA3u8, 1]), Err(CodecError::Truncated));
    assert_eq!(decode_tokens(&vec![0xD0u8]), Err(CodecError::Truncated));
    assert_eq!(decode_tokens(&vec![0xE2u8, 0, 0]), Err(CodecError::Truncated));
}

#[test]
fn over_wide_integer_is_rejected() {
    // Nine data bytes cannot be an integer this library represents.
    let mut wide = vec![0x89u8];
    wide.extend_from_slice(&[1; 9]);
    assert_eq!(decode_tokens(&wide), Err(CodecError::UnknownToken));
}
