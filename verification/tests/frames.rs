use opal_unlock::atom::CodecError;
use opal_unlock::frame::{encode_com_packet, parse_com_packet, FrameMeta};

fn sample_meta() -> FrameMeta {
    FrameMeta {
        com_id: 0x7FE,
        com_id_ext: 0,
        outstanding: 0,
        min_transfer: 0,
        sp_session: 0x1234,
        host_session: 1,
        seq: 9,
        ack_type: 0,
        ack: 0,
        kind: 0,
    }
}

#[test]
fn frame_round_trip() {
    let payload = vec![0xF8u8, 0xA1, 0x42, 0xF9];
    let bytes = encode_com_packet(&sample_meta(), &payload);
    assert_eq!(bytes.len(), 56 + payload.len());
    let (meta, body) = parse_com_packet(&bytes).expect("own frame must parse");
    assert_eq!(meta, sample_meta());
    assert_eq!(body, payload);
}

#[test]
fn frame_length_fields_are_exact() {
    let payload = vec![1u8, 2, 3];
    let bytes = encode_com_packet(&sample_meta(), &payload);
    // The three big-endian length fields count exactly what each header
    // encloses: 36 + 3, 12 + 3 and 3 bytes.
    assert_eq!(&bytes[16..20], &[0, 0, 0, 39]);
    assert_eq!(&bytes[40..44], &[0, 0, 0, 15]);
    assert_eq!(&bytes[52..56], &[0, 0, 0, 3]);
}

#[test]
fn wrong_outer_length_is_rejected() {
    let payload = vec![1u8, 2, 3, 4];
    let mut bytes = encode_com_packet(&sample_meta(), &payload);
    bytes[19] = bytes[19].wrapping_add(1);
    assert_eq!(parse_com_packet(&bytes), Err(CodecError::MalformedHeader));
}

#[test]
fn wrong_middle_length_is_rejected() {
    let payload = vec![1u8, 2, 3, 4];
    let mut bytes = encode_com_packet(&sample_meta(), &payload);
    bytes[43] = bytes[43].wrapping_sub(1);
    assert_eq!(parse_com_packet(&bytes), Err(CodecError::MalformedHeader));
}

#[test]
fn wrong_inner_length_is_rejected() {
    let payload = vec![1u8, 2, 3, 4];
    let mut bytes = encode_com_packet(&sample_meta(), &payload);
    bytes[55] = 0;
    assert_eq!(parse_com_packet(&bytes), Err(CodecError::MalformedHeader));
}

#[test]
fn truncated_frame_is_rejected() {
    let payload = vec![1u8, 2, 3, 4];
    let bytes = encode_com_packet(&sample_meta(), &payload);
    let short = bytes[..55].to_vec();
    assert_eq!(parse_com_packet(&short), Err(CodecError::Truncated));
    let shorter = bytes[..58].to_vec();
    assert_eq!(parse_com_packet(&shorter), Err(CodecError::MalformedHeader));
}

#[test]
fn empty_payload_frame_round_trips() {
    let bytes = encode_com_packet(&sample_meta(), &vec![]);
    assert_eq!(bytes.len(), 56);
    let (meta, body) = parse_com_packet(&bytes).expect("empty frame parses");
    assert_eq!(meta, sample_meta());
    assert!(body.is_empty());
}
