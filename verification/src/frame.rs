//! ComPacket / Packet / SubPacket framing.
//!
//! A method-call token stream travels inside three nested frames, each with
//! a fixed-size big-endian header.  The ComPacket header (20 bytes) carries
//! the communication identifier and a length; the Packet header (24 bytes)
//! carries the two session numbers, the sequence number, acknowledgement
//! fields and a length; the SubPacket header (12 bytes) carries a kind and
//! a length.  Every declared length is the exact byte count of what the
//! header encloses, and the parser rejects a frame where any of the three
//! does not match.

use vstd::prelude::*;
use vstd::assert_seqs_equal;
use crate::bytes::{
    be_bytes, be_val, pow256, lemma_be_bytes_len, lemma_be_val_bound, lemma_be_val_of_be_bytes,
    lemma_pow256_8, put_be, read_be_u64,
};
use crate::atom::{copy_range, CodecError};

verus! {

/// Every header field of one framed exchange except the three lengths,
/// which are determined by the payload.
#[derive(Debug, Clone, Copy, PartialEq, Eq, Structural)]
pub struct FrameMeta {
    pub com_id: u16,
    pub com_id_ext: u16,
    pub outstanding: u32,
    pub min_transfer: u32,
    pub sp_session: u32,
    pub host_session: u32,
    pub seq: u32,
    pub ack_type: u16,
    pub ack: u32,
    pub kind: u16,
}

/// The bytes of one framed payload: the three headers then the payload.
pub open spec fn spec_com_packet(m: FrameMeta, payload: Seq<u8>) -> Seq<u8> {
    be_bytes(0, 4) + be_bytes(m.com_id as nat, 2) + be_bytes(m.com_id_ext as nat, 2)
        + be_bytes(m.outstanding as nat, 4) + be_bytes(m.min_transfer as nat, 4)
        + be_bytes(36 + payload.len(), 4)
        + be_bytes(m.sp_session as nat, 4) + be_bytes(m.host_session as nat, 4)
        + be_bytes(m.seq as nat, 4) + be_bytes(0, 2) + be_bytes(m.ack_type as nat, 2)
        + be_bytes(m.ack as nat, 4) + be_bytes(12 + payload.len(), 4)
        + be_bytes(0, 6) + be_bytes(m.kind as nat, 2) + be_bytes(payload.len(), 4)
        + payload
}

/// Parses one framed payload; `None` where the stream is shorter than the
/// headers or any declared length differs from the enclosed byte count.
pub open spec fn spec_parse_com_packet(s: Seq<u8>) -> Option<(FrameMeta, Seq<u8>)> {
    if s.len() < 56 {
        None
    } else if be_val(s.subrange(16, 20)) != s.len() - 20
        || be_val(s.subrange(40, 44)) != s.len() - 44
        || be_val(s.subrange(52, 56)) != s.len() - 56 {
        None
    } else {
        Some((FrameMeta {
            com_id: be_val(s.subrange(4, 6)) as u16,
            com_id_ext: be_val(s.subrange(6, 8)) as u16,
            outstanding: be_val(s.subrange(8, 12)) as u32,
            min_transfer: be_val(s.subrange(12, 16)) as u32,
            sp_session: be_val(s.subrange(20, 24)) as u32,
            host_session: be_val(s.subrange(24, 28)) as u32,
            seq: be_val(s.subrange(28, 32)) as u32,
            ack_type: be_val(s.subrange(34, 36)) as u16,
            ack: be_val(s.subrange(36, 40)) as u32,
            kind: be_val(s.subrange(50, 52)) as u16,
        }, s.skip(56)))
    }
}

/// Builds the three frames around `payload`.
pub fn encode_com_packet(m: &FrameMeta, payload: &Vec<u8>) -> (r: Vec<u8>)
    requires
        payload@.len() + 56 <= u32::MAX,
    ensures
        r@ == spec_com_packet(*m, payload@),
{
    let plen = payload.len();
    let mut out: Vec<u8> = Vec::new();
    put_be(&mut out, 0, 4);
    put_be(&mut out, m.com_id as u64, 2);
    put_be(&mut out, m.com_id_ext as u64, 2);
    put_be(&mut out, m.outstanding as u64, 4);
    put_be(&mut out, m.min_transfer as u64, 4);
    put_be(&mut out, 36 + plen as u64, 4);
    put_be(&mut out, m.sp_session as u64, 4);
    put_be(&mut out, m.host_session as u64, 4);
    put_be(&mut out, m.seq as u64, 4);
    put_be(&mut out, 0, 2);
    put_be(&mut out, m.ack_type as u64, 2);
    put_be(&mut out, m.ack as u64, 4);
    put_be(&mut out, 12 + plen as u64, 4);
    put_be(&mut out, 0, 6);
    put_be(&mut out, m.kind as u64, 2);
    put_be(&mut out, plen as u64, 4);
    let mut body = copy_range(payload, 0, plen);
    out.append(&mut body);
    proof {
        assert_seqs_equal!(payload@.subrange(0, plen as int) == payload@);
        assert_seqs_equal!(out@ == spec_com_packet(*m, payload@));
    }
    out
}

/// Undoes `encode_com_packet`, enforcing the three length fields.
pub fn parse_com_packet(bytes: &Vec<u8>) -> (r: Result<(FrameMeta, Vec<u8>), CodecError>)
    ensures
        match r {
            Ok((m, p)) => spec_parse_com_packet(bytes@) == Some((m, p@)),
            Err(_) => spec_parse_com_packet(bytes@) is None,
        },
{
    let len = bytes.len();
    if len < 56 {
        return Err(CodecError::Truncated);
    }
    proof {
        lemma_pow256_8();
        lemma_be_val_bound(bytes@.subrange(16, 20));
        lemma_be_val_bound(bytes@.subrange(40, 44));
        lemma_be_val_bound(bytes@.subrange(52, 56));
        lemma_be_val_bound(bytes@.subrange(4, 6));
        lemma_be_val_bound(bytes@.subrange(6, 8));
        lemma_be_val_bound(bytes@.subrange(8, 12));
        lemma_be_val_bound(bytes@.subrange(12, 16));
        lemma_be_val_bound(bytes@.subrange(20, 24));
        lemma_be_val_bound(bytes@.subrange(24, 28));
        lemma_be_val_bound(bytes@.subrange(28, 32));
        lemma_be_val_bound(bytes@.subrange(34, 36));
        lemma_be_val_bound(bytes@.subrange(36, 40));
        lemma_be_val_bound(bytes@.subrange(50, 52));
    }
    let com_len = read_be_u64(bytes, 16, 4);
    let pkt_len = read_be_u64(bytes, 40, 4);
    let sub_len = read_be_u64(bytes, 52, 4);
    if com_len != (len - 20) as u64 || pkt_len != (len - 44) as u64
        || sub_len != (len - 56) as u64 {
        return Err(CodecError::MalformedHeader);
    }
    let m = FrameMeta {
        com_id: read_be_u64(bytes, 4, 2) as u16,
        com_id_ext: read_be_u64(bytes, 6, 2) as u16,
        outstanding: read_be_u64(bytes, 8, 4) as u32,
        min_transfer: read_be_u64(bytes, 12, 4) as u32,
        sp_session: read_be_u64(bytes, 20, 4) as u32,
        host_session: read_be_u64(bytes, 24, 4) as u32,
        seq: read_be_u64(bytes, 28, 4) as u32,
        ack_type: read_be_u64(bytes, 34, 2) as u16,
        ack: read_be_u64(bytes, 36, 4) as u32,
        kind: read_be_u64(bytes, 50, 2) as u16,
    };
    let payload = copy_range(bytes, 56, len - 56);
    proof {
        assert_seqs_equal!(payload@ == bytes@.skip(56));
    }
    Ok((m, payload))
}

/// Frame round trip: parsing what `encode_com_packet` builds returns the
/// same fields and payload — in particular every declared length field
/// equals the byte count it declares.
#[verifier::rlimit(60)]
pub proof fn lemma_frame_round_trip(m: FrameMeta, payload: Seq<u8>)
    requires
        payload.len() + 56 <= u32::MAX,
    ensures
        spec_parse_com_packet(spec_com_packet(m, payload)) == Some((m, payload)),
{
    let s = spec_com_packet(m, payload);
    lemma_pow256_8();
    lemma_be_bytes_len(0, 4);
    lemma_be_bytes_len(m.com_id as nat, 2);
    lemma_be_bytes_len(m.com_id_ext as nat, 2);
    lemma_be_bytes_len(m.outstanding as nat, 4);
    lemma_be_bytes_len(m.min_transfer as nat, 4);
    lemma_be_bytes_len(36 + payload.len(), 4);
    lemma_be_bytes_len(m.sp_session as nat, 4);
    lemma_be_bytes_len(m.host_session as nat, 4);
    lemma_be_bytes_len(m.seq as nat, 4);
    lemma_be_bytes_len(0, 2);
    lemma_be_bytes_len(m.ack_type as nat, 2);
    lemma_be_bytes_len(m.ack as nat, 4);
    lemma_be_bytes_len(12 + payload.len(), 4);
    lemma_be_bytes_len(0, 6);
    lemma_be_bytes_len(m.kind as nat, 2);
    lemma_be_bytes_len(payload.len(), 4);
    assert(s.len() == 56 + payload.len());
    assert_seqs_equal!(s.subrange(4, 6) == be_bytes(m.com_id as nat, 2));
    assert_seqs_equal!(s.subrange(6, 8) == be_bytes(m.com_id_ext as nat, 2));
    assert_seqs_equal!(s.subrange(8, 12) == be_bytes(m.outstanding as nat, 4));
    assert_seqs_equal!(s.subrange(12, 16) == be_bytes(m.min_transfer as nat, 4));
    assert_seqs_equal!(s.subrange(16, 20) == be_bytes(36 + payload.len(), 4));
    assert_seqs_equal!(s.subrange(20, 24) == be_bytes(m.sp_session as nat, 4));
    assert_seqs_equal!(s.subrange(24, 28) == be_bytes(m.host_session as nat, 4));
    assert_seqs_equal!(s.subrange(28, 32) == be_bytes(m.seq as nat, 4));
    assert_seqs_equal!(s.subrange(34, 36) == be_bytes(m.ack_type as nat, 2));
    assert_seqs_equal!(s.subrange(36, 40) == be_bytes(m.ack as nat, 4));
    assert_seqs_equal!(s.subrange(40, 44) == be_bytes(12 + payload.len(), 4));
    assert_seqs_equal!(s.subrange(50, 52) == be_bytes(m.kind as nat, 2));
    assert_seqs_equal!(s.subrange(52, 56) == be_bytes(payload.len(), 4));
    assert_seqs_equal!(s.skip(56) == payload);
    lemma_be_val_of_be_bytes(m.com_id as nat, 2);
    lemma_be_val_of_be_bytes(m.com_id_ext as nat, 2);
    lemma_be_val_of_be_bytes(m.outstanding as nat, 4);
    lemma_be_val_of_be_bytes(m.min_transfer as nat, 4);
    lemma_be_val_of_be_bytes(36 + payload.len(), 4);
    lemma_be_val_of_be_bytes(m.sp_session as nat, 4);
    lemma_be_val_of_be_bytes(m.host_session as nat, 4);
    lemma_be_val_of_be_bytes(m.seq as nat, 4);
    lemma_be_val_of_be_bytes(m.ack_type as nat, 2);
    lemma_be_val_of_be_bytes(m.ack as nat, 4);
    lemma_be_val_of_be_bytes(12 + payload.len(), 4);
    lemma_be_val_of_be_bytes(m.kind as nat, 2);
    lemma_be_val_of_be_bytes(payload.len(), 4);
}

} // verus!
