//! The pure side of the security passthrough transport.
//!
//! The transport moves opaque byte buffers to and from a drive with
//! vendor passthrough commands.  Submitting a command and busy-waiting on
//! firmware completion is I/O and lives outside; what is verified here is
//! the command words themselves, the bounded-poll decision, the error
//! taxonomy, and the capability check over the supported-protocol list a
//! drive reports.

use vstd::prelude::*;
use crate::bytes::{be_val, lemma_pow256_8, lemma_be_val_bound, read_be_u64};

verus! {

/// Why a passthrough command failed.
#[derive(Debug, Clone, Copy, PartialEq, Eq, Structural)]
pub enum TransportError {
    /// The device did not complete in time; the caller may retry.
    NotReady,
    /// The firmware or controller rejected the command; fatal for the
    /// device.
    Controller,
    /// The caller's buffer cannot hold the transfer; a programming error,
    /// fatal.
    BufferTooSmall,
}

/// Whether an error abandons the device (everything but a timeout).
pub fn is_fatal(e: TransportError) -> (r: bool)
    ensures
        r == !(e is NotReady),
{
    !matches!(e, TransportError::NotReady)
}

/// The security protocol identifier of every exchange this library makes.
pub const SECURITY_PROTOCOL_TCG: u8 = 0x01;

/// Passthrough opcode of a security send.
pub const OPCODE_SECURITY_SEND: u8 = 0x81;

/// Passthrough opcode of a security receive.
pub const OPCODE_SECURITY_RECEIVE: u8 = 0x82;

/// One vendor passthrough command: the opcode and the two command words
/// that carry the protocol identifier, the communication identifier and
/// the transfer length.
#[derive(Debug, Clone, Copy, PartialEq, Eq, Structural)]
pub struct PassthroughCommand {
    pub opcode: u8,
    pub dword10: u32,
    pub dword11: u32,
}

/// The first command word: the protocol identifier in the top byte, the
/// communication identifier in the two bytes under it.
pub open spec fn spec_security_dword10(com_id: u16) -> u32 {
    (0x0100_0000 + com_id * 0x100) as u32
}

/// The command that sends `transfer_len` payload bytes to the drive.
pub fn security_send_command(com_id: u16, transfer_len: u32) -> (r: PassthroughCommand)
    ensures
        r.opcode == OPCODE_SECURITY_SEND,
        r.dword10 == spec_security_dword10(com_id),
        r.dword11 == transfer_len,
{
    PassthroughCommand {
        opcode: OPCODE_SECURITY_SEND,
        dword10: 0x0100_0000u32 + com_id as u32 * 0x100,
        dword11: transfer_len,
    }
}

/// The command that receives up to `transfer_len` bytes from the drive.
pub fn security_receive_command(com_id: u16, transfer_len: u32) -> (r: PassthroughCommand)
    ensures
        r.opcode == OPCODE_SECURITY_RECEIVE,
        r.dword10 == spec_security_dword10(com_id),
        r.dword11 == transfer_len,
{
    PassthroughCommand {
        opcode: OPCODE_SECURITY_RECEIVE,
        dword10: 0x0100_0000u32 + com_id as u32 * 0x100,
        dword11: transfer_len,
    }
}

/// What the firmware reports of an in-flight command.
#[derive(Debug, Clone, Copy, PartialEq, Eq, Structural)]
pub enum PollStatus {
    Pending,
    Complete,
    Failed,
}

/// What the busy-wait loop does next.
#[derive(Debug, Clone, Copy, PartialEq, Eq, Structural)]
pub enum PollDecision {
    /// Poll again; the budget left strictly decreases, so the wait is
    /// bounded.
    Wait { remaining: u32 },
    /// The command completed.
    Ready,
    /// Stop with this error: a controller fault, or a timeout once the
    /// budget is spent.
    Fault(TransportError),
}

/// One decision of the bounded busy-wait: completion wins, a failure is a
/// controller fault, and a still-pending command either spends one unit
/// of budget or times out as device-not-ready.
pub fn poll_step(remaining: u32, status: PollStatus) -> (r: PollDecision)
    ensures
        r == match status {
            PollStatus::Complete => PollDecision::Ready,
            PollStatus::Failed => PollDecision::Fault(TransportError::Controller),
            PollStatus::Pending => if remaining > 0 {
                PollDecision::Wait { remaining: (remaining - 1) as u32 }
            } else {
                PollDecision::Fault(TransportError::NotReady)
            },
        },
{
    match status {
        PollStatus::Complete => PollDecision::Ready,
        PollStatus::Failed => PollDecision::Fault(TransportError::Controller),
        PollStatus::Pending => if remaining > 0 {
            PollDecision::Wait { remaining: remaining - 1 }
        } else {
            PollDecision::Fault(TransportError::NotReady)
        },
    }
}

/// Whether a supported-protocol list names the TCG security protocol.
/// The list response is a fixed 8-byte header whose last two bytes give
/// the list length, then the protocol identifiers.
pub open spec fn spec_supports_tcg(s: Seq<u8>) -> bool {
    &&& s.len() >= 8
    &&& 8 + be_val(s.subrange(6, 8)) <= s.len()
    &&& exists|i: int|
        8 <= i < 8 + be_val(s.subrange(6, 8)) && #[trigger] s[i] == SECURITY_PROTOCOL_TCG
}

/// The capability check that makes a block device a secure device: parses
/// a supported-protocol list response and looks for the TCG protocol.
pub fn supports_tcg_protocol(resp: &Vec<u8>) -> (r: bool)
    ensures
        r == spec_supports_tcg(resp@),
{
    let len = resp.len();
    if len < 8 {
        return false;
    }
    proof {
        lemma_pow256_8();
        lemma_be_val_bound(resp@.subrange(6, 8));
    }
    let n = read_be_u64(resp, 6, 2) as usize;
    if len - 8 < n {
        return false;
    }
    let mut i: usize = 8;
    while i < 8 + n
        invariant
            8 <= i <= 8 + n,
            8 + n <= len,
            len == resp@.len(),
            n == be_val(resp@.subrange(6, 8)),
            forall|j: int| 8 <= j < i ==> resp@[j] != SECURITY_PROTOCOL_TCG,
        decreases 8 + n - i,
    {
        if resp[i] == SECURITY_PROTOCOL_TCG {
            return true;
        }
        i = i + 1;
    }
    false
}

} // verus!
