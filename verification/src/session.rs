//! The Opal session: a stateful handshake and method-invocation layer.
//!
//! A session moves `Closed → Authenticating` when the start-session request
//! is built, `Authenticating → Active` when the drive's sync-session
//! response is accepted, and back to `Closed` on an end-session request or
//! a rejected start-up response.  A transport fault, a malformed in-session
//! response or an exhausted sequence counter moves it to `Faulted`, after
//! which every operation fails deterministically and changes nothing: a
//! desynchronised session must be discarded, never reused.
//!
//! Request builders return the exact bytes to hand to the transport and
//! never perform I/O themselves; response acceptors take the exact bytes
//! the transport received.  Each request consumes one fresh sequence
//! number; the numbers a session issues strictly increase and are never
//! repeated.

use vstd::prelude::*;
use vstd::assert_seqs_equal;
use crate::atom::{
    lemma_encode_tokens_size, spec_encode_tokens, token_size, tokens_view, tokens_wf,
    CodecError, Token, TokenV, encode_tokens,
};
use crate::frame::{spec_com_packet, spec_parse_com_packet, FrameMeta, encode_com_packet};
use crate::method::{
    decode_response, spec_call_tokens, spec_response_tokens, spec_uid_bytes, MethodCall,
    STATUS_NOT_AUTHORIZED, STATUS_SUCCESS, encode_call,
};
use crate::uid::{
    Uid, MethodName, method, session_manager, this_sp, COL_READ_LOCKED, COL_WRITE_LOCKED,
    KEY_END_COLUMN, KEY_START_COLUMN, KEY_VALUES,
};
use crate::bytes::u64_be_bytes;

verus! {

#[derive(Debug, Clone, Copy, PartialEq, Eq, Structural)]
pub enum SessionState {
    Closed,
    Authenticating,
    Active,
    Faulted,
}

#[derive(Debug, Clone, Copy, PartialEq, Eq, Structural)]
pub enum SessionError {
    /// The operation does not apply to the session's current state.
    WrongState,
    /// The session saw a transport fault or a malformed in-session
    /// response; it must be discarded.
    Faulted,
    /// The 32-bit per-session sequence counter is spent; reusing a number
    /// is never allowed, so the session is over.
    SequenceExhausted,
    /// The response bytes could not be interpreted.
    Protocol(CodecError),
    /// The drive answered with a status this operation does not expect.
    UnexpectedStatus,
}

/// The read/write lock bits of one locking range, as the drive reports
/// them.  The drive is authoritative; this value is never cached across
/// exchanges.
#[derive(Debug, Clone, Copy, PartialEq, Eq, Structural)]
pub struct LockingState {
    pub read_locked: bool,
    pub write_locked: bool,
}

impl LockingState {
    /// Whether either lock bit bars access.
    pub fn any_locked(&self) -> (r: bool)
        ensures
            r == (self.read_locked || self.write_locked),
    {
        self.read_locked || self.write_locked
    }

    /// The state after a write of both lock bits: exactly the written bits.
    pub open spec fn spec_apply_set(self, read_locked: bool, write_locked: bool)
        -> LockingState {
        LockingState { read_locked, write_locked }
    }

    /// The state after a write of both lock bits: exactly the written
    /// bits.  Writing the bits already in effect changes nothing — the
    /// write a set-locking-state call asks for is idempotent.
    pub fn apply_set(&self, read_locked: bool, write_locked: bool) -> (r: LockingState)
        ensures
            r == self.spec_apply_set(read_locked, write_locked),
            (read_locked == self.read_locked && write_locked == self.write_locked)
                ==> r == *self,
    {
        LockingState { read_locked, write_locked }
    }
}

/// Law: writing a locking state on top of itself is a no-op — the state
/// reported afterwards equals the state before.
pub proof fn lemma_set_locking_state_idempotent(s: LockingState)
    ensures
        s.spec_apply_set(s.read_locked, s.write_locked) == s,
{
}

pub struct Session {
    pub state: SessionState,
    /// Communication identifier carried in every frame.
    pub com_id: u16,
    /// Host-chosen session number, proposed at start-up.
    pub host_sn: u32,
    /// Drive-assigned session number, learnt from the sync-session
    /// response; zero until then.
    pub sp_sn: u32,
    /// The next sequence number to issue.
    pub next_seq: u32,
    /// Every sequence number issued so far, in order of issue.
    pub issued: Ghost<Seq<u32>>,
}

impl Session {
    /// Issued sequence numbers strictly increase and stay below the next
    /// one to issue, so no number is ever repeated.
    pub open spec fn wf(self) -> bool {
        &&& forall|i: int, j: int|
            0 <= i < j < self.issued@.len() ==> self.issued@[i] < self.issued@[j]
        &&& forall|i: int| 0 <= i < self.issued@.len() ==> self.issued@[i] < self.next_seq
    }

    /// The frame fields of the next request: session-manager exchanges
    /// (before the session is active) travel with both session numbers
    /// zero, in-session exchanges with the negotiated pair.
    pub open spec fn spec_packet_meta(self) -> FrameMeta {
        FrameMeta {
            com_id: self.com_id,
            com_id_ext: 0,
            outstanding: 0,
            min_transfer: 0,
            sp_session: if self.state is Active { self.sp_sn } else { 0 },
            host_session: if self.state is Active { self.host_sn } else { 0 },
            seq: self.next_seq,
            ack_type: 0,
            ack: 0,
            kind: 0,
        }
    }

    /// The exact bytes of a method-call request built in state `self`.
    pub open spec fn spec_request_bytes(self, invoker: Uid, m: Uid, params: Seq<TokenV>)
        -> Seq<u8> {
        spec_com_packet(
            self.spec_packet_meta(),
            spec_encode_tokens(spec_call_tokens(invoker, m, params)),
        )
    }

    pub fn new(com_id: u16, host_sn: u32) -> (s: Session)
        ensures
            s.state is Closed,
            s.com_id == com_id,
            s.host_sn == host_sn,
            s.sp_sn == 0,
            s.next_seq == 0,
            s.issued@ =~= Seq::<u32>::empty(),
            s.wf(),
    {
        Session {
            state: SessionState::Closed,
            com_id,
            host_sn,
            sp_sn: 0,
            next_seq: 0,
            issued: Ghost(Seq::empty()),
        }
    }

    /// A transport fault desynchronises the sequence counters; the session
    /// is unusable from here on.
    pub fn note_transport_fault(&mut self)
        ensures
            *final(self) == (Session { state: SessionState::Faulted, ..*old(self) }),
    {
        self.state = SessionState::Faulted;
    }

    /// Builds one framed method call and spends one sequence number.
    /// Callers have already checked the state; this never changes it.
    fn send_call(&mut self, invoker: Uid, m: Uid, params: Vec<Token>, Ghost(k): Ghost<nat>)
        -> (r: Result<Vec<u8>, SessionError>)
        requires
            old(self).wf(),
            tokens_wf(tokens_view(params@)),
            forall|i: int| 0 <= i < params@.len()
                ==> token_size(#[trigger] tokens_view(params@)[i]) <= k,
            k >= 12,
            k * (params@.len() + 11) + 56 <= u32::MAX,
        ensures
            final(self).wf(),
            final(self).state == old(self).state,
            final(self).com_id == old(self).com_id,
            final(self).host_sn == old(self).host_sn,
            final(self).sp_sn == old(self).sp_sn,
            r is Ok <==> old(self).next_seq < u32::MAX,
            r matches Ok(b) ==> {
                &&& b@ == old(self).spec_request_bytes(invoker, m, tokens_view(params@))
                &&& final(self).next_seq == old(self).next_seq + 1
                &&& final(self).issued@ == old(self).issued@.push(old(self).next_seq)
            },
            r is Err ==> *final(self) == *old(self)
                && r == Err::<Vec<u8>, SessionError>(SessionError::SequenceExhausted),
    {
        if self.next_seq == u32::MAX {
            return Err(SessionError::SequenceExhausted);
        }
        let q = self.next_seq;
        let meta = FrameMeta {
            com_id: self.com_id,
            com_id_ext: 0,
            outstanding: 0,
            min_transfer: 0,
            sp_session: if matches!(self.state, SessionState::Active) { self.sp_sn } else { 0 },
            host_session: if matches!(self.state, SessionState::Active) { self.host_sn } else {
                0
            },
            seq: q,
            ack_type: 0,
            ack: 0,
            kind: 0,
        };
        proof {
            assert(meta == old(self).spec_packet_meta());
        }
        let ghost pv = tokens_view(params@);
        let ghost stream = spec_call_tokens(invoker, m, pv);
        proof {
            assert forall|i: int| 0 <= i < stream.len()
                implies token_size(#[trigger] stream[i]) <= k by {
                crate::bytes::lemma_be_bytes_len(invoker.value as nat, 8);
                crate::bytes::lemma_be_bytes_len(m.value as nat, 8);
                if 4 <= i < 4 + pv.len() {
                    assert(stream[i] == pv[i - 4]);
                }
            }
            lemma_encode_tokens_size(stream, k);
            assert(k * stream.len() == k * (pv.len() + 11)) by (nonlinear_arith)
                requires stream.len() == pv.len() + 11,
            ;
        }
        let payload = encode_call(MethodCall { invoker, method: m, params });
        let bytes = encode_com_packet(&meta, &payload);
        self.next_seq = q + 1;
        proof {
            let is0 = self.issued@;
            self.issued@ = self.issued@.push(q);
            assert forall|i: int, j: int| 0 <= i < j < self.issued@.len()
                implies self.issued@[i] < self.issued@[j] by {
                if j < is0.len() {
                } else {
                    assert(self.issued@[i] == is0[i]);
                }
            }
        }
        Ok(bytes)
    }

    /// Builds the start-session request against `sp_uid`, proposing this
    /// session's host session number and asking for write access.
    pub fn start_session_request(&mut self, sp_uid: Uid) -> (r: Result<Vec<u8>, SessionError>)
        requires
            old(self).wf(),
        ensures
            final(self).wf(),
            final(self).com_id == old(self).com_id,
            final(self).host_sn == old(self).host_sn,
            final(self).sp_sn == old(self).sp_sn,
            r is Ok <==> (old(self).state is Closed && old(self).next_seq < u32::MAX),
            r matches Ok(b) ==> {
                &&& final(self).state is Authenticating
                &&& b@ == old(self).spec_request_bytes(
                    crate::uid::spec_session_manager(),
                    crate::uid::spec_method(MethodName::StartSession),
                    spec_start_session_params(old(self).host_sn, sp_uid),
                )
                &&& final(self).next_seq == old(self).next_seq + 1
                &&& final(self).issued@ == old(self).issued@.push(old(self).next_seq)
            },
            r is Err ==> *final(self) == *old(self),
            r matches Err(e) ==> e == (if old(self).state is Faulted {
                SessionError::Faulted
            } else if !(old(self).state is Closed) {
                SessionError::WrongState
            } else {
                SessionError::SequenceExhausted
            }),
    {
        if matches!(self.state, SessionState::Faulted) {
            return Err(SessionError::Faulted);
        }
        if !matches!(self.state, SessionState::Closed) {
            return Err(SessionError::WrongState);
        }
        let mut params: Vec<Token> = Vec::new();
        params.push(Token::UInt(self.host_sn as u64));
        params.push(Token::Bytes(u64_be_bytes(sp_uid.value, 8)));
        params.push(Token::UInt(1));
        proof {
            assert_seqs_equal!(tokens_view(params@)
                == spec_start_session_params(old(self).host_sn, sp_uid));
            assert(forall|i: int| 0 <= i < params@.len()
                ==> token_size(#[trigger] tokens_view(params@)[i]) <= 12);
        }
        let r = self.send_call(
            session_manager(),
            method(MethodName::StartSession),
            params,
            Ghost(12nat),
        );
        match r {
            Ok(b) => {
                self.state = SessionState::Authenticating;
                Ok(b)
            },
            Err(_) => Err(SessionError::SequenceExhausted),
        }
    }

    /// Accepts the drive's sync-session response: learns the drive-assigned
    /// session number and activates the session.  Any other response ends
    /// the attempt: the session returns to `Closed`.
    pub fn accept_start_session(&mut self, resp: &Vec<u8>) -> (r: Result<(), SessionError>)
        requires
            old(self).wf(),
        ensures
            final(self).wf(),
            final(self).com_id == old(self).com_id,
            final(self).host_sn == old(self).host_sn,
            final(self).next_seq == old(self).next_seq,
            final(self).issued@ == old(self).issued@,
            !(old(self).state is Authenticating) ==> *final(self) == *old(self)
                && r == Err::<(), SessionError>(if old(self).state is Faulted {
                    SessionError::Faulted
                } else {
                    SessionError::WrongState
                }),
            old(self).state is Authenticating ==> match spec_sync_session(
                resp@, old(self).com_id, old(self).host_sn,
            ) {
                Some(spn) => r is Ok && final(self).state is Active
                    && final(self).sp_sn == spn,
                None => r is Err && final(self).state is Closed
                    && final(self).sp_sn == old(self).sp_sn,
            },
    {
        if matches!(self.state, SessionState::Faulted) {
            return Err(SessionError::Faulted);
        }
        if !matches!(self.state, SessionState::Authenticating) {
            return Err(SessionError::WrongState);
        }
        let mr = match decode_response(resp, self.com_id) {
            Ok(mr) => mr,
            Err(e) => {
                self.state = SessionState::Closed;
                return Err(SessionError::Protocol(e));
            },
        };
        if mr.status != STATUS_SUCCESS {
            self.state = SessionState::Closed;
            return Err(SessionError::UnexpectedStatus);
        }
        if mr.results.len() < 2 {
            self.state = SessionState::Closed;
            return Err(SessionError::Protocol(CodecError::UnexpectedTokens));
        }
        proof {
            assert(tokens_view(mr.results@)[0] == mr.results@[0]@);
            assert(tokens_view(mr.results@)[1] == mr.results@[1]@);
        }
        let hsn = match &mr.results[0] {
            Token::UInt(v) => *v,
            _ => {
                self.state = SessionState::Closed;
                return Err(SessionError::Protocol(CodecError::UnexpectedTokens));
            },
        };
        let spn = match &mr.results[1] {
            Token::UInt(v) => *v,
            _ => {
                self.state = SessionState::Closed;
                return Err(SessionError::Protocol(CodecError::UnexpectedTokens));
            },
        };
        if hsn != self.host_sn as u64 || spn > u32::MAX as u64 {
            self.state = SessionState::Closed;
            return Err(SessionError::Protocol(CodecError::UnexpectedTokens));
        }
        self.sp_sn = spn as u32;
        self.state = SessionState::Active;
        Ok(())
    }

    /// Builds an authenticate request: the credential row and the
    /// operator's password as a named byte-string parameter.  The password
    /// is borrowed for this call only and never retained.
    pub fn authenticate_request(&mut self, credential: Uid, password: &Vec<u8>)
        -> (r: Result<Vec<u8>, SessionError>)
        requires
            old(self).wf(),
            password@.len() < 0x100_0000,
        ensures
            final(self).wf(),
            final(self).com_id == old(self).com_id,
            final(self).host_sn == old(self).host_sn,
            final(self).sp_sn == old(self).sp_sn,
            r is Ok <==> (old(self).state is Active && old(self).next_seq < u32::MAX),
            r matches Ok(b) ==> {
                &&& final(self).state is Active
                &&& b@ == old(self).spec_request_bytes(
                    crate::uid::spec_this_sp(),
                    crate::uid::spec_method(MethodName::Authenticate),
                    spec_authenticate_params(credential, password@),
                )
                &&& final(self).next_seq == old(self).next_seq + 1
                &&& final(self).issued@ == old(self).issued@.push(old(self).next_seq)
            },
            r is Err ==> *final(self) == *old(self),
            r matches Err(e) ==> e == (if old(self).state is Faulted {
                SessionError::Faulted
            } else if !(old(self).state is Active) {
                SessionError::WrongState
            } else {
                SessionError::SequenceExhausted
            }),
    {
        if matches!(self.state, SessionState::Faulted) {
            return Err(SessionError::Faulted);
        }
        if !matches!(self.state, SessionState::Active) {
            return Err(SessionError::WrongState);
        }
        let mut params: Vec<Token> = Vec::new();
        params.push(Token::Bytes(u64_be_bytes(credential.value, 8)));
        params.push(Token::StartName);
        params.push(Token::UInt(0));
        params.push(Token::Bytes(crate::atom::copy_range(password, 0, password.len())));
        params.push(Token::EndName);
        proof {
            assert_seqs_equal!(password@.subrange(0, password@.len() as int) == password@);
            assert_seqs_equal!(tokens_view(params@)
                == spec_authenticate_params(credential, password@));
            assert(forall|i: int| 0 <= i < params@.len()
                ==> token_size(#[trigger] tokens_view(params@)[i]) <= 4 + 0x100_0000);
        }
        self.send_call(
            this_sp(),
            method(MethodName::Authenticate),
            params,
            Ghost((4 + 0x100_0000) as nat),
        )
    }

    /// Accepts the drive's answer to an authenticate request.  `Ok(true)`
    /// is success, `Ok(false)` a drive-reported credential rejection
    /// (recoverable: the caller may retry with a new password); a response
    /// of any other shape faults the session.
    pub fn accept_authenticate(&mut self, resp: &Vec<u8>) -> (r: Result<bool, SessionError>)
        requires
            old(self).wf(),
        ensures
            final(self).wf(),
            final(self).com_id == old(self).com_id,
            final(self).host_sn == old(self).host_sn,
            final(self).sp_sn == old(self).sp_sn,
            final(self).next_seq == old(self).next_seq,
            final(self).issued@ == old(self).issued@,
            !(old(self).state is Active) ==> *final(self) == *old(self)
                && r == Err::<bool, SessionError>(if old(self).state is Faulted {
                    SessionError::Faulted
                } else {
                    SessionError::WrongState
                }),
            old(self).state is Active ==> match spec_auth_outcome(resp@, old(self).com_id) {
                Some(b) => r == Ok::<bool, SessionError>(b) && final(self).state is Active,
                None => r is Err && final(self).state is Faulted,
            },
    {
        if matches!(self.state, SessionState::Faulted) {
            return Err(SessionError::Faulted);
        }
        if !matches!(self.state, SessionState::Active) {
            return Err(SessionError::WrongState);
        }
        let mr = match decode_response(resp, self.com_id) {
            Ok(mr) => mr,
            Err(e) => {
                self.state = SessionState::Faulted;
                return Err(SessionError::Protocol(e));
            },
        };
        proof {
            if mr.results@.len() > 0 {
                assert(tokens_view(mr.results@)[0] == mr.results@[0]@);
            }
        }
        if mr.status == STATUS_SUCCESS && mr.results.len() == 1 {
            let v = match &mr.results[0] {
                Token::UInt(v) => Some(*v),
                _ => None,
            };
            match v {
                Some(1) => {
                    return Ok(true);
                },
                Some(0) => {
                    return Ok(false);
                },
                _ => {},
            }
        }
        if mr.status == STATUS_NOT_AUTHORIZED {
            return Ok(false);
        }
        self.state = SessionState::Faulted;
        Err(SessionError::UnexpectedStatus)
    }

    /// Builds a read of the two lock bits of `range`.
    pub fn get_locking_state_request(&mut self, range: Uid)
        -> (r: Result<Vec<u8>, SessionError>)
        requires
            old(self).wf(),
        ensures
            final(self).wf(),
            final(self).com_id == old(self).com_id,
            final(self).host_sn == old(self).host_sn,
            final(self).sp_sn == old(self).sp_sn,
            r is Ok <==> (old(self).state is Active && old(self).next_seq < u32::MAX),
            r matches Ok(b) ==> {
                &&& final(self).state is Active
                &&& b@ == old(self).spec_request_bytes(
                    range,
                    crate::uid::spec_method(MethodName::Get),
                    spec_get_locking_params(),
                )
                &&& final(self).next_seq == old(self).next_seq + 1
                &&& final(self).issued@ == old(self).issued@.push(old(self).next_seq)
            },
            r is Err ==> *final(self) == *old(self),
            r matches Err(e) ==> e == (if old(self).state is Faulted {
                SessionError::Faulted
            } else if !(old(self).state is Active) {
                SessionError::WrongState
            } else {
                SessionError::SequenceExhausted
            }),
    {
        if matches!(self.state, SessionState::Faulted) {
            return Err(SessionError::Faulted);
        }
        if !matches!(self.state, SessionState::Active) {
            return Err(SessionError::WrongState);
        }
        let mut params: Vec<Token> = Vec::new();
        params.push(Token::StartList);
        params.push(Token::StartName);
        params.push(Token::UInt(KEY_START_COLUMN));
        params.push(Token::UInt(COL_READ_LOCKED));
        params.push(Token::EndName);
        params.push(Token::StartName);
        params.push(Token::UInt(KEY_END_COLUMN));
        params.push(Token::UInt(COL_WRITE_LOCKED));
        params.push(Token::EndName);
        params.push(Token::EndList);
        proof {
            assert_seqs_equal!(tokens_view(params@) == spec_get_locking_params());
            assert(forall|i: int| 0 <= i < params@.len()
                ==> token_size(#[trigger] tokens_view(params@)[i]) <= 12);
        }
        self.send_call(range, method(MethodName::Get), params, Ghost(12nat))
    }

    /// Accepts the drive's answer to a locking-state read.
    pub fn accept_locking_state(&mut self, resp: &Vec<u8>)
        -> (r: Result<LockingState, SessionError>)
        requires
            old(self).wf(),
        ensures
            final(self).wf(),
            final(self).com_id == old(self).com_id,
            final(self).host_sn == old(self).host_sn,
            final(self).sp_sn == old(self).sp_sn,
            final(self).next_seq == old(self).next_seq,
            final(self).issued@ == old(self).issued@,
            !(old(self).state is Active) ==> *final(self) == *old(self)
                && r == Err::<LockingState, SessionError>(if old(self).state is Faulted {
                    SessionError::Faulted
                } else {
                    SessionError::WrongState
                }),
            old(self).state is Active ==> match spec_locking_outcome(resp@, old(self).com_id) {
                Some(ls) => r == Ok::<LockingState, SessionError>(ls)
                    && final(self).state is Active,
                None => r is Err && final(self).state is Faulted,
            },
    {
        if matches!(self.state, SessionState::Faulted) {
            return Err(SessionError::Faulted);
        }
        if !matches!(self.state, SessionState::Active) {
            return Err(SessionError::WrongState);
        }
        let mr = match decode_response(resp, self.com_id) {
            Ok(mr) => mr,
            Err(e) => {
                self.state = SessionState::Faulted;
                return Err(SessionError::Protocol(e));
            },
        };
        if mr.status != STATUS_SUCCESS {
            self.state = SessionState::Faulted;
            return Err(SessionError::UnexpectedStatus);
        }
        proof {
            assert(forall|i: int| 0 <= i < mr.results@.len()
                ==> #[trigger] tokens_view(mr.results@)[i] == mr.results@[i]@);
        }
        if mr.results.len() != 10 {
            self.state = SessionState::Faulted;
            return Err(SessionError::Protocol(CodecError::UnexpectedTokens));
        }
        let shape_ok = matches!(&mr.results[0], Token::StartList)
            && matches!(&mr.results[1], Token::StartName)
            && matches!(&mr.results[4], Token::EndName)
            && matches!(&mr.results[5], Token::StartName)
            && matches!(&mr.results[8], Token::EndName)
            && matches!(&mr.results[9], Token::EndList);
        let col_r = match &mr.results[2] {
            Token::UInt(v) => Some(*v),
            _ => None,
        };
        let bit_r = match &mr.results[3] {
            Token::UInt(v) => Some(*v),
            _ => None,
        };
        let col_w = match &mr.results[6] {
            Token::UInt(v) => Some(*v),
            _ => None,
        };
        let bit_w = match &mr.results[7] {
            Token::UInt(v) => Some(*v),
            _ => None,
        };
        match (shape_ok, col_r, bit_r, col_w, bit_w) {
            (true, Some(cr), Some(br), Some(cw), Some(bw)) => {
                if cr == COL_READ_LOCKED && cw == COL_WRITE_LOCKED && br <= 1 && bw <= 1 {
                    Ok(LockingState { read_locked: br == 1, write_locked: bw == 1 })
                } else {
                    self.state = SessionState::Faulted;
                    Err(SessionError::Protocol(CodecError::UnexpectedTokens))
                }
            },
            _ => {
                self.state = SessionState::Faulted;
                Err(SessionError::Protocol(CodecError::UnexpectedTokens))
            },
        }
    }

    /// Builds a write of the two lock bits of `range`.
    pub fn set_locking_state_request(&mut self, range: Uid, read_locked: bool,
        write_locked: bool) -> (r: Result<Vec<u8>, SessionError>)
        requires
            old(self).wf(),
        ensures
            final(self).wf(),
            final(self).com_id == old(self).com_id,
            final(self).host_sn == old(self).host_sn,
            final(self).sp_sn == old(self).sp_sn,
            r is Ok <==> (old(self).state is Active && old(self).next_seq < u32::MAX),
            r matches Ok(b) ==> {
                &&& final(self).state is Active
                &&& b@ == old(self).spec_request_bytes(
                    range,
                    crate::uid::spec_method(MethodName::SetValues),
                    spec_set_locking_params(read_locked, write_locked),
                )
                &&& final(self).next_seq == old(self).next_seq + 1
                &&& final(self).issued@ == old(self).issued@.push(old(self).next_seq)
            },
            r is Err ==> *final(self) == *old(self),
            r matches Err(e) ==> e == (if old(self).state is Faulted {
                SessionError::Faulted
            } else if !(old(self).state is Active) {
                SessionError::WrongState
            } else {
                SessionError::SequenceExhausted
            }),
    {
        if matches!(self.state, SessionState::Faulted) {
            return Err(SessionError::Faulted);
        }
        if !matches!(self.state, SessionState::Active) {
            return Err(SessionError::WrongState);
        }
        let mut params: Vec<Token> = Vec::new();
        params.push(Token::StartName);
        params.push(Token::UInt(KEY_VALUES));
        params.push(Token::StartList);
        params.push(Token::StartName);
        params.push(Token::UInt(COL_READ_LOCKED));
        params.push(Token::UInt(if read_locked { 1 } else { 0 }));
        params.push(Token::EndName);
        params.push(Token::StartName);
        params.push(Token::UInt(COL_WRITE_LOCKED));
        params.push(Token::UInt(if write_locked { 1 } else { 0 }));
        params.push(Token::EndName);
        params.push(Token::EndList);
        params.push(Token::EndName);
        proof {
            assert_seqs_equal!(tokens_view(params@)
                == spec_set_locking_params(read_locked, write_locked));
            assert(forall|i: int| 0 <= i < params@.len()
                ==> token_size(#[trigger] tokens_view(params@)[i]) <= 12);
        }
        self.send_call(range, method(MethodName::SetValues), params, Ghost(12nat))
    }

    /// Accepts the drive's answer to a locking-state write: success with
    /// an empty result list, or a fault.
    pub fn accept_set_locking_state(&mut self, resp: &Vec<u8>)
        -> (r: Result<(), SessionError>)
        requires
            old(self).wf(),
        ensures
            final(self).wf(),
            final(self).com_id == old(self).com_id,
            final(self).host_sn == old(self).host_sn,
            final(self).sp_sn == old(self).sp_sn,
            final(self).next_seq == old(self).next_seq,
            final(self).issued@ == old(self).issued@,
            !(old(self).state is Active) ==> *final(self) == *old(self)
                && r == Err::<(), SessionError>(if old(self).state is Faulted {
                    SessionError::Faulted
                } else {
                    SessionError::WrongState
                }),
            old(self).state is Active ==> {
                &&& spec_set_outcome(resp@, old(self).com_id)
                    ==> r is Ok && final(self).state is Active
                &&& !spec_set_outcome(resp@, old(self).com_id)
                    ==> r is Err && final(self).state is Faulted
            },
    {
        if matches!(self.state, SessionState::Faulted) {
            return Err(SessionError::Faulted);
        }
        if !matches!(self.state, SessionState::Active) {
            return Err(SessionError::WrongState);
        }
        let mr = match decode_response(resp, self.com_id) {
            Ok(mr) => mr,
            Err(e) => {
                self.state = SessionState::Faulted;
                return Err(SessionError::Protocol(e));
            },
        };
        if mr.status == STATUS_SUCCESS && mr.results.len() == 0 {
            Ok(())
        } else {
            self.state = SessionState::Faulted;
            Err(SessionError::UnexpectedStatus)
        }
    }

    /// Builds the end-session token and closes the session.  Ending a
    /// session is best effort: the caller is done with the device either
    /// way, so no response is expected through this session.
    pub fn end_session_request(&mut self) -> (r: Result<Vec<u8>, SessionError>)
        requires
            old(self).wf(),
        ensures
            final(self).wf(),
            final(self).com_id == old(self).com_id,
            final(self).host_sn == old(self).host_sn,
            final(self).sp_sn == old(self).sp_sn,
            r is Ok <==> (old(self).state is Active && old(self).next_seq < u32::MAX),
            r matches Ok(b) ==> {
                &&& final(self).state is Closed
                &&& b@ == spec_com_packet(
                    old(self).spec_packet_meta(),
                    spec_encode_tokens(seq![TokenV::EndOfSession]),
                )
                &&& final(self).next_seq == old(self).next_seq + 1
                &&& final(self).issued@ == old(self).issued@.push(old(self).next_seq)
            },
            r is Err ==> *final(self) == *old(self),
            r matches Err(e) ==> e == (if old(self).state is Faulted {
                SessionError::Faulted
            } else if !(old(self).state is Active) {
                SessionError::WrongState
            } else {
                SessionError::SequenceExhausted
            }),
    {
        if matches!(self.state, SessionState::Faulted) {
            return Err(SessionError::Faulted);
        }
        if !matches!(self.state, SessionState::Active) {
            return Err(SessionError::WrongState);
        }
        if self.next_seq == u32::MAX {
            return Err(SessionError::SequenceExhausted);
        }
        let q = self.next_seq;
        let meta = FrameMeta {
            com_id: self.com_id,
            com_id_ext: 0,
            outstanding: 0,
            min_transfer: 0,
            sp_session: self.sp_sn,
            host_session: self.host_sn,
            seq: q,
            ack_type: 0,
            ack: 0,
            kind: 0,
        };
        proof {
            assert(meta == old(self).spec_packet_meta());
        }
        let mut toks: Vec<Token> = Vec::new();
        toks.push(Token::EndOfSession);
        proof {
            assert_seqs_equal!(tokens_view(toks@) == seq![TokenV::EndOfSession]);
            lemma_encode_tokens_size(tokens_view(toks@), 9);
        }
        let payload = encode_tokens(&toks);
        let bytes = encode_com_packet(&meta, &payload);
        self.next_seq = q + 1;
        self.state = SessionState::Closed;
        proof {
            let is0 = self.issued@;
            self.issued@ = self.issued@.push(q);
            assert forall|i: int, j: int| 0 <= i < j < self.issued@.len()
                implies self.issued@[i] < self.issued@[j] by {
                if j < is0.len() {
                } else {
                    assert(self.issued@[i] == is0[i]);
                }
            }
        }
        Ok(bytes)
    }
}

/// Law: every method-call request a session builds is a frame whose three
/// declared length fields count exactly what they enclose — parsing the
/// request returns the session's own frame fields and the call's canonical
/// token bytes, unchanged.
pub proof fn lemma_request_frames_parse(s: Session, invoker: Uid, m: Uid, params: Seq<TokenV>)
    requires
        spec_encode_tokens(spec_call_tokens(invoker, m, params)).len() + 56 <= u32::MAX,
    ensures
        spec_parse_com_packet(s.spec_request_bytes(invoker, m, params)) == Some((
            s.spec_packet_meta(),
            spec_encode_tokens(spec_call_tokens(invoker, m, params)),
        )),
{
    crate::frame::lemma_frame_round_trip(
        s.spec_packet_meta(),
        spec_encode_tokens(spec_call_tokens(invoker, m, params)),
    );
}

/// Law: the sequence numbers a well-formed session has issued strictly
/// increase in order of issue; in particular no number is issued twice.
pub proof fn lemma_sequence_numbers_monotonic(s: Session)
    requires
        s.wf(),
    ensures
        forall|i: int, j: int| 0 <= i < j < s.issued@.len() ==> s.issued@[i] < s.issued@[j],
        forall|i: int, j: int| 0 <= i < j < s.issued@.len() ==> s.issued@[i] != s.issued@[j],
{
}

/// Parameters of a start-session call: the proposed host session number,
/// the security provider to open, and a request for write access.
pub open spec fn spec_start_session_params(host_sn: u32, sp_uid: Uid) -> Seq<TokenV> {
    seq![
        TokenV::UInt(host_sn as u64),
        TokenV::Bytes(spec_uid_bytes(sp_uid)),
        TokenV::UInt(1),
    ]
}

/// Parameters of an authenticate call: the credential row and the
/// password as the named challenge parameter.
pub open spec fn spec_authenticate_params(credential: Uid, password: Seq<u8>) -> Seq<TokenV> {
    seq![
        TokenV::Bytes(spec_uid_bytes(credential)),
        TokenV::StartName,
        TokenV::UInt(0),
        TokenV::Bytes(password),
        TokenV::EndName,
    ]
}

/// Parameters of a locking-state read: the cell block naming the span
/// from the read-lock column to the write-lock column.
pub open spec fn spec_get_locking_params() -> Seq<TokenV> {
    seq![
        TokenV::StartList,
        TokenV::StartName,
        TokenV::UInt(KEY_START_COLUMN),
        TokenV::UInt(COL_READ_LOCKED),
        TokenV::EndName,
        TokenV::StartName,
        TokenV::UInt(KEY_END_COLUMN),
        TokenV::UInt(COL_WRITE_LOCKED),
        TokenV::EndName,
        TokenV::EndList,
    ]
}

/// Parameters of a locking-state write: the named values list assigning
/// both lock bits.
pub open spec fn spec_set_locking_params(read_locked: bool, write_locked: bool)
    -> Seq<TokenV> {
    seq![
        TokenV::StartName,
        TokenV::UInt(KEY_VALUES),
        TokenV::StartList,
        TokenV::StartName,
        TokenV::UInt(COL_READ_LOCKED),
        TokenV::UInt(if read_locked { 1 } else { 0 }),
        TokenV::EndName,
        TokenV::StartName,
        TokenV::UInt(COL_WRITE_LOCKED),
        TokenV::UInt(if write_locked { 1 } else { 0 }),
        TokenV::EndName,
        TokenV::EndList,
        TokenV::EndName,
    ]
}

/// The drive-assigned session number of a successful sync-session
/// response that echoes `host_sn`.
pub open spec fn spec_sync_session(s: Seq<u8>, com_id: u16, host_sn: u32) -> Option<u32> {
    match spec_response_tokens(s, com_id) {
        None => None,
        Some((results, status)) => if status != STATUS_SUCCESS {
            None
        } else if results.len() < 2 {
            None
        } else if !(results[0] is UInt) || results[0]->UInt_0 != host_sn as u64 {
            None
        } else if !(results[1] is UInt) || results[1]->UInt_0 > u32::MAX as u64 {
            None
        } else {
            Some(results[1]->UInt_0 as u32)
        },
    }
}

/// What an authenticate response means: `Some(true)` success,
/// `Some(false)` a rejected credential, `None` anything else.
pub open spec fn spec_auth_outcome(s: Seq<u8>, com_id: u16) -> Option<bool> {
    match spec_response_tokens(s, com_id) {
        None => None,
        Some((results, status)) => if status == STATUS_SUCCESS && results.len() == 1
            && results[0] is UInt && results[0]->UInt_0 == 1 {
            Some(true)
        } else if status == STATUS_SUCCESS && results.len() == 1 && results[0] is UInt
            && results[0]->UInt_0 == 0 {
            Some(false)
        } else if status == STATUS_NOT_AUTHORIZED {
            Some(false)
        } else {
            None
        },
    }
}

/// The locking state a read response reports: the two named lock-bit
/// columns, each 0 or 1.
pub open spec fn spec_locking_outcome(s: Seq<u8>, com_id: u16) -> Option<LockingState> {
    match spec_response_tokens(s, com_id) {
        None => None,
        Some((results, status)) => if status != STATUS_SUCCESS {
            None
        } else if results.len() == 10 && results[0] is StartList && results[1] is StartName
            && results[2] == TokenV::UInt(COL_READ_LOCKED) && results[3] is UInt
            && results[3]->UInt_0 <= 1 && results[4] is EndName && results[5] is StartName
            && results[6] == TokenV::UInt(COL_WRITE_LOCKED) && results[7] is UInt
            && results[7]->UInt_0 <= 1 && results[8] is EndName && results[9] is EndList {
            Some(LockingState {
                read_locked: results[3]->UInt_0 == 1,
                write_locked: results[7]->UInt_0 == 1,
            })
        } else {
            None
        },
    }
}

/// Whether a locking-state write response reports plain success.
pub open spec fn spec_set_outcome(s: Seq<u8>, com_id: u16) -> bool {
    match spec_response_tokens(s, com_id) {
        None => false,
        Some((results, status)) => status == STATUS_SUCCESS && results.len() == 0,
    }
}

} // verus!
