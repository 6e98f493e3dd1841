//! One self-encrypting drive and its two exchanges: "is it locked?" and
//! "attempt to unlock it".
//!
//! Each operation opens a fresh session, runs its method calls in order and
//! ends the session: the device is the unit that guarantees one session at
//! a time.  The device itself performs no I/O; `begin_*` returns the first
//! request to send, and each received response goes through the matching
//! `*_step`, which answers either with the next request to send or with the
//! operation's outcome.  A transport fault reported through
//! `note_transport_fault` abandons the device: every later call fails.
//!
//! Outcomes are tri-state, as the retry policy needs them: `Done(true)` /
//! `Done(false)` from a finished flow, and `Err` for a fatal transport or
//! protocol fault.  A rejected credential is `Done(false)` — recoverable,
//! never an error.

use vstd::prelude::*;
use crate::session::{
    spec_auth_outcome, spec_authenticate_params, spec_get_locking_params,
    spec_locking_outcome, spec_set_locking_params, spec_set_outcome,
    spec_start_session_params, spec_sync_session, Session, SessionError, SessionState,
};
use crate::atom::TokenV;
use crate::frame::spec_com_packet;
use crate::uid::{spec_method, spec_session_manager, spec_sp, spec_this_sp, MethodName, SpName,
    Uid, sp};

verus! {

/// Where a flow stands: which response the device waits for.
#[derive(Debug, Clone, Copy, PartialEq, Eq, Structural)]
pub enum FlowStage {
    Idle,
    LockAwaitSync,
    LockAwaitState,
    LockAwaitEnd { locked: bool },
    UnlockAwaitSync,
    UnlockAwaitAuth,
    UnlockAwaitSet,
    UnlockAwaitEnd { unlocked: bool },
}

/// What a step asks of the caller: send another request, or take the
/// finished flow's answer.
pub enum FlowStep {
    Send(Vec<u8>),
    Done(bool),
}

/// The host session number every flow proposes.  One session is open per
/// device at a time, so the number may be reused from flow to flow.
pub const FLOW_HOST_SN: u32 = 1;

/// One drive: its communication identifier, the credential row that
/// unlocks it, its locking range, and the flow in progress.
pub struct SecureDevice {
    pub com_id: u16,
    pub credential: Uid,
    pub range: Uid,
    pub session: Session,
    pub stage: FlowStage,
    /// Set once a transport fault is reported; the device is abandoned.
    pub failed: bool,
}

/// What device discovery finds behind one block-device handle: a drive
/// that speaks the security protocol, wrapped and ready, or not one.
pub enum DeviceClass {
    Secure(SecureDevice),
    Unsupported,
}

/// Turns a candidate block device into a typed secure device exactly when
/// the supported-protocol list it reported names the TCG protocol.
/// Downstream code then works on this closed pair of cases instead of
/// re-querying the drive.
pub fn classify_device(protocol_list: &Vec<u8>, com_id: u16, credential: Uid, range: Uid)
    -> (r: DeviceClass)
    ensures
        crate::transport::spec_supports_tcg(protocol_list@) ==> (r matches
            DeviceClass::Secure(d) && d.wf() && d.com_id == com_id
            && d.credential == credential && d.range == range && d.stage is Idle
            && !d.failed),
        !crate::transport::spec_supports_tcg(protocol_list@) ==> r is Unsupported,
{
    if crate::transport::supports_tcg_protocol(protocol_list) {
        DeviceClass::Secure(SecureDevice::new(com_id, credential, range))
    } else {
        DeviceClass::Unsupported
    }
}

/// The session a flow starts from.
pub open spec fn spec_fresh_session(com_id: u16) -> Session {
    Session {
        state: SessionState::Closed,
        com_id,
        host_sn: FLOW_HOST_SN,
        sp_sn: 0,
        next_seq: 0,
        issued: Ghost(Seq::empty()),
    }
}

impl SecureDevice {
    /// The session is well formed and agrees with the flow stage, and a
    /// flow in progress has spent at most four sequence numbers.
    pub open spec fn wf(self) -> bool {
        &&& self.session.wf()
        &&& self.session.com_id == self.com_id
        &&& !(self.stage is Idle) ==> self.session.host_sn == FLOW_HOST_SN
        &&& match self.stage {
            FlowStage::Idle => true,
            FlowStage::LockAwaitSync => self.session.state is Authenticating
                && self.session.next_seq == 1,
            FlowStage::LockAwaitState => self.session.state is Active
                && self.session.next_seq == 2,
            FlowStage::LockAwaitEnd { .. } => self.session.state is Closed
                && self.session.next_seq == 3,
            FlowStage::UnlockAwaitSync => self.session.state is Authenticating
                && self.session.next_seq == 1,
            FlowStage::UnlockAwaitAuth => self.session.state is Active
                && self.session.next_seq == 2,
            FlowStage::UnlockAwaitSet => self.session.state is Active
                && self.session.next_seq == 3,
            FlowStage::UnlockAwaitEnd { .. } => self.session.state is Closed
                && self.session.next_seq <= 4,
        }
    }

    pub fn new(com_id: u16, credential: Uid, range: Uid) -> (d: SecureDevice)
        ensures
            d.wf(),
            d.com_id == com_id,
            d.credential == credential,
            d.range == range,
            d.stage is Idle,
            !d.failed,
    {
        SecureDevice {
            com_id,
            credential,
            range,
            session: Session::new(com_id, FLOW_HOST_SN),
            stage: FlowStage::Idle,
            failed: false,
        }
    }

    /// A transport fault abandons the device; the session's counters may
    /// have desynchronised, so neither is used again.
    pub fn note_transport_fault(&mut self)
        requires
            old(self).wf(),
        ensures
            final(self).wf(),
            final(self).failed,
            final(self).stage is Idle,
            final(self).com_id == old(self).com_id,
            final(self).credential == old(self).credential,
            final(self).range == old(self).range,
    {
        self.session.note_transport_fault();
        self.stage = FlowStage::Idle;
        self.failed = true;
    }

    /// Opens the locking-state read flow: returns the start-session
    /// request of a fresh session against the locking security provider.
    pub fn begin_is_locked(&mut self) -> (r: Result<Vec<u8>, SessionError>)
        requires
            old(self).wf(),
        ensures
            final(self).wf(),
            final(self).com_id == old(self).com_id,
            final(self).credential == old(self).credential,
            final(self).range == old(self).range,
            final(self).failed == old(self).failed,
            r is Ok <==> (!old(self).failed && old(self).stage is Idle),
            r matches Ok(b) ==> {
                &&& final(self).stage is LockAwaitSync
                &&& b@ == spec_fresh_session(old(self).com_id).spec_request_bytes(
                    spec_session_manager(),
                    spec_method(MethodName::StartSession),
                    spec_start_session_params(FLOW_HOST_SN, spec_sp(SpName::Locking)),
                )
            },
            r is Err ==> *final(self) == *old(self),
            r matches Err(e) ==> e == (if old(self).failed {
                SessionError::Faulted
            } else {
                SessionError::WrongState
            }),
    {
        if self.failed {
            return Err(SessionError::Faulted);
        }
        if !matches!(self.stage, FlowStage::Idle) {
            return Err(SessionError::WrongState);
        }
        let mut fresh = Session::new(self.com_id, FLOW_HOST_SN);
        let r = fresh.start_session_request(sp(SpName::Locking));
        match r {
            Ok(b) => {
                self.session = fresh;
                self.stage = FlowStage::LockAwaitSync;
                Ok(b)
            },
            Err(_) => {
                // A fresh session has its whole sequence space ahead of it.
                proof {
                    assert(false);
                }
                Err(SessionError::WrongState)
            },
        }
    }

    /// Opens the unlock flow the same way.
    pub fn begin_unlock(&mut self) -> (r: Result<Vec<u8>, SessionError>)
        requires
            old(self).wf(),
        ensures
            final(self).wf(),
            final(self).com_id == old(self).com_id,
            final(self).credential == old(self).credential,
            final(self).range == old(self).range,
            final(self).failed == old(self).failed,
            r is Ok <==> (!old(self).failed && old(self).stage is Idle),
            r matches Ok(b) ==> {
                &&& final(self).stage is UnlockAwaitSync
                &&& b@ == spec_fresh_session(old(self).com_id).spec_request_bytes(
                    spec_session_manager(),
                    spec_method(MethodName::StartSession),
                    spec_start_session_params(FLOW_HOST_SN, spec_sp(SpName::Locking)),
                )
            },
            r is Err ==> *final(self) == *old(self),
            r matches Err(e) ==> e == (if old(self).failed {
                SessionError::Faulted
            } else {
                SessionError::WrongState
            }),
    {
        if self.failed {
            return Err(SessionError::Faulted);
        }
        if !matches!(self.stage, FlowStage::Idle) {
            return Err(SessionError::WrongState);
        }
        let mut fresh = Session::new(self.com_id, FLOW_HOST_SN);
        let r = fresh.start_session_request(sp(SpName::Locking));
        match r {
            Ok(b) => {
                self.session = fresh;
                self.stage = FlowStage::UnlockAwaitSync;
                Ok(b)
            },
            Err(_) => {
                proof {
                    assert(false);
                }
                Err(SessionError::WrongState)
            },
        }
    }

    /// Feeds the locking-state read flow one response.  `Send` asks the
    /// caller to transport the next request; `Done(locked)` reports
    /// whether either lock bit of the range is set.  An error is fatal for
    /// this flow; a malformed in-session response abandons the device.
    pub fn is_locked_step(&mut self, resp: &Vec<u8>) -> (r: Result<FlowStep, SessionError>)
        requires
            old(self).wf(),
        ensures
            final(self).wf(),
            final(self).com_id == old(self).com_id,
            final(self).credential == old(self).credential,
            final(self).range == old(self).range,
            old(self).failed ==> (*final(self) == *old(self)
                && (r matches Err(e) && e == SessionError::Faulted)),
            !old(self).failed ==> match old(self).stage {
                FlowStage::LockAwaitSync => match spec_sync_session(
                    resp@, old(self).com_id, FLOW_HOST_SN,
                ) {
                    Some(spn) => {
                        &&& final(self).stage is LockAwaitState
                        &&& !final(self).failed
                        &&& r matches Ok(FlowStep::Send(b)) && b@ == (Session {
                            state: SessionState::Active,
                            sp_sn: spn,
                            ..old(self).session
                        }).spec_request_bytes(
                            old(self).range,
                            spec_method(MethodName::Get),
                            spec_get_locking_params(),
                        )
                    },
                    None => r is Err && final(self).stage is Idle
                        && final(self).failed == old(self).failed,
                },
                FlowStage::LockAwaitState => match spec_locking_outcome(
                    resp@, old(self).com_id,
                ) {
                    Some(ls) => {
                        &&& final(self).stage == (FlowStage::LockAwaitEnd {
                            locked: ls.read_locked || ls.write_locked,
                        })
                        &&& !final(self).failed
                        &&& r matches Ok(FlowStep::Send(b)) && b@ == spec_com_packet(
                            old(self).session.spec_packet_meta(),
                            crate::atom::spec_encode_tokens(seq![TokenV::EndOfSession]),
                        )
                    },
                    None => r is Err && final(self).stage is Idle && final(self).failed,
                },
                FlowStage::LockAwaitEnd { locked } => {
                    &&& r matches Ok(FlowStep::Done(l)) && l == locked
                    &&& final(self).stage is Idle
                    &&& final(self).failed == old(self).failed
                },
                _ => r matches Err(e) && e == SessionError::WrongState
                    && *final(self) == *old(self),
            },
    {
        if self.failed {
            return Err(SessionError::Faulted);
        }
        match self.stage {
            FlowStage::LockAwaitSync => {
                match self.session.accept_start_session(resp) {
                    Ok(()) => {},
                    Err(e) => {
                        self.stage = FlowStage::Idle;
                        return Err(e);
                    },
                }
                let range = self.range;
                match self.session.get_locking_state_request(range) {
                    Ok(b) => {
                        self.stage = FlowStage::LockAwaitState;
                        Ok(FlowStep::Send(b))
                    },
                    Err(_) => {
                        // Ruled out: the session is active with sequence
                        // numbers to spare.
                        proof {
                            assert(false);
                        }
                        Err(SessionError::WrongState)
                    },
                }
            },
            FlowStage::LockAwaitState => {
                let ls = match self.session.accept_locking_state(resp) {
                    Ok(ls) => ls,
                    Err(e) => {
                        self.stage = FlowStage::Idle;
                        self.failed = true;
                        return Err(e);
                    },
                };
                match self.session.end_session_request() {
                    Ok(b) => {
                        self.stage = FlowStage::LockAwaitEnd {
                            locked: ls.any_locked(),
                        };
                        Ok(FlowStep::Send(b))
                    },
                    Err(_) => {
                        // Ruled out: the session is active with sequence
                        // numbers to spare.
                        proof {
                            assert(false);
                        }
                        Err(SessionError::WrongState)
                    },
                }
            },
            FlowStage::LockAwaitEnd { locked } => {
                // Ending a session is best effort: whatever the drive
                // answered, the outcome was already read.
                self.stage = FlowStage::Idle;
                Ok(FlowStep::Done(locked))
            },
            _ => Err(SessionError::WrongState),
        }
    }

    /// Feeds the unlock flow one response.  `Done(true)` means the range
    /// was unlocked; `Done(false)` a drive-rejected credential, which the
    /// caller may retry with a new password.  The password is borrowed for
    /// the one step that sends it and never retained.
    pub fn unlock_step(&mut self, password: &Vec<u8>, resp: &Vec<u8>)
        -> (r: Result<FlowStep, SessionError>)
        requires
            old(self).wf(),
            password@.len() < 0x100_0000,
        ensures
            final(self).wf(),
            final(self).com_id == old(self).com_id,
            final(self).credential == old(self).credential,
            final(self).range == old(self).range,
            old(self).failed ==> (*final(self) == *old(self)
                && (r matches Err(e) && e == SessionError::Faulted)),
            !old(self).failed ==> match old(self).stage {
                FlowStage::UnlockAwaitSync => match spec_sync_session(
                    resp@, old(self).com_id, FLOW_HOST_SN,
                ) {
                    Some(spn) => {
                        &&& final(self).stage is UnlockAwaitAuth
                        &&& !final(self).failed
                        &&& r matches Ok(FlowStep::Send(b)) && b@ == (Session {
                            state: SessionState::Active,
                            sp_sn: spn,
                            ..old(self).session
                        }).spec_request_bytes(
                            spec_this_sp(),
                            spec_method(MethodName::Authenticate),
                            spec_authenticate_params(old(self).credential, password@),
                        )
                    },
                    None => r is Err && final(self).stage is Idle
                        && final(self).failed == old(self).failed,
                },
                FlowStage::UnlockAwaitAuth => match spec_auth_outcome(
                    resp@, old(self).com_id,
                ) {
                    Some(true) => {
                        &&& final(self).stage is UnlockAwaitSet
                        &&& !final(self).failed
                        &&& r matches Ok(FlowStep::Send(b))
                        &&& r matches Ok(FlowStep::Send(b)) && b@ == old(self).session
                            .spec_request_bytes(
                                old(self).range,
                                spec_method(MethodName::SetValues),
                                spec_set_locking_params(false, false),
                            )
                    },
                    Some(false) => {
                        &&& final(self).stage == (FlowStage::UnlockAwaitEnd {
                            unlocked: false,
                        })
                        &&& !final(self).failed
                        &&& r matches Ok(FlowStep::Send(b)) && b@ == spec_com_packet(
                            old(self).session.spec_packet_meta(),
                            crate::atom::spec_encode_tokens(seq![TokenV::EndOfSession]),
                        )
                    },
                    None => r is Err && final(self).stage is Idle && final(self).failed,
                },
                FlowStage::UnlockAwaitSet => {
                    &&& spec_set_outcome(resp@, old(self).com_id) ==> {
                        &&& final(self).stage == (FlowStage::UnlockAwaitEnd {
                            unlocked: true,
                        })
                        &&& !final(self).failed
                        &&& r matches Ok(FlowStep::Send(b)) && b@ == spec_com_packet(
                            old(self).session.spec_packet_meta(),
                            crate::atom::spec_encode_tokens(seq![TokenV::EndOfSession]),
                        )
                    }
                    &&& !spec_set_outcome(resp@, old(self).com_id)
                        ==> r is Err && final(self).stage is Idle && final(self).failed
                },
                FlowStage::UnlockAwaitEnd { unlocked } => {
                    &&& r matches Ok(FlowStep::Done(u)) && u == unlocked
                    &&& final(self).stage is Idle
                    &&& final(self).failed == old(self).failed
                },
                _ => r matches Err(e) && e == SessionError::WrongState
                    && *final(self) == *old(self),
            },
    {
        if self.failed {
            return Err(SessionError::Faulted);
        }
        match self.stage {
            FlowStage::UnlockAwaitSync => {
                match self.session.accept_start_session(resp) {
                    Ok(()) => {},
                    Err(e) => {
                        self.stage = FlowStage::Idle;
                        return Err(e);
                    },
                }
                let credential = self.credential;
                match self.session.authenticate_request(credential, password) {
                    Ok(b) => {
                        self.stage = FlowStage::UnlockAwaitAuth;
                        Ok(FlowStep::Send(b))
                    },
                    Err(_) => {
                        // Ruled out: the session is active with sequence
                        // numbers to spare.
                        proof {
                            assert(false);
                        }
                        Err(SessionError::WrongState)
                    },
                }
            },
            FlowStage::UnlockAwaitAuth => {
                let authed = match self.session.accept_authenticate(resp) {
                    Ok(b) => b,
                    Err(e) => {
                        self.stage = FlowStage::Idle;
                        self.failed = true;
                        return Err(e);
                    },
                };
                if authed {
                    let range = self.range;
                    match self.session.set_locking_state_request(range, false, false) {
                        Ok(b) => {
                            self.stage = FlowStage::UnlockAwaitSet;
                            Ok(FlowStep::Send(b))
                        },
                        Err(_) => {
                            proof {
                                assert(false);
                            }
                            Err(SessionError::WrongState)
                        },
                    }
                } else {
                    match self.session.end_session_request() {
                        Ok(b) => {
                            self.stage = FlowStage::UnlockAwaitEnd { unlocked: false };
                            Ok(FlowStep::Send(b))
                        },
                        Err(_) => {
                            proof {
                                assert(false);
                            }
                            Err(SessionError::WrongState)
                        },
                    }
                }
            },
            FlowStage::UnlockAwaitSet => {
                match self.session.accept_set_locking_state(resp) {
                    Ok(()) => {},
                    Err(e) => {
                        self.stage = FlowStage::Idle;
                        self.failed = true;
                        return Err(e);
                    },
                }
                match self.session.end_session_request() {
                    Ok(b) => {
                        self.stage = FlowStage::UnlockAwaitEnd { unlocked: true };
                        Ok(FlowStep::Send(b))
                    },
                    Err(_) => {
                        // Ruled out: the session is active with sequence
                        // numbers to spare.
                        proof {
                            assert(false);
                        }
                        Err(SessionError::WrongState)
                    },
                }
            },
            FlowStage::UnlockAwaitEnd { unlocked } => {
                self.stage = FlowStage::Idle;
                Ok(FlowStep::Done(unlocked))
            },
            _ => Err(SessionError::WrongState),
        }
    }
}

} // verus!
