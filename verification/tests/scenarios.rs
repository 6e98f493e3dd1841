use opal_unlock::atom::{encode_tokens, Token};
use opal_unlock::device::{FlowStep, SecureDevice};
use opal_unlock::frame::{encode_com_packet, parse_com_packet, FrameMeta};
use opal_unlock::orchestrator::{
    begin_device, orchestrate_step, DevicePhase, Disposition, OrchAction, OrchEvent,
    UnlockConfig,
};
use opal_unlock::session::{LockingState, Session, SessionError, SessionState};
use opal_unlock::uid::{authority, global_range, sp, AuthorityName, SpName};

const COM_ID: u16 = 0x7FE;

fn response(results: Vec<Token>, status: u64) -> Vec<u8> {
    let mut toks = vec![Token::StartList];
    for t in results {
        toks.push(t);
    }
    toks.push(Token::EndList);
    toks.push(Token::EndOfData);
    toks.push(Token::StartList);
    toks.push(Token::UInt(status));
    toks.push(Token::UInt(0));
    toks.push(Token::UInt(0));
    toks.push(Token::EndList);
    let payload = encode_tokens(&toks);
    let meta = FrameMeta {
        com_id: COM_ID,
        com_id_ext: 0,
        outstanding: 0,
        min_transfer: 0,
        sp_session: 0x1000,
        host_session: 1,
        seq: 1,
        ack_type: 0,
        ack: 0,
        kind: 0,
    };
    encode_com_packet(&meta, &payload)
}

fn sync_response(spn: u64) -> Vec<u8> {
    response(vec![Token::UInt(1), Token::UInt(spn)], 0)
}

fn locking_response(read_locked: bool, write_locked: bool) -> Vec<u8> {
    response(
        vec![
            Token::StartList,
            Token::StartName,
            Token::UInt(7),
            Token::UInt(if read_locked { 1 } else { 0 }),
            Token::EndName,
            Token::StartName,
            Token::UInt(8),
            Token::UInt(if write_locked { 1 } else { 0 }),
            Token::EndName,
            Token::EndList,
        ],
        0,
    )
}

fn auth_response(accepted: bool) -> Vec<u8> {
    response(vec![Token::UInt(if accepted { 1 } else { 0 })], 0)
}

fn empty_success_response() -> Vec<u8> {
    response(vec![], 0)
}

fn expect_send(step: Result<FlowStep, SessionError>) -> Vec<u8> {
    match step.expect("flow step must succeed") {
        FlowStep::Send(b) => b,
        FlowStep::Done(_) => panic!("expected another request, got an outcome"),
    }
}

fn expect_done(step: Result<FlowStep, SessionError>) -> bool {
    match step.expect("flow step must succeed") {
        FlowStep::Done(b) => b,
        FlowStep::Send(_) => panic!("expected an outcome, got another request"),
    }
}

/// Runs a whole locking-state read against a drive whose range reports the
/// given lock bits.
fn run_is_locked(dev: &mut SecureDevice, read_locked: bool, write_locked: bool) -> bool {
    let req = dev.begin_is_locked().expect("flow must open");
    assert!(req.len() > 56);
    let get_req = expect_send(dev.is_locked_step(&sync_response(0x42)));
    assert!(get_req.len() > 56);
    let end_req = expect_send(dev.is_locked_step(&locking_response(read_locked, write_locked)));
    assert!(end_req.len() > 56);
    expect_done(dev.is_locked_step(&empty_success_response()))
}

/// Runs a whole unlock attempt; `accepted` scripts the drive's answer to
/// the authenticate call.
fn run_unlock(dev: &mut SecureDevice, password: &Vec<u8>, accepted: bool) -> bool {
    dev.begin_unlock().expect("flow must open");
    expect_send(dev.unlock_step(password, &sync_response(0x42)));
    if accepted {
        expect_send(dev.unlock_step(password, &auth_response(true)));
        expect_send(dev.unlock_step(password, &empty_success_response()));
        expect_done(dev.unlock_step(password, &empty_success_response()))
    } else {
        expect_send(dev.unlock_step(password, &auth_response(false)));
        expect_done(dev.unlock_step(password, &empty_success_response()))
    }
}

fn test_device() -> SecureDevice {
    SecureDevice::new(COM_ID, authority(AuthorityName::Admin1), global_range())
}

fn test_config(clear_on_retry: bool) -> UnlockConfig {
    UnlockConfig {
        prompt: String::from("password: "),
        retry_prompt: String::from("bad password, retry: "),
        clear_on_retry,
    }
}

#[test]
fn correct_password_first_try() {
    // The device reports locked; the correct password unlocks it; a
    // subsequent locking-state read reports unlocked.
    let mut dev = test_device();
    assert!(run_is_locked(&mut dev, true, true));
    let password = b"correct horse".to_vec();
    assert!(run_unlock(&mut dev, &password, true));
    assert!(!run_is_locked(&mut dev, false, false));
}

#[test]
fn two_wrong_passwords_then_correct() {
    // Attempts answer rejected, rejected, unlocked; the retry prompt (and
    // the configured screen clear) shows exactly twice, and the loop stops
    // at the first success without another attempt.
    let config = test_config(true);
    let mut dev = test_device();
    let script = [false, false, true];
    let mut attempts = 0usize;
    let mut retry_prompts = 0usize;
    let mut screen_clears = 0usize;
    let mut initial_prompts = 0usize;

    let mut phase = begin_device();
    let locked = run_is_locked(&mut dev, true, false);
    let (p, mut action) = orchestrate_step(phase, OrchEvent::LockStatus { locked }, &config);
    phase = p;
    loop {
        match action {
            OrchAction::PromptPassword { retry, clear_screen } => {
                if retry {
                    retry_prompts += 1;
                } else {
                    initial_prompts += 1;
                }
                if clear_screen {
                    screen_clears += 1;
                }
                let (p, a) = orchestrate_step(phase, OrchEvent::PasswordEntered, &config);
                phase = p;
                action = a;
            },
            OrchAction::RunUnlockAttempt => {
                let accepted = script[attempts];
                attempts += 1;
                let password = b"a try".to_vec();
                let unlocked = run_unlock(&mut dev, &password, accepted);
                let event = if unlocked {
                    OrchEvent::AttemptSucceeded
                } else {
                    OrchEvent::AttemptRejected
                };
                let (p, a) = orchestrate_step(phase, event, &config);
                phase = p;
                action = a;
            },
            OrchAction::ProceedToNextDevice => break,
        }
    }
    assert_eq!(attempts, 3);
    assert_eq!(initial_prompts, 1);
    assert_eq!(retry_prompts, 2);
    assert_eq!(screen_clears, 2);
    assert_eq!(phase, DevicePhase::Settled { disposition: Disposition::Unlocked });
}

#[test]
fn loop_exits_immediately_after_first_success() {
    // One attempt with the right password: the attempt runs exactly once
    // and the very next policy decision leaves the device.
    let config = test_config(false);
    let mut dev = test_device();
    let mut phase = begin_device();
    let locked = run_is_locked(&mut dev, true, true);
    let (p, action) = orchestrate_step(phase, OrchEvent::LockStatus { locked }, &config);
    phase = p;
    assert_eq!(action, OrchAction::PromptPassword { retry: false, clear_screen: false });
    let (p, action) = orchestrate_step(phase, OrchEvent::PasswordEntered, &config);
    phase = p;
    assert_eq!(action, OrchAction::RunUnlockAttempt);
    let password = b"right".to_vec();
    assert!(run_unlock(&mut dev, &password, true));
    let (p, action) = orchestrate_step(phase, OrchEvent::AttemptSucceeded, &config);
    assert_eq!(action, OrchAction::ProceedToNextDevice);
    assert_eq!(p, DevicePhase::Settled { disposition: Disposition::Unlocked });
}

#[test]
fn already_unlocked_device_is_skipped() {
    let config = test_config(false);
    let mut dev = test_device();
    let phase = begin_device();
    let locked = run_is_locked(&mut dev, false, false);
    assert!(!locked);
    let (p, action) = orchestrate_step(phase, OrchEvent::LockStatus { locked }, &config);
    assert_eq!(action, OrchAction::ProceedToNextDevice);
    assert_eq!(p, DevicePhase::Settled { disposition: Disposition::AlreadyUnlocked });
}

#[test]
fn transport_fault_mid_session_abandons_device() {
    // A passthrough failure while the locking-state read is in flight is
    // fatal: the device is abandoned and the policy moves on, without a
    // retry of this device.
    let config = test_config(false);
    let mut dev = test_device();
    let phase = begin_device();
    dev.begin_is_locked().expect("flow must open");
    expect_send(dev.is_locked_step(&sync_response(0x42)));
    // The get-locking-state command never completes: transport fault.
    dev.note_transport_fault();
    assert!(dev.failed);
    let (p, action) = orchestrate_step(phase, OrchEvent::LockCheckFailed, &config);
    assert_eq!(action, OrchAction::ProceedToNextDevice);
    assert_eq!(p, DevicePhase::Settled { disposition: Disposition::Abandoned });
    // The abandoned device refuses every further flow, deterministically.
    assert!(matches!(dev.begin_is_locked(), Err(SessionError::Faulted)));
    assert!(matches!(dev.begin_unlock(), Err(SessionError::Faulted)));
}

#[test]
fn rejected_credential_is_recoverable_not_an_error() {
    let mut dev = test_device();
    let password = b"wrong".to_vec();
    assert!(!run_unlock(&mut dev, &password, false));
    // The device is still usable: a later attempt succeeds.
    assert!(run_unlock(&mut dev, &password, true));
}

#[test]
fn malformed_sync_response_closes_attempt_without_abandoning() {
    let mut dev = test_device();
    dev.begin_is_locked().expect("flow must open");
    let garbage = vec![0u8; 10];
    assert!(dev.is_locked_step(&garbage).is_err());
    assert!(!dev.failed);
    // A fresh flow can be opened afterwards.
    assert!(run_is_locked(&mut dev, true, false));
}

#[test]
fn malformed_in_session_response_abandons_device() {
    let mut dev = test_device();
    dev.begin_is_locked().expect("flow must open");
    expect_send(dev.is_locked_step(&sync_response(0x42)));
    // The locking-state answer arrives mangled: fatal for the device.
    assert!(dev.is_locked_step(&vec![0u8; 60]).is_err());
    assert!(dev.failed);
    assert!(matches!(dev.begin_is_locked(), Err(SessionError::Faulted)));
}

#[test]
fn close_failure_does_not_mask_outcome() {
    // Ending the session is best effort: once the lock bits were read,
    // even a garbled answer to the end-session request leaves the
    // outcome intact.
    let mut dev = test_device();
    dev.begin_is_locked().expect("flow must open");
    expect_send(dev.is_locked_step(&sync_response(0x42)));
    expect_send(dev.is_locked_step(&locking_response(true, false)));
    let garbled = vec![0xFFu8; 3];
    assert!(expect_done(dev.is_locked_step(&garbled)));
    assert!(!dev.failed);
}

#[test]
fn session_sequence_numbers_strictly_increase() {
    let mut s = Session::new(COM_ID, 1);
    let b0 = s.start_session_request(sp(SpName::Locking)).expect("request builds");
    let (m0, _) = parse_com_packet(&b0).expect("own request parses");
    s.accept_start_session(&sync_response(0x42)).expect("sync accepted");
    let b1 = s.get_locking_state_request(global_range()).expect("request builds");
    let (m1, _) = parse_com_packet(&b1).expect("own request parses");
    let b2 = s.set_locking_state_request(global_range(), false, false).expect("request builds");
    let (m2, _) = parse_com_packet(&b2).expect("own request parses");
    let b3 = s.end_session_request().expect("request builds");
    let (m3, _) = parse_com_packet(&b3).expect("own request parses");
    assert_eq!((m0.seq, m1.seq, m2.seq, m3.seq), (0, 1, 2, 3));
    assert!(m0.seq < m1.seq && m1.seq < m2.seq && m2.seq < m3.seq);
}

#[test]
fn session_numbers_appear_in_packet_headers_once_active() {
    let mut s = Session::new(COM_ID, 1);
    let b0 = s.start_session_request(sp(SpName::Locking)).expect("request builds");
    let (m0, _) = parse_com_packet(&b0).expect("parses");
    // Start-up travels with both session numbers zero.
    assert_eq!((m0.sp_session, m0.host_session), (0, 0));
    s.accept_start_session(&sync_response(0x42)).expect("sync accepted");
    let b1 = s.get_locking_state_request(global_range()).expect("request builds");
    let (m1, _) = parse_com_packet(&b1).expect("parses");
    assert_eq!((m1.sp_session, m1.host_session), (0x42, 1));
}

#[test]
fn faulted_session_fails_deterministically() {
    let mut s = Session::new(COM_ID, 1);
    s.start_session_request(sp(SpName::Locking)).expect("request builds");
    s.accept_start_session(&sync_response(0x42)).expect("sync accepted");
    s.note_transport_fault();
    assert_eq!(s.state, SessionState::Faulted);
    for _ in 0..3 {
        assert!(matches!(
            s.get_locking_state_request(global_range()),
            Err(SessionError::Faulted)
        ));
        assert!(matches!(
            s.authenticate_request(authority(AuthorityName::Admin1), &b"pw".to_vec()),
            Err(SessionError::Faulted)
        ));
        assert!(matches!(s.end_session_request(), Err(SessionError::Faulted)));
        assert!(matches!(
            s.accept_locking_state(&locking_response(true, true)),
            Err(SessionError::Faulted)
        ));
    }
}

#[test]
fn flow_steps_refuse_the_wrong_state() {
    let mut dev = test_device();
    // No flow is open: a step has nothing to accept.
    assert!(matches!(
        dev.is_locked_step(&sync_response(0x42)),
        Err(SessionError::WrongState)
    ));
    // A lock flow refuses unlock steps and the other way round.
    dev.begin_is_locked().expect("flow must open");
    assert!(matches!(
        dev.unlock_step(&b"pw".to_vec(), &sync_response(0x42)),
        Err(SessionError::WrongState)
    ));
    assert!(matches!(dev.begin_unlock(), Err(SessionError::WrongState)));
}

#[test]
fn unexpected_status_faults_the_session() {
    let mut s = Session::new(COM_ID, 1);
    s.start_session_request(sp(SpName::Locking)).expect("request builds");
    s.accept_start_session(&sync_response(0x42)).expect("sync accepted");
    s.set_locking_state_request(global_range(), false, false).expect("request builds");
    let odd_status = response(vec![], 5);
    assert_eq!(
        s.accept_set_locking_state(&odd_status),
        Err(SessionError::UnexpectedStatus)
    );
    assert_eq!(s.state, SessionState::Faulted);
}

#[test]
fn unbalanced_result_tokens_are_rejected() {
    let mut s = Session::new(COM_ID, 1);
    s.start_session_request(sp(SpName::Locking)).expect("request builds");
    s.accept_start_session(&sync_response(0x42)).expect("sync accepted");
    s.get_locking_state_request(global_range()).expect("request builds");
    // A result list whose name bracket never closes must not parse, even
    // though every single token is readable.
    let unbalanced = response(vec![Token::StartName, Token::UInt(7)], 0);
    assert!(matches!(
        s.accept_locking_state(&unbalanced),
        Err(SessionError::Protocol(_))
    ));
    assert_eq!(s.state, SessionState::Faulted);
}

#[test]
fn set_locking_state_is_idempotent() {
    let unlocked = LockingState { read_locked: false, write_locked: false };
    assert_eq!(unlocked.apply_set(false, false), unlocked);
    let mixed = LockingState { read_locked: true, write_locked: false };
    assert_eq!(mixed.apply_set(true, false), mixed);
    assert_eq!(mixed.apply_set(false, false), unlocked);
}

#[test]
fn unlocking_an_unlocked_range_succeeds_and_reports_unchanged() {
    // Writing the locking state already in effect is a no-op success: the
    // drive answers the set call with plain success and a later read
    // reports the same (unlocked) state.
    let mut dev = test_device();
    let password = b"pw".to_vec();
    assert!(run_unlock(&mut dev, &password, true));
    assert!(run_unlock(&mut dev, &password, true));
    assert!(!run_is_locked(&mut dev, false, false));
}

#[test]
fn authenticate_status_rejection_is_ok_false() {
    // A drive may also reject with the not-authorized status code.
    let mut s = Session::new(COM_ID, 1);
    s.start_session_request(sp(SpName::Locking)).expect("request builds");
    s.accept_start_session(&sync_response(0x42)).expect("sync accepted");
    s.authenticate_request(authority(AuthorityName::Admin1), &b"pw".to_vec())
        .expect("request builds");
    let rejected = response(vec![], 1);
    assert_eq!(s.accept_authenticate(&rejected), Ok(false));
    assert_eq!(s.state, SessionState::Active);
}
