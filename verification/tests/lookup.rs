use opal_unlock::boot::{console_mode_score, is_boot_partition_guid, is_pe_image,
    resolve_menu_index};
use opal_unlock::transport::{
    is_fatal, poll_step, security_receive_command, security_send_command,
    supports_tcg_protocol, PollDecision, PollStatus, TransportError,
};
use opal_unlock::uid::{
    authority, global_range, method, session_manager, sp, this_sp, AuthorityName, MethodName,
    SpName,
};

#[test]
fn security_provider_identifiers() {
    assert_eq!(sp(SpName::Admin).value, 0x0000_0205_0000_0001);
    assert_eq!(sp(SpName::Locking).value, 0x0000_0205_0000_0002);
}

#[test]
fn method_identifiers() {
    assert_eq!(method(MethodName::StartSession).value, 0xFF02);
    assert_eq!(method(MethodName::SyncSession).value, 0xFF03);
    assert_eq!(method(MethodName::Get).value, 0x0000_0006_0000_0016);
    assert_eq!(method(MethodName::SetValues).value, 0x0000_0006_0000_0017);
    assert_eq!(method(MethodName::Authenticate).value, 0x0000_0006_0000_001C);
}

#[test]
fn authority_and_row_identifiers() {
    assert_eq!(authority(AuthorityName::Sid).value, 0x0000_0009_0000_0006);
    assert_eq!(authority(AuthorityName::Admin1).value, 0x0000_0009_0001_0001);
    assert_eq!(authority(AuthorityName::User1).value, 0x0000_0009_0003_0001);
    assert_eq!(session_manager().value, 0xFF);
    assert_eq!(this_sp().value, 1);
    assert_eq!(global_range().value, 0x0000_0802_0000_0001);
}

#[test]
fn passthrough_command_words() {
    let send = security_send_command(0x7FE, 512);
    assert_eq!(send.opcode, 0x81);
    assert_eq!(send.dword10, 0x0100_0000 | (0x7FE << 8));
    assert_eq!(send.dword11, 512);
    let recv = security_receive_command(0x7FE, 2048);
    assert_eq!(recv.opcode, 0x82);
    assert_eq!(recv.dword10, 0x0100_0000 | (0x7FE << 8));
    assert_eq!(recv.dword11, 2048);
}

#[test]
fn transport_error_classification() {
    assert!(!is_fatal(TransportError::NotReady));
    assert!(is_fatal(TransportError::Controller));
    assert!(is_fatal(TransportError::BufferTooSmall));
}

#[test]
fn bounded_poll_decisions() {
    assert_eq!(poll_step(5, PollStatus::Complete), PollDecision::Ready);
    assert_eq!(
        poll_step(5, PollStatus::Failed),
        PollDecision::Fault(TransportError::Controller)
    );
    assert_eq!(poll_step(5, PollStatus::Pending), PollDecision::Wait { remaining: 4 });
    assert_eq!(
        poll_step(0, PollStatus::Pending),
        PollDecision::Fault(TransportError::NotReady)
    );
}

#[test]
fn protocol_list_capability_check() {
    // Header, two-byte count, then the protocol list.
    let with_tcg = vec![0, 0, 0, 0, 0, 0, 0, 3, 0x00, 0x01, 0x02];
    assert!(supports_tcg_protocol(&with_tcg));
    let without_tcg = vec![0, 0, 0, 0, 0, 0, 0, 2, 0x00, 0x02];
    assert!(!supports_tcg_protocol(&without_tcg));
    let truncated_list = vec![0, 0, 0, 0, 0, 0, 0, 4, 0x00, 0x01];
    assert!(!supports_tcg_protocol(&truncated_list));
    let too_short = vec![0, 0, 0];
    assert!(!supports_tcg_protocol(&too_short));
}

#[test]
fn device_classification_follows_capability() {
    let with_tcg = vec![0, 0, 0, 0, 0, 0, 0, 2, 0x00, 0x01];
    let without_tcg = vec![0, 0, 0, 0, 0, 0, 0, 1, 0x00];
    let secure = opal_unlock::device::classify_device(
        &with_tcg,
        0x7FE,
        authority(AuthorityName::Admin1),
        global_range(),
    );
    match secure {
        opal_unlock::device::DeviceClass::Secure(d) => {
            assert_eq!(d.com_id, 0x7FE);
            assert!(!d.failed);
        },
        opal_unlock::device::DeviceClass::Unsupported => panic!("drive speaks the protocol"),
    }
    let plain = opal_unlock::device::classify_device(
        &without_tcg,
        0x7FE,
        authority(AuthorityName::Admin1),
        global_range(),
    );
    assert!(matches!(plain, opal_unlock::device::DeviceClass::Unsupported));
}

#[test]
fn pe_image_header_check() {
    assert!(is_pe_image(&vec![0x4D, 0x5A]));
    assert!(is_pe_image(&vec![0x4D, 0x5A, 0x90, 0x00]));
    assert!(!is_pe_image(&vec![0x4D]));
    assert!(!is_pe_image(&vec![0x7F, 0x45]));
    assert!(!is_pe_image(&vec![]));
}

#[test]
fn boot_partition_guid_check() {
    let esp = vec![
        0x28, 0x73, 0x2A, 0xC1, 0x1F, 0xF8, 0xD2, 0x11,
        0xBA, 0x4B, 0x00, 0xA0, 0xC9, 0x3E, 0xC9, 0x3B,
    ];
    assert!(is_boot_partition_guid(&esp));
    let mut other = esp.clone();
    other[0] = 0;
    assert!(!is_boot_partition_guid(&other));
    assert!(!is_boot_partition_guid(&vec![0x28, 0x73]));
}

#[test]
fn menu_index_resolution() {
    // Two partition headers, each followed by its loadable entries: the
    // chosen row maps to its position among the selectable rows.
    let rows = vec![false, true, true, false, true];
    assert_eq!(resolve_menu_index(&rows, 1), Some(0));
    assert_eq!(resolve_menu_index(&rows, 2), Some(1));
    assert_eq!(resolve_menu_index(&rows, 4), Some(2));
    // A header row maps to the selectable entry above it.
    assert_eq!(resolve_menu_index(&rows, 3), Some(1));
    // Nothing selectable at or before the first header row.
    assert_eq!(resolve_menu_index(&rows, 0), None);
    // Out of range.
    assert_eq!(resolve_menu_index(&rows, 5), None);
}

#[test]
fn console_mode_scoring() {
    assert_eq!(console_mode_score(64, 200), 0);
    assert_eq!(console_mode_score(25, 80), 12800 - 2000);
    assert_eq!(console_mode_score(100, 200), 20000 - 12800);
    assert_eq!(console_mode_score(0, 0), 12800);
}
