use vstd::prelude::*;

verus! {

/// Timeout, in milliseconds, of every transfer that sets no timing of its own.
pub const USB_TIMEOUT: u32 = 10;

/// The status that the bus stack reports for a transfer that hit its deadline.
pub const LIBUSB_ERROR_TIMEOUT: i32 = -7;

/// One control transfer, ready to be issued.
///
/// Direction lies in bit 7 of `request_type`. When `data` is empty and
/// `length` is not zero, the transfer solicits `length` bytes into a
/// zero-filled scratch buffer whose content is ignored; otherwise `data`
/// holds exactly `length` bytes to send.
#[derive(Debug)]
pub struct ControlRequest {
    pub request_type: u8,
    pub request: u8,
    pub value: u16,
    pub index: u16,
    pub length: u16,
    pub data: Vec<u8>,
    /// In milliseconds, enforced by the bus stack. With 0 the bus stack waits
    /// without a deadline, and the call's outcome reads as timed out
    /// whatever it reports.
    pub timeout: u32,
}

/// The mathematical value of a `ControlRequest`.
pub struct RequestView {
    pub request_type: u8,
    pub request: u8,
    pub value: u16,
    pub index: u16,
    pub length: u16,
    pub data: Seq<u8>,
    pub timeout: u32,
}

impl View for ControlRequest {
    type V = RequestView;

    open spec fn view(&self) -> RequestView {
        RequestView {
            request_type: self.request_type,
            request: self.request,
            value: self.value,
            index: self.index,
            length: self.length,
            data: self.data@,
            timeout: self.timeout,
        }
    }
}

/// A request without a data buffer of its own.
pub open spec fn probe_view(
    request_type: u8,
    request: u8,
    value: u16,
    index: u16,
    length: u16,
    timeout: u32,
) -> RequestView {
    RequestView { request_type, request, value, index, length, data: Seq::empty(), timeout }
}

/// A request that sends `data`.
pub open spec fn data_view(
    request_type: u8,
    request: u8,
    value: u16,
    index: u16,
    data: Seq<u8>,
    timeout: u32,
) -> RequestView {
    RequestView { request_type, request, value, index, length: data.len() as u16, data, timeout }
}

impl RequestView {
    /// `data` is empty or holds exactly `length` bytes.
    pub open spec fn wf(self) -> bool {
        self.data.len() == 0 || self.data.len() == self.length
    }
}

/// Builds a request that carries no bytes of its own.
pub fn control_request_no_data(
    request_type: u8,
    request: u8,
    value: u16,
    index: u16,
    length: u16,
    timeout: u32,
) -> (r: ControlRequest)
    ensures
        r@ == probe_view(request_type, request, value, index, length, timeout),
{
    let r = ControlRequest {
        request_type,
        request,
        value,
        index,
        length,
        data: Vec::new(),
        timeout,
    };
    assert(r@.data =~= Seq::empty());
    r
}

/// Builds a request that sends `data`.
pub fn control_request_with_data(
    request_type: u8,
    request: u8,
    value: u16,
    index: u16,
    data: Vec<u8>,
    timeout: u32,
) -> (r: ControlRequest)
    requires
        data@.len() <= u16::MAX,
    ensures
        r@ == data_view(request_type, request, value, index, data@, timeout),
        r@.wf(),
{
    let length = data.len() as u16;
    ControlRequest { request_type, request, value, index, length, data, timeout }
}

/// What became of one transfer.
#[derive(Clone, Copy, Debug, PartialEq, Eq, Structural)]
pub enum TransferOutcome {
    /// The transfer finished in time, moving this many bytes.
    Completed(u32),
    /// The deadline passed before the transfer finished.
    TimedOut,
    /// The device refused the request; the bus stack's error code.
    Failed(i32),
}

/// How a status of the bus stack reads as an outcome. The bus enforces the
/// deadline: a status of 0 or more is a completion before it, and the bus's
/// timeout status says that it passed first. A transfer sent with timeout 0
/// is one that the bus lets run without a deadline, which the race stages
/// use to mark a pass that cannot be won; it always reads as timed out.
pub open spec fn outcome_of(status: i32, timeout_ms: u32) -> TransferOutcome {
    if timeout_ms == 0 || status == LIBUSB_ERROR_TIMEOUT {
        TransferOutcome::TimedOut
    } else if status >= 0 {
        TransferOutcome::Completed(status as u32)
    } else {
        TransferOutcome::Failed(status)
    }
}

/// Reads a transfer's status as an outcome.
pub fn transfer_outcome(status: i32, timeout_ms: u32) -> (r: TransferOutcome)
    ensures
        r == outcome_of(status, timeout_ms),
        timeout_ms == 0 ==> r == TransferOutcome::TimedOut,
        timeout_ms > 0 ==> (status >= 0 <==> r == TransferOutcome::Completed(status as u32)),
        timeout_ms > 0 ==> (status == LIBUSB_ERROR_TIMEOUT <==> r == TransferOutcome::TimedOut),
        timeout_ms > 0 ==> (status < 0 && status != LIBUSB_ERROR_TIMEOUT <==> r
            == TransferOutcome::Failed(status)),
{
    if timeout_ms == 0 || status == LIBUSB_ERROR_TIMEOUT {
        TransferOutcome::TimedOut
    } else if status >= 0 {
        TransferOutcome::Completed(status as u32)
    } else {
        TransferOutcome::Failed(status)
    }
}

/// True for a transfer that finished in time.
pub fn is_completed(outcome: TransferOutcome) -> (r: bool)
    ensures
        r == (outcome is Completed),
{
    match outcome {
        TransferOutcome::Completed(_) => true,
        _ => false,
    }
}

} // verus!
