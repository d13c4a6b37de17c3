//! Boot-mode detection and the control-transfer plan of a bootrom
//! use-after-free exploit for devices attached over USB.
//!
//! The library holds the decisions: which device is in which mode, how a
//! device identity is read from its serial string, which console commands are
//! sent, and, as state machines, the orchestration of mode changes and the
//! staged exploit pipeline. Whoever owns the bus performs the transfers that
//! the machines ask for and hands their outcomes back.

pub mod mode;

pub use mode::{
    classify, find_apple_device, find_device, find_device_in_dfu, find_device_in_recovery,
    find_first_in_mode, scan_devices,
    DeviceMode, UsbIds, APPLE_VENDOR_ID, DFU_PRODUCT_ID, PONGO_PRODUCT_ID, RECOVERY_PRODUCT_ID,
};

pub mod identity;

pub use identity::{
    button_family, get_bdid_from_serial, get_cpid_from_serial, parse_hex, parse_identity,
    ButtonFamily, IdentityRecord, BDID_DIGITS, CPID_DIGITS,
};

pub mod transfer;

pub use transfer::{
    control_request_no_data, control_request_with_data, is_completed, transfer_outcome,
    ControlRequest, RequestView, TransferOutcome, LIBUSB_ERROR_TIMEOUT, USB_TIMEOUT,
};

pub mod dfu;

pub mod session;

pub use session::{
    ExploitSession, SessionError, SessionView, Stage, FENGSHUI_MAX_TRANSFERS, GROOM_CAP, HOLE_FILL_COUNT,
    INITIAL_TIMEOUT, TIMEOUT_MODULUS,
};

pub mod orchestrator;

pub use orchestrator::{
    Action, Event, OrchestrationError, Orchestrator, Phase, CONSOLE_POLL_BUDGET,
    POLL_INTERVAL_MS, REBOOT_COMMAND_COUNT, SETTLE_DELAY_MS,
};
