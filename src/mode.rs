use vstd::prelude::*;

verus! {

/// The only USB vendor id that is acted upon.
pub const APPLE_VENDOR_ID: u16 = 0x5ac;

/// Product id of the low-level loader (DFU).
pub const DFU_PRODUCT_ID: u16 = 0x1227;

/// Product id of the diagnostic console (recovery).
pub const RECOVERY_PRODUCT_ID: u16 = 0x1281;

/// Product id of the post-exploit secondary bootloader (pongoOS).
pub const PONGO_PRODUCT_ID: u16 = 0x4141;

/// The boot mode of an attached device, read from its descriptor ids.
#[derive(Clone, Copy, Debug, PartialEq, Eq, Structural)]
pub enum DeviceMode {
    /// Any other device, including one that runs a live operating system.
    Unknown,
    DiagnosticConsole,
    LowLevelLoader,
    ExploitTarget,
}

/// Vendor and product id of one device descriptor.
#[derive(Clone, Copy, Debug, PartialEq, Eq, Structural)]
pub struct UsbIds {
    pub vendor_id: u16,
    pub product_id: u16,
}

/// The classification table: an exact match on the (vendor, product) pair.
pub open spec fn mode_of(vendor_id: u16, product_id: u16) -> DeviceMode {
    if vendor_id != APPLE_VENDOR_ID {
        DeviceMode::Unknown
    } else if product_id == DFU_PRODUCT_ID {
        DeviceMode::LowLevelLoader
    } else if product_id == RECOVERY_PRODUCT_ID {
        DeviceMode::DiagnosticConsole
    } else if product_id == PONGO_PRODUCT_ID {
        DeviceMode::ExploitTarget
    } else {
        DeviceMode::Unknown
    }
}

/// True when the pair is one of the three entries of the table.
pub open spec fn is_known_pair(vendor_id: u16, product_id: u16) -> bool {
    vendor_id == APPLE_VENDOR_ID && (product_id == DFU_PRODUCT_ID || product_id
        == RECOVERY_PRODUCT_ID || product_id == PONGO_PRODUCT_ID)
}

/// An Apple device that is in none of the three known modes: one that runs
/// its own operating system.
pub open spec fn is_live_os_device(ids: UsbIds) -> bool {
    ids.vendor_id == APPLE_VENDOR_ID && mode_of(ids.vendor_id, ids.product_id)
        == DeviceMode::Unknown
}

/// Maps a descriptor's ids to a boot mode.
pub fn classify(vendor_id: u16, product_id: u16) -> (r: DeviceMode)
    ensures
        r == mode_of(vendor_id, product_id),
        !is_known_pair(vendor_id, product_id) ==> r == DeviceMode::Unknown,
        r != DeviceMode::Unknown ==> vendor_id == APPLE_VENDOR_ID,
{
    if vendor_id != APPLE_VENDOR_ID {
        DeviceMode::Unknown
    } else if product_id == DFU_PRODUCT_ID {
        DeviceMode::LowLevelLoader
    } else if product_id == RECOVERY_PRODUCT_ID {
        DeviceMode::DiagnosticConsole
    } else if product_id == PONGO_PRODUCT_ID {
        DeviceMode::ExploitTarget
    } else {
        DeviceMode::Unknown
    }
}

/// Whether a descriptor shows a device in the wanted mode. Asking for
/// `Unknown` matches nothing: only the three known modes are searched for.
pub fn find_device(mode: DeviceMode, ids: UsbIds) -> (r: bool)
    ensures
        r == (mode != DeviceMode::Unknown && mode_of(ids.vendor_id, ids.product_id) == mode),
{
    match mode {
        DeviceMode::Unknown => false,
        _ => classify(ids.vendor_id, ids.product_id) == mode,
    }
}

/// Index of the first device, in enumeration order, that `pred` accepts.
pub open spec fn is_first_index(devices: Seq<UsbIds>, r: Option<usize>, pred: spec_fn(UsbIds) -> bool) -> bool {
    match r {
        Some(i) => i < devices.len() && pred(devices[i as int]) && forall|j: int|
            0 <= j < i ==> !pred(#[trigger] devices[j]),
        None => forall|j: int| 0 <= j < devices.len() ==> !pred(#[trigger] devices[j]),
    }
}

/// The first device, in enumeration order, that is in `mode`.
pub fn find_first_in_mode(devices: &Vec<UsbIds>, mode: DeviceMode) -> (r: Option<usize>)
    ensures
        is_first_index(
            devices@,
            r,
            |d: UsbIds| mode != DeviceMode::Unknown && mode_of(d.vendor_id, d.product_id) == mode,
        ),
{
    let mut i: usize = 0;
    while i < devices.len()
        invariant
            i <= devices@.len(),
            forall|j: int|
                0 <= j < i ==> !(mode != DeviceMode::Unknown && mode_of(
                    #[trigger] devices@[j].vendor_id,
                    devices@[j].product_id,
                ) == mode),
        decreases devices@.len() - i,
    {
        if find_device(mode, devices[i]) {
            return Some(i);
        }
        i = i + 1;
    }
    None
}

/// The first device in the low-level loader mode.
pub fn find_device_in_dfu(devices: &Vec<UsbIds>) -> (r: Option<usize>)
    ensures
        is_first_index(
            devices@,
            r,
            |d: UsbIds| mode_of(d.vendor_id, d.product_id) == DeviceMode::LowLevelLoader,
        ),
{
    find_first_in_mode(devices, DeviceMode::LowLevelLoader)
}

/// The first device in the diagnostic console mode.
pub fn find_device_in_recovery(devices: &Vec<UsbIds>) -> (r: Option<usize>)
    ensures
        is_first_index(
            devices@,
            r,
            |d: UsbIds| mode_of(d.vendor_id, d.product_id) == DeviceMode::DiagnosticConsole,
        ),
{
    find_first_in_mode(devices, DeviceMode::DiagnosticConsole)
}

/// The first Apple device that runs a live operating system.
pub fn find_apple_device(devices: &Vec<UsbIds>) -> (r: Option<usize>)
    ensures
        is_first_index(devices@, r, |d: UsbIds| is_live_os_device(d)),
{
    let mut i: usize = 0;
    while i < devices.len()
        invariant
            i <= devices@.len(),
            forall|j: int| 0 <= j < i ==> !is_live_os_device(#[trigger] devices@[j]),
        decreases devices@.len() - i,
    {
        let d = devices[i];
        if d.vendor_id == APPLE_VENDOR_ID && classify(d.vendor_id, d.product_id)
            == DeviceMode::Unknown {
            return Some(i);
        }
        i = i + 1;
    }
    None
}

/// The first Apple device on the bus, in enumeration order, and its mode.
/// Devices of other vendors are passed over.
pub fn scan_devices(devices: &Vec<UsbIds>) -> (r: Option<(usize, DeviceMode)>)
    ensures
        is_first_index(
            devices@,
            match r {
                Some(p) => Some(p.0),
                None => None,
            },
            |d: UsbIds| d.vendor_id == APPLE_VENDOR_ID,
        ),
        r matches Some(p) ==> p.1 == mode_of(devices@[p.0 as int].vendor_id, devices@[p.0 as int].product_id),
{
    let mut i: usize = 0;
    while i < devices.len()
        invariant
            i <= devices@.len(),
            forall|j: int| 0 <= j < i ==> (#[trigger] devices@[j]).vendor_id != APPLE_VENDOR_ID,
        decreases devices@.len() - i,
    {
        let d = devices[i];
        if d.vendor_id == APPLE_VENDOR_ID {
            return Some((i, classify(d.vendor_id, d.product_id)));
        }
        i = i + 1;
    }
    None
}

} // verus!
