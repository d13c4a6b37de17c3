use checkm8::{
    classify, find_apple_device, find_device, find_device_in_dfu, find_device_in_recovery,
    scan_devices, DeviceMode, UsbIds, APPLE_VENDOR_ID, DFU_PRODUCT_ID, PONGO_PRODUCT_ID, RECOVERY_PRODUCT_ID,
};

fn ids(vendor_id: u16, product_id: u16) -> UsbIds {
    UsbIds { vendor_id, product_id }
}

#[test]
fn known_pairs_are_classified() {
    assert_eq!(classify(0x5ac, 0x1227), DeviceMode::LowLevelLoader);
    assert_eq!(classify(0x5ac, 0x1281), DeviceMode::DiagnosticConsole);
    assert_eq!(classify(0x5ac, 0x4141), DeviceMode::ExploitTarget);
}

#[test]
fn other_pairs_are_unknown() {
    // Known product ids under another vendor.
    assert_eq!(classify(0x5ad, 0x1227), DeviceMode::Unknown);
    assert_eq!(classify(0x1234, 0x1281), DeviceMode::Unknown);
    assert_eq!(classify(0, 0x4141), DeviceMode::Unknown);
    // Apple, but another product.
    assert_eq!(classify(0x5ac, 0x12a8), DeviceMode::Unknown);
    assert_eq!(classify(0x5ac, 0x1226), DeviceMode::Unknown);
    assert_eq!(classify(0x5ac, 0x1228), DeviceMode::Unknown);
    assert_eq!(classify(0x5ac, 0), DeviceMode::Unknown);
    assert_eq!(classify(0xffff, 0xffff), DeviceMode::Unknown);
}

#[test]
fn no_false_positive_over_a_sweep() {
    let vendors = [0u16, 1, 0x5ab, 0x5ac, 0x5ad, 0xffff];
    for v in vendors {
        for p in 0u16..=0x5000 {
            let m = classify(v, p);
            let known = v == 0x5ac && (p == 0x1227 || p == 0x1281 || p == 0x4141);
            if !known {
                assert_eq!(m, DeviceMode::Unknown, "vendor {:#x} product {:#x}", v, p);
            } else {
                assert_ne!(m, DeviceMode::Unknown);
            }
        }
    }
}

#[test]
fn id_constants_are_pinned() {
    assert_eq!(APPLE_VENDOR_ID, 0x5ac);
    assert_eq!(DFU_PRODUCT_ID, 0x1227);
    assert_eq!(RECOVERY_PRODUCT_ID, 0x1281);
    assert_eq!(PONGO_PRODUCT_ID, 0x4141);
}

#[test]
fn find_device_matches_only_the_wanted_mode() {
    assert!(find_device(DeviceMode::LowLevelLoader, ids(0x5ac, 0x1227)));
    assert!(!find_device(DeviceMode::DiagnosticConsole, ids(0x5ac, 0x1227)));
    assert!(find_device(DeviceMode::DiagnosticConsole, ids(0x5ac, 0x1281)));
    assert!(find_device(DeviceMode::ExploitTarget, ids(0x5ac, 0x4141)));
    assert!(!find_device(DeviceMode::ExploitTarget, ids(0x5ad, 0x4141)));
    assert!(!find_device(DeviceMode::Unknown, ids(0x5ac, 0x12a8)));
    assert!(!find_device(DeviceMode::Unknown, ids(0x1, 0x1)));
}

#[test]
fn first_match_in_enumeration_order() {
    let devices = vec![
        ids(0x046d, 0xc52b),
        ids(0x5ac, 0x1281),
        ids(0x5ac, 0x1227),
        ids(0x5ac, 0x1227),
    ];
    assert_eq!(find_device_in_dfu(&devices), Some(2));
    assert_eq!(find_device_in_recovery(&devices), Some(1));
    assert_eq!(find_apple_device(&devices), None);
}

#[test]
fn nothing_found_on_an_empty_bus() {
    let devices: Vec<UsbIds> = Vec::new();
    assert_eq!(find_device_in_dfu(&devices), None);
    assert_eq!(find_device_in_recovery(&devices), None);
    assert_eq!(find_apple_device(&devices), None);
}

#[test]
fn live_os_device_is_an_apple_device_in_no_known_mode() {
    let devices = vec![ids(0x1234, 0x12a8), ids(0x5ac, 0x4141), ids(0x5ac, 0x12a8)];
    assert_eq!(find_apple_device(&devices), Some(2));
    assert_eq!(find_device_in_dfu(&devices), None);
}

#[test]
fn scan_reports_the_first_apple_device_and_its_mode() {
    let devices = vec![ids(0x046d, 0xc52b), ids(0x5ac, 0x1281), ids(0x5ac, 0x1227)];
    assert_eq!(scan_devices(&devices), Some((1, DeviceMode::DiagnosticConsole)));
    let devices = vec![ids(0x5ac, 0x12a8), ids(0x5ac, 0x1227)];
    assert_eq!(scan_devices(&devices), Some((0, DeviceMode::Unknown)));
    let devices = vec![ids(0x1234, 0x1227)];
    assert_eq!(scan_devices(&devices), None);
}
