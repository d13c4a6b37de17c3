use checkm8::{
    button_family, get_bdid_from_serial, get_cpid_from_serial, parse_hex, parse_identity,
    ButtonFamily, IdentityRecord,
};

const SERIAL: &str = "CPID:8010 CPRV:11 CPFM:03 SCEP:01 BDID:08 ECID:000269E20846003A IBFL:3C SRTG:[iBoot-2696.0.0.1.33]";

#[test]
fn fields_are_cut_after_their_markers() {
    assert_eq!(get_cpid_from_serial(SERIAL), Some("8010"));
    assert_eq!(get_bdid_from_serial(SERIAL), Some("08"));
}

#[test]
fn identity_of_a_full_serial() {
    assert_eq!(parse_identity(SERIAL), Some(IdentityRecord { cpid: 0x8010, bdid: 0x08 }));
}

#[test]
fn parsing_twice_gives_the_same_record() {
    let a = parse_identity(SERIAL);
    let b = parse_identity(SERIAL);
    assert_eq!(a, b);
    let owned = String::from(SERIAL);
    assert_eq!(parse_identity(owned.as_str()), a);
}

#[test]
fn missing_cpid_marker_fails() {
    let s = "CPRV:11 CPFM:03 SCEP:01 BDID:08 ECID:000269E20846003A";
    assert_eq!(get_cpid_from_serial(s), None);
    assert_eq!(parse_identity(s), None);
}

#[test]
fn missing_bdid_marker_fails() {
    let s = "CPID:8010 CPRV:11 CPFM:03 SCEP:01 ECID:000269E20846003A";
    assert_eq!(get_bdid_from_serial(s), None);
    assert_eq!(parse_identity(s), None);
}

#[test]
fn empty_serial_fails() {
    assert_eq!(parse_identity(""), None);
}

#[test]
fn truncated_field_fails() {
    assert_eq!(get_cpid_from_serial("CPID:801"), None);
    assert_eq!(get_bdid_from_serial("CPID:8010 BDID:0"), None);
    assert_eq!(parse_identity("CPID:8010 BDID:0"), None);
}

#[test]
fn non_hex_field_fails() {
    assert_eq!(parse_identity("CPID:80G0 BDID:08"), None);
    assert_eq!(parse_identity("CPID:8010 BDID:0x"), None);
}

#[test]
fn first_marker_wins_and_hex_letters_are_read() {
    assert_eq!(
        parse_identity("BDID:0e CPID:8015 CPID:1234 BDID:ff"),
        Some(IdentityRecord { cpid: 0x8015, bdid: 0x0e })
    );
    assert_eq!(parse_identity("CPID:aBcD BDID:Ff"), Some(IdentityRecord { cpid: 0xabcd, bdid: 0xff }));
}

#[test]
fn hex_parse_values() {
    assert_eq!(parse_hex("8010"), Some(0x8010));
    assert_eq!(parse_hex("ffff"), Some(0xffff));
    assert_eq!(parse_hex("0"), Some(0));
    assert_eq!(parse_hex("0e"), Some(0x0e));
    assert_eq!(parse_hex(""), None);
    assert_eq!(parse_hex("12 4"), None);
}

#[test]
fn volume_family_members() {
    assert_eq!(button_family(0x8015, 0x00), ButtonFamily::Volume);
    assert_eq!(button_family(0x8015, 0x06), ButtonFamily::Volume);
    assert_eq!(button_family(0x8015, 0xff), ButtonFamily::Volume);
    assert_eq!(button_family(0x8010, 0x08), ButtonFamily::Volume);
    assert_eq!(button_family(0x8010, 0x0a), ButtonFamily::Volume);
    assert_eq!(button_family(0x8010, 0x0c), ButtonFamily::Volume);
    assert_eq!(button_family(0x8010, 0x0e), ButtonFamily::Volume);
}

#[test]
fn home_family_members() {
    assert_eq!(button_family(0x8010, 0x01), ButtonFamily::Home);
    assert_eq!(button_family(0x8010, 0x09), ButtonFamily::Home);
    assert_eq!(button_family(0x8010, 0x0f), ButtonFamily::Home);
    assert_eq!(button_family(0x8000, 0x08), ButtonFamily::Home);
    assert_eq!(button_family(0x8011, 0x0a), ButtonFamily::Home);
    assert_eq!(button_family(0x8960, 0x0e), ButtonFamily::Home);
}
