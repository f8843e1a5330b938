//! Accessory record parsing: scan listing lines, addresses, and the
//! per-device info listing.

use oled::bt::{
    apply_info_line, apply_info_text, connect_steps, parse_device_lines, ConnectPlan, Device,
    MacAddr, ScanParseError, ScanResult,
};

fn chars(s: &str) -> Vec<char> {
    s.chars().collect()
}

#[test]
fn test_scan_result() {
    let s = "Device 00:11:22:33:44:55 My Device";
    let result = ScanResult::try_from(s).unwrap();
    assert_eq!(result.addr.to_canonical(), "00:11:22:33:44:55");
    assert_eq!(result.name, "My Device");
}

#[test]
fn scan_result_blanks_name_that_repeats_address() {
    let s = "Device 00:11:22:33:44:55 00-11-22-33-44-55";
    let result = ScanResult::try_from(s).unwrap();
    assert_eq!(result.name, "");
}

#[test]
fn scan_result_collapses_whitespace_runs_in_name() {
    let s = "  Device 0A:1B:2C:3D:4E:5F   Boom   Box  ";
    let result = ScanResult::try_from(s).unwrap();
    assert_eq!(result.addr.to_canonical(), "0A:1B:2C:3D:4E:5F");
    assert_eq!(result.name, "Boom Box");
}

#[test]
fn scan_result_rejects_short_line() {
    assert_eq!(ScanResult::try_from("Device").unwrap_err(), ScanParseError::Malformed);
    assert_eq!(ScanResult::try_from("").unwrap_err(), ScanParseError::Malformed);
}

#[test]
fn scan_result_rejects_bad_address() {
    assert_eq!(
        ScanResult::try_from("Device 00:11:22:33:44 Speaker").unwrap_err(),
        ScanParseError::BadAddress
    );
    assert_eq!(
        ScanResult::try_from("Device zz:11:22:33:44:55 Speaker").unwrap_err(),
        ScanParseError::BadAddress
    );
}

#[test]
fn mac_parse_accepts_both_separators_and_cases() {
    let a = MacAddr::parse("aa:bb:cc:dd:ee:ff").unwrap();
    assert_eq!(a.to_canonical(), "AA:BB:CC:DD:EE:FF");
    let b = MacAddr::parse("0A-1b-2C-3d-4E-5f").unwrap();
    assert_eq!(b.to_canonical(), "0A:1B:2C:3D:4E:5F");
}

#[test]
fn mac_parse_rejects_mixed_separators_and_lengths() {
    assert!(MacAddr::parse("00:11-22:33:44:55").is_none());
    assert!(MacAddr::parse("00:11:22:33:44:5").is_none());
    assert!(MacAddr::parse("001122334455").is_none());
    assert!(MacAddr::parse("").is_none());
}

#[test]
fn mac_same_compares_bytes() {
    let a = MacAddr::parse("00:11:22:33:44:55").unwrap();
    let b = MacAddr::parse("00:11:22:33:44:55").unwrap();
    let c = MacAddr::parse("00:11:22:33:44:56").unwrap();
    assert!(a.same(&b));
    assert!(!a.same(&c));
}

#[test]
fn device_from_scan_result_starts_with_flags_down() {
    let sr = ScanResult::try_from("Device 00:11:22:33:44:55 Speaker").unwrap();
    let d = Device::from(sr);
    assert!(!d.paired && !d.trusted && !d.connected);
    assert_eq!(d.name, "Speaker");
}

#[test]
fn info_lines_raise_and_lower_flags() {
    let sr = ScanResult::try_from("Device 00:11:22:33:44:55 Speaker").unwrap();
    let mut d = Device::from(sr);
    apply_info_line(&mut d, &chars("\tPaired: yes"));
    apply_info_line(&mut d, &chars("\tTrusted: yes"));
    apply_info_line(&mut d, &chars("\tConnected: no"));
    assert!(d.paired && d.trusted && !d.connected);
    apply_info_line(&mut d, &chars("\tPaired: no"));
    assert!(!d.paired);
}

#[test]
fn info_lines_leave_flags_on_other_values_and_keys() {
    let sr = ScanResult::try_from("Device 00:11:22:33:44:55 Speaker").unwrap();
    let mut d = Device::from(sr);
    apply_info_line(&mut d, &chars("\tPaired: maybe"));
    assert!(!d.paired);
    apply_info_line(&mut d, &chars("\tBonded: yes"));
    assert!(!d.paired && !d.trusted && !d.connected);
    apply_info_line(&mut d, &chars("Paired"));
    assert!(!d.paired);
}

#[test]
fn info_text_folds_whole_listing() {
    let sr = ScanResult::try_from("Device 00:11:22:33:44:55 Speaker").unwrap();
    let mut d = Device::from(sr);
    apply_info_text(
        &mut d,
        "Device 00:11:22:33:44:55 (public)\n\tName: Speaker\n\tPaired: yes\n\tTrusted: no\n\tConnected: yes\n",
    );
    assert!(d.paired && !d.trusted && d.connected);
}

#[test]
fn device_listing_keeps_parsing_lines_in_order() {
    let text = "Device 00:11:22:33:44:55 One\nnoise\n\nDevice AA:BB:CC:DD:EE:FF Two\n";
    let results = parse_device_lines(text);
    assert_eq!(results.len(), 2);
    assert_eq!(results[0].name, "One");
    assert_eq!(results[1].addr.to_canonical(), "AA:BB:CC:DD:EE:FF");
}

#[test]
fn connect_steps_follow_the_flags() {
    let sr = ScanResult::try_from("Device 00:11:22:33:44:55 Speaker").unwrap();
    let mut d = Device::from(sr);
    assert_eq!(
        connect_steps(&d),
        ConnectPlan::Connect { pair_first: true, trust_first: true }
    );
    d.paired = true;
    assert_eq!(
        connect_steps(&d),
        ConnectPlan::Connect { pair_first: false, trust_first: true }
    );
    d.connected = true;
    assert_eq!(connect_steps(&d), ConnectPlan::Disconnect);
}
