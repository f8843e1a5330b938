//! Parsing of collaborator and OS tool output: player property responses,
//! the volume listing, and the radio-block listing.

use oled::mpv::{fold_status, status_event_from_responses, MpvEvent};
use oled::osparse::{parse_volume_output, parse_wifi_output};

#[test]
fn fold_status_applies_the_documented_defaults() {
    match fold_status(None, None, None, None) {
        MpvEvent::StatusUpdate { is_playing, position, duration, filename } => {
            assert!(!is_playing);
            assert_eq!(position, 0);
            assert_eq!(duration, 0);
            assert!(filename.is_none());
        }
        _ => panic!("expected a status update"),
    }
}

#[test]
fn fold_status_inverts_the_pause_flag() {
    match fold_status(Some(false), Some(7), Some(9), Some("x.mp3".to_string())) {
        MpvEvent::StatusUpdate { is_playing, position, duration, filename } => {
            assert!(is_playing);
            assert_eq!(position, 7);
            assert_eq!(duration, 9);
            assert_eq!(filename.as_deref(), Some("x.mp3"));
        }
        _ => panic!("expected a status update"),
    }
}

#[test]
fn property_responses_parse_through_the_json_layer() {
    let e = status_event_from_responses(
        "{\"data\":false,\"request_id\":0,\"error\":\"success\"}",
        "{\"data\":12.736,\"request_id\":0,\"error\":\"success\"}",
        "{\"data\":204.9,\"request_id\":0,\"error\":\"success\"}",
        "{\"data\":\"song.mp3\",\"request_id\":0,\"error\":\"success\"}",
    );
    match e {
        MpvEvent::StatusUpdate { is_playing, position, duration, filename } => {
            assert!(is_playing);
            assert_eq!(position, 12);
            assert_eq!(duration, 204);
            assert_eq!(filename.as_deref(), Some("song.mp3"));
        }
        _ => panic!("expected a status update"),
    }
}

#[test]
fn garbled_responses_fall_back_to_the_defaults() {
    let e = status_event_from_responses("not json", "{\"nodata\":1}", "", "{\"data\":3}");
    match e {
        MpvEvent::StatusUpdate { is_playing, position, duration, filename } => {
            assert!(!is_playing);
            assert_eq!(position, 0);
            assert_eq!(duration, 0);
            assert!(filename.is_none());
        }
        _ => panic!("expected a status update"),
    }
}

#[test]
fn volume_listing_yields_the_percentage() {
    assert_eq!(parse_volume_output("Volume: mono: 32768 / 50% / -18.06 dB"), 50);
    assert_eq!(
        parse_volume_output("Volume: front-left: 49807 / 76% / -7.1 dB,\n        balance 0.00"),
        76
    );
    assert_eq!(parse_volume_output("Volume: mono: 65536 / 100% / 0.00 dB"), 100);
}

#[test]
fn unreadable_volume_listings_fall_back_to_fifty() {
    assert_eq!(parse_volume_output(""), 50);
    assert_eq!(parse_volume_output("no percent sign here"), 50);
    assert_eq!(parse_volume_output("Volume: mono: 65536 / x7% / 0 dB"), 50);
    assert_eq!(parse_volume_output("Volume: mono: 65536 / 999% / 0 dB"), 50);
}

#[test]
fn radio_listing_reads_the_soft_block_line() {
    let on = "0: phy0: Wireless LAN\n\tSoft blocked: no\n\tHard blocked: no\n";
    let off = "0: phy0: Wireless LAN\n\tSoft blocked: yes\n\tHard blocked: no\n";
    assert!(parse_wifi_output(on));
    assert!(!parse_wifi_output(off));
}

#[test]
fn radio_listing_without_the_line_reads_as_on() {
    assert!(parse_wifi_output(""));
    assert!(parse_wifi_output("1: hci0: Bluetooth\n\tHard blocked: no\n"));
}
