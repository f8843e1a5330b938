//! Frame layout: the header, the per-tab text runs, and the cursor band.

use oled::bt::{BluetoothEvent, Device, MacAddr};
use oled::mpv::MpvEvent;
use oled::state::{device_label, AudioFile, State};

fn files(names: &[&str]) -> Vec<AudioFile> {
    names
        .iter()
        .map(|n| AudioFile { path: format!("/music/{}", n), name: n.to_string() })
        .collect()
}

#[test]
fn files_frame_lists_rows_and_centers_the_header() {
    let mut st = State::new(files(&["alpha.mp3", "beta.mp3"]), String::from("10.0.0.1"));
    let ops = st.draw();
    assert_eq!(ops.len(), 5);
    assert_eq!(ops[0].text, "alpha.mp3");
    assert_eq!((ops[0].x, ops[0].y), (0, 10));
    assert!(ops[0].inverted);
    assert_eq!(ops[1].text, "beta.mp3");
    assert_eq!((ops[1].x, ops[1].y), (0, 19));
    assert!(!ops[1].inverted);
    assert_eq!(ops[2].text, "<");
    assert_eq!((ops[2].x, ops[2].y), (0, 0));
    assert_eq!(ops[3].text, ">");
    assert_eq!((ops[3].x, ops[3].y), (123, 0));
    assert_eq!(ops[4].text, "Files");
    assert_eq!((ops[4].x, ops[4].y), (51, 0));
}

#[test]
fn long_names_are_clipped_to_the_character_budget() {
    let mut st = State::new(
        files(&["a_quite_long_file_name_well_past_25.mp3"]),
        String::from("10.0.0.1"),
    );
    let ops = st.draw();
    assert_eq!(ops[0].text.chars().count(), 25);
    assert_eq!(ops[0].text, "a_quite_long_file_name_we");
}

#[test]
fn cursor_band_is_lit_in_the_framebuffer() {
    let mut st = State::new(files(&["a.mp3", "b.mp3"]), String::from("10.0.0.1"));
    let _ = st.draw();
    // the cursor sits on row 0: pixels y in 10..19 across the width
    let index = 64 + (12 / 8) * 128;
    assert_ne!(st.display.buffer[index], 0);
    // page 0 (y 0..8) stays dark
    for x in 0..128 {
        assert_eq!(st.display.buffer[x], 0);
    }
}

#[test]
fn network_frame_shows_address_and_radio_state() {
    let mut st = State::new(Vec::new(), String::from("192.168.1.7"));
    st.update(&vec![false, false, false], &vec![false, false, false, true, false]);
    let ops = st.draw();
    assert_eq!(ops.len(), 6);
    assert_eq!(ops[0].text, "IP: 192.168.1.7");
    assert_eq!(ops[1].text, "WiFi: ON");
    assert_eq!(ops[2].text, "B1: Toggle WiFi");
    assert_eq!(ops[5].text, "Network");
    st.set_wifi_status(Some(false));
    let ops = st.draw();
    assert_eq!(ops[1].text, "WiFi: OFF");
}

#[test]
fn player_frame_formats_volume_and_progress() {
    let mut st = State::new(Vec::new(), String::from("10.0.0.1"));
    st.update(&vec![false, false, false], &vec![false, false, true, false, false]);
    st.handle_mpv_event(MpvEvent::StatusUpdate {
        is_playing: true,
        position: 65,
        duration: 125,
        filename: Some("song.mp3".to_string()),
    });
    st.set_system_volume(Some(80));
    let ops = st.draw();
    assert_eq!(ops.len(), 7);
    assert_eq!(ops[0].text, "Playing");
    assert_eq!(ops[1].text, "Vol: 80%");
    assert_eq!(ops[2].text, "1:05 / 2:05");
    assert_eq!(ops[3].text, "song.mp3");
    assert_eq!(ops[6].text, "Player");
}

#[test]
fn player_frame_skips_progress_without_a_duration() {
    let mut st = State::new(Vec::new(), String::from("10.0.0.1"));
    st.update(&vec![false, false, false], &vec![false, false, true, false, false]);
    let ops = st.draw();
    assert_eq!(ops.len(), 5);
    assert_eq!(ops[0].text, "Paused");
    assert_eq!(ops[1].text, "Vol: 50%");
}

#[test]
fn accessory_rows_carry_the_three_flag_markers() {
    let mut st = State::new(Vec::new(), String::from("10.0.0.1"));
    st.handle_bluetooth_event(BluetoothEvent::Scan(vec![Device {
        addr: MacAddr::parse("00:11:22:33:44:55").unwrap(),
        name: "Boom".to_string(),
        paired: true,
        trusted: false,
        connected: true,
    }]));
    st.update(&vec![false, false, false], &vec![false, false, false, true, false]);
    st.update(&vec![false, false, false], &vec![false, false, false, false, false]);
    st.update(&vec![false, false, false], &vec![false, false, false, true, false]);
    let ops = st.draw();
    assert_eq!(ops.len(), 4);
    let row = &ops[0].text;
    assert_eq!(row.len(), 25);
    assert_eq!(&row[0..4], "Boom");
    assert_eq!(&row[22..25], "oxo");
}

#[test]
fn device_label_pads_and_marks() {
    let label = device_label(&"AB".to_string(), false, true, false);
    assert_eq!(label.len(), 25);
    assert_eq!(&label[0..2], "AB");
    assert_eq!(&label[2..22], "                    ");
    assert_eq!(&label[22..25], "xox");
}
