//! The per-tick engine: event folding, input handling, decided requests,
//! and the frame layout.

use oled::bt::{BluetoothEvent, Device, MacAddr};
use oled::mpv::MpvEvent;
use oled::nav::Tab;
use oled::state::{AudioFile, State};

fn files(names: &[&str]) -> Vec<AudioFile> {
    names
        .iter()
        .map(|n| AudioFile { path: format!("/music/{}", n), name: n.to_string() })
        .collect()
}

fn device(addr: &str, name: &str) -> Device {
    Device {
        addr: MacAddr::parse(addr).unwrap(),
        name: name.to_string(),
        paired: false,
        trusted: false,
        connected: false,
    }
}

fn neutral(st: &mut State) {
    st.update(&vec![false, false, false], &vec![false, false, false, false, false]);
}

fn joy(st: &mut State, up: bool, down: bool, left: bool, right: bool) -> oled::state::Actions {
    st.update(&vec![false, false, false], &vec![up, down, left, right, false])
}

#[test]
fn four_switched_right_edges_cycle_the_tabs() {
    let mut st = State::new(files(&["a.mp3"]), String::from("10.0.0.1"));
    let mut seen = Vec::new();
    for _ in 0..4 {
        joy(&mut st, false, false, false, true);
        seen.push(st.open_tab);
        neutral(&mut st);
    }
    assert_eq!(seen, vec![Tab::Network, Tab::Bluetooth, Tab::Player, Tab::Files]);
}

#[test]
fn left_cycles_the_other_way() {
    let mut st = State::new(files(&["a.mp3"]), String::from("10.0.0.1"));
    joy(&mut st, false, false, true, false);
    assert_eq!(st.open_tab, Tab::Player);
    neutral(&mut st);
    joy(&mut st, false, false, true, false);
    assert_eq!(st.open_tab, Tab::Bluetooth);
}

#[test]
fn unnamed_accessories_are_kept_out_of_the_list() {
    let mut st = State::new(Vec::new(), String::from("10.0.0.1"));
    st.handle_bluetooth_event(BluetoothEvent::Scan(vec![
        device("AA:BB:CC:DD:EE:FF", ""),
        device("00:11:22:33:44:55", "Speaker"),
    ]));
    assert_eq!(st.devices.len(), 1);
    assert_eq!(st.devices[0].name, "Speaker");
    assert_eq!(st.bt_nav.item_count, 1);
}

#[test]
fn shrinking_accessory_list_clamps_the_cursor() {
    let mut st = State::new(Vec::new(), String::from("10.0.0.1"));
    st.handle_bluetooth_event(BluetoothEvent::Scan(vec![
        device("00:11:22:33:44:01", "One"),
        device("00:11:22:33:44:02", "Two"),
        device("00:11:22:33:44:03", "Three"),
    ]));
    joy(&mut st, false, false, false, true);
    neutral(&mut st);
    joy(&mut st, false, false, false, true);
    assert_eq!(st.open_tab, Tab::Bluetooth);
    neutral(&mut st);
    joy(&mut st, false, true, false, false);
    neutral(&mut st);
    joy(&mut st, false, true, false, false);
    assert_eq!(st.bt_nav.cursor, 2);
    st.handle_bluetooth_event(BluetoothEvent::Scan(vec![device("00:11:22:33:44:01", "One")]));
    assert_eq!(st.bt_nav.cursor, 0);
    assert_eq!(st.bt_nav.item_count, 1);
}

#[test]
fn nine_downs_on_ten_files_scroll_four_rows() {
    let mut st = State::new(
        files(&["0", "1", "2", "3", "4", "5", "6", "7", "8", "9"]),
        String::from("10.0.0.1"),
    );
    for _ in 0..9 {
        joy(&mut st, false, true, false, false);
        neutral(&mut st);
    }
    assert_eq!(st.file_nav.cursor, 9);
    assert_eq!(st.file_nav.scroll, 4);
}

#[test]
fn primary_button_on_files_asks_for_playback_and_scan_stop() {
    let mut st = State::new(files(&["a.mp3", "b.mp3"]), String::from("10.0.0.1"));
    joy(&mut st, false, true, false, false);
    neutral(&mut st);
    let acts = st.update(&vec![true, false, false], &vec![false, false, false, false, false]);
    assert!(acts.stop_scan);
    assert_eq!(acts.play_file.as_deref(), Some("/music/b.mp3"));
    assert!(acts.connect.is_none() && acts.set_wifi.is_none() && !acts.toggle_pause);
}

#[test]
fn primary_button_on_an_empty_file_list_asks_for_nothing() {
    let mut st = State::new(Vec::new(), String::from("10.0.0.1"));
    let acts = st.update(&vec![true, false, false], &vec![false, false, false, false, false]);
    assert!(!acts.stop_scan);
    assert!(acts.play_file.is_none());
}

#[test]
fn primary_button_on_network_asks_to_flip_the_radio() {
    let mut st = State::new(Vec::new(), String::from("10.0.0.1"));
    joy(&mut st, false, false, false, true);
    neutral(&mut st);
    assert_eq!(st.open_tab, Tab::Network);
    let acts = st.update(&vec![true, false, false], &vec![false, false, false, false, false]);
    assert_eq!(acts.set_wifi, Some(false));
    st.set_wifi_status(Some(false));
    assert!(!st.wifi_enabled);
    neutral(&mut st);
    let acts = st.update(&vec![true, false, false], &vec![false, false, false, false, false]);
    assert_eq!(acts.set_wifi, Some(true));
}

#[test]
fn player_tab_maps_joystick_to_volume_and_button_to_pause() {
    let mut st = State::new(Vec::new(), String::from("10.0.0.1"));
    joy(&mut st, false, false, true, false);
    assert_eq!(st.open_tab, Tab::Player);
    neutral(&mut st);
    let acts = joy(&mut st, true, false, false, false);
    assert!(acts.volume_up && !acts.volume_down);
    neutral(&mut st);
    let acts = joy(&mut st, false, true, false, false);
    assert!(acts.volume_down && !acts.volume_up);
    neutral(&mut st);
    let acts = st.update(&vec![true, false, false], &vec![false, false, false, false, false]);
    assert!(acts.toggle_pause);
}

#[test]
fn exit_button_stops_the_loop_and_asks_for_nothing() {
    let mut st = State::new(files(&["a.mp3"]), String::from("10.0.0.1"));
    assert!(st.running);
    let acts = st.update(&vec![true, false, true], &vec![false, true, false, false, false]);
    assert!(!st.running);
    assert!(!acts.stop_scan && acts.play_file.is_none() && !acts.toggle_pause);
    assert_eq!(st.open_tab, Tab::Files);
    assert_eq!(st.file_nav.cursor, 0);
}

#[test]
fn held_buttons_do_not_retrigger_actions() {
    let mut st = State::new(files(&["a.mp3"]), String::from("10.0.0.1"));
    let acts = st.update(&vec![true, false, false], &vec![false, false, false, false, false]);
    assert!(acts.play_file.is_some());
    let acts = st.update(&vec![true, false, false], &vec![false, false, false, false, false]);
    assert!(acts.play_file.is_none());
}

#[test]
fn status_events_replace_the_player_snapshot() {
    let mut st = State::new(Vec::new(), String::from("10.0.0.1"));
    st.handle_mpv_event(MpvEvent::StatusUpdate {
        is_playing: true,
        position: 65,
        duration: 125,
        filename: Some("song.mp3".to_string()),
    });
    assert!(st.player_status.is_playing);
    assert_eq!(st.track_position, 65);
    assert_eq!(st.track_duration, 125);
    st.handle_mpv_event(MpvEvent::Error("socket gone".to_string()));
    assert!(st.player_status.is_playing);
    assert_eq!(st.track_position, 65);
}

#[test]
fn volume_reading_replaces_only_on_success() {
    let mut st = State::new(Vec::new(), String::from("10.0.0.1"));
    assert_eq!(st.system_volume, 50);
    st.set_system_volume(Some(80));
    assert_eq!(st.system_volume, 80);
    st.set_system_volume(None);
    assert_eq!(st.system_volume, 80);
}
