//! The marquee window and its tick counters.

use oled::marquee::scrolling_text;
use oled::mpv::MpvEvent;
use oled::state::State;

fn state_with_file(name: &str) -> State {
    let mut st = State::new(Vec::new(), String::from("10.0.0.1"));
    st.handle_mpv_event(MpvEvent::StatusUpdate {
        is_playing: true,
        position: 0,
        duration: 0,
        filename: Some(name.to_string()),
    });
    st
}

#[test]
fn short_text_is_shown_unscrolled() {
    assert_eq!(scrolling_text("hello", 0, 25), "hello");
    assert_eq!(scrolling_text("hello", 3, 25), "hello");
}

#[test]
fn window_slides_and_wraps_over_the_extended_text() {
    // extended text: "abcdefghij --- ", length 15
    assert_eq!(scrolling_text("abcdefghij", 0, 5), "abcde");
    assert_eq!(scrolling_text("abcdefghij", 7, 5), "hij -");
    assert_eq!(scrolling_text("abcdefghij", 12, 5), "-- ab");
    assert_eq!(scrolling_text("abcdefghij", 14, 5), " abcd");
}

#[test]
fn stale_offset_falls_back_to_the_start_window() {
    assert_eq!(scrolling_text("abcdefghij", 15, 5), "abcde");
    assert_eq!(scrolling_text("abcdefghij", 99, 5), "abcde");
}

#[test]
fn offset_of_a_fitting_filename_stays_zero_over_375_ticks() {
    // 20 characters fit in the 25-character budget: the marquee never engages
    let mut st = state_with_file("exactly_20_chars.mp3");
    assert_eq!(st.player_status.current_file.as_deref().unwrap().len(), 20);
    for _ in 0..375 {
        st.update_filename_scroll();
        assert_eq!(st.filename_scroll_offset, 0);
    }
}

#[test]
fn scrolling_filename_cycles_back_to_zero() {
    // 30 characters, extended length 35: one full cycle takes 15 * 35 ticks
    let name = "a_name_that_is_30_chars_x.flac";
    let mut st = state_with_file(name);
    assert_eq!(name.len(), 30);
    for _ in 0..15 {
        st.update_filename_scroll();
    }
    assert_eq!(st.filename_scroll_offset, 1);
    for _ in 15..(15 * 35) {
        st.update_filename_scroll();
    }
    assert_eq!(st.filename_scroll_offset, 0);
    assert_eq!(st.filename_scroll_counter, 0);
}

#[test]
fn filename_change_restarts_the_marquee() {
    let name = "a_name_that_is_30_chars_x.flac";
    let mut st = state_with_file(name);
    for _ in 0..40 {
        st.update_filename_scroll();
    }
    assert!(st.filename_scroll_offset > 0);
    st.handle_mpv_event(MpvEvent::StatusUpdate {
        is_playing: true,
        position: 0,
        duration: 0,
        filename: Some("another_name_of_30_chars.flac!".to_string()),
    });
    assert_eq!(st.filename_scroll_offset, 0);
    assert_eq!(st.filename_scroll_counter, 0);
}

#[test]
fn same_filename_keeps_the_marquee_position() {
    let name = "a_name_that_is_30_chars_x.flac";
    let mut st = state_with_file(name);
    for _ in 0..40 {
        st.update_filename_scroll();
    }
    let offset = st.filename_scroll_offset;
    st.handle_mpv_event(MpvEvent::StatusUpdate {
        is_playing: false,
        position: 9,
        duration: 99,
        filename: Some(name.to_string()),
    });
    assert_eq!(st.filename_scroll_offset, offset);
}
