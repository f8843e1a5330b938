//! The aggregate UI state and the per-tick transitions of the event loop.
//! One owner mutates it: each tick folds the collaborators' status events
//! in, samples the inputs, applies the active tab's input handling, decides
//! the outbound requests, and lays out the frame. Everything here is a pure
//! transition on plain values; the loop that paces the ticks, the hardware
//! and the collaborator processes live outside the library.

use vstd::prelude::*;
use crate::bt::{BluetoothEvent, Device};
use crate::buttons::{Button, Buttons, EdgeState, BUTTON_COUNT};
use crate::display::Display;
use crate::joystick::{spec_resolve, Joystick, State as JoyState};
use crate::marquee::{spec_marquee_step, spec_marquee_ticks, spec_window, scrolling_text, lemma_marquee_cycle, lemma_marquee_ticks_bounds, lemma_marquee_ticks_add, TICKS_PER_STEP};
use crate::text::{spec_dec, spec_dec_two, str_chars, chars_to_string, u32_to_dec, u32_to_dec_two};
use crate::mpv::MpvEvent;
use crate::nav::{spec_move, spec_set_count, ListNav, Tab};

verus! {

/// Width of one font glyph in pixels.
pub const FONT_WIDTH: usize = 5;

/// Height of one font row in pixels.
pub const FONT_HEIGHT: usize = 9;

/// Height of the header band at the top of the screen.
pub const HEADER_HEIGHT: usize = 10;

/// List rows that fit under the header: `(64 - 10) / 9`.
pub const VISIBLE_ROWS: usize = 6;

/// Characters that fit on one line: `128 / 5`.
pub const MAX_CHARS: usize = 25;

/// One playable file: its full path and its display name.
#[derive(Debug)]
pub struct AudioFile {
    pub path: String,
    pub name: String,
}

impl Clone for AudioFile {
    fn clone(&self) -> (r: Self)
        ensures
            r == *self,
    {
        AudioFile { path: self.path.clone(), name: self.name.clone() }
    }
}

/// The player snapshot the playback collaborator last reported.
#[derive(Debug)]
pub struct PlayerStatus {
    pub is_playing: bool,
    pub current_file: Option<String>,
}

impl Clone for PlayerStatus {
    fn clone(&self) -> (r: Self)
        ensures
            r == *self,
    {
        PlayerStatus {
            is_playing: self.is_playing,
            current_file: match &self.current_file {
                Option::Some(f) => Option::Some(f.clone()),
                Option::None => Option::None,
            },
        }
    }
}

/// Whether two optional filenames hold the same text.
pub open spec fn spec_same_file(a: Option<String>, b: Option<String>) -> bool {
    match (a, b) {
        (Option::Some(x), Option::Some(y)) => x@ == y@,
        (Option::None, Option::None) => true,
        _ => false,
    }
}

fn same_file(a: &Option<String>, b: &Option<String>) -> (r: bool)
    ensures
        r == spec_same_file(*a, *b),
{
    match (a, b) {
        (Option::Some(x), Option::Some(y)) => x.eq(y),
        (Option::None, Option::None) => true,
        _ => false,
    }
}

/// The outbound requests one tick decides on. At most one of each kind; a
/// field left empty or false asks for nothing.
#[derive(Debug)]
pub struct Actions {
    /// Stop the accessory scan (sent alongside starting playback).
    pub stop_scan: bool,
    /// Start or toggle playback of this path.
    pub play_file: Option<String>,
    /// Connect (or disconnect) this accessory.
    pub connect: Option<Device>,
    /// Set the radio to this state.
    pub set_wifi: Option<bool>,
    /// Raise the volume one step.
    pub volume_up: bool,
    /// Lower the volume one step.
    pub volume_down: bool,
    /// Toggle pause on the running player.
    pub toggle_pause: bool,
}

/// The tick that asks for nothing.
pub open spec fn spec_actions_none() -> Actions {
    Actions {
        stop_scan: false,
        play_file: Option::None,
        connect: Option::None,
        set_wifi: Option::None,
        volume_up: false,
        volume_down: false,
        toggle_pause: false,
    }
}

impl Actions {
    pub fn none() -> (a: Actions)
        ensures
            a == spec_actions_none(),
    {
        Actions {
            stop_scan: false,
            play_file: Option::None,
            connect: Option::None,
            set_wifi: Option::None,
            volume_up: false,
            volume_down: false,
            toggle_pause: false,
        }
    }
}

/// Whether the raw level at `i` is an edge: active now, not held before.
pub open spec fn spec_edge(levels: Seq<bool>, before: Buttons, i: int) -> bool {
    levels[i] && !before.states@[i].held
}

/// The tab after one tick's left/right edges.
pub open spec fn spec_tab_after(t: Tab, left: bool, right: bool) -> Tab {
    if left {
        t.spec_prev()
    } else if right {
        t.spec_next()
    } else {
        t
    }
}

/// The aggregate UI state: the framebuffer, the two input state machines,
/// the accessory and file lists with their navigation, the active tab, the
/// player snapshot, and the marquee counters.
pub struct State {
    pub display: Display,
    pub joystick: Joystick,
    pub buttons: Buttons,
    pub devices: Vec<Device>,
    pub open_tab: Tab,
    pub ip: String,
    pub audio_files: Vec<AudioFile>,
    pub file_nav: ListNav,
    pub bt_nav: ListNav,
    pub running: bool,
    pub max_len: usize,
    pub player_status: PlayerStatus,
    pub system_volume: u8,
    pub track_position: u32,
    pub track_duration: u32,
    pub filename_scroll_offset: usize,
    pub filename_scroll_counter: u32,
    pub wifi_enabled: bool,
}

/// The marquee counters after one tick: they advance only while a too-long
/// filename is shown, reset while a short one is, and stay put with none.
pub open spec fn spec_marquee_tick(st: State) -> (int, int) {
    match st.player_status.current_file {
        Option::Some(f) => if f@.len() > MAX_CHARS {
            spec_marquee_step(
                st.filename_scroll_offset as int,
                st.filename_scroll_counter as int,
                f@.len() as int + 5,
            )
        } else {
            (0int, 0int)
        },
        Option::None => (st.filename_scroll_offset as int, st.filename_scroll_counter as int),
    }
}

impl State {
    /// The state invariant: the framebuffer and input tables are well
    /// formed, each navigation state satisfies the navigation invariant and
    /// tracks its list's length with the fixed window height, and the
    /// marquee counters stay inside their cycle.
    pub open spec fn wf(&self) -> bool {
        &&& self.display.wf()
        &&& self.buttons.wf()
        &&& self.file_nav.wf()
        &&& self.bt_nav.wf()
        &&& self.file_nav.visible_count == VISIBLE_ROWS
        &&& self.bt_nav.visible_count == VISIBLE_ROWS
        &&& self.file_nav.item_count == self.audio_files@.len()
        &&& self.bt_nav.item_count == self.devices@.len()
        &&& self.audio_files@.len() <= 0x7fff_ffff
        &&& self.devices@.len() <= 0x7fff_ffff
        &&& self.max_len == MAX_CHARS
        &&& self.filename_scroll_counter < 15
        &&& match self.player_status.current_file {
            Option::Some(f) => f@.len() <= 0x0010_0000 && (if f@.len() > MAX_CHARS {
                self.filename_scroll_offset < f@.len() + 5
            } else {
                self.filename_scroll_offset == 0
            }),
            Option::None => true,
        }
    }

    /// The startup state: Files tab open, both lists at the top, player
    /// idle, volume at the 50 percent default, radio assumed on, marquee at
    /// rest, framebuffer dark, all inputs released.
    pub fn new(audio_files: Vec<AudioFile>, ip: String) -> (st: State)
        requires
            audio_files@.len() <= 0x7fff_ffff,
        ensures
            st.wf(),
            st.open_tab == Tab::Files,
            st.running,
            st.ip == ip,
            st.audio_files == audio_files,
            st.devices@.len() == 0,
            st.file_nav == (ListNav {
                cursor: 0,
                scroll: 0,
                visible_count: VISIBLE_ROWS as usize,
                item_count: audio_files@.len() as usize,
            }),
            st.bt_nav == (ListNav {
                cursor: 0,
                scroll: 0,
                visible_count: VISIBLE_ROWS as usize,
                item_count: 0,
            }),
            !st.player_status.is_playing,
            st.player_status.current_file is None,
            st.system_volume == 50,
            st.track_position == 0,
            st.track_duration == 0,
            st.filename_scroll_offset == 0,
            st.filename_scroll_counter == 0,
            st.wifi_enabled,
            st.max_len == MAX_CHARS,
            forall|x: int, y: int|
                0 <= x < crate::display::WIDTH && 0 <= y < crate::display::HEIGHT
                    ==> !st.display.pixel(x, y),
            st.joystick.last_state == JoyState::Neutral,
            !st.joystick.just_switched,
            forall|i: int|
                0 <= i < BUTTON_COUNT ==> st.buttons.states@[i] == (EdgeState {
                    held: false,
                    just_pressed: false,
                }),
    {
        let count = audio_files.len();
        let display = Display::new();
        proof {
            assert forall|x: int, y: int|
                0 <= x < crate::display::WIDTH && 0 <= y < crate::display::HEIGHT implies !display.pixel(
                x,
                y,
            ) by {
                crate::display::lemma_byte_index_range(x, y);
                let k = (y % 8) as u8;
                assert(0x00u8 >> k & 1u8 == 0u8) by (bit_vector)
                    requires
                        k < 8,
                ;
            }
        }
        State {
            display,
            joystick: Joystick::new(),
            buttons: Buttons::new(),
            devices: Vec::new(),
            open_tab: Tab::Files,
            ip,
            audio_files,
            file_nav: ListNav::new(VISIBLE_ROWS, count),
            bt_nav: ListNav::new(VISIBLE_ROWS, 0),
            running: true,
            max_len: MAX_CHARS,
            player_status: PlayerStatus { is_playing: false, current_file: Option::None },
            system_volume: 50,
            track_position: 0,
            track_duration: 0,
            filename_scroll_offset: 0,
            filename_scroll_counter: 0,
            wifi_enabled: true,
        }
    }

    /// Fold an accessory status event in: the list is replaced wholesale by
    /// the named entries of the snapshot (unnamed entries are kept out of
    /// the displayed list), and the accessory navigation is clamped to the
    /// new length.
    pub fn handle_bluetooth_event(&mut self, event: BluetoothEvent)
        requires
            old(self).wf(),
            match event {
                BluetoothEvent::Scan(list) => list@.len() <= 0x7fff_ffff,
            },
        ensures
            final(self).wf(),
            match event {
                BluetoothEvent::Scan(list) => {
                    &&& final(self).devices@ == list@.filter(|d: Device| d.name@.len() > 0)
                    &&& final(self).bt_nav == spec_set_count(
                        old(self).bt_nav,
                        final(self).devices@.len() as int,
                    )
                    &&& *final(self) == (State {
                        devices: final(self).devices,
                        bt_nav: final(self).bt_nav,
                        ..*old(self)
                    })
                },
            },
    {
        match event {
            BluetoothEvent::Scan(list) => {
                let mut kept: Vec<Device> = Vec::new();
                let mut i: usize = 0;
                proof {
                    reveal(Seq::filter);
                    assert(kept@ =~= list@.take(0).filter(|d: Device| d.name@.len() > 0));
                }
                while i < list.len()
                    invariant
                        i <= list@.len(),
                        kept@.len() <= i,
                        kept@ == list@.take(i as int).filter(|d: Device| d.name@.len() > 0),
                    decreases list@.len() - i,
                {
                    proof {
                        reveal(Seq::filter);
                        assert(list@.take(i + 1).drop_last() =~= list@.take(i as int));
                        assert(list@.take(i + 1).last() == list@[i as int]);
                    }
                    if !list[i].name.as_str().is_empty() {
                        kept.push(list[i].clone());
                    }
                    i = i + 1;
                }
                proof {
                    assert(list@.take(list@.len() as int) =~= list@);
                }
                let n = kept.len();
                self.devices = kept;
                self.bt_nav.set_item_count(n);
            },
        }
    }

    /// Fold a playback status event in: a status snapshot replaces the
    /// player fields wholesale, and the marquee counters restart whenever
    /// the filename changed; an error event changes nothing here.
    pub fn handle_mpv_event(&mut self, event: MpvEvent)
        requires
            old(self).wf(),
            match event {
                MpvEvent::StatusUpdate { filename: Option::Some(f), .. } => f@.len()
                    <= 0x0010_0000,
                _ => true,
            },
        ensures
            final(self).wf(),
            match event {
                MpvEvent::Error(_) => *final(self) == *old(self),
                MpvEvent::StatusUpdate { is_playing, position, duration, filename } => {
                    &&& final(self).player_status.is_playing == is_playing
                    &&& final(self).player_status.current_file == filename
                    &&& final(self).track_position == position
                    &&& final(self).track_duration == duration
                    &&& if spec_same_file(old(self).player_status.current_file, filename) {
                        final(self).filename_scroll_offset == old(self).filename_scroll_offset
                            && final(self).filename_scroll_counter
                            == old(self).filename_scroll_counter
                    } else {
                        final(self).filename_scroll_offset == 0
                            && final(self).filename_scroll_counter == 0
                    }
                    &&& *final(self) == (State {
                        player_status: final(self).player_status,
                        track_position: position,
                        track_duration: duration,
                        filename_scroll_offset: final(self).filename_scroll_offset,
                        filename_scroll_counter: final(self).filename_scroll_counter,
                        ..*old(self)
                    })
                },
            },
    {
        match event {
            MpvEvent::Error(_) => {
            },
            MpvEvent::StatusUpdate { is_playing, position, duration, filename } => {
                if !same_file(&self.player_status.current_file, &filename) {
                    self.filename_scroll_offset = 0;
                    self.filename_scroll_counter = 0;
                }
                self.player_status.is_playing = is_playing;
                self.player_status.current_file = filename;
                self.track_position = position;
                self.track_duration = duration;
            },
        }
    }

    /// Take one volume reading: a reading replaces the shown percentage, a
    /// failed reading leaves it.
    pub fn set_system_volume(&mut self, volume: Option<u8>)
        requires
            old(self).wf(),
        ensures
            final(self).wf(),
            *final(self) == (State {
                system_volume: match volume {
                    Option::Some(v) => v,
                    Option::None => old(self).system_volume,
                },
                ..*old(self)
            }),
    {
        match volume {
            Option::Some(v) => {
                self.system_volume = v;
            },
            Option::None => {
            },
        }
    }

    /// Take one radio reading: a reading replaces the shown state, a failed
    /// reading leaves it.
    pub fn set_wifi_status(&mut self, status: Option<bool>)
        requires
            old(self).wf(),
        ensures
            final(self).wf(),
            *final(self) == (State {
                wifi_enabled: match status {
                    Option::Some(b) => b,
                    Option::None => old(self).wifi_enabled,
                },
                ..*old(self)
            }),
    {
        match status {
            Option::Some(b) => {
                self.wifi_enabled = b;
            },
            Option::None => {
            },
        }
    }

    /// Advance the marquee one tick.
    pub fn update_filename_scroll(&mut self)
        requires
            old(self).wf(),
        ensures
            final(self).wf(),
            *final(self) == (State {
                filename_scroll_offset: spec_marquee_tick(*old(self)).0 as usize,
                filename_scroll_counter: spec_marquee_tick(*old(self)).1 as u32,
                ..*old(self)
            }),
    {
        let n_opt: Option<usize> = match &self.player_status.current_file {
            Option::Some(f) => Option::Some(f.unicode_len()),
            Option::None => Option::None,
        };
        match n_opt {
            Option::Some(n) => {
                if n > self.max_len {
                    self.filename_scroll_counter = self.filename_scroll_counter + 1;
                    if self.filename_scroll_counter >= 15 {
                        self.filename_scroll_counter = 0;
                        self.filename_scroll_offset = self.filename_scroll_offset + 1;
                        let ext = n + 5;
                        if self.filename_scroll_offset >= ext {
                            self.filename_scroll_offset = 0;
                        }
                    }
                } else {
                    self.filename_scroll_offset = 0;
                    self.filename_scroll_counter = 0;
                }
            },
            Option::None => {
            },
        }
    }

    /// One tick's input handling. Folds the raw button and joystick levels
    /// into the edge state machines, then: an exit-button edge stops the
    /// loop and asks for nothing; otherwise the marquee advances, a left or
    /// right edge moves the tab, an up or down edge moves the active tab's
    /// cursor (Files, Accessories) or asks for a volume step (Player), and a
    /// primary-button edge asks for the active tab's primary action. The
    /// decisions use the tab that was open when the tick began.
    pub fn update(&mut self, button_levels: &Vec<bool>, joystick_levels: &Vec<bool>) -> (acts:
        Actions)
        requires
            old(self).wf(),
            button_levels@.len() == BUTTON_COUNT,
            joystick_levels@.len() == 5,
        ensures
            final(self).wf(),
            forall|i: int|
                0 <= i < BUTTON_COUNT ==> (#[trigger] final(self).buttons.states@[i]) == (EdgeState {
                    held: button_levels@[i],
                    just_pressed: spec_edge(button_levels@, old(self).buttons, i),
                }),
            final(self).joystick.last_state == spec_resolve(
                joystick_levels@[0],
                joystick_levels@[1],
                joystick_levels@[2],
                joystick_levels@[3],
                joystick_levels@[4],
            ),
            final(self).joystick.just_switched
                == (final(self).joystick.last_state != old(self).joystick.last_state),
            final(self).display == old(self).display,
            final(self).devices == old(self).devices,
            final(self).audio_files == old(self).audio_files,
            final(self).ip == old(self).ip,
            final(self).max_len == old(self).max_len,
            final(self).player_status == old(self).player_status,
            final(self).system_volume == old(self).system_volume,
            final(self).track_position == old(self).track_position,
            final(self).track_duration == old(self).track_duration,
            final(self).wifi_enabled == old(self).wifi_enabled,
            ({
                let exit = spec_edge(button_levels@, old(self).buttons, 2);
                let prev = old(self).joystick.last_state;
                let js = spec_resolve(
                    joystick_levels@[0],
                    joystick_levels@[1],
                    joystick_levels@[2],
                    joystick_levels@[3],
                    joystick_levels@[4],
                );
                let swl = js == JoyState::Left && js != prev;
                let swr = js == JoyState::Right && js != prev;
                let swu = js == JoyState::Up && js != prev;
                let swd = js == JoyState::Down && js != prev;
                let b1 = spec_edge(button_levels@, old(self).buttons, 0);
                let tab = old(self).open_tab;
                if exit {
                    &&& !final(self).running
                    &&& final(self).open_tab == tab
                    &&& final(self).file_nav == old(self).file_nav
                    &&& final(self).bt_nav == old(self).bt_nav
                    &&& final(self).filename_scroll_offset == old(self).filename_scroll_offset
                    &&& final(self).filename_scroll_counter == old(self).filename_scroll_counter
                    &&& acts == spec_actions_none()
                } else {
                    &&& final(self).running == old(self).running
                    &&& final(self).filename_scroll_offset == spec_marquee_tick(
                        *old(self),
                    ).0 as usize
                    &&& final(self).filename_scroll_counter == spec_marquee_tick(
                        *old(self),
                    ).1 as u32
                    &&& final(self).open_tab == spec_tab_after(tab, swl, swr)
                    &&& final(self).file_nav == (if tab == Tab::Files {
                        if swu {
                            spec_move(old(self).file_nav, -1)
                        } else if swd {
                            spec_move(old(self).file_nav, 1)
                        } else {
                            old(self).file_nav
                        }
                    } else {
                        old(self).file_nav
                    })
                    &&& final(self).bt_nav == (if tab == Tab::Bluetooth {
                        if swu {
                            spec_move(old(self).bt_nav, -1)
                        } else if swd {
                            spec_move(old(self).bt_nav, 1)
                        } else {
                            old(self).bt_nav
                        }
                    } else {
                        old(self).bt_nav
                    })
                    &&& acts.stop_scan == (tab == Tab::Files && b1
                        && old(self).audio_files@.len() > 0)
                    &&& acts.play_file == (if tab == Tab::Files && b1
                        && old(self).audio_files@.len() > 0 {
                        Option::Some(
                            old(self).audio_files@[final(self).file_nav.cursor as int].path,
                        )
                    } else {
                        Option::None
                    })
                    &&& acts.connect == (if tab == Tab::Bluetooth && b1
                        && old(self).devices@.len() > 0 {
                        Option::Some(old(self).devices@[final(self).bt_nav.cursor as int])
                    } else {
                        Option::None
                    })
                    &&& acts.set_wifi == (if tab == Tab::Network && b1 {
                        Option::Some(!old(self).wifi_enabled)
                    } else {
                        Option::None
                    })
                    &&& acts.volume_up == (tab == Tab::Player && swu)
                    &&& acts.volume_down == (tab == Tab::Player && swd)
                    &&& acts.toggle_pause == (tab == Tab::Player && b1)
                }
            }),
    {
        self.buttons.update(button_levels);
        let _ = self.joystick.update(
            joystick_levels[0],
            joystick_levels[1],
            joystick_levels[2],
            joystick_levels[3],
            joystick_levels[4],
        );
        let mut acts = Actions::none();
        if self.buttons.is_button_pressed(Button::B3) {
            self.running = false;
            return acts;
        }
        self.update_filename_scroll();
        let tab = self.open_tab;
        match tab {
            Tab::Files => {
                if self.joystick.just_switched_to(JoyState::Left) {
                    self.open_tab = tab.prev();
                }
                if self.joystick.just_switched_to(JoyState::Right) {
                    self.open_tab = tab.next();
                }
                if self.joystick.just_switched_to(JoyState::Up) {
                    self.file_nav.move_cursor(-1);
                }
                if self.joystick.just_switched_to(JoyState::Down) {
                    self.file_nav.move_cursor(1);
                }
                if self.buttons.is_button_pressed(Button::B1) {
                    if self.file_nav.item_count > 0 {
                        acts.stop_scan = true;
                        acts.play_file = Option::Some(
                            self.audio_files[self.file_nav.cursor].path.clone(),
                        );
                    }
                }
            },
            Tab::Network => {
                if self.joystick.just_switched_to(JoyState::Left) {
                    self.open_tab = tab.prev();
                }
                if self.joystick.just_switched_to(JoyState::Right) {
                    self.open_tab = tab.next();
                }
                if self.buttons.is_button_pressed(Button::B1) {
                    acts.set_wifi = Option::Some(!self.wifi_enabled);
                }
            },
            Tab::Bluetooth => {
                if self.joystick.just_switched_to(JoyState::Left) {
                    self.open_tab = tab.prev();
                }
                if self.joystick.just_switched_to(JoyState::Right) {
                    self.open_tab = tab.next();
                }
                if self.joystick.just_switched_to(JoyState::Up) {
                    self.bt_nav.move_cursor(-1);
                }
                if self.joystick.just_switched_to(JoyState::Down) {
                    self.bt_nav.move_cursor(1);
                }
                if self.buttons.is_button_pressed(Button::B1) {
                    if self.bt_nav.item_count > 0 {
                        acts.connect = Option::Some(self.devices[self.bt_nav.cursor].clone());
                    }
                }
            },
            Tab::Player => {
                if self.joystick.just_switched_to(JoyState::Left) {
                    self.open_tab = tab.prev();
                }
                if self.joystick.just_switched_to(JoyState::Right) {
                    self.open_tab = tab.next();
                }
                if self.joystick.just_switched_to(JoyState::Up) {
                    acts.volume_up = true;
                }
                if self.joystick.just_switched_to(JoyState::Down) {
                    acts.volume_down = true;
                }
                if self.buttons.is_button_pressed(Button::B1) {
                    acts.toggle_pause = true;
                }
            },
        }
        acts
    }
}

/// One text run for the renderer outside the library: where it starts, what
/// it says, and whether it is drawn dark-on-light (the highlighted row).
#[derive(Debug)]
pub struct TextOp {
    pub x: i32,
    pub y: i32,
    pub text: String,
    pub inverted: bool,
}

/// The mathematical value of a text run.
pub struct TextOpView {
    pub x: int,
    pub y: int,
    pub text: Seq<char>,
    pub inverted: bool,
}

impl View for TextOp {
    type V = TextOpView;

    open spec fn view(&self) -> TextOpView {
        TextOpView { x: self.x as int, y: self.y as int, text: self.text@, inverted: self.inverted }
    }
}

/// The values of a list of text runs, in order.
pub open spec fn spec_views(ops: Seq<TextOp>) -> Seq<TextOpView> {
    Seq::new(ops.len(), |i: int| ops[i]@)
}

/// The first `m` characters of `s`, or all of `s` when it is short enough.
pub open spec fn spec_clip(s: Seq<char>, m: int) -> Seq<char> {
    if s.len() <= m {
        s
    } else {
        s.take(m)
    }
}

/// Rows of the file list that fit in the window.
pub open spec fn spec_files_rows(st: State) -> int {
    let n = st.audio_files@.len() as int;
    let lo = st.file_nav.scroll as int;
    if n - lo < VISIBLE_ROWS {
        n - lo
    } else {
        VISIBLE_ROWS as int
    }
}

/// The file list's text runs: one clipped name per visible row, the
/// cursor's row inverted.
pub open spec fn spec_files_ops(st: State) -> Seq<TextOpView> {
    Seq::new(
        spec_files_rows(st) as nat,
        |r: int|
            TextOpView {
                x: 0,
                y: HEADER_HEIGHT + r * FONT_HEIGHT,
                text: spec_clip(st.audio_files@[st.file_nav.scroll + r].name@, MAX_CHARS as int),
                inverted: st.file_nav.scroll + r == st.file_nav.cursor,
            },
    )
}

/// The status marker: `o` when a flag is up, `x` when it is down.
pub open spec fn spec_flag_char(b: bool) -> char {
    if b {
        'o'
    } else {
        'x'
    }
}

/// An accessory's row: its name clipped to the line, padded with spaces,
/// with the last three columns showing the connected, trusted and paired
/// markers in that order.
pub open spec fn spec_device_label(
    name: Seq<char>,
    connected: bool,
    trusted: bool,
    paired: bool,
) -> Seq<char> {
    let base = spec_clip(name, MAX_CHARS as int);
    let padded = base + Seq::new((MAX_CHARS - base.len()) as nat, |i: int| ' ');
    padded.update((MAX_CHARS - 3) as int, spec_flag_char(connected)).update(
        (MAX_CHARS - 2) as int,
        spec_flag_char(trusted),
    ).update((MAX_CHARS - 1) as int, spec_flag_char(paired))
}

/// Rows of the accessory list that fit in the window.
pub open spec fn spec_bt_rows(st: State) -> int {
    let n = st.devices@.len() as int;
    let lo = st.bt_nav.scroll as int;
    if n - lo < VISIBLE_ROWS {
        n - lo
    } else {
        VISIBLE_ROWS as int
    }
}

/// The accessory list's text runs: one labelled row per visible accessory,
/// the cursor's row inverted.
pub open spec fn spec_bt_ops(st: State) -> Seq<TextOpView> {
    Seq::new(
        spec_bt_rows(st) as nat,
        |r: int|
            TextOpView {
                x: 0,
                y: HEADER_HEIGHT + r * FONT_HEIGHT,
                text: spec_device_label(
                    st.devices@[st.bt_nav.scroll + r].name@,
                    st.devices@[st.bt_nav.scroll + r].connected,
                    st.devices@[st.bt_nav.scroll + r].trusted,
                    st.devices@[st.bt_nav.scroll + r].paired,
                ),
                inverted: st.bt_nav.scroll + r == st.bt_nav.cursor,
            },
    )
}

/// The network tab's text runs: the address line, the radio state line, and
/// the button hint.
pub open spec fn spec_network_ops(st: State) -> Seq<TextOpView> {
    seq![
        TextOpView { x: 0, y: 10, text: "IP: "@ + st.ip@, inverted: false },
        TextOpView {
            x: 0,
            y: 20,
            text: "WiFi: "@ + (if st.wifi_enabled {
                "ON"@
            } else {
                "OFF"@
            }),
            inverted: false,
        },
        TextOpView { x: 0, y: 40, text: "B1: Toggle WiFi"@, inverted: false },
    ]
}

/// The elapsed / total line, minutes and zero-padded seconds.
pub open spec fn spec_progress_text(pos: u32, dur: u32) -> Seq<char> {
    spec_dec(pos as int / 60) + ":"@ + spec_dec_two(pos as int % 60) + " / "@ + spec_dec(
        dur as int / 60,
    ) + ":"@ + spec_dec_two(dur as int % 60)
}

/// The player tab's text runs: the playing line, the volume line, the
/// progress line while a duration is known, and the (possibly marquee'd)
/// filename while one is known.
pub open spec fn spec_player_ops(st: State) -> Seq<TextOpView> {
    let base = seq![
        TextOpView {
            x: 0,
            y: 10,
            text: if st.player_status.is_playing {
                "Playing"@
            } else {
                "Paused"@
            },
            inverted: false,
        },
        TextOpView {
            x: 0,
            y: 20,
            text: "Vol: "@ + spec_dec(st.system_volume as int) + "%"@,
            inverted: false,
        },
    ];
    let with_progress = if st.track_duration > 0 {
        base.push(
            TextOpView {
                x: 0,
                y: 30,
                text: spec_progress_text(st.track_position, st.track_duration),
                inverted: false,
            },
        )
    } else {
        base
    };
    match st.player_status.current_file {
        Option::Some(f) => with_progress.push(
            TextOpView {
                x: 0,
                y: 40,
                text: spec_window(f@, st.filename_scroll_offset as int, MAX_CHARS as int),
                inverted: false,
            },
        ),
        Option::None => with_progress,
    }
}

/// The header's label text.
pub open spec fn spec_tab_label(t: Tab) -> Seq<char> {
    match t {
        Tab::Files => "Files"@,
        Tab::Network => "Network"@,
        Tab::Bluetooth => "Bluetooth"@,
        Tab::Player => "Player"@,
    }
}

/// The persistent header: the two arrows at the extreme columns and the
/// centered tab label.
pub open spec fn spec_header_ops(t: Tab) -> Seq<TextOpView> {
    seq![
        TextOpView { x: 0, y: 0, text: "<"@, inverted: false },
        TextOpView { x: 123, y: 0, text: ">"@, inverted: false },
        TextOpView {
            x: (128 - spec_tab_label(t).len() as int * 5) / 2,
            y: 0,
            text: spec_tab_label(t),
            inverted: false,
        },
    ]
}

/// The active tab's content runs.
pub open spec fn spec_content_ops(st: State) -> Seq<TextOpView> {
    match st.open_tab {
        Tab::Files => spec_files_ops(st),
        Tab::Network => spec_network_ops(st),
        Tab::Bluetooth => spec_bt_ops(st),
        Tab::Player => spec_player_ops(st),
    }
}

/// Everything one frame says: the content runs, then the header runs.
pub open spec fn spec_draw_ops(st: State) -> Seq<TextOpView> {
    spec_content_ops(st) + spec_header_ops(st.open_tab)
}

/// Top pixel row of the highlighted band.
pub open spec fn spec_band_y0(nav: ListNav) -> int {
    HEADER_HEIGHT + (nav.cursor - nav.scroll) * FONT_HEIGHT
}

/// The new framebuffer equals the old with exactly the full-width 9-pixel
/// band at `y0` lit.
pub open spec fn spec_row_band_set(d_old: Display, d_new: Display, y0: int) -> bool {
    &&& d_new.wf()
    &&& forall|x: int, y: int| 0 <= x < 128 && y0 <= y < y0 + 9 ==> #[trigger] d_new.pixel(x, y)
    &&& forall|x: int, y: int|
        0 <= x < 128 && 0 <= y < 64 && !(y0 <= y < y0 + 9) ==> #[trigger] d_new.pixel(x, y)
            == d_old.pixel(x, y)
}

/// What one frame does to the framebuffer: the list tabs light the
/// highlighted row's band when their list is non-empty; everything else
/// leaves the framebuffer alone (text is rendered outside the library).
pub open spec fn spec_draw_display(st_old: State, d_new: Display) -> bool {
    match st_old.open_tab {
        Tab::Files => if st_old.audio_files@.len() > 0 {
            spec_row_band_set(st_old.display, d_new, spec_band_y0(st_old.file_nav))
        } else {
            d_new == st_old.display
        },
        Tab::Bluetooth => if st_old.devices@.len() > 0 {
            spec_row_band_set(st_old.display, d_new, spec_band_y0(st_old.bt_nav))
        } else {
            d_new == st_old.display
        },
        _ => d_new == st_old.display,
    }
}

/// Build an accessory's display row.
pub fn device_label(name: &String, connected: bool, trusted: bool, paired: bool) -> (out: String)
    ensures
        out@ == spec_device_label(name@, connected, trusted, paired),
{
    let chars = str_chars(name.as_str());
    let n = chars.len();
    let take_n: usize = if n > MAX_CHARS {
        MAX_CHARS
    } else {
        n
    };
    let mut label: Vec<char> = Vec::new();
    let mut i: usize = 0;
    while i < take_n
        invariant
            take_n <= chars@.len(),
            i <= take_n,
            label@ =~= chars@.take(take_n as int).take(i as int),
        decreases take_n - i,
    {
        label.push(chars[i]);
        i = i + 1;
        proof {
            assert(label@ =~= chars@.take(take_n as int).take(i as int));
        }
    }
    proof {
        assert(chars@.take(take_n as int).take(take_n as int) =~= chars@.take(take_n as int));
        assert(label@ =~= spec_clip(name@, MAX_CHARS as int));
    }
    let ghost base = label@;
    while label.len() < MAX_CHARS
        invariant
            base =~= spec_clip(name@, MAX_CHARS as int),
            base.len() <= MAX_CHARS,
            base.len() <= label@.len() <= MAX_CHARS,
            label@ =~= base + Seq::new((label@.len() - base.len()) as nat, |k: int| ' '),
        decreases MAX_CHARS - label@.len(),
    {
        label.push(' ');
        proof {
            assert(label@ =~= base + Seq::new((label@.len() - base.len()) as nat, |k: int| ' '));
        }
    }
    label.set(MAX_CHARS - 3, if connected {
        'o'
    } else {
        'x'
    });
    label.set(MAX_CHARS - 2, if trusted {
        'o'
    } else {
        'x'
    });
    label.set(MAX_CHARS - 1, if paired {
        'o'
    } else {
        'x'
    });
    proof {
        assert(label@ =~= spec_device_label(name@, connected, trusted, paired));
    }
    chars_to_string(&label)
}

impl State {
    /// Lay out the file list: the visible rows' clipped names, and the
    /// highlight band under the cursor's row.
    pub fn draw_files_tab(&mut self) -> (ops: Vec<TextOp>)
        requires
            old(self).wf(),
        ensures
            final(self).wf(),
            *final(self) == (State { display: final(self).display, ..*old(self) }),
            spec_views(ops@) == spec_files_ops(*old(self)),
            if old(self).audio_files@.len() > 0 {
                spec_row_band_set(
                    old(self).display,
                    final(self).display,
                    spec_band_y0(old(self).file_nav),
                )
            } else {
                final(self).display == old(self).display
            },
    {
        let lo = self.file_nav.scroll;
        let n = self.audio_files.len();
        let rows: usize = if n - lo < VISIBLE_ROWS {
            n - lo
        } else {
            VISIBLE_ROWS
        };
        let cursor = self.file_nav.cursor;
        let mut ops: Vec<TextOp> = Vec::new();
        let mut r: usize = 0;
        while r < rows
            invariant
                self.file_nav == old(self).file_nav,
                self.audio_files == old(self).audio_files,
                lo == self.file_nav.scroll,
                cursor == self.file_nav.cursor,
                n == self.audio_files@.len(),
                rows == spec_files_rows(*old(self)),
                lo + rows <= n,
                r <= rows,
                old(self).wf(),
                self.display.wf(),
                n > 0 ==> lo <= cursor < lo + rows,
                ops@.len() == r,
                forall|k: int| 0 <= k < r ==> #[trigger] ops@[k]@ == spec_files_ops(*old(self))[k],
                if n > 0 && r > cursor - lo {
                    spec_row_band_set(
                        old(self).display,
                        self.display,
                        spec_band_y0(old(self).file_nav),
                    )
                } else {
                    self.display == old(self).display
                },
                *self == (State { display: self.display, ..*old(self) }),
            decreases rows - r,
        {
            let idx = lo + r;
            let inverted = idx == cursor;
            if inverted {
                let y: u8 = (HEADER_HEIGHT + r * FONT_HEIGHT) as u8;
                self.display.draw_rect(0, y, 128, 9, true);
            }
            let name = &self.audio_files[idx].name;
            let clipped: String = if name.unicode_len() > MAX_CHARS {
                name.as_str().substring_char(0, MAX_CHARS).to_owned()
            } else {
                name.clone()
            };
            ops.push(
                TextOp {
                    x: 0,
                    y: (HEADER_HEIGHT + r * FONT_HEIGHT) as i32,
                    text: clipped,
                    inverted,
                },
            );
            r = r + 1;
        }
        proof {
            assert(spec_views(ops@) =~~= spec_files_ops(*old(self)));
        }
        ops
    }

    /// Lay out the accessory list: the visible rows' labels, and the
    /// highlight band under the cursor's row.
    pub fn draw_bluetooth_tab(&mut self) -> (ops: Vec<TextOp>)
        requires
            old(self).wf(),
        ensures
            final(self).wf(),
            *final(self) == (State { display: final(self).display, ..*old(self) }),
            spec_views(ops@) == spec_bt_ops(*old(self)),
            if old(self).devices@.len() > 0 {
                spec_row_band_set(
                    old(self).display,
                    final(self).display,
                    spec_band_y0(old(self).bt_nav),
                )
            } else {
                final(self).display == old(self).display
            },
    {
        let lo = self.bt_nav.scroll;
        let n = self.devices.len();
        let rows: usize = if n - lo < VISIBLE_ROWS {
            n - lo
        } else {
            VISIBLE_ROWS
        };
        let cursor = self.bt_nav.cursor;
        let mut ops: Vec<TextOp> = Vec::new();
        let mut r: usize = 0;
        while r < rows
            invariant
                self.bt_nav == old(self).bt_nav,
                self.devices == old(self).devices,
                lo == self.bt_nav.scroll,
                cursor == self.bt_nav.cursor,
                n == self.devices@.len(),
                rows == spec_bt_rows(*old(self)),
                lo + rows <= n,
                r <= rows,
                old(self).wf(),
                self.display.wf(),
                n > 0 ==> lo <= cursor < lo + rows,
                ops@.len() == r,
                forall|k: int| 0 <= k < r ==> #[trigger] ops@[k]@ == spec_bt_ops(*old(self))[k],
                if n > 0 && r > cursor - lo {
                    spec_row_band_set(
                        old(self).display,
                        self.display,
                        spec_band_y0(old(self).bt_nav),
                    )
                } else {
                    self.display == old(self).display
                },
                *self == (State { display: self.display, ..*old(self) }),
            decreases rows - r,
        {
            let idx = lo + r;
            let inverted = idx == cursor;
            if inverted {
                let y: u8 = (HEADER_HEIGHT + r * FONT_HEIGHT) as u8;
                self.display.draw_rect(0, y, 128, 9, true);
            }
            let d = &self.devices[idx];
            let label = device_label(&d.name, d.connected, d.trusted, d.paired);
            ops.push(
                TextOp { x: 0, y: (HEADER_HEIGHT + r * FONT_HEIGHT) as i32, text: label, inverted },
            );
            r = r + 1;
        }
        proof {
            assert(spec_views(ops@) =~~= spec_bt_ops(*old(self)));
        }
        ops
    }

    /// Lay out the network tab: the address, the radio state, and the
    /// button hint.
    pub fn draw_network_tab(&self) -> (ops: Vec<TextOp>)
        ensures
            spec_views(ops@) == spec_network_ops(*self),
    {
        let mut ops: Vec<TextOp> = Vec::new();
        let mut ip_label: String = "IP: ".to_owned();
        ip_label.append(self.ip.as_str());
        ops.push(TextOp { x: 0, y: 10, text: ip_label, inverted: false });
        let mut wifi_label: String = "WiFi: ".to_owned();
        if self.wifi_enabled {
            wifi_label.append("ON");
        } else {
            wifi_label.append("OFF");
        }
        ops.push(TextOp { x: 0, y: 20, text: wifi_label, inverted: false });
        ops.push(TextOp { x: 0, y: 40, text: "B1: Toggle WiFi".to_owned(), inverted: false });
        proof {
            assert(spec_views(ops@) =~~= spec_network_ops(*self));
        }
        ops
    }

    /// Lay out the player tab: the playing line, the volume line, the
    /// progress line while a duration is known, and the filename (scrolled
    /// when it is too wide) while one is known.
    pub fn draw_player_tab(&self) -> (ops: Vec<TextOp>)
        requires
            self.wf(),
        ensures
            spec_views(ops@) == spec_player_ops(*self),
    {
        let mut ops: Vec<TextOp> = Vec::new();
        let status: String = if self.player_status.is_playing {
            "Playing".to_owned()
        } else {
            "Paused".to_owned()
        };
        ops.push(TextOp { x: 0, y: 10, text: status, inverted: false });
        let mut vol_label: String = "Vol: ".to_owned();
        let vol_digits = chars_to_string(&u32_to_dec(self.system_volume as u32));
        vol_label.append(vol_digits.as_str());
        vol_label.append("%");
        ops.push(TextOp { x: 0, y: 20, text: vol_label, inverted: false });
        if self.track_duration > 0 {
            let mut progress: String = chars_to_string(
                &u32_to_dec(self.track_position / 60),
            );
            progress.append(":");
            let s1 = chars_to_string(&u32_to_dec_two(self.track_position % 60));
            progress.append(s1.as_str());
            progress.append(" / ");
            let s2 = chars_to_string(&u32_to_dec(self.track_duration / 60));
            progress.append(s2.as_str());
            progress.append(":");
            let s3 = chars_to_string(&u32_to_dec_two(self.track_duration % 60));
            progress.append(s3.as_str());
            proof {
                assert(progress@ =~= spec_progress_text(
                    self.track_position,
                    self.track_duration,
                ));
            }
            ops.push(TextOp { x: 0, y: 30, text: progress, inverted: false });
        }
        match &self.player_status.current_file {
            Option::Some(f) => {
                let shown = scrolling_text(f.as_str(), self.filename_scroll_offset, MAX_CHARS);
                ops.push(TextOp { x: 0, y: 40, text: shown, inverted: false });
            },
            Option::None => {
            },
        }
        proof {
            assert(spec_views(ops@) =~~= spec_player_ops(*self));
        }
        ops
    }

    /// Lay out one whole frame: the active tab's content, then the header
    /// with the centered tab name and the two arrows. The list tabs light
    /// their cursor band in the framebuffer; the text runs go to the
    /// renderer outside the library.
    pub fn draw(&mut self) -> (ops: Vec<TextOp>)
        requires
            old(self).wf(),
        ensures
            final(self).wf(),
            *final(self) == (State { display: final(self).display, ..*old(self) }),
            spec_views(ops@) == spec_draw_ops(*old(self)),
            spec_draw_display(*old(self), final(self).display),
    {
        let tab = self.open_tab;
        let mut ops: Vec<TextOp> = match tab {
            Tab::Files => self.draw_files_tab(),
            Tab::Network => self.draw_network_tab(),
            Tab::Bluetooth => self.draw_bluetooth_tab(),
            Tab::Player => self.draw_player_tab(),
        };
        let ghost content = ops@;
        proof {
            assert(spec_views(content) == spec_content_ops(*old(self)));
        }
        ops.push(TextOp { x: 0, y: 0, text: "<".to_owned(), inverted: false });
        ops.push(TextOp { x: 123, y: 0, text: ">".to_owned(), inverted: false });
        let label: &str = match tab {
            Tab::Files => "Files",
            Tab::Network => "Network",
            Tab::Bluetooth => "Bluetooth",
            Tab::Player => "Player",
        };
        proof {
            reveal_strlit("Files");
            reveal_strlit("Network");
            reveal_strlit("Bluetooth");
            reveal_strlit("Player");
        }
        let llen = label.unicode_len();
        let x: i32 = (128 - (llen as i32) * 5) / 2;
        ops.push(TextOp { x, y: 0, text: label.to_owned(), inverted: false });
        proof {
            assert(spec_views(ops@) =~~= spec_views(content) + spec_header_ops(
                old(self).open_tab,
            ));
        }
        ops
    }
}

/// The state after `t` marquee ticks, everything else untouched.
pub open spec fn spec_marquee_after(st: State, t: nat) -> State
    decreases t,
{
    if t == 0 {
        st
    } else {
        let s1 = spec_marquee_after(st, (t - 1) as nat);
        State {
            filename_scroll_offset: spec_marquee_tick(s1).0 as usize,
            filename_scroll_counter: spec_marquee_tick(s1).1 as u32,
            ..s1
        }
    }
}

/// While a fixed too-long filename is shown, the state-level marquee ticks
/// follow the abstract counter transition, starting from rest.
proof fn lemma_marquee_after_follows_ticks(st: State, fname: Seq<char>, t: nat)
    requires
        st.player_status.current_file matches Option::Some(f) && f@ == fname,
        fname.len() > MAX_CHARS,
        fname.len() + 5 < usize::MAX,
        st.filename_scroll_offset == 0,
        st.filename_scroll_counter == 0,
    ensures
        ({
            let after = spec_marquee_after(st, t);
            let pair = spec_marquee_ticks(0, 0, fname.len() as int + 5, t);
            &&& after == (State {
                filename_scroll_offset: after.filename_scroll_offset,
                filename_scroll_counter: after.filename_scroll_counter,
                ..st
            })
            &&& after.filename_scroll_offset == pair.0
            &&& after.filename_scroll_counter == pair.1
            &&& 0 <= pair.0 < fname.len() + 5
            &&& 0 <= pair.1 < TICKS_PER_STEP
        }),
    decreases t,
{
    let ext = fname.len() as int + 5;
    lemma_marquee_ticks_bounds(0, 0, ext, t);
    if t > 0 {
        lemma_marquee_after_follows_ticks(st, fname, (t - 1) as nat);
        lemma_marquee_ticks_bounds(0, 0, ext, (t - 1) as nat);
        let s1 = spec_marquee_after(st, (t - 1) as nat);
        let prev = spec_marquee_ticks(0, 0, ext, (t - 1) as nat);
        assert(spec_marquee_tick(s1) == spec_marquee_step(prev.0, prev.1, ext));
        lemma_marquee_ticks_add(0, 0, ext, (t - 1) as nat, 1);
        let sp = spec_marquee_step(prev.0, prev.1, ext);
        assert(spec_marquee_ticks(prev.0, prev.1, ext, 1nat) == spec_marquee_ticks(
            sp.0,
            sp.1,
            ext,
            0nat,
        ));
    }
}

/// The marquee is cyclic and restartable at the state level: with a fixed
/// filename too long for the line, starting from rest, one tick per call of
/// `update_filename_scroll`, both counters are back at rest after
/// `TICKS_PER_STEP` ticks per character of the extended text, and nothing
/// else of the state has moved.
pub proof fn lemma_marquee_state_cycle(st: State, fname: Seq<char>)
    requires
        st.player_status.current_file matches Option::Some(f) && f@ == fname,
        fname.len() > MAX_CHARS,
        fname.len() + 5 < usize::MAX,
        st.filename_scroll_offset == 0,
        st.filename_scroll_counter == 0,
    ensures
        spec_marquee_after(st, (TICKS_PER_STEP as nat) * (fname.len() + 5)) == st,
{
    let ext = fname.len() as int + 5;
    let t = (TICKS_PER_STEP as nat) * (fname.len() + 5);
    lemma_marquee_after_follows_ticks(st, fname, t);
    lemma_marquee_cycle(ext);
}

} // verus!
