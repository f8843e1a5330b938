//! Edge-triggered input: buttons and the joystick.

use oled::buttons::{Button, Buttons};
use oled::joystick::{Joystick, State};

#[test]
fn held_button_pulses_just_pressed_only_on_the_first_poll() {
    let mut b = Buttons::new();
    for poll in 0..5 {
        b.update(&vec![true, false, false]);
        assert_eq!(b.is_button_pressed(Button::B1), poll == 0);
        assert!(b.is_button_held(Button::B1));
    }
}

#[test]
fn releasing_and_pressing_again_pulses_again() {
    let mut b = Buttons::new();
    b.update(&vec![false, true, false]);
    assert!(b.is_button_pressed(Button::B2));
    b.update(&vec![false, false, false]);
    assert!(!b.is_button_pressed(Button::B2));
    assert!(!b.is_button_held(Button::B2));
    b.update(&vec![false, true, false]);
    assert!(b.is_button_pressed(Button::B2));
}

#[test]
fn buttons_are_independent() {
    let mut b = Buttons::new();
    b.update(&vec![true, false, true]);
    assert!(b.is_button_pressed(Button::B1));
    assert!(!b.is_button_pressed(Button::B2));
    assert!(b.is_button_pressed(Button::B3));
    b.update(&vec![true, true, false]);
    assert!(!b.is_button_pressed(Button::B1));
    assert!(b.is_button_pressed(Button::B2));
    assert!(!b.is_button_held(Button::B3));
}

#[test]
fn joystick_resolves_by_priority() {
    assert_eq!(Joystick::resolve(true, true, true, true, true), State::Up);
    assert_eq!(Joystick::resolve(false, true, true, true, true), State::Down);
    assert_eq!(Joystick::resolve(false, false, true, true, true), State::Left);
    assert_eq!(Joystick::resolve(false, false, false, true, true), State::Right);
    assert_eq!(Joystick::resolve(false, false, false, false, true), State::Click);
    assert_eq!(Joystick::resolve(false, false, false, false, false), State::Neutral);
}

#[test]
fn just_switched_pulses_only_on_a_change() {
    let mut j = Joystick::new();
    j.update(false, true, false, false, false);
    assert!(j.just_switched_to(State::Down));
    j.update(false, true, false, false, false);
    assert!(!j.just_switched_to(State::Down));
    j.update(false, false, false, false, false);
    assert!(j.just_switched_to(State::Neutral));
    assert!(!j.just_switched_to(State::Down));
}
