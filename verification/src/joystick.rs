//! Edge-triggered state machine for the 5-way joystick. Each poll hands in
//! the raw active level of every line (active-low in hardware; the caller
//! passes `true` for an active line). When several lines are active at once
//! the resolved direction follows the fixed priority Up, then Down, Left,
//! Right, Click, so ties resolve deterministically. "Just switched to X" is
//! true only on the poll where the resolved direction changes to X.

use vstd::prelude::*;

verus! {

/// The resolved discrete position of the joystick.
#[derive(Clone, Copy, Debug, PartialEq, Eq, Structural)]
pub enum State {
    Up,
    Down,
    Left,
    Right,
    Click,
    Neutral,
}

/// The direction that a raw sample resolves to, by the fixed priority order.
pub open spec fn spec_resolve(up: bool, down: bool, left: bool, right: bool, click: bool) -> State {
    if up {
        State::Up
    } else if down {
        State::Down
    } else if left {
        State::Left
    } else if right {
        State::Right
    } else if click {
        State::Click
    } else {
        State::Neutral
    }
}

/// Joystick edge state: the latest resolved direction and whether the latest
/// poll changed it.
pub struct Joystick {
    pub last_state: State,
    pub just_switched: bool,
}

impl Joystick {
    /// At rest: neutral, no pending edge.
    pub fn new() -> (j: Joystick)
        ensures
            j.last_state == State::Neutral,
            !j.just_switched,
    {
        Joystick { last_state: State::Neutral, just_switched: false }
    }

    /// Resolve one raw sample to a single direction.
    pub fn resolve(up: bool, down: bool, left: bool, right: bool, click: bool) -> (s: State)
        ensures
            s == spec_resolve(up, down, left, right, click),
    {
        if up {
            State::Up
        } else if down {
            State::Down
        } else if left {
            State::Left
        } else if right {
            State::Right
        } else if click {
            State::Click
        } else {
            State::Neutral
        }
    }

    /// Fold one raw sample into the edge state and return the resolved
    /// direction. The switch flag pulses exactly when the direction changes.
    pub fn update(&mut self, up: bool, down: bool, left: bool, right: bool, click: bool) -> (s:
        State)
        ensures
            s == spec_resolve(up, down, left, right, click),
            final(self).last_state == s,
            final(self).just_switched == (s != old(self).last_state),
    {
        let new_state = Self::resolve(up, down, left, right, click);
        if new_state != self.last_state {
            self.just_switched = true;
        } else {
            self.just_switched = false;
        }
        self.last_state = new_state;
        new_state
    }

    /// Whether the latest poll switched the resolved direction to `state`.
    pub fn just_switched_to(&self, state: State) -> (r: bool)
        ensures
            r == (self.just_switched && self.last_state == state),
    {
        self.just_switched && self.last_state == state
    }

    /// What `just_switched_to(state)` says after the next `update`, as a
    /// value: true exactly when the sample resolves to `state` and the
    /// direction was something else before.
    pub open spec fn spec_switched_to(
        prev: State,
        up: bool,
        down: bool,
        left: bool,
        right: bool,
        click: bool,
        state: State,
    ) -> bool {
        spec_resolve(up, down, left, right, click) == state && prev != state
    }
}

} // verus!
