//! Edge-triggered state machine for the push-buttons. Each poll hands in the
//! raw active level of every button (the lines are active-low in hardware;
//! the caller reads the pins and passes `true` for an active line). A button
//! reports `just_pressed` only on the poll where it goes from released to
//! held, and `held` for every poll while it stays active. This is a
//! single-sample edge model: there is no debounce filtering and no hold
//! repeat, on purpose.

use vstd::prelude::*;

verus! {

/// Identifier of one physical push-button.
#[derive(Clone, Copy, Debug, PartialEq, Eq, Structural)]
pub enum Button {
    B1,
    B2,
    B3,
}

/// Number of push-buttons on the device.
pub const BUTTON_COUNT: usize = 3;

impl Button {
    /// Position of this button in the edge-state table.
    pub open spec fn spec_index(self) -> int {
        match self {
            Button::B1 => 0,
            Button::B2 => 1,
            Button::B3 => 2,
        }
    }

    pub fn index(self) -> (i: usize)
        ensures
            i == self.spec_index(),
            i < BUTTON_COUNT,
    {
        match self {
            Button::B1 => 0,
            Button::B2 => 1,
            Button::B3 => 2,
        }
    }
}

/// Per-button edge record: the continuous level and the one-poll pulse.
#[derive(Clone, Copy, Debug, PartialEq, Eq, Structural)]
pub struct EdgeState {
    pub held: bool,
    pub just_pressed: bool,
}

/// Edge state of every button, as a table indexed by `Button`.
pub struct Buttons {
    pub states: Vec<EdgeState>,
}

impl Buttons {
    /// One edge record per button.
    pub open spec fn wf(&self) -> bool {
        self.states@.len() == BUTTON_COUNT
    }

    /// All buttons released, no pending edges.
    pub fn new() -> (b: Buttons)
        ensures
            b.wf(),
            forall|i: int|
                0 <= i < BUTTON_COUNT ==> b.states@[i] == (EdgeState {
                    held: false,
                    just_pressed: false,
                }),
    {
        let mut states: Vec<EdgeState> = Vec::new();
        let mut k: usize = 0;
        while k < BUTTON_COUNT
            invariant
                states@.len() == k,
                k <= BUTTON_COUNT,
                forall|i: int|
                    0 <= i < k ==> states@[i] == (EdgeState { held: false, just_pressed: false }),
            decreases BUTTON_COUNT - k,
        {
            states.push(EdgeState { held: false, just_pressed: false });
            k = k + 1;
        }
        Buttons { states }
    }

    /// Fold one raw sample into the edge state: `held` follows the raw level,
    /// and `just_pressed` pulses exactly on the released-to-held transition.
    pub fn update(&mut self, active: &Vec<bool>)
        requires
            old(self).wf(),
            active@.len() == BUTTON_COUNT,
        ensures
            final(self).wf(),
            forall|i: int|
                0 <= i < BUTTON_COUNT ==> (#[trigger] final(self).states@[i]) == (EdgeState {
                    held: active@[i],
                    just_pressed: active@[i] && !old(self).states@[i].held,
                }),
    {
        let mut k: usize = 0;
        while k < BUTTON_COUNT
            invariant
                self.wf(),
                k <= BUTTON_COUNT,
                active@.len() == BUTTON_COUNT,
                forall|i: int|
                    0 <= i < k ==> (#[trigger] self.states@[i]) == (EdgeState {
                        held: active@[i],
                        just_pressed: active@[i] && !old(self).states@[i].held,
                    }),
                forall|i: int| k <= i < BUTTON_COUNT ==> self.states@[i] == old(self).states@[i],
            decreases BUTTON_COUNT - k,
        {
            let was_held = self.states[k].held;
            let raw = active[k];
            self.states.set(
                k,
                EdgeState { held: raw, just_pressed: raw && !was_held },
            );
            k = k + 1;
        }
    }

    /// Whether `button` went from released to held on the latest poll.
    pub fn is_button_pressed(&self, button: Button) -> (r: bool)
        requires
            self.wf(),
        ensures
            r == self.states@[button.spec_index()].just_pressed,
    {
        self.states[button.index()].just_pressed
    }

    /// Whether `button` is currently held down.
    pub fn is_button_held(&self, button: Button) -> (r: bool)
        requires
            self.wf(),
        ensures
            r == self.states@[button.spec_index()].held,
    {
        self.states[button.index()].held
    }
}

} // verus!
