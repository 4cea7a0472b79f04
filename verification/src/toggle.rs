//! A three-state toggle: a small state machine cycling first → second →
//! third → first.

use vstd::prelude::*;

verus! {

/// The three states of the toggle.
#[derive(Clone, Copy, PartialEq, Eq, Structural, Debug)]
pub enum ToggleState {
    First,
    Second,
    Third,
}

/// The state that follows `state` in the cycle.
pub open spec fn next_state_of(state: ToggleState) -> ToggleState {
    match state {
        ToggleState::First => ToggleState::Second,
        ToggleState::Second => ToggleState::Third,
        ToggleState::Third => ToggleState::First,
    }
}

/// The display name of `state`.
pub open spec fn name_of(state: ToggleState) -> Seq<char> {
    match state {
        ToggleState::First => "first"@,
        ToggleState::Second => "second"@,
        ToggleState::Third => "third"@,
    }
}

/// The toggle: starts in the first state and cycles on every `switch`.
pub struct Toggle {
    state: ToggleState,
}

impl Toggle {
    /// The current state.
    pub closed spec fn state_spec(&self) -> ToggleState {
        self.state
    }

    /// A toggle in the first state.
    pub fn new() -> (r: Self)
        ensures
            r.state_spec() == ToggleState::First,
    {
        Toggle { state: ToggleState::First }
    }

    /// Advances to the next state of the cycle.
    pub fn switch(&mut self)
        ensures
            final(self).state_spec() == next_state_of(old(self).state_spec()),
    {
        let next = match self.state {
            ToggleState::First => ToggleState::Second,
            ToggleState::Second => ToggleState::Third,
            ToggleState::Third => ToggleState::First,
        };
        self.set_state(next);
    }

    /// The name of the current state.
    pub fn name(&self) -> (r: &'static str)
        ensures
            r@ == name_of(self.state_spec()),
    {
        match self.state {
            ToggleState::First => "first",
            ToggleState::Second => "second",
            ToggleState::Third => "third",
        }
    }

    /// Puts the toggle into `new_state`.
    pub fn set_state(&mut self, new_state: ToggleState)
        ensures
            final(self).state_spec() == new_state,
    {
        self.state = new_state;
    }
}

} // verus!
