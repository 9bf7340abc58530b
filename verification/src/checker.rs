//! A simple boolean state flag with set/clear operations.
//!
//! The build pipeline uses such flags to remember whether a shared
//! resource (for example a script loaded into the script engine) has
//! already been initialised.

use vstd::prelude::*;

verus! {

/// A boolean state that can be switched on and off.
pub struct CheckerState(bool);

impl View for CheckerState {
    type V = bool;

    closed spec fn view(&self) -> bool {
        self.0
    }
}

impl CheckerState {
    /// Creates a new state holding the given boolean value.
    pub fn new(state: bool) -> (r: Self)
        ensures
            r@ == state,
    {
        CheckerState(state)
    }

    /// Sets the state to `true`.
    pub fn make_true(&mut self)
        ensures
            final(self)@ == true,
    {
        self.0 = true;
    }

    /// Sets the state to `false`.
    pub fn make_false(&mut self)
        ensures
            final(self)@ == false,
    {
        self.0 = false;
    }

    /// Returns the current state.
    pub fn is_true(&self) -> (r: bool)
        ensures
            r == self@,
    {
        self.0
    }
}

impl Default for CheckerState {
    /// The default state is `false`.
    fn default() -> (r: Self)
        ensures
            r@ == false,
    {
        CheckerState::new(false)
    }
}

} // verus!
