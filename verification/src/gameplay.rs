//! Gameplay rules: the value primitive and the hit-dice health engine.

use vstd::prelude::*;

pub mod health;
pub mod laws;
pub mod random;
pub mod status;
pub mod value;

verus! {

/// A number of turns.
pub type Time = i32;

/// A magnitude of damage, healing or armor.
pub type Amount = i32;

/// A position in a health bar, counted from the left.
pub type Index = usize;

/// Whether two things change places.
pub type Swap = bool;

/// Something that takes actions one at a time and answers each with a
/// response.
pub trait React<Action, ActionResponse> {
    /// The states and actions on which `execute` may be called.
    spec fn admits(&self, action: Action) -> bool;

    /// Carries out `action` on this state and reports what happened.
    fn execute(&mut self, action: Action) -> (response: ActionResponse)
        requires
            old(self).admits(action),
    ;
}

} // verus!
