//! What a tick is told about the outside: the time that has passed and the
//! state of the controls, both read once before the systems run.

use vstd::prelude::*;

verus! {

/// The controls and the clock at the start of a tick.
#[derive(Clone, Copy, Debug, PartialEq, Eq, Structural)]
pub struct InputSnapshot {
    /// Microseconds since the previous tick.
    pub delta: u64,
    /// The horizontal axis in thousandths, from -1000 (full left) to 1000
    /// (full right); `None` if no such axis is bound.
    pub axis: Option<i32>,
    /// Whether the fire key is held down.
    pub fire: bool,
}

impl InputSnapshot {
    /// A tick in which `delta` microseconds pass and nothing is pressed.
    pub fn idle(delta: u64) -> (s: InputSnapshot)
        ensures
            s == (InputSnapshot { delta, axis: Some(0i32), fire: false }),
    {
        InputSnapshot { delta, axis: Some(0), fire: false }
    }
}

} // verus!
