//! The press that brings the window back from another application asked for the window, not
//! for what lay under the pointer: it is swallowed before anything else in the window sees it.

use vstd::prelude::*;

verus! {

/// Drawn first in the root, it takes the first look at every press of the frame.
pub struct FirstMouseGuard;

impl FirstMouseGuard {
    /// Whether a press goes no further: one that brings the window back, seen in the capture
    /// phase, before any row, button or backdrop can act on it.
    pub fn swallows(&self, capture_phase: bool, first_mouse: bool) -> (r: bool)
        ensures
            r == (capture_phase && first_mouse),
    {
        capture_phase && first_mouse
    }
}

} // verus!
