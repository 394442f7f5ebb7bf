//! The hook on `SDL_GL_SwapWindow`.

use vstd::prelude::*;

verus! {

/// The schedule run each time a frame is swapped.
#[derive(Clone, Copy, Debug, PartialEq, Eq, Hash)]
pub struct FnSchedule;

/// What the hook does on one call: the new initialization state and whether
/// the schedule runs.
#[derive(Clone, Copy, Debug, PartialEq, Eq)]
pub struct SwapStep {
    pub is_initialized: bool,
    pub run_schedule: bool,
}

/// One call of the hook. Before the overlay is initialized, a window with a
/// nonempty title initializes it; once initialized, every call runs the
/// schedule. `title` is the window's title, read only while not initialized.
pub fn step(is_initialized: bool, title: &[u8]) -> (r: SwapStep)
    ensures
        r.is_initialized == (is_initialized || title@.len() > 0),
        r.run_schedule == r.is_initialized,
{
    let mut initialized = is_initialized;
    if !initialized {
        if title.len() > 0 {
            initialized = true;
        }
    }
    SwapStep { is_initialized: initialized, run_schedule: initialized }
}

} // verus!
