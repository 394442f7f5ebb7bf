//! The hook on `SDL_PollEvent`.

use vstd::prelude::*;

verus! {

/// The schedule run for each polled event.
#[derive(Clone, Copy, Debug, PartialEq, Eq, Hash)]
pub struct FnSchedule;

/// The kinds of polled event the hook tells apart.
#[derive(Clone, Copy, Debug, PartialEq, Eq)]
pub enum EventClass {
    Drop,
    Render,
    Unknown,
    User,
    Input,
}

/// Whether the hook runs its schedule for an event: for all but drop,
/// render, unknown and user events.
pub fn runs_schedule(class: EventClass) -> (r: bool)
    ensures
        r == (class == EventClass::Input),
{
    match class {
        EventClass::Drop | EventClass::Render | EventClass::Unknown | EventClass::User => false,
        EventClass::Input => true,
    }
}

} // verus!
