//! Decisions of the scheduler.
use vstd::prelude::*;

verus! {

/// Whether a scheduled firing of a DAG starts a run: it does unless the
/// pause flag could be read and says the DAG is paused (`paused` is `None`
/// when the flag could not be read).
pub fn scheduled_run_allowed(paused: Option<bool>) -> (r: bool)
    ensures
        r == !(paused == Some(true)),
{
    match paused {
        Some(true) => false,
        _ => true,
    }
}

} // verus!
