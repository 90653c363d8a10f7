//! Progress of a run, counted in source files taken up.

use vstd::prelude::*;

verus! {

/// A progress line is due once in so many source files.
pub const PROGRESS_INTERVAL: u32 = 100;

/// Whether a progress line is due when `taken_up` source files were taken
/// up before this one: for the first file and then for every hundredth.
pub fn reports_progress(taken_up: u32) -> (due: bool)
    ensures
        due == (taken_up % PROGRESS_INTERVAL == 0),
{
    taken_up % PROGRESS_INTERVAL == 0
}

} // verus!
