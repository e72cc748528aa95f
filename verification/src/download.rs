//! The decisions of the download loop, one day at a time.
use vstd::prelude::*;

verus! {

/// Failed downloads in a row after which the next failure ends the run.
pub const MAX_FAILURES_IN_ROW: u32 = 5;

/// What happened to a day of the range.
#[derive(Debug, Clone, Copy, PartialEq, Eq)]
pub enum DayOutcome {
    /// The day's file was already stored, so nothing was downloaded.
    AlreadyStored,
    /// The day was downloaded and stored.
    Downloaded,
    /// The download of the day failed.
    Failed,
}

/// The failures in a row once a day's outcome is known, or `None` when the
/// run stops with that day's error: a failure after more than
/// `MAX_FAILURES_IN_ROW` failures in a row stops it, any other failure adds
/// one, and a stored or downloaded day starts the count again.
pub fn after_day(failures_in_row: u32, outcome: DayOutcome) -> (r: Option<u32>)
    ensures
        outcome != DayOutcome::Failed ==> r == Some(0u32),
        outcome == DayOutcome::Failed ==> (if failures_in_row > MAX_FAILURES_IN_ROW {
            r is None
        } else {
            r == Some((failures_in_row + 1) as u32)
        }),
{
    match outcome {
        DayOutcome::AlreadyStored => Some(0),
        DayOutcome::Downloaded => Some(0),
        DayOutcome::Failed => {
            if failures_in_row > MAX_FAILURES_IN_ROW {
                None
            } else {
                Some(failures_in_row + 1)
            }
        },
    }
}

} // verus!
