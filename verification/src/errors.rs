//! Errors of the library.
use vstd::prelude::*;

verus! {

/// The archive of a day holds no snow-depth grid.
#[derive(Debug, Clone, Copy, PartialEq, Eq)]
pub struct MissingDataError;

impl MissingDataError {
    /// The text by which the error shows itself.
    pub fn to_string(&self) -> (r: String)
        ensures
            r@ == "MissingDataError"@,
    {
        "MissingDataError".to_owned()
    }
}

/// Why a day's grid could not be had from its archive.
#[derive(Debug, Clone, Copy, PartialEq, Eq)]
pub enum GridError {
    /// No entry of the archive is the day's grid.
    MissingData(MissingDataError),
    /// The grid's data does not hold one value per cell.
    IncompatibleShape,
}

} // verus!
