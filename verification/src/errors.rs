use vstd::prelude::*;

verus! {

/// Every failure the converter can report. Errors are surfaced to the
/// process boundary and end the run; none is retried or swallowed.
#[derive(Debug)]
pub enum AppError {
    /// Transport or connection failure; carries the cause's description.
    NetworkError(String),
    /// A response body that does not match the expected shape.
    DecodeError(String),
    /// A requested target code absent from a rate mapping.
    MissingRateError,
    /// No data points from which to compute chart bounds.
    EmptySeriesError,
    /// A series date key that is not a valid calendar date in ISO form.
    InvalidDateError,
    /// Defensive fallback for request shapes no documented path produces.
    InternalStateError,
}

} // verus!
