use vstd::prelude::*;

verus! {

/// The errors this layer reports. Native status codes are translated to one
/// of these at the point of the failing call; nothing is retried internally.
#[derive(Clone, Copy, Debug, PartialEq, Eq, Structural)]
pub enum WMIError {
    /// The native call to begin a query failed; no cursor is produced.
    QueryExecutionError,
    /// The native call to pull the next record failed; terminal for the cursor.
    FetchError,
    /// A requested property's native value was not of the expected
    /// representation (absent, null, or of another native kind).
    UnexpectedValueKind,
    /// Malformed fixed-width timestamp text.
    TimestampParseError,
}

} // verus!
