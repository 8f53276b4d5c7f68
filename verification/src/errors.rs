use vstd::prelude::*;

verus! {

/// Failure of a fetch stage: the catalog listing or an asset lookup.
#[derive(Debug, PartialEq, Eq)]
pub enum FetchError {
    /// The service answered with a status outside the 2xx range.
    BadStatus(u16),
    /// A response body did not match the expected shape.
    ParseError,
    /// The underlying transport failed before any response arrived.
    TransportError,
}

/// Failure of policy resolution.
#[derive(Debug, PartialEq, Eq)]
pub enum PolicyError {
    /// The supplied policy identifier is not in the directory's id set.
    NotFound(String),
}

} // verus!
