use vstd::prelude::*;

verus! {

/// The classified outcomes of a request that the core refuses.
#[derive(Debug, Clone, Copy, PartialEq, Eq, Structural)]
pub enum ApiError {
    /// Missing, malformed, invalid or expired token, or a wrong password.
    Unauthorized,
    /// Authenticated, but not the owner of the resource.
    Forbidden,
    /// No resource with that key.
    NotFound,
    /// A fault of the server: corrupt stored data, a bad key, a store failure.
    Internal,
}

/// The stable identifier of a principal (a 128-bit UUID value).
#[derive(Debug, Clone, Copy, PartialEq, Eq, Hash, Structural)]
pub struct Identity {
    pub value: u128,
}

} // verus!
