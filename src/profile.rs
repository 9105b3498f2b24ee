use vstd::prelude::*;

verus! {

/// The public face of an account, as seen by the requesting identity.
pub struct Profile {
    pub username: String,
    pub bio: String,
    pub image: Option<String>,
    /// Whether the requesting identity follows this account.
    pub following: bool,
}

} // verus!
