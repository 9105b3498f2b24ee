use vstd::prelude::*;

verus! {

/// Process-wide settings, read once at start-up and never changed after.
pub struct Config {
    /// Where the relational store lives.
    pub database_url: String,
    /// PEM text of the RSA key that signs tokens.
    pub rsa_private_key: String,
    /// PEM text of the RSA key that verifies tokens.
    pub rsa_public_key: String,
}

} // verus!
