//! The failure kinds that token derivation and verification surface to the
//! caller. Cookie parse and decryption failures are deliberately not here:
//! those are absorbed silently and treated as "no existing token", so that a
//! corrupted cookie forces fresh-secret issuance instead of failing a request.

use vstd::prelude::*;

verus! {

/// Failure kinds surfaced by token derivation and verification.
#[derive(Clone, Copy, Debug, PartialEq, Eq, Structural)]
pub enum CsrfError {
    /// The submitted authenticity token is malformed (not decodable).
    PasswordHash,
    /// The submitted authenticity token is well-formed but does not match.
    Verify,
    /// The salt could not be used to initialize the MAC.
    Salt,
    /// The token could not be hashed.
    Token,
}

impl CsrfError {
    /// A human-readable description of the failure.
    pub fn message(&self) -> (r: &'static str)
        ensures
            r@ == message_spec(*self),
    {
        match self {
            CsrfError::PasswordHash => "Token could not be hashed.",
            CsrfError::Verify => "Verification Failed.",
            CsrfError::Salt => "Could not Encode Salt.",
            CsrfError::Token => "Could not Hash Token.",
        }
    }
}

/// The description text belonging to each failure kind.
pub open spec fn message_spec(e: CsrfError) -> Seq<char> {
    match e {
        CsrfError::PasswordHash => "Token could not be hashed."@,
        CsrfError::Verify => "Verification Failed."@,
        CsrfError::Salt => "Could not Encode Salt."@,
        CsrfError::Token => "Could not Hash Token."@,
    }
}

} // verus!
