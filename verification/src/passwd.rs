//! Password hashing and verification, through the Argon2 password-hash
//! scheme. The credential store never sees a raw password after signup:
//! only the PHC-encoded hash is kept.

use vstd::prelude::*;

use crate::errors::ApiError;
use argon2::{PasswordHasher, PasswordVerifier};

verus! {

/// Whether the Argon2 verifier accepts `password` against the PHC-encoded
/// `hash`: a fixed function of the two strings alone, on every machine.
pub uninterp spec fn argon_verifies(password: Seq<char>, hash: Seq<char>) -> bool;

/// Whether the Argon2 verifier faults on the pair instead of answering —
/// an unparsable hash string, unsupported parameters — likewise a fixed
/// function of the two strings alone. A pair it faults on is never one it
/// accepts.
pub uninterp spec fn argon_faults(password: Seq<char>, hash: Seq<char>) -> bool;

/// Hashes a password for storage.
///
/// Relies on argon2's `PasswordHasher::hash_password`: it hashes under the
/// crate's default parameters with a fresh random salt and returns the
/// PHC-encoded string. The salt is random, so two calls may return
/// different strings; what holds of every outcome is the documented round
/// trip: the returned string is well formed for the same verifier — it
/// encodes the algorithm, version, parameters and salt just used — so
/// verifying the same password against it does not fault, and succeeds.
#[verifier::external_body]
pub fn hash(password: &str) -> (r: Result<String, ApiError>)
    ensures
        r matches Ok(h) ==> argon_verifies(password@, h@) && !argon_faults(password@, h@),
{
    match argon2::Argon2::default().hash_password(password.as_bytes()) {
        Ok(h) => Ok(h.to_string()),
        Err(_) => Err(ApiError::InternalServerError),
    }
}

/// Checks a password against a stored PHC-encoded hash.
///
/// Relies on argon2's `PasswordVerifier::verify_password`: it recomputes
/// the hash function under the parameters and salt encoded in `hash` and
/// compares, deterministically in the two strings. `PasswordInvalid` is its
/// mismatch answer; any other error (an unparsable hash, unsupported
/// parameters) is a fault, reported as such and never as a mismatch, and a
/// pair it faults on is one it does not accept.
#[verifier::external_body]
pub fn verify(password: &str, hash: &str) -> (r: Result<bool, ApiError>)
    ensures
        r matches Ok(b) ==> b == argon_verifies(password@, hash@),
        r is Err <==> argon_faults(password@, hash@),
        r is Err ==> !argon_verifies(password@, hash@),
{
    match argon2::Argon2::default().verify_password(password.as_bytes(), hash) {
        Ok(()) => Ok(true),
        Err(argon2::password_hash::Error::PasswordInvalid) => Ok(false),
        Err(_) => Err(ApiError::InternalServerError),
    }
}

} // verus!
