//! Password hashing and verification.
//!
//! Hashing is delegated to `password_auth` (a salted PHC-format hash with a
//! fresh random salt per call). Two wrappers form the trusted boundary; the
//! name `verify_of` ties them together: whatever hash comes out of
//! `hash_password`, verifying the same password against it succeeds.

use vstd::prelude::*;

verus! {

/// Authentication fields extracted from an inbound request.
#[derive(Debug)]
pub struct Credentials {
    /// Username
    pub username: String,
    /// Password
    pub password: String,
}

impl Clone for Credentials {
    fn clone(&self) -> (r: Self)
        ensures
            r == *self,
    {
        Credentials { username: self.username.clone(), password: self.password.clone() }
    }
}

/// What `password_auth::verify_password` decides for a password against a
/// stored hash: `None` when the hash is not a hash string it can parse,
/// `Some(true)` when the password matches it, `Some(false)` when it does
/// not. The decision is a function of the two strings alone.
pub uninterp spec fn verify_of(pass: Seq<char>, hash: Seq<char>) -> Option<bool>;

/// The longest password, in bytes, that the underlying hash function
/// accepts; beyond it hashing reports the password as too long.
pub const MAX_HASH_INPUT: usize = 0xFFFF_FFFF;

/// Hashes the given password with a fresh random salt.
///
/// Relies on `password_auth::generate_hash`: the result is a hash string
/// that `password_auth::verify_password` parses and accepts for this
/// password. The salt is fresh per call, so two calls on the same password
/// may return different strings; the contract states only what holds of
/// every outcome.
#[verifier::external_body]
pub fn hash_password(password: &str) -> (r: String)
    requires
        password.len() <= MAX_HASH_INPUT,
    ensures
        verify_of(password@, r@) == Some(true),
{
    password_auth::generate_hash(password)
}

/// Verifies the given password against a stored hash.
///
/// Relies on `password_auth::verify_password`: `None` reports a hash that
/// did not parse (a corrupt or foreign-format stored value), `Some(true)` a
/// match, `Some(false)` a mismatch.
#[verifier::external_body]
pub fn verify_password(password: &str, hash: &str) -> (r: Option<bool>)
    ensures
        r == verify_of(password@, hash@),
{
    match password_auth::verify_password(password, hash) {
        Ok(()) => Some(true),
        Err(password_auth::VerifyError::PasswordInvalid) => Some(false),
        Err(password_auth::VerifyError::Parse(_)) => None,
    }
}

} // verus!
