//! One-way password hashing and constant-time verification.

use vstd::prelude::*;

use crate::crypto::{hash_password_raw, password_matches, usable_hash, verify_password_raw};

verus! {

/// Failure of the password subsystem: the backend could not produce a hash,
/// or a stored hash is not a usable PHC string.
#[derive(Clone, Copy, Debug, PartialEq, Eq, Structural)]
pub enum HashingError {
    Backend,
    MalformedHash,
}

/// Hashes a password under a fresh random salt. On success the returned
/// self-describing hash string verifies against exactly this password
/// (`password_matches`) and is usable for later verification.
pub fn ar_hash_password(password: &str) -> (r: Result<String, HashingError>)
    ensures
        r matches Ok(h) ==> password_matches(password@, h@) && usable_hash(h@),
        r matches Err(e) ==> e == HashingError::Backend,
{
    match hash_password_raw(password) {
        Ok(h) => Ok(h),
        Err(_) => Err(HashingError::Backend),
    }
}

/// Re-derives the hash of `password` with the salt and parameters embedded in
/// `hashed_password` and compares in constant time. A mismatch is `Ok(false)`,
/// not an error; only a hash that cannot be used at all is an error.
pub fn ar_verify_password(password: &str, hashed_password: &str) -> (r: Result<bool, HashingError>)
    ensures
        r matches Ok(b) ==> b == password_matches(password@, hashed_password@) && usable_hash(
            hashed_password@,
        ),
        usable_hash(hashed_password@) ==> (r matches Ok(b) && b == password_matches(
            password@,
            hashed_password@,
        )),
        r matches Err(e) ==> e == HashingError::MalformedHash && !usable_hash(hashed_password@),
{
    match verify_password_raw(password, hashed_password) {
        Ok(b) => Ok(b),
        Err(_) => Err(HashingError::MalformedHash),
    }
}

/// The hash round trip: a hash freshly minted for a password verifies as a
/// match for that same password — whenever hashing succeeds at all, checking
/// the password against the new hash answers true.
pub fn hash_round_trip(password: &str) -> (r: Result<bool, HashingError>)
    ensures
        r matches Ok(b) ==> b,
{
    match ar_hash_password(password) {
        Ok(h) => ar_verify_password(password, h.as_str()),
        Err(e) => Err(e),
    }
}

} // verus!
