//! Password handling: salted, one-way hashing and verification.
//!
//! Plaintext passwords are never stored; the service keeps only PHC-format
//! hash strings. Whether a password matches a hash is a deterministic
//! function of the pair (the salt is carried inside the hash string), named
//! here by [`password_matches`]; both outside calls are specified through
//! that one name.

use vstd::prelude::*;

verus! {

/// Longest password the service accepts, in characters. Four bytes per
/// character at most keeps the UTF-8 length below the hashing backend's
/// limit of 2^32 - 1 bytes, past which hashing aborts instead of
/// returning an error.
pub const MAX_PASSWORD_CHARS: usize = 0x3FFFFFFF;

/// Whether `password` matches `hash`: what `password_auth::verify_password`
/// returns for the pair. Deterministic in its two arguments, since the
/// salt and algorithm parameters are part of the hash string.
pub uninterp spec fn password_matches(password: Seq<char>, hash: Seq<char>) -> bool;

/// Relies on `password_auth::generate_hash`: returns a salted PHC-format
/// hash that `password_auth::verify_password` accepts for the very
/// password it was generated from. The salt is fresh per call, so nothing
/// further is assumed of the hash string itself. The length bound keeps
/// the password below the backend's byte limit, on which `generate_hash`
/// would abort rather than return an error.
#[verifier::external_body]
pub(crate) fn hash_password(password: &str) -> (r: String)
    requires
        password@.len() <= MAX_PASSWORD_CHARS,
    ensures
        password_matches(password@, r@),
{
    password_auth::generate_hash(password)
}

/// Relies on `password_auth::verify_password`: true exactly when the
/// password matches the hash; false both for a mismatch and for a
/// malformed hash string.
#[verifier::external_body]
pub(crate) fn check_password(password: &str, hash: &str) -> (r: bool)
    ensures
        r == password_matches(password@, hash@),
{
    password_auth::verify_password(password, hash).is_ok()
}

} // verus!
