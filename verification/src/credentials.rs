//! Password credentials: bcrypt hashing and verification behind
//! trusted wrappers, with the login decision proved on plain values.

use vstd::prelude::*;
use crate::strutil::str_eq;

verus! {

/// What bcrypt's verifier answers for a password against a stored
/// hash: the salt and cost are part of the hash string, so the answer
/// is a function of the two strings alone; a malformed hash is `None`.
pub uninterp spec fn bcrypt_check(password: Seq<char>, hash: Seq<char>) -> Option<bool>;

/// Relies on bcrypt::verify: whether the password matches the bcrypt
/// hash, or an error (mapped to `None`) for a malformed hash.
#[verifier::external_body]
fn bcrypt_verify(password: &str, hash: &str) -> (r: Option<bool>)
    ensures
        r == bcrypt_check(password@, hash@),
{
    bcrypt::verify(password, hash).ok()
}

/// Relies on bcrypt::hash at bcrypt's default cost: a freshly salted
/// hash, which bcrypt::verify accepts for the same password. The salt
/// is random, so nothing else is promised of the string; `None` only
/// if the randomness source fails.
#[verifier::external_body]
fn bcrypt_hash_default(password: &str) -> (r: Option<String>)
    ensures
        r matches Some(h) ==> bcrypt_check(password@, h@) == Some(true),
{
    bcrypt::hash(password, bcrypt::DEFAULT_COST).ok()
}

/// A stored credential accepts a password when bcrypt verifies it
/// against the stored hash or — for legacy plaintext records — when
/// the stored text equals the password itself.
pub fn password_matches(password: &str, stored: &str) -> (r: bool)
    ensures
        r == (bcrypt_check(password@, stored@) == Some(true) || stored@ == password@),
{
    match bcrypt_verify(password, stored) {
        Some(true) => true,
        _ => str_eq(stored, password),
    }
}

/// Hash a new password for storage; the result verifies against the
/// password it was made from. Fails only if the hashing backend does.
pub fn hash_password(password: &str) -> (r: Option<String>)
    ensures
        r matches Some(h) ==> bcrypt_check(password@, h@) == Some(true),
{
    bcrypt_hash_default(password)
}

} // verus!
