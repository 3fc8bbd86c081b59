use vstd::prelude::*;

use argon2::Algorithm;
use argon2::Argon2;
use argon2::Params;
use argon2::PasswordHasher;
use argon2::PasswordVerifier;
use argon2::Version;

verus! {

/// Whether Argon2id verification of `password` against the PHC-format hash
/// string `hash`, keyed with `secret`, succeeds. The outcome is a function of
/// these three values alone: the salt and the parameters are carried inside
/// the hash string, and verification recomputes the hash deterministically.
/// A malformed hash string verifies as false.
pub uninterp spec fn verifies(password: Seq<char>, hash: Seq<char>, secret: Seq<char>) -> bool;

/// The Argon2 memory cost, in KiB, used for new hashes.
pub const HASH_MEMORY_KIB: u32 = 4096;

/// The Argon2 iteration count used for new hashes.
pub const HASH_ITERATIONS: u32 = 30;

/// The Argon2 lane count used for new hashes.
pub const HASH_LANES: u32 = 8;

/// Hashes a password with a fresh random salt, keyed with the server secret.
///
/// Relies on argon2's `PasswordHasher::hash_password`: it draws a fresh salt,
/// computes Argon2id over the password keyed with the secret, and renders a
/// PHC string carrying the salt and the parameters, so that verifying that
/// string against the same password and secret recomputes the same output and
/// succeeds. Returns None only if the hashing primitive itself refuses its
/// input.
#[verifier::external_body]
pub fn hash_password(password: &str, secret: &str) -> (r: Option<String>)
    ensures
        r matches Some(h) ==> verifies(password@, h@, secret@),
{
    let params = Params::new(HASH_MEMORY_KIB, HASH_ITERATIONS, HASH_LANES, None).ok()?;
    let hasher = Argon2::new_with_secret(
        secret.as_bytes(),
        Algorithm::Argon2id,
        Version::V0x13,
        params,
    ).ok()?;
    let hash = hasher.hash_password(password.as_bytes()).ok()?;
    Some(format!("{}", hash))
}

/// Verifies a password against a stored PHC hash string, keyed with the
/// server secret. A mismatch is a plain `false`, never an error, and the raw
/// password is never recorded anywhere.
///
/// Relies on argon2's `PasswordVerifier::verify_password`: it reads the salt
/// and the parameters back out of the hash string and recomputes Argon2id
/// over the password keyed with the secret, succeeding exactly when the
/// outputs match; the outcome is deterministic in the three inputs.
#[verifier::external_body]
pub fn verify_password(password: &str, hash: &str, secret: &str) -> (r: bool)
    ensures
        r == verifies(password@, hash@, secret@),
{
    let params = match Params::new(HASH_MEMORY_KIB, HASH_ITERATIONS, HASH_LANES, None) {
        Ok(p) => p,
        Err(_) => return false,
    };
    let verifier = match Argon2::new_with_secret(
        secret.as_bytes(),
        Algorithm::Argon2id,
        Version::V0x13,
        params,
    ) {
        Ok(v) => v,
        Err(_) => return false,
    };
    verifier.verify_password(password.as_bytes(), hash).is_ok()
}

} // verus!
