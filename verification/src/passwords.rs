//! Password hashing with Argon2.
use argon2::password_hash::rand_core::OsRng;
use argon2::password_hash::{PasswordHash, PasswordHasher, PasswordVerifier, SaltString};
use argon2::Argon2;
use crate::text::byte_len;
use vstd::prelude::*;

verus! {

/// Whether Argon2 accepts `password` for the encoded hash `hash` (the PHC string the
/// hashing writes): the hash is recomputed with the salt and parameters it holds and
/// compared.
pub uninterp spec fn argon2_accepts(password: Seq<char>, hash: Seq<char>) -> bool;

/// `Argon2::default().verify_password(password, &PasswordHash::new(hash)?)`, with a
/// hash that does not parse refused. Its result is named by `argon2_accepts`.
#[verifier::external_body]
pub(crate) fn verify_password(password: &str, hash: &str) -> (r: bool)
    ensures
        r == argon2_accepts(password@, hash@),
{
    match PasswordHash::new(hash) {
        Ok(parsed) => Argon2::default().verify_password(password.as_bytes(), &parsed).is_ok(),
        Err(_) => false,
    }
}

/// The longest password Argon2 hashes, in bytes.
pub const MAX_PASSWORD_BYTES: usize = 0xFFFF_FFFF;

/// How the PHC string of an Argon2id hash of version 19 starts.
pub open spec fn phc_prefix() -> Seq<char> {
    "$argon2id$v=19$"@
}

/// `Argon2::default().hash_password(password, &SaltString::generate(&mut OsRng))`,
/// written as a PHC string. The salt is random, so which hash comes back is left
/// open. With the default parameters and a generated salt, hashing fails only for a
/// password longer than `MAX_PWD_LEN` (0xFFFF_FFFF bytes). The string starts with the
/// algorithm (Argon2id, the default) and the version (19, the default), and holds the
/// salt and the parameters, from which Argon2's verification recomputes the same
/// hash, so the password is accepted for it.
#[verifier::external_body]
pub(crate) fn hash_password(password: &str) -> (r: Option<String>)
    ensures
        byte_len(password@) <= MAX_PASSWORD_BYTES ==> r is Some,
        r matches Some(h) ==> argon2_accepts(password@, h@) && phc_prefix().is_prefix_of(h@),
{
    let salt = SaltString::generate(&mut OsRng);
    match Argon2::default().hash_password(password.as_bytes(), &salt) {
        Ok(h) => Some(h.to_string()),
        Err(_) => None,
    }
}

} // verus!
