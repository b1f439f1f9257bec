use vstd::prelude::*;

use crate::errors::DomainError;

use argon2::password_hash::{rand_core::OsRng, PasswordHasher, SaltString};
use argon2::{Argon2, PasswordHash, PasswordVerifier};

verus! {

/// Whether a PHC hash string parses and argon2's verification of the
/// password against it succeeds. The outcome depends on the password
/// and the hash string alone, so it is given a name rather than an
/// algorithm nobody could hold to the outside code.
pub uninterp spec fn argon2_verifies(password: Seq<char>, hash: Seq<char>) -> bool;

/// Relies on argon2's PasswordHasher::hash_password with a freshly
/// generated salt: the returned PHC string verifies against the same
/// password under argon2's PasswordVerifier, whatever salt was drawn.
#[verifier::external_body]
pub fn hash_password(plaintext: &str) -> (r: Result<String, DomainError>)
    ensures
        r matches Ok(h) ==> argon2_verifies(plaintext@, h@),
{
    let salt = SaltString::generate(&mut OsRng);
    match Argon2::default().hash_password(plaintext.as_bytes(), &salt) {
        Ok(hashed) => Ok(hashed.to_string()),
        Err(_) => Err(DomainError::Authentication),
    }
}

/// Relies on argon2's PasswordVerifier::verify_password: success
/// depends only on the password and the hash string. A hash that does
/// not parse as a PHC string is a validation failure; a verifier
/// breakdown other than a wrong password is an authentication
/// failure; in either case the password does not verify.
#[verifier::external_body]
pub fn validate_password(plaintext: &str, hash: &str) -> (r: Result<bool, DomainError>)
    ensures
        r matches Ok(b) ==> b == argon2_verifies(plaintext@, hash@),
        r is Err ==> !argon2_verifies(plaintext@, hash@),
{
    let parsed = match PasswordHash::new(hash) {
        Ok(p) => p,
        Err(_) => return Err(DomainError::Validation),
    };
    match Argon2::default().verify_password(plaintext.as_bytes(), &parsed) {
        Ok(()) => Ok(true),
        Err(argon2::password_hash::Error::Password) => Ok(false),
        Err(_) => Err(DomainError::Authentication),
    }
}

} // verus!
