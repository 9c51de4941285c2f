//! The cryptographic collaborators of the store: salt and identifier generation, PBKDF2
//! hashing and PHC-string verification.

use pbkdf2::password_hash::{PasswordHash, PasswordHasher, PasswordVerifier, SaltString};
use pbkdf2::Pbkdf2;
use rand_core::OsRng;
use uuid::Uuid;
use vstd::prelude::*;

verus! {

#[verifier::external_type_specification]
#[verifier::external_body]
pub struct ExSaltString(SaltString);

#[verifier::external_type_specification]
#[verifier::external_body]
pub struct ExHashError(pbkdf2::password_hash::Error);

/// Whether `password` passes PBKDF2 verification against the PHC string `phc`: the string
/// parses, and hashing the password with the parameters and salt that it records gives the
/// output that it records.
pub uninterp spec fn password_matches(password: Seq<char>, phc: Seq<char>) -> bool;

/// Relies on `SaltString::generate` drawing from `OsRng`: a fresh random salt, of which
/// nothing is promised.
#[verifier::external_body]
pub(crate) fn generate_salt() -> (r: SaltString) {
    SaltString::generate(&mut OsRng)
}

/// Relies on `PasswordHasher::hash_password` for `Pbkdf2`, rendered by `PasswordHash`'s
/// `Display` as a PHC string. That string records the algorithm, rounds, output length and
/// salt, so verifying the same password against it recomputes the same output.
#[verifier::external_body]
pub(crate) fn hash_password(password: &str, salt: &SaltString) -> (r: Result<
    String,
    pbkdf2::password_hash::Error,
>)
    ensures
        r is Ok ==> password_matches(password@, r->Ok_0@),
{
    Pbkdf2.hash_password(password.as_bytes(), salt).map(|h| h.to_string())
}

/// Relies on `PasswordHash::new`, which parses the PHC string, and on
/// `PasswordVerifier::verify_password` for `Pbkdf2`, which recomputes the hash and compares
/// the outputs in constant time. A string that does not parse verifies no password.
#[verifier::external_body]
pub(crate) fn check_password(password: &str, phc: &str) -> (r: bool)
    ensures
        r == password_matches(password@, phc@),
{
    match PasswordHash::new(phc) {
        Ok(parsed) => Pbkdf2.verify_password(password.as_bytes(), &parsed).is_ok(),
        Err(_) => false,
    }
}

/// Relies on `Uuid::new_v4`, a random version 4 UUID, and on its `Display`, the lower-case
/// hyphenated form of 36 characters.
#[verifier::external_body]
pub(crate) fn new_identifier() -> (r: String)
    ensures
        r@.len() == 36,
{
    Uuid::new_v4().to_string()
}

} // verus!
