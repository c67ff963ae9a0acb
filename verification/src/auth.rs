//! Password handling for the web tier's login and registration, built on
//! bcrypt.

use vstd::prelude::*;

verus! {

/// Whether bcrypt verification of this password against this stored hash
/// succeeds: the result depends on the two arguments alone.
pub uninterp spec fn bcrypt_verifies(password: Seq<char>, hash: Seq<char>) -> bool;

/// Relies on bcrypt::verify: whether the stored hash was generated from
/// the password; a hash that cannot be parsed counts as no match.
#[verifier::external_body]
pub fn verify_password(stored_hash: &str, password: &str) -> (r: bool)
    ensures
        r == bcrypt_verifies(password@, stored_hash@),
{
    bcrypt::verify(password, stored_hash).unwrap_or(false)
}

/// Relies on bcrypt::hash at the default cost: the fresh salted hash it
/// returns is accepted by bcrypt::verify for the same password. Hashing
/// fails only when the OS randomness fails.
#[verifier::external_body]
fn hash_password(password: &str) -> (r: Option<String>)
    ensures
        match r {
            Some(h) => bcrypt_verifies(password@, h@),
            None => true,
        },
{
    bcrypt::hash(password, bcrypt::DEFAULT_COST).ok()
}

/// Credentials ready to be stored for a new user: the registration
/// address and the bcrypt hash of the chosen password.
pub struct NewUserCredentials {
    pub email: String,
    pub password_hash: String,
}

/// Prepares the stored credentials for a new user: the compute half of
/// user creation, before the row is written. Returns nothing only when
/// hashing itself failed.
pub fn new_user_credentials(email: String, password: &str) -> (r: Option<NewUserCredentials>)
    ensures
        match r {
            Some(c) => c.email@ == email@ && bcrypt_verifies(password@, c.password_hash@),
            None => true,
        },
{
    match hash_password(password) {
        Some(h) => Some(NewUserCredentials { email, password_hash: h }),
        None => None,
    }
}

} // verus!
