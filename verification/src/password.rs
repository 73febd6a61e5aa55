//! The password-hashing capability: `hash(password) -> hash` and
//! `verify(password, hash) -> bool`, supplied by the argon2 crate behind
//! trusted wrappers.

use vstd::prelude::*;

verus! {

/// Whether verifying `password` against the stored PHC `hash` string
/// succeeds.  `verify_password` recomputes the hash from the password and
/// the parameters and salt embedded in the string, so the outcome is a
/// function of the two strings alone.
pub uninterp spec fn spec_password_verifies(password: Seq<char>, hash: Seq<char>) -> bool;

/// Whether `hash` parses as a PHC string, a function of the string alone.
pub uninterp spec fn spec_hash_parses(hash: Seq<char>) -> bool;

/// Relies on argon2's `hash_password` with a salt drawn from `OsRng`: the
/// returned PHC string embeds the salt and parameters, so verifying the
/// same password against it recomputes the same output and succeeds.  The
/// salt is random, so nothing else is promised of the string.
#[verifier::external_body]
pub(crate) fn hash_password(password: &str) -> (r: Result<String, ()>)
    ensures
        r matches Ok(h) ==> spec_hash_parses(h@) && spec_password_verifies(password@, h@),
{
    let salt = argon2::password_hash::SaltString::generate(&mut rand::rngs::OsRng);
    let argon = argon2::Argon2::default();
    match argon2::PasswordHasher::hash_password(&argon, password.as_bytes(), &salt) {
        Ok(h) => Ok(h.to_string()),
        Err(_) => Err(()),
    }
}

/// Relies on argon2's `PasswordHash::new` and `verify_password`: parses
/// the stored PHC string and checks the password against it; both steps
/// are functions of the two strings alone.  `None` reports a hash that
/// does not parse.
#[verifier::external_body]
pub(crate) fn check_password(password: &str, hash: &str) -> (r: Option<bool>)
    ensures
        r matches Some(b) ==> spec_hash_parses(hash@) && b == spec_password_verifies(
            password@,
            hash@,
        ),
        r is None ==> !spec_hash_parses(hash@),
{
    match argon2::password_hash::PasswordHash::new(hash) {
        Ok(parsed) => {
            let argon = argon2::Argon2::default();
            let ok = argon2::PasswordVerifier::verify_password(
                &argon,
                password.as_bytes(),
                &parsed,
            ).is_ok();
            Some(ok)
        },
        Err(_) => None,
    }
}

} // verus!
