//! Password hashing: a thin verified layer over the Argon2id implementation
//! of the `rust-argon2` crate, with the RFC 9106 low-memory parameters.
//!
//! The hash of a password is a pure function of the password bytes and the
//! server-wide salt; what that function computes is left unnamed here and
//! carried by `argon_hash_of`.

use vstd::prelude::*;

use crate::errors::AuthServiceError;

verus! {

/// The encoded Argon2id hash that `argon2::hash_encoded` computes for this
/// password and salt under the fixed RFC 9106 low-memory configuration.
pub uninterp spec fn argon_hash_of(password: Seq<u8>, salt: Seq<u8>) -> Seq<char>;

/// Whether `argon2::verify_encoded` can parse this encoded hash at all.
/// Parsing happens before the candidate password is looked at, so this is a
/// property of the encoded string alone.
pub uninterp spec fn argon_valid_encoded(encoded: Seq<char>) -> bool;

/// Whether `argon2::verify_encoded` accepts this password against this
/// (parseable) encoded hash.
pub uninterp spec fn argon_verifies(encoded: Seq<char>, password: Seq<u8>) -> bool;

/// Relies on `argon2::hash_encoded` of `rust-argon2`: with the fixed, valid
/// RFC 9106 low-memory configuration it fails only on a salt shorter than
/// eight bytes or inputs longer than `u32::MAX`, both excluded here, so it
/// returns the encoded hash of exactly this password and salt, which its own
/// `verify_encoded` then parses and accepts for the same password.
#[verifier::external_body]
fn argon2_hash_encoded(password: &[u8], salt: &[u8]) -> (r: Result<String, ()>)
    requires
        8 <= salt@.len() <= 0xFFFF_FFFF,
        password@.len() <= 0xFFFF_FFFF,
    ensures
        r is Ok,
        r matches Ok(h) ==> h@ == argon_hash_of(password@, salt@),
        r matches Ok(h) ==> argon_valid_encoded(h@),
        r matches Ok(h) ==> argon_verifies(h@, password@),
{
    argon2::hash_encoded(password, salt, &argon2::Config::rfc9106_low_mem()).map_err(|_| ())
}

/// Relies on `argon2::verify_encoded` of `rust-argon2`: it first parses the
/// encoded hash (failing exactly on a malformed one), then recomputes the
/// hash of the candidate password and compares; the outcome is a pure
/// function of the encoded string and the password bytes.
#[verifier::external_body]
fn argon2_verify_encoded(encoded: &str, password: &[u8]) -> (r: Result<bool, ()>)
    requires
        password@.len() <= 0xFFFF_FFFF,
    ensures
        r matches Ok(b) ==> argon_valid_encoded(encoded@) && b == argon_verifies(
            encoded@,
            password@,
        ),
        r is Err ==> !argon_valid_encoded(encoded@),
{
    argon2::verify_encoded(encoded, password).map_err(|_| ())
}

/// Hashes a password with the server-wide salt. With a well-formed salt the
/// hasher cannot fail, and the result embeds its own parameters, so that
/// `verify_password` accepts the original password against it.
pub fn hash_password(password: &[u8], salt: &[u8]) -> (r: Result<
    String,
    AuthServiceError<()>,
>)
    requires
        8 <= salt@.len() <= 0xFFFF_FFFF,
        password@.len() <= 0xFFFF_FFFF,
    ensures
        r is Ok,
        r matches Ok(h) ==> h@ == argon_hash_of(password@, salt@),
        r matches Ok(h) ==> argon_valid_encoded(h@),
        r matches Ok(h) ==> argon_verifies(h@, password@),
{
    match argon2_hash_encoded(password, salt) {
        Ok(h) => Ok(h),
        Err(_) => Err(AuthServiceError::HashPassword),
    }
}

/// Recomputes and compares a candidate password against a stored encoded
/// hash. A mismatch is `Ok(false)`, never an error; the only error is a
/// malformed stored hash.
pub fn verify_password(password: &[u8], stored: &str) -> (r: Result<
    bool,
    AuthServiceError<()>,
>)
    requires
        password@.len() <= 0xFFFF_FFFF,
    ensures
        r matches Ok(b) ==> argon_valid_encoded(stored@) && b == argon_verifies(
            stored@,
            password@,
        ),
        r matches Err(e) ==> e == AuthServiceError::<()>::PasswordVerify && !argon_valid_encoded(
            stored@,
        ),
{
    match argon2_verify_encoded(stored, password) {
        Ok(b) => Ok(b),
        Err(_) => Err(AuthServiceError::PasswordVerify),
    }
}

} // verus!
