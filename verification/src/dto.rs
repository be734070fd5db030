//! Request payloads of the three protocols, with their semantic validation:
//! a registration carries an email, a username, a password and passport
//! fields; an authorization carries a login string (email or username) and a
//! password.

use vstd::prelude::*;
use vstd::string::StrSliceExecFns;

verus! {

/// Whether the `validator` crate accepts this string as an email address.
pub uninterp spec fn is_email(s: Seq<char>) -> bool;

/// Relies on `validator::validate_email`: the verdict is a pure function of
/// the string, and the empty string is never an email.
#[verifier::external_body]
fn email_ok(s: &str) -> (r: bool)
    ensures
        r == is_email(s@),
        s@.len() == 0 ==> !r,
{
    validator::validate_email(s)
}

/// Registration request: login data plus the passport fields, the birth
/// date as an epoch day number.
#[derive(Debug)]
pub struct RegistrationDto {
    pub email: String,
    pub username: String,
    pub password: String,
    pub first_name: String,
    pub second_name: String,
    pub patronymic: Option<String>,
    pub birth_date: i64,
}

/// Authorization request: a login string that may be either the email or
/// the username, plus the password.
#[derive(Debug)]
pub struct AuthorizationDto {
    pub email_or_username: String,
    pub password: String,
}

impl RegistrationDto {
    /// A registration is well formed when the email is an email, the
    /// username has 3 to 255 characters and the password 8 to 32.
    pub open spec fn spec_valid(self) -> bool {
        &&& is_email(self.email@)
        &&& 3 <= self.username@.len() <= 255
        &&& 8 <= self.password@.len() <= 32
    }

    /// Checks the semantic constraints on the field values.
    pub fn validate(&self) -> (r: bool)
        ensures
            r == self.spec_valid(),
    {
        email_ok(self.email.as_str()) && {
            let ulen = self.username.as_str().unicode_len();
            let plen = self.password.as_str().unicode_len();
            3 <= ulen && ulen <= 255 && 8 <= plen && plen <= 32
        }
    }
}

impl AuthorizationDto {
    /// An authorization is well formed when the login string is an email or
    /// a 3-to-255-character username, and the password has 8 to 32
    /// characters.
    pub open spec fn spec_valid(self) -> bool {
        &&& is_email(self.email_or_username@) || 3 <= self.email_or_username@.len() <= 255
        &&& 8 <= self.password@.len() <= 32
    }

    /// Checks the semantic constraints on the field values.
    pub fn validate(&self) -> (r: bool)
        ensures
            r == self.spec_valid(),
    {
        let login_ok = email_ok(self.email_or_username.as_str()) || {
            let llen = self.email_or_username.as_str().unicode_len();
            3 <= llen && llen <= 255
        };
        login_ok && {
            let plen = self.password.as_str().unicode_len();
            8 <= plen && plen <= 32
        }
    }
}

} // verus!
