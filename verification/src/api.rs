//! Transport-facing values: the response-class mapping for protocol
//! failures, the message payload, and the small types the HTTP layer keeps
//! state in. The HTTP framework itself stays outside the library; what is
//! here is every decision the handlers make.

use vstd::prelude::*;

use crate::errors::AuthServiceError;
use crate::errors::DbError;
use crate::token::JwtAccessData;

verus! {

/// A one-field JSON payload, as every failure response carries.
#[derive(Debug)]
pub struct JsonMessage<'a> {
    pub message: &'a str,
}

/// A note a middleware can attach to a request.
#[derive(Debug)]
pub struct Message(pub String);

/// Configuration of the authentication middleware.
#[derive(Debug)]
pub struct JwtAuth {
    pub enabled: bool,
}

/// The authentication middleware wrapped around an inner service.
#[derive(Debug)]
pub struct JwtAuthService<S> {
    pub service: S,
    pub enabled: bool,
}

/// Query parameters of the law-profile listing.
#[derive(Debug)]
pub struct LawPage {
    pub page: Option<u64>,
}

/// Page size of the law-profile listing.
pub const LAW_PAGE_LIMIT: i64 = 15;

impl JwtAuth {
    /// Middleware configuration with authentication on or off.
    pub fn new(enabled: bool) -> (r: JwtAuth)
        ensures
            r.enabled == enabled,
    {
        JwtAuth { enabled }
    }
}

impl LawPage {
    /// Offset of the requested page: pages are numbered from 1, fifteen
    /// rows each, and a missing or zero page number means the first page —
    /// the offset handed to the row store is never negative.
    pub open spec fn spec_offset(self) -> int {
        match self.page {
            Some(p) => if p <= 1 {
                0
            } else {
                15 * (p - 1)
            },
            None => 0,
        }
    }

    /// Computes the row offset of this page.
    pub fn offset(&self) -> (r: i64)
        requires
            self.page matches Some(p) ==> p <= 0x0100_0000_0000_0000,
        ensures
            r == self.spec_offset(),
    {
        match self.page {
            Some(p) => {
                if p <= 1 {
                    0
                } else {
                    ((p - 1) as i64) * LAW_PAGE_LIMIT
                }
            },
            None => 0,
        }
    }
}

impl JwtAccessData {
    /// Whether these claims authorize deleting law profiles: only the
    /// administrator role may.
    pub fn is_admin(&self) -> (r: bool)
        ensures
            r == (self.role@ == "admin"@),
    {
        let admin = "admin".to_owned();
        self.role == admin
    }
}

/// The response class a protocol failure maps to: the HTTP status code and
/// the message payload.
pub open spec fn spec_authorization_response(err: DbError<AuthServiceError<()>>) -> (u16, Seq<
    char,
>) {
    match err {
        DbError::Execution(AuthServiceError::UserNotFound) => (400u16, "invalid_data"@),
        DbError::Execution(AuthServiceError::InvalidPassword) => (400u16, "invalid_data"@),
        _ => (500u16, "internal_error"@),
    }
}

/// Maps an authorization failure onto its external response class.
///
/// `UserNotFound` and `InvalidPassword` intentionally land on the same
/// class, so a caller probing logins cannot tell a missing account from a
/// wrong password.
pub fn authorization_response(err: &DbError<AuthServiceError<()>>) -> (r: (u16, &'static str))
    ensures
        r.0 == spec_authorization_response(*err).0,
        r.1@ == spec_authorization_response(*err).1,
{
    match err {
        DbError::Execution(AuthServiceError::UserNotFound) => (400, "invalid_data"),
        DbError::Execution(AuthServiceError::InvalidPassword) => (400, "invalid_data"),
        _ => (500, "internal_error"),
    }
}

/// Enumeration resistance: a failed authorization looks the same from the
/// outside whether the login was unknown or the password wrong.
pub proof fn lemma_enumeration_resistance()
    ensures
        spec_authorization_response(DbError::Execution(AuthServiceError::UserNotFound))
            == spec_authorization_response(DbError::Execution(AuthServiceError::InvalidPassword)),
{
}

} // verus!
