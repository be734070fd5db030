//! Typed errors of the storage layer, the cache layer and the credential
//! service.
//!
//! The account store and the session registry return composable errors; the
//! credential service narrows them into its own protocol enumeration, and the
//! transport layer maps that onto response classes.

use vstd::prelude::*;

verus! {

/// Failure of the storage backend as a whole: either the backend cannot be
/// reached at all, or a single operation inside it failed.
#[derive(Debug, Clone, PartialEq, Eq)]
pub enum DbError<T> {
    Instance,
    Connection,
    Execution(T),
    Migration,
}

/// Failure of a profile/passport operation in the account store.
#[derive(Debug, Clone, PartialEq, Eq)]
pub enum UserServiceError {
    PassportCreation,
    ProfileCreation,
    NotFound,
    GetLaws,
    DeleteLaws,
}

/// Failure of a session-registry operation.
#[derive(Debug, Clone, PartialEq, Eq)]
pub enum CacheError<T> {
    ConnectionOpen,
    ConnectionGet,
    Execution(T),
    AddPair,
    ExpireSet,
    GetPair,
}

/// Failure of one of the credential-service protocols.
///
/// `UserNotFound` and `InvalidPassword` are encoded distinctly for logging,
/// but map to the same external response class, so that a caller cannot tell
/// a missing account from a wrong password.
#[derive(Debug, Clone, PartialEq, Eq)]
pub enum AuthServiceError<T> {
    AuthDataCreation(T),
    HashPassword,
    ProfileCreation,
    PassportCreation,
    AccessTokenGeneration,
    RefreshTokenGeneration,
    InvalidPassword,
    UserNotFound,
    PasswordVerify,
    Unreachable,
    AlreadyExists,
    InvalidToken,
    TokenExpired,
    RefreshTokenNotFound,
}

} // verus!
