//! Token codec: issues and decodes compact signed access tokens, and draws
//! opaque refresh handles.
//!
//! Access tokens are HS256-signed claim sets handled by the `jsonwebtoken`
//! crate; what exactly a signed token looks like is left unnamed and carried
//! by `jwt_of` / `jwt_claims_of`, whose round trip the codec relies on. The
//! refresh artifact is deliberately not a signed token but a random opaque
//! identifier: it means nothing outside the session registry, so forging it
//! without registry access grants nothing.
//!
//! Expiry is enforced here, in verified code, against a caller-supplied
//! clock reading, never inside the unverified decoder.

use vstd::prelude::*;

use crate::errors::AuthServiceError;

verus! {

/// Claims embedded in an access token: identity id, login subject (email),
/// username, role label and expiry (epoch seconds).
#[derive(Clone, Debug, PartialEq, Eq)]
pub struct JwtAccessData {
    pub uid: u64,
    pub sub: String,
    pub username: String,
    pub role: String,
    pub exp: u64,
}

/// Mathematical image of a claim set.
#[verifier::ext_equal]
pub struct JwtClaims {
    pub uid: u64,
    pub sub: Seq<char>,
    pub username: Seq<char>,
    pub role: Seq<char>,
    pub exp: u64,
}

impl View for JwtAccessData {
    type V = JwtClaims;

    open spec fn view(&self) -> JwtClaims {
        JwtClaims {
            uid: self.uid,
            sub: self.sub@,
            username: self.username@,
            role: self.role@,
            exp: self.exp,
        }
    }
}

/// The signed compact token that `jsonwebtoken::encode` produces for these
/// claims under this secret (HS256, default header).
pub uninterp spec fn jwt_of(claims: JwtClaims, secret: Seq<u8>) -> Seq<char>;

/// The claim set that signature-checked decoding under this secret recovers
/// from this token, if the token is well formed and genuinely signed.
pub uninterp spec fn jwt_claims_of(token: Seq<char>, secret: Seq<u8>) -> Option<JwtClaims>;

/// Relies on `jsonwebtoken::encode` with the default HS256 header: for an
/// HMAC secret it cannot fail, its output is a pure function of claims and
/// secret, and `jsonwebtoken::decode` under the same secret recovers exactly
/// the claims that were encoded.
#[verifier::external_body]
fn jwt_encode(claims: &JwtAccessData, secret: &[u8]) -> (r: Result<String, ()>)
    ensures
        r is Ok,
        r matches Ok(t) ==> t@ == jwt_of(claims@, secret@),
        r matches Ok(t) ==> jwt_claims_of(t@, secret@) == Some(claims@),
{
    let mut m = serde_json::Map::new();
    m.insert("uid".to_string(), serde_json::Value::from(claims.uid));
    m.insert("sub".to_string(), serde_json::Value::from(claims.sub.clone()));
    m.insert("username".to_string(), serde_json::Value::from(claims.username.clone()));
    m.insert("role".to_string(), serde_json::Value::from(claims.role.clone()));
    m.insert("exp".to_string(), serde_json::Value::from(claims.exp));
    let key = jsonwebtoken::EncodingKey::from_secret(secret);
    jsonwebtoken::encode(&jsonwebtoken::Header::default(), &serde_json::Value::Object(m), &key)
        .map_err(|_| ())
}

/// Relies on `jsonwebtoken::decode` with signature-only validation (expiry
/// is left to verified code): the outcome is a pure function of the token
/// and the secret, `None` exactly on a malformed or wrongly signed token.
#[verifier::external_body]
fn jwt_decode(token: &str, secret: &[u8]) -> (r: Option<JwtAccessData>)
    ensures
        r matches Some(c) ==> jwt_claims_of(token@, secret@) == Some(c@),
        r is None ==> jwt_claims_of(token@, secret@) is None,
{
    let mut v = jsonwebtoken::Validation::default();
    v.validate_exp = false;
    v.required_spec_claims = std::collections::HashSet::new();
    let key = jsonwebtoken::DecodingKey::from_secret(secret);
    let c = jsonwebtoken::decode::<serde_json::Value>(token, &key, &v).ok()?.claims;
    Some(JwtAccessData {
        uid: c.get("uid")?.as_u64()?,
        sub: c.get("sub")?.as_str()?.to_string(),
        username: c.get("username")?.as_str()?.to_string(),
        role: c.get("role")?.as_str()?.to_string(),
        exp: c.get("exp")?.as_u64()?,
    })
}

/// Relies on `uuid::Uuid::new_v4` and its hyphenated rendering: a freshly
/// drawn random identifier, 36 characters long. Nothing else is assumed of
/// it — in particular not uniqueness.
#[verifier::external_body]
fn fresh_handle() -> (r: String)
    ensures
        r@.len() == 36,
{
    uuid::Uuid::new_v4().to_string()
}

/// What decoding an access token yields: the embedded claims, or
/// `InvalidToken` for a malformed or wrongly signed token, or `TokenExpired`
/// when expiry is enforced and the expiry instant is not after `now`.
pub open spec fn spec_decode_access(
    token: Seq<char>,
    secret: Seq<u8>,
    enforce_expiry: bool,
    now: u64,
) -> Result<JwtClaims, AuthServiceError<()>> {
    match jwt_claims_of(token, secret) {
        Option::None => Result::Err(AuthServiceError::InvalidToken),
        Option::Some(c) => if enforce_expiry && c.exp <= now {
            Result::Err(AuthServiceError::TokenExpired)
        } else {
            Result::Ok(c)
        },
    }
}

/// Round trip: a token that decodes to a claim set under a secret — in
/// particular one freshly issued by `issue_access`, whose contract
/// guarantees exactly that — is accepted by strict decoding under the same
/// secret with the original claims, as long as its expiry has not passed.
pub proof fn lemma_token_round_trip(token: Seq<char>, claims: JwtClaims, secret: Seq<u8>, now: u64)
    requires
        jwt_claims_of(token, secret) == Some(claims),
        now < claims.exp,
    ensures
        spec_decode_access(token, secret, true, now) == Result::<
            JwtClaims,
            AuthServiceError<()>,
        >::Ok(claims),
{
}

/// Expiry enforcement: a genuinely signed token whose expiry has passed is
/// still accepted by lenient decoding — that is how refresh recovers
/// identity — but strict decoding rejects it as expired.
pub proof fn lemma_expiry_enforcement(token: Seq<char>, claims: JwtClaims, secret: Seq<u8>, now: u64)
    requires
        jwt_claims_of(token, secret) == Some(claims),
        claims.exp <= now,
    ensures
        spec_decode_access(token, secret, false, now) == Result::<
            JwtClaims,
            AuthServiceError<()>,
        >::Ok(claims),
        spec_decode_access(token, secret, true, now) == Result::<
            JwtClaims,
            AuthServiceError<()>,
        >::Err(AuthServiceError::TokenExpired),
{
}

/// Issues an access token for the given claims.
pub fn issue_access(claims: &JwtAccessData, secret: &[u8]) -> (r: Result<
    String,
    AuthServiceError<()>,
>)
    ensures
        r is Ok,
        r matches Ok(t) ==> t@ == jwt_of(claims@, secret@),
        r matches Ok(t) ==> jwt_claims_of(t@, secret@) == Some(claims@),
{
    match jwt_encode(claims, secret) {
        Ok(t) => Ok(t),
        Err(_) => Err(AuthServiceError::AccessTokenGeneration),
    }
}

/// Draws a fresh opaque refresh marker: a random 36-character identifier
/// whose only meaning is as a key of the session registry.
pub fn issue_refresh_marker() -> (r: String)
    ensures
        r@.len() == 36,
{
    fresh_handle()
}

/// Decodes an access token in one of two modes: strict
/// (`enforce_expiry == true`) rejects a token whose expiry has passed with
/// `TokenExpired`; lenient ignores expiry and is used only to recover
/// identity from a possibly expired token during refresh. A bad signature is
/// `InvalidToken` in both modes.
pub fn decode_access(token: &str, secret: &[u8], enforce_expiry: bool, now: u64) -> (r: Result<
    JwtAccessData,
    AuthServiceError<()>,
>)
    ensures
        r matches Ok(c) ==> spec_decode_access(token@, secret@, enforce_expiry, now) == Result::<
            JwtClaims,
            AuthServiceError<()>,
        >::Ok(c@),
        r matches Err(e) ==> spec_decode_access(token@, secret@, enforce_expiry, now) == Result::<
            JwtClaims,
            AuthServiceError<()>,
        >::Err(e),
{
    match jwt_decode(token, secret) {
        None => Err(AuthServiceError::InvalidToken),
        Some(c) => {
            if enforce_expiry && c.exp <= now {
                Err(AuthServiceError::TokenExpired)
            } else {
                Ok(c)
            }
        },
    }
}

} // verus!
