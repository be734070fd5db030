//! Injected configuration: connection strings, the password salt, the token
//! secrets and the two token lifetimes.
//!
//! Protocol code never reads process-wide state; every protocol call takes a
//! reference to a `Config` value that the process wiring built once at
//! startup.

use vstd::prelude::*;

verus! {

/// Upper bound on either token lifetime, in seconds (about 136 years).
pub const MAX_LIFETIME_SECS: u64 = 0x1_0000_0000;

/// Upper bound on an epoch timestamp accepted by the protocols, in seconds
/// (about nine million years). Together with `MAX_LIFETIME_SECS` it keeps
/// every expiry computation inside `u64`.
pub const MAX_EPOCH_SECS: u64 = 0x1_0000_0000_0000;

/// Source of the relational store's connection string.
pub trait DbUrlProvider {
    fn db_url(&self) -> &str;
}

/// Textual rendering of a backend error, for logging.
pub trait DbErrorProvider {
    fn as_text(&self) -> &str;
}

/// Source of the server-wide password salt.
pub trait SaltProvider {
    fn salt(&self) -> &[u8];
}

/// Source of the two token-signing secrets.
pub trait SecretsProvider {
    fn access_secret(&self) -> &[u8];
    fn refresh_secret(&self) -> &[u8];
}

/// Runtime configuration of the service, fixed at startup.
pub struct Config {
    pub db_url: String,
    pub redis_url: String,
    pub host: String,
    pub port: u16,
    pub salt: Vec<u8>,
    pub access_secret: Vec<u8>,
    pub refresh_secret: Vec<u8>,
    /// Access-token lifetime in seconds (short, on the order of minutes).
    pub access_lifetime: u64,
    /// Refresh-handle lifetime in seconds (long, on the order of days).
    pub refresh_lifetime: u64,
}

impl Config {
    /// A configuration the protocols accept: the salt is long enough for the
    /// password hasher, and the lifetimes are ordered and bounded so that no
    /// expiry computation can overflow.
    pub open spec fn wf(&self) -> bool {
        &&& 8 <= self.salt@.len()
        &&& self.salt@.len() <= 0xFFFF_FFFF
        &&& self.access_lifetime <= self.refresh_lifetime
        &&& self.refresh_lifetime <= MAX_LIFETIME_SECS
    }

    /// Builds a configuration from values the process wiring read at startup.
    /// A salt shorter than eight bytes or unordered lifetimes are
    /// unrecoverable misconfiguration, which the caller must rule out before
    /// the service starts.
    pub fn new(
        db_url: String,
        redis_url: String,
        host: String,
        port: u16,
        salt: Vec<u8>,
        access_secret: Vec<u8>,
        refresh_secret: Vec<u8>,
        access_lifetime: u64,
        refresh_lifetime: u64,
    ) -> (r: Config)
        requires
            8 <= salt@.len(),
            salt@.len() <= 0xFFFF_FFFF,
            access_lifetime <= refresh_lifetime,
            refresh_lifetime <= MAX_LIFETIME_SECS,
        ensures
            r.wf(),
            r.db_url == db_url,
            r.redis_url == redis_url,
            r.host == host,
            r.port == port,
            r.salt == salt,
            r.access_secret == access_secret,
            r.refresh_secret == refresh_secret,
            r.access_lifetime == access_lifetime,
            r.refresh_lifetime == refresh_lifetime,
    {
        Config {
            db_url,
            redis_url,
            host,
            port,
            salt,
            access_secret,
            refresh_secret,
            access_lifetime,
            refresh_lifetime,
        }
    }

    /// Interface address the server binds to.
    pub fn host(&self) -> (r: &str)
        ensures
            r@ == self.host@,
    {
        self.host.as_str()
    }

    /// Port the server binds to.
    pub fn port(&self) -> (r: u16)
        ensures
            r == self.port,
    {
        self.port
    }

    /// Connection string of the session registry.
    pub fn redis_url(&self) -> (r: &str)
        ensures
            r@ == self.redis_url@,
    {
        self.redis_url.as_str()
    }
}

impl DbUrlProvider for Config {
    fn db_url(&self) -> &str {
        self.db_url.as_str()
    }
}

impl SaltProvider for Config {
    fn salt(&self) -> &[u8] {
        self.salt.as_slice()
    }
}

impl SecretsProvider for Config {
    fn access_secret(&self) -> &[u8] {
        self.access_secret.as_slice()
    }

    fn refresh_secret(&self) -> &[u8] {
        self.refresh_secret.as_slice()
    }
}

} // verus!
