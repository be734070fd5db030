//! Authentication and session-credential service.
//!
//! Turns user-supplied credentials into durable identity records and
//! short-lived, verifiable access tokens together with opaque refresh
//! handles, coordinating a transactional account store and a TTL
//! session registry.

use vstd::prelude::*;

mod api;
mod config;
mod dto;
mod errors;
mod hashing;
mod registry;
mod roles;
mod service;
mod store;
mod time;
mod token;

pub use api::authorization_response;
pub use api::lemma_enumeration_resistance;
pub use api::spec_authorization_response;
pub use api::JsonMessage;
pub use api::JwtAuth;
pub use api::JwtAuthService;
pub use api::LawPage;
pub use api::Message;
pub use config::Config;
pub use config::DbErrorProvider;
pub use config::DbUrlProvider;
pub use config::SaltProvider;
pub use config::SecretsProvider;
pub use config::MAX_EPOCH_SECS;
pub use config::MAX_LIFETIME_SECS;
pub use dto::is_email;
pub use dto::AuthorizationDto;
pub use dto::RegistrationDto;
pub use errors::AuthServiceError;
pub use errors::CacheError;
pub use errors::DbError;
pub use errors::UserServiceError;
pub use hashing::argon_hash_of;
pub use hashing::argon_valid_encoded;
pub use hashing::argon_verifies;
pub use hashing::hash_password;
pub use hashing::verify_password;
pub use registry::entries_without;
pub use registry::lemma_logout_idempotent;
pub use registry::lemma_without_absent_key;
pub use registry::lemma_without_is_clean;
pub use registry::Cache;
pub use registry::SessionEntry;
pub use roles::UserProfilesRoles;
pub use service::AuthService;
pub use service::TokenPair;
pub use store::lemma_lookup_identity_member;
pub use store::lemma_lookup_login_member;
pub use store::lemma_lookup_profile_some;
pub use store::lookup_identity_in;
pub use store::lookup_login_in;
pub use store::lookup_profile_in;
pub use store::matches_login;
pub use store::AccountStore;
pub use store::AuthData;
pub use store::Passport;
pub use store::PassportOrmData;
pub use store::UserProfile;
pub use time::current_epoch;
pub use token::decode_access;
pub use token::lemma_expiry_enforcement;
pub use token::lemma_token_round_trip;
pub use token::issue_access;
pub use token::issue_refresh_marker;
pub use token::spec_decode_access;
pub use token::jwt_claims_of;
pub use token::jwt_of;
pub use token::JwtAccessData;
pub use token::JwtClaims;
