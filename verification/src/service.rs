//! The credential service: registration, authorization, token refresh and
//! logout, orchestrating the account store, the password hasher, the token
//! codec and the session registry.
//!
//! Every protocol takes the configuration and the current epoch second as
//! arguments and is verified for every value of both. Session-registry
//! writes during registration and login are best-effort: losing the
//! registry never blocks authentication. Only the refresh protocol treats
//! the registry as the source of truth and rejects when it cannot resolve
//! the handle.

use vstd::prelude::*;
use vstd::utf8::encode_utf8;

use crate::config::Config;
use crate::config::MAX_EPOCH_SECS;
use crate::dto::AuthorizationDto;
use crate::dto::RegistrationDto;
use crate::errors::AuthServiceError;
use crate::errors::DbError;
use crate::errors::UserServiceError;
use crate::hashing::argon_hash_of;
use crate::hashing::argon_verifies;
use crate::hashing::hash_password;
use crate::hashing::verify_password;
use crate::registry::Cache;
use crate::roles::UserProfilesRoles;
use crate::store::lemma_lookup_identity_member;
use crate::store::lemma_lookup_login_member;
use crate::store::lemma_lookup_profile_some;
use crate::store::AccountStore;
use crate::store::PassportOrmData;
use crate::time::current_epoch;
use crate::token::decode_access;
use crate::token::issue_access;
use crate::token::issue_refresh_marker;
use crate::token::jwt_claims_of;
use crate::token::jwt_of;
use crate::token::JwtAccessData;
use crate::token::JwtClaims;

verus! {

/// A token pair as handed to the transport layer: the signed access token,
/// the opaque refresh handle, and the two expiry instants in epoch seconds.
pub type TokenPair = (String, String, u64, u64);

/// A stored hash kept aside for the not-found path of authorization: the
/// password verifier runs against it even when no account matches the
/// login, so that the two rejections do the same work.
const PHANTOM_HASH: &'static str = "$argon2id$v=19$m=65536,t=3,p=1$c29tZXNhbHRzb21lc2FsdA$n1GnCvTSYvWu4uyV8ZLXjDVdJy9bSBBkvZ9EFGQbGM4";

/// The credential service, owning its two stores.
pub struct AuthService {
    store: AccountStore,
    registry: Cache,
}

impl AuthService {
    /// The account store behind the service.
    pub closed spec fn spec_store(self) -> AccountStore {
        self.store
    }

    /// The session registry behind the service.
    pub closed spec fn spec_registry(self) -> Cache {
        self.registry
    }

    /// Both backing stores are well formed.
    pub open spec fn wf(self) -> bool {
        self.spec_store().wf() && self.spec_registry().wf()
    }

    /// Builds the service around an account store and a session registry.
    pub fn new(store: AccountStore, registry: Cache) -> (r: AuthService)
        ensures
            r.spec_store() == store,
            r.spec_registry() == registry,
    {
        AuthService { store, registry }
    }

    /// Read access to the account store.
    pub fn store(&self) -> (r: &AccountStore)
        ensures
            *r == self.spec_store(),
    {
        &self.store
    }

    /// Read access to the session registry.
    pub fn registry(&self) -> (r: &Cache)
        ensures
            *r == self.spec_registry(),
    {
        &self.registry
    }

    /// Whether the store can still allocate the three row ids a
    /// registration needs; callers test this before registering.
    pub fn has_capacity(&self) -> (r: bool)
        ensures
            r == self.spec_store().can_allocate(3),
    {
        self.store.can_allocate_rows(3)
    }

    /// Issues an access token with the given claims, expiring at
    /// `now + access lifetime`, together with a fresh refresh handle whose
    /// registry lifetime ends at `now + refresh lifetime`.
    fn generate_tokens(
        uid: u64,
        username: &str,
        email: &str,
        role: &str,
        config: &Config,
        now: u64,
    ) -> (r: Result<TokenPair, AuthServiceError<()>>)
        requires
            config.wf(),
            now <= MAX_EPOCH_SECS,
        ensures
            r is Ok,
            r matches Ok(t) ==> t.0@ == jwt_of(
                (JwtClaims {
                    uid: uid,
                    sub: email@,
                    username: username@,
                    role: role@,
                    exp: (now + config.access_lifetime) as u64,
                }),
                config.access_secret@,
            ),
            r matches Ok(t) ==> jwt_claims_of(t.0@, config.access_secret@) == Some(
                (JwtClaims {
                    uid: uid,
                    sub: email@,
                    username: username@,
                    role: role@,
                    exp: (now + config.access_lifetime) as u64,
                }),
            ),
            r matches Ok(t) ==> t.1@.len() == 36 && t.2 == now + config.access_lifetime && t.3
                == now + config.refresh_lifetime,
    {
        let exp = now + config.access_lifetime;
        let refresh_exp = now + config.refresh_lifetime;
        let claims = JwtAccessData {
            uid,
            sub: email.to_owned(),
            username: username.to_owned(),
            role: role.to_owned(),
            exp,
        };
        let access_token = match issue_access(&claims, config.access_secret.as_slice()) {
            Ok(t) => t,
            Err(e) => {
                return Err(e);
            },
        };
        let refresh_token = issue_refresh_marker();
        Ok((access_token, refresh_token, exp, refresh_exp))
    }

    /// Strict decoding of an access token against the clock: claims come
    /// back only from a genuinely signed, unexpired token; an expired
    /// signature is `TokenExpired`, anything else `InvalidToken`.
    pub fn validate_token(access_token: &str, config: &Config) -> (r: Result<
        JwtAccessData,
        AuthServiceError<()>,
    >)
        ensures
            r matches Ok(c) ==> jwt_claims_of(access_token@, config.access_secret@) == Some(c@),
            r matches Err(e) ==> e == AuthServiceError::<()>::TokenExpired || e
                == AuthServiceError::<()>::InvalidToken,
            r == Err::<JwtAccessData, AuthServiceError<()>>(AuthServiceError::InvalidToken)
                ==> jwt_claims_of(access_token@, config.access_secret@) is None,
            r == Err::<JwtAccessData, AuthServiceError<()>>(AuthServiceError::TokenExpired)
                ==> jwt_claims_of(access_token@, config.access_secret@) is Some,
    {
        let now = current_epoch();
        decode_access(access_token, config.access_secret.as_slice(), true, now)
    }

    /// Lenient decoding of an access token: expiry is ignored — this is how
    /// refresh recovers identity from a possibly expired token — but the
    /// signature must still be genuine.
    pub fn decrypt_token(access_token: &str, config: &Config) -> (r: Result<
        JwtAccessData,
        AuthServiceError<()>,
    >)
        ensures
            r matches Ok(c) ==> jwt_claims_of(access_token@, config.access_secret@) == Some(c@),
            r matches Err(e) ==> e == AuthServiceError::<()>::InvalidToken && jwt_claims_of(
                access_token@,
                config.access_secret@,
            ) is None,
            jwt_claims_of(access_token@, config.access_secret@) matches Some(c) ==> (r matches
                Ok(rc) && rc@ == c),
    {
        decode_access(access_token, config.access_secret.as_slice(), false, 0)
    }

    /// Registration: creates the passport, profile and identity rows as one
    /// transaction, hashes the password before the identity row is written,
    /// issues a token pair and registers the refresh handle best-effort.
    ///
    /// Any failure leaves the three tables exactly as they were — in
    /// particular no identity row is ever committed without the password
    /// hash of this registration, and no passport row survives a failed
    /// profile or identity insert. A colliding email or username is
    /// reported as `AlreadyExists`.
    pub fn register_user(&mut self, dto: &RegistrationDto, config: &Config, now: u64) -> (r:
        Result<TokenPair, DbError<AuthServiceError<()>>>)
        requires
            old(self).wf(),
            config.wf(),
            now <= MAX_EPOCH_SECS,
            old(self).spec_store().can_allocate(3),
            encode_utf8(dto.password@).len() <= 0xFFFF_FFFF,
        ensures
            final(self).wf(),
            final(self).spec_store().spec_available() == old(self).spec_store().spec_available(),
            final(self).spec_registry().spec_available() == old(self).spec_registry().spec_available(),
            r is Err ==> final(self).spec_store().rows() == old(self).spec_store().rows() && final(self).spec_registry().spec_entries() == old(self).spec_registry().spec_entries(),
            !old(self).spec_store().spec_available() ==> r == Err::<
                TokenPair,
                DbError<AuthServiceError<()>>,
            >(DbError::Connection),
            old(self).spec_store().spec_available() && old(self).spec_store().spec_fail_passport_inserts() ==> r == Err::<
                TokenPair,
                DbError<AuthServiceError<()>>,
            >(DbError::Execution(AuthServiceError::PassportCreation)),
            old(self).spec_store().spec_available() && !old(self).spec_store().spec_fail_passport_inserts() && old(self).spec_store().spec_fail_profile_inserts() ==> r == Err::<
                TokenPair,
                DbError<AuthServiceError<()>>,
            >(DbError::Execution(AuthServiceError::ProfileCreation)),
            old(self).spec_store().spec_available() && !old(self).spec_store().spec_fail_passport_inserts() && !old(self).spec_store().spec_fail_profile_inserts() && (old(self).spec_store().has_email(
                dto.email@,
            ) || old(self).spec_store().has_username(dto.username@)) ==> r == Err::<
                TokenPair,
                DbError<AuthServiceError<()>>,
            >(DbError::Execution(AuthServiceError::AlreadyExists)),
            old(self).spec_store().spec_available() && !old(self).spec_store().spec_fail_passport_inserts() && !old(self).spec_store().spec_fail_profile_inserts() && !(old(self).spec_store().has_email(
                dto.email@,
            ) || old(self).spec_store().has_username(dto.username@)) && old(self).spec_store().spec_fail_identity_inserts() ==> r == Err::<
                TokenPair,
                DbError<AuthServiceError<()>>,
            >(DbError::Execution(AuthServiceError::AuthDataCreation(()))),
            old(self).spec_store().spec_available() && !old(self).spec_store().spec_fail_passport_inserts() && !old(self).spec_store().spec_fail_profile_inserts() && !(old(self).spec_store().has_email(
                dto.email@,
            ) || old(self).spec_store().has_username(dto.username@)) && !old(self).spec_store().spec_fail_identity_inserts() ==> (r matches Ok(t)
                && final(self).spec_store().spec_passports() == old(self).spec_store().spec_passports().push(
                (crate::store::Passport {
                    uid: old(self).spec_store().spec_next_uid(),
                    first_name: dto.first_name,
                    second_name: dto.second_name,
                    patronymic: dto.patronymic,
                    birthday_date: dto.birth_date,
                }),
            ) && final(self).spec_store().spec_profiles() == old(self).spec_store().spec_profiles().push(
                (crate::store::UserProfile {
                    uid: (old(self).spec_store().spec_next_uid() + 1) as u64,
                    passport_uid: Some(old(self).spec_store().spec_next_uid()),
                    law_profile: None,
                    avatar_uid: None,
                    role: UserProfilesRoles::User,
                }),
            ) && final(self).spec_store().spec_identities() == old(self).spec_store().spec_identities().push(
                final(self).spec_store().spec_identities().last(),
            ) && final(self).spec_store().spec_identities().last().uid == (old(self).spec_store().spec_next_uid() + 2) as u64 && final(self).spec_store().spec_identities().last().profile_uid == (old(self).spec_store().spec_next_uid() + 1) as u64 && final(self).spec_store().spec_identities().last().email@ == dto.email@ && final(self).spec_store().spec_identities().last().username@ == dto.username@ && final(self).spec_store().spec_identities().last().password@ == argon_hash_of(
                encode_utf8(dto.password@),
                config.salt@,
            ) && argon_verifies(
                final(self).spec_store().spec_identities().last().password@,
                encode_utf8(dto.password@),
            ) && t.0@ == jwt_of(
                (JwtClaims {
                    uid: (old(self).spec_store().spec_next_uid() + 2) as u64,
                    sub: dto.email@,
                    username: dto.username@,
                    role: "user"@,
                    exp: (now + config.access_lifetime) as u64,
                }),
                config.access_secret@,
            ) && jwt_claims_of(t.0@, config.access_secret@) == Some(
                (JwtClaims {
                    uid: (old(self).spec_store().spec_next_uid() + 2) as u64,
                    sub: dto.email@,
                    username: dto.username@,
                    role: "user"@,
                    exp: (now + config.access_lifetime) as u64,
                }),
            ) && t.1@.len() == 36 && t.2 == now + config.access_lifetime && t.3 == now
                + config.refresh_lifetime && (old(self).spec_registry().spec_available() ==> final(self).spec_registry().has_key(t.1@) && final(self).spec_registry().value_of(t.1@) == t.0@
                && final(self).spec_registry().expiry_of(t.1@) == t.3) && (!old(self).spec_registry().spec_available() ==> final(self).spec_registry().spec_entries()
                == old(self).spec_registry().spec_entries())),
    {
        if !self.store.available() {
            return Err(DbError::Connection);
        }
        let ghost prev_store = self.store;
        let n_passports = self.store.passport_count();
        let n_profiles = self.store.profile_count();
        let n_identities = self.store.identity_count();
        let passport_data = PassportOrmData {
            first_name: dto.first_name.clone(),
            second_name: dto.second_name.clone(),
            patronymic: crate::store::clone_opt_string(&dto.patronymic),
            birthday_date: dto.birth_date,
        };
        let profile_uid = match self.store.create_user(&passport_data) {
            Ok(u) => u,
            Err(UserServiceError::PassportCreation) => {
                return Err(DbError::Execution(AuthServiceError::PassportCreation));
            },
            Err(_) => {
                return Err(DbError::Execution(AuthServiceError::ProfileCreation));
            },
        };
        let password_hash = match hash_password(
            dto.password.as_str().as_bytes(),
            config.salt.as_slice(),
        ) {
            Ok(h) => h,
            Err(_) => {
                proof {
                    Self::lemma_created_user_prefix(prev_store, self.store);
                }
                self.store.rollback_to(
                    Ghost(prev_store),
                    n_passports,
                    n_profiles,
                    n_identities,
                );
                return Err(DbError::Execution(AuthServiceError::HashPassword));
            },
        };
        proof {
            assert(self.store.has_profile(profile_uid)) by {
                assert(self.store.spec_profiles().last().uid == profile_uid);
            }
        }
        let identity_uid = match self.store.create_auth_data(
            dto.username.as_str(),
            password_hash.as_str(),
            dto.email.as_str(),
            profile_uid,
        ) {
            Ok(u) => u,
            Err(e) => {
                proof {
                    Self::lemma_created_user_prefix(prev_store, self.store);
                }
                self.store.rollback_to(
                    Ghost(prev_store),
                    n_passports,
                    n_profiles,
                    n_identities,
                );
                return Err(DbError::Execution(e));
            },
        };
        let tokens = match Self::generate_tokens(
            identity_uid,
            dto.username.as_str(),
            dto.email.as_str(),
            "user",
            config,
            now,
        ) {
            Ok(t) => t,
            Err(e) => {
                proof {
                    Self::lemma_created_user_prefix(prev_store, self.store);
                    assert(self.store.spec_identities().subrange(0, n_identities as int)
                        =~= prev_store.spec_identities());
                }
                self.store.rollback_to(
                    Ghost(prev_store),
                    n_passports,
                    n_profiles,
                    n_identities,
                );
                return Err(DbError::Execution(e));
            },
        };
        let _ = self.registry.add_pair(tokens.1.as_str(), tokens.0.as_str(), tokens.3);
        Ok(tokens)
    }

    /// The two rows that a successful `create_user` appended leave the
    /// earlier tables as prefixes, so that the transaction can be rolled
    /// back to them.
    proof fn lemma_created_user_prefix(prev: AccountStore, cur: AccountStore)
        requires
            cur.spec_passports().len() >= prev.spec_passports().len(),
            cur.spec_profiles().len() >= prev.spec_profiles().len(),
            cur.spec_identities().len() >= prev.spec_identities().len(),
            forall|i: int|
                0 <= i < prev.spec_passports().len() ==> cur.spec_passports()[i]
                    == prev.spec_passports()[i],
            forall|i: int|
                0 <= i < prev.spec_profiles().len() ==> cur.spec_profiles()[i]
                    == prev.spec_profiles()[i],
            forall|i: int|
                0 <= i < prev.spec_identities().len() ==> cur.spec_identities()[i]
                    == prev.spec_identities()[i],
        ensures
            prev.spec_passports() == cur.spec_passports().subrange(
                0,
                prev.spec_passports().len() as int,
            ),
            prev.spec_profiles() == cur.spec_profiles().subrange(
                0,
                prev.spec_profiles().len() as int,
            ),
            prev.spec_identities() == cur.spec_identities().subrange(
                0,
                prev.spec_identities().len() as int,
            ),
    {
        assert(prev.spec_passports() =~= cur.spec_passports().subrange(
            0,
            prev.spec_passports().len() as int,
        ));
        assert(prev.spec_profiles() =~= cur.spec_profiles().subrange(
            0,
            prev.spec_profiles().len() as int,
        ));
        assert(prev.spec_identities() =~= cur.spec_identities().subrange(
            0,
            prev.spec_identities().len() as int,
        ));
    }

    /// Authorization: looks the identity up by email-or-username, verifies
    /// the password, loads the profile for the current role, and issues a
    /// token pair, registering the refresh handle best-effort.
    ///
    /// The lookup and the password verification are both performed even
    /// when the account does not exist (the verifier then runs against a
    /// phantom hash), so that the two rejections cannot be told apart by
    /// timing; and `UserNotFound` and `InvalidPassword`, though encoded
    /// distinctly, map to the same external response class.
    pub fn authorize_user(&mut self, dto: &AuthorizationDto, config: &Config, now: u64) -> (r:
        Result<TokenPair, DbError<AuthServiceError<()>>>)
        requires
            old(self).wf(),
            config.wf(),
            now <= MAX_EPOCH_SECS,
            encode_utf8(dto.password@).len() <= 0xFFFF_FFFF,
        ensures
            final(self).wf(),
            final(self).spec_store() == old(self).spec_store(),
            final(self).spec_registry().spec_available() == old(self).spec_registry().spec_available(),
            !old(self).spec_store().spec_available() ==> r == Err::<
                TokenPair,
                DbError<AuthServiceError<()>>,
            >(DbError::Connection) && final(self).spec_registry() == old(self).spec_registry(),
            old(self).spec_store().spec_available() && old(self).spec_store().lookup_login(
                dto.email_or_username@,
            ) is None ==> r == Err::<TokenPair, DbError<AuthServiceError<()>>>(
                DbError::Execution(AuthServiceError::UserNotFound),
            ) && final(self).spec_registry() == old(self).spec_registry(),
            old(self).spec_store().spec_available() ==> (old(self).spec_store().lookup_login(
                dto.email_or_username@,
            ) matches Some(d) ==> (!argon_verifies(d.password@, encode_utf8(dto.password@)) ==> r
                == Err::<TokenPair, DbError<AuthServiceError<()>>>(
                DbError::Execution(AuthServiceError::InvalidPassword),
            ) && final(self).spec_registry() == old(self).spec_registry())),
            old(self).spec_store().spec_available() ==> (old(self).spec_store().lookup_login(
                dto.email_or_username@,
            ) matches Some(d) ==> (argon_verifies(d.password@, encode_utf8(dto.password@)) ==> (r
                matches Ok(t) && old(self).spec_store().lookup_profile(d.profile_uid) matches
                Some(p) && t.0@ == jwt_of(
                (JwtClaims {
                    uid: d.uid,
                    sub: d.email@,
                    username: d.username@,
                    role: p.role.spec_label(),
                    exp: (now + config.access_lifetime) as u64,
                }),
                config.access_secret@,
            ) && jwt_claims_of(t.0@, config.access_secret@) == Some(
                (JwtClaims {
                    uid: d.uid,
                    sub: d.email@,
                    username: d.username@,
                    role: p.role.spec_label(),
                    exp: (now + config.access_lifetime) as u64,
                }),
            ) && t.1@.len() == 36 && t.2 == now + config.access_lifetime && t.3 == now
                + config.refresh_lifetime && (old(self).spec_registry().spec_available() ==> final(self).spec_registry().has_key(t.1@) && final(self).spec_registry().value_of(t.1@) == t.0@
                && final(self).spec_registry().expiry_of(t.1@) == t.3) && (!old(self).spec_registry().spec_available() ==> final(self).spec_registry().spec_entries()
                == old(self).spec_registry().spec_entries())))),
    {
        if !self.store.available() {
            return Err(DbError::Connection);
        }
        let data = match self.store.find_by_email_or_username(dto.email_or_username.as_str()) {
            Ok(d) => d,
            Err(_) => {
                let _ = verify_password(dto.password.as_str().as_bytes(), PHANTOM_HASH);
                return Err(DbError::Execution(AuthServiceError::UserNotFound));
            },
        };
        proof {
            lemma_lookup_login_member(
                self.store.spec_identities(),
                dto.email_or_username@,
            );
        }
        let verified = match verify_password(
            dto.password.as_str().as_bytes(),
            data.password.as_str(),
        ) {
            Ok(b) => b,
            Err(_) => {
                return Err(DbError::Execution(AuthServiceError::PasswordVerify));
            },
        };
        let user = match self.store.find_user_by_pk(data.profile_uid) {
            Ok(u) => u,
            Err(_) => {
                proof {
                    lemma_lookup_profile_some(self.store.spec_profiles(), data.profile_uid);
                }
                return Err(DbError::Execution(AuthServiceError::UserNotFound));
            },
        };
        if !verified {
            return Err(DbError::Execution(AuthServiceError::InvalidPassword));
        }
        let tokens = match Self::generate_tokens(
            data.uid,
            data.username.as_str(),
            data.email.as_str(),
            user.role.as_str(),
            config,
            now,
        ) {
            Ok(t) => t,
            Err(e) => {
                return Err(DbError::Execution(e));
            },
        };
        let _ = self.registry.add_pair(tokens.1.as_str(), tokens.0.as_str(), tokens.3);
        Ok(tokens)
    }

    /// Token refresh: recovers identity from the (possibly expired, but
    /// genuinely signed) access token, requires the refresh handle to
    /// resolve in the session registry — the registry is the authority on
    /// whether this session is still live, so absence is a hard rejection —
    /// reloads the profile for the current role, issues a fresh pair, and
    /// rotates the handle: the old one is deleted, the new one registered.
    pub fn refresh_tokens(
        &mut self,
        access_token: &str,
        refresh_token: &str,
        config: &Config,
        now: u64,
    ) -> (r: Result<TokenPair, DbError<AuthServiceError<()>>>)
        requires
            old(self).wf(),
            config.wf(),
            now <= MAX_EPOCH_SECS,
        ensures
            final(self).wf(),
            final(self).spec_store() == old(self).spec_store(),
            final(self).spec_registry().spec_available() == old(self).spec_registry().spec_available(),
            r is Err ==> final(self).spec_registry().spec_entries() == old(self).spec_registry().spec_entries(),
            jwt_claims_of(access_token@, config.access_secret@) is None ==> r == Err::<
                TokenPair,
                DbError<AuthServiceError<()>>,
            >(DbError::Execution(AuthServiceError::InvalidToken)),
            jwt_claims_of(access_token@, config.access_secret@) is Some && !old(self).spec_registry().spec_available() ==> r == Err::<
                TokenPair,
                DbError<AuthServiceError<()>>,
            >(DbError::Connection),
            jwt_claims_of(access_token@, config.access_secret@) is Some && old(self).spec_registry().spec_available() && !old(self).spec_registry().live(
                refresh_token@,
                now,
            ) ==> r == Err::<TokenPair, DbError<AuthServiceError<()>>>(
                DbError::Execution(AuthServiceError::RefreshTokenNotFound),
            ),
            jwt_claims_of(access_token@, config.access_secret@) is Some && old(self).spec_registry().spec_available() && old(self).spec_registry().live(
                refresh_token@,
                now,
            ) && !old(self).spec_store().spec_available() ==> r == Err::<
                TokenPair,
                DbError<AuthServiceError<()>>,
            >(DbError::Connection),
            jwt_claims_of(access_token@, config.access_secret@) matches Some(cl) ==> (old(self).spec_registry().spec_available() && old(self).spec_registry().live(
                refresh_token@,
                now,
            ) && old(self).spec_store().spec_available() && old(self).spec_store().lookup_identity(
                cl.uid,
            ) is None ==> r == Err::<TokenPair, DbError<AuthServiceError<()>>>(
                DbError::Execution(AuthServiceError::UserNotFound),
            )),
            jwt_claims_of(access_token@, config.access_secret@) matches Some(cl) ==> (old(self).spec_registry().spec_available() && old(self).spec_registry().live(
                refresh_token@,
                now,
            ) && old(self).spec_store().spec_available() ==> (old(self).spec_store().lookup_identity(cl.uid) matches Some(d) ==> (r matches Ok(t) && old(self).spec_store().lookup_profile(d.profile_uid) matches Some(p) && t.0@ == jwt_of(
                (JwtClaims {
                    uid: cl.uid,
                    sub: cl.sub,
                    username: cl.username,
                    role: p.role.spec_label(),
                    exp: (now + config.access_lifetime) as u64,
                }),
                config.access_secret@,
            ) && jwt_claims_of(t.0@, config.access_secret@) == Some(
                (JwtClaims {
                    uid: cl.uid,
                    sub: cl.sub,
                    username: cl.username,
                    role: p.role.spec_label(),
                    exp: (now + config.access_lifetime) as u64,
                }),
            ) && t.1@.len() == 36 && t.2 == now + config.access_lifetime && t.3 == now
                + config.refresh_lifetime && final(self).spec_registry().has_key(t.1@) && final(self).spec_registry().value_of(t.1@) == t.0@ && final(self).spec_registry().expiry_of(t.1@)
                == t.3 && (refresh_token@ != t.1@ ==> !final(self).spec_registry().has_key(
                refresh_token@,
            )) && (forall|k: Seq<char>|
                k != refresh_token@ && k != t.1@ ==> #[trigger] final(self).spec_registry()
                    .has_key(k) == old(self).spec_registry().has_key(k)) && (forall|k: Seq<char>|
                k != refresh_token@ && k != t.1@ && old(self).spec_registry().has_key(k)
                    ==> #[trigger] final(self).spec_registry().entry_at(k) == old(self).spec_registry().entry_at(k))))),
    {
        let claims = match decode_access(access_token, config.access_secret.as_slice(), false, now) {
            Ok(c) => c,
            Err(_) => {
                return Err(DbError::Execution(AuthServiceError::InvalidToken));
            },
        };
        match self.registry.get_pair(refresh_token, now) {
            Ok(Some(_)) => {},
            Ok(None) => {
                return Err(DbError::Execution(AuthServiceError::RefreshTokenNotFound));
            },
            Err(_) => {
                return Err(DbError::Connection);
            },
        }
        if !self.store.available() {
            return Err(DbError::Connection);
        }
        let auth = match self.store.find_by_pk(claims.uid) {
            Ok(a) => a,
            Err(_) => {
                return Err(DbError::Execution(AuthServiceError::UserNotFound));
            },
        };
        proof {
            lemma_lookup_identity_member(self.store.spec_identities(), claims.uid);
        }
        let user = match self.store.find_user_by_pk(auth.profile_uid) {
            Ok(u) => u,
            Err(_) => {
                proof {
                    lemma_lookup_profile_some(self.store.spec_profiles(), auth.profile_uid);
                }
                return Err(DbError::Execution(AuthServiceError::UserNotFound));
            },
        };
        let tokens = match Self::generate_tokens(
            claims.uid,
            claims.username.as_str(),
            claims.sub.as_str(),
            user.role.as_str(),
            config,
            now,
        ) {
            Ok(t) => t,
            Err(e) => {
                return Err(DbError::Execution(e));
            },
        };
        let _ = self.registry.remove(refresh_token);
        let _ = self.registry.add_pair(tokens.1.as_str(), tokens.0.as_str(), tokens.3);
        Ok(tokens)
    }

    /// Uniqueness across calls: a store whose identity table ends with a
    /// row carrying this email — as the contract of `register_user` leaves
    /// it after a success — contains the email, so the same contract makes
    /// a second registration with that email return `AlreadyExists` and add
    /// no second identity row.
    pub proof fn lemma_registered_email_present(s: AccountStore, email: Seq<char>)
        requires
            s.spec_identities().len() > 0,
            s.spec_identities().last().email@ == email,
        ensures
            s.has_email(email),
    {
        let n = s.spec_identities().len() - 1;
        assert(0 <= n < s.spec_identities().len() && s.spec_identities()[n].email@ == email);
    }

    /// Logout: deletes the refresh handle from the session registry.
    /// Always succeeds — a missing handle means the session is already
    /// gone, and an unreachable registry never blocks logout.
    pub fn logout(&mut self, refresh_token: &str) -> (r: Result<
        (),
        DbError<AuthServiceError<()>>,
    >)
        requires
            old(self).wf(),
        ensures
            final(self).wf(),
            r is Ok,
            final(self).spec_store() == old(self).spec_store(),
            final(self).spec_registry().spec_available() == old(self).spec_registry().spec_available(),
            old(self).spec_registry().spec_available() ==> !final(self).spec_registry().has_key(
                refresh_token@,
            ),
            old(self).spec_registry().spec_available() ==> final(self).spec_registry()
                .spec_entries() == crate::registry::entries_without(
                old(self).spec_registry().spec_entries(),
                refresh_token@,
            ),
            !old(self).spec_registry().spec_available() ==> final(self).spec_registry()
                .spec_entries() == old(self).spec_registry().spec_entries(),
            forall|k: Seq<char>|
                k != refresh_token@ ==> #[trigger] final(self).spec_registry().has_key(k) == old(self).spec_registry().has_key(k),
            forall|k: Seq<char>|
                k != refresh_token@ && old(self).spec_registry().has_key(k) ==> #[trigger] final(self).spec_registry().entry_at(k) == old(self).spec_registry().entry_at(k),
    {
        let _ = self.registry.remove(refresh_token);
        Ok(())
    }
}

} // verus!
