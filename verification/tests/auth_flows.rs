use authcore::AccountStore;
use authcore::AuthService;
use authcore::AuthServiceError;
use authcore::AuthorizationDto;
use authcore::Cache;
use authcore::Config;
use authcore::DbError;
use authcore::RegistrationDto;
use authcore::UserProfilesRoles;
use authcore::authorization_response;
use authcore::issue_access;
use authcore::JwtAccessData;

const NOW: u64 = 1_700_000_000;

fn flow_config() -> Config {
    Config::new(
        "postgres://localhost/app".to_string(),
        "redis://localhost".to_string(),
        "127.0.0.1".to_string(),
        7878,
        b"somesaltsomesalt".to_vec(),
        b"access-secret".to_vec(),
        b"refresh-secret".to_vec(),
        300,
        2_592_000,
    )
}

fn flow_registration() -> RegistrationDto {
    RegistrationDto {
        email: "a@b.com".to_string(),
        username: "alice".to_string(),
        password: "longenough1".to_string(),
        first_name: "Alice".to_string(),
        second_name: "Smith".to_string(),
        patronymic: None,
        birth_date: 10_000,
    }
}

fn fresh_service() -> AuthService {
    AuthService::new(AccountStore::new(), Cache::new())
}

#[test]
fn register_returns_tokens_and_registers_handle() {
    let config = flow_config();
    let mut svc = fresh_service();
    let (access, handle, exp, refresh_exp) =
        svc.register_user(&flow_registration(), &config, NOW).expect("registration succeeds");
    assert_eq!(exp, NOW + 300);
    assert_eq!(refresh_exp, NOW + 2_592_000);
    assert_eq!(handle.len(), 36);
    assert_eq!(access.split('.').count(), 3);
    assert_eq!(svc.store().passport_count(), 1);
    assert_eq!(svc.store().profile_count(), 1);
    assert_eq!(svc.store().identity_count(), 1);
    let stored = svc.registry().get_pair(&handle, NOW).expect("registry reachable");
    assert_eq!(stored, Some(access.clone()));
    let claims = AuthService::decrypt_token(&access, &config).expect("token decodes");
    assert_eq!(claims.sub, "a@b.com");
    assert_eq!(claims.username, "alice");
    assert_eq!(claims.role, "user");
    assert_eq!(claims.exp, NOW + 300);
}

#[test]
fn register_duplicate_email_is_conflict() {
    let config = flow_config();
    let mut svc = fresh_service();
    svc.register_user(&flow_registration(), &config, NOW).expect("first registration");
    let mut second = flow_registration();
    second.username = "someone-else".to_string();
    let r = svc.register_user(&second, &config, NOW);
    assert_eq!(r, Err(DbError::Execution(AuthServiceError::AlreadyExists)));
    assert_eq!(svc.store().identity_count(), 1);
}

#[test]
fn register_duplicate_username_is_conflict() {
    let config = flow_config();
    let mut svc = fresh_service();
    svc.register_user(&flow_registration(), &config, NOW).expect("first registration");
    let mut second = flow_registration();
    second.email = "other@b.com".to_string();
    let r = svc.register_user(&second, &config, NOW);
    assert_eq!(r, Err(DbError::Execution(AuthServiceError::AlreadyExists)));
    assert_eq!(svc.store().identity_count(), 1);
}

#[test]
fn registration_rolls_back_when_profile_insert_fails() {
    let config = flow_config();
    let mut store = AccountStore::new();
    store.set_fail_profile_inserts(true);
    let mut svc = AuthService::new(store, Cache::new());
    let r = svc.register_user(&flow_registration(), &config, NOW);
    assert_eq!(r, Err(DbError::Execution(AuthServiceError::ProfileCreation)));
    assert_eq!(svc.store().passport_count(), 0);
    assert_eq!(svc.store().profile_count(), 0);
    assert_eq!(svc.store().identity_count(), 0);
}

#[test]
fn registration_rolls_back_when_passport_insert_fails() {
    let config = flow_config();
    let mut store = AccountStore::new();
    store.set_fail_passport_inserts(true);
    let mut svc = AuthService::new(store, Cache::new());
    let r = svc.register_user(&flow_registration(), &config, NOW);
    assert_eq!(r, Err(DbError::Execution(AuthServiceError::PassportCreation)));
    assert_eq!(svc.store().passport_count(), 0);
    assert_eq!(svc.store().profile_count(), 0);
}

#[test]
fn registration_rolls_back_when_identity_insert_fails() {
    let config = flow_config();
    let mut store = AccountStore::new();
    store.set_fail_identity_inserts(true);
    let mut svc = AuthService::new(store, Cache::new());
    let r = svc.register_user(&flow_registration(), &config, NOW);
    assert_eq!(r, Err(DbError::Execution(AuthServiceError::AuthDataCreation(()))));
    assert_eq!(svc.store().passport_count(), 0);
    assert_eq!(svc.store().profile_count(), 0);
    assert_eq!(svc.store().identity_count(), 0);
}

#[test]
fn authorize_by_username_and_email() {
    let config = flow_config();
    let mut svc = fresh_service();
    svc.register_user(&flow_registration(), &config, NOW).expect("registration");
    let by_username = AuthorizationDto {
        email_or_username: "alice".to_string(),
        password: "longenough1".to_string(),
    };
    let (access, handle, exp, _) =
        svc.authorize_user(&by_username, &config, NOW + 10).expect("login by username");
    assert_eq!(exp, NOW + 10 + 300);
    let claims = AuthService::decrypt_token(&access, &config).expect("token decodes");
    assert_eq!(claims.sub, "a@b.com");
    assert_eq!(claims.role, "user");
    assert_eq!(svc.registry().get_pair(&handle, NOW).unwrap(), Some(access));
    let by_email = AuthorizationDto {
        email_or_username: "a@b.com".to_string(),
        password: "longenough1".to_string(),
    };
    assert!(svc.authorize_user(&by_email, &config, NOW + 20).is_ok());
}

#[test]
fn authorize_rejections_share_a_response_class() {
    let config = flow_config();
    let mut svc = fresh_service();
    svc.register_user(&flow_registration(), &config, NOW).expect("registration");
    let wrong_password = AuthorizationDto {
        email_or_username: "alice".to_string(),
        password: "wrongwrong1".to_string(),
    };
    let r1 = svc.authorize_user(&wrong_password, &config, NOW).expect_err("rejected");
    assert_eq!(r1, DbError::Execution(AuthServiceError::InvalidPassword));
    let unknown_login = AuthorizationDto {
        email_or_username: "nobody".to_string(),
        password: "wrongwrong1".to_string(),
    };
    let r2 = svc.authorize_user(&unknown_login, &config, NOW).expect_err("rejected");
    assert_eq!(r2, DbError::Execution(AuthServiceError::UserNotFound));
    assert_eq!(authorization_response(&r1), authorization_response(&r2));
    assert_eq!(authorization_response(&r1), (400, "invalid_data"));
}

#[test]
fn refresh_rotates_the_handle() {
    let config = flow_config();
    let mut svc = fresh_service();
    let (access, handle, _, _) =
        svc.register_user(&flow_registration(), &config, NOW).expect("registration");
    let later = NOW + 400;  // the access token has already expired by then
    let (new_access, new_handle, exp, refresh_exp) =
        svc.refresh_tokens(&access, &handle, &config, later).expect("refresh succeeds");
    assert_eq!(exp, later + 300);
    assert_eq!(refresh_exp, later + 2_592_000);
    assert_ne!(new_handle, handle);
    assert_eq!(svc.registry().get_pair(&handle, later).unwrap(), None);
    assert_eq!(svc.registry().get_pair(&new_handle, later).unwrap(), Some(new_access.clone()));
    let claims = AuthService::decrypt_token(&new_access, &config).expect("token decodes");
    assert_eq!(claims.sub, "a@b.com");
    assert_eq!(claims.username, "alice");
}

#[test]
fn refresh_rejects_unknown_handle() {
    let config = flow_config();
    let mut svc = fresh_service();
    let (access, _, _, _) =
        svc.register_user(&flow_registration(), &config, NOW).expect("registration");
    let r = svc.refresh_tokens(&access, "not-a-handle", &config, NOW);
    assert_eq!(r, Err(DbError::Execution(AuthServiceError::RefreshTokenNotFound)));
}

#[test]
fn refresh_rejects_forged_token() {
    let config = flow_config();
    let mut svc = fresh_service();
    let (_, handle, _, _) =
        svc.register_user(&flow_registration(), &config, NOW).expect("registration");
    let r = svc.refresh_tokens("not.a.token", &handle, &config, NOW);
    assert_eq!(r, Err(DbError::Execution(AuthServiceError::InvalidToken)));
}

#[test]
fn refresh_rejects_expired_handle() {
    let config = flow_config();
    let mut svc = fresh_service();
    let (access, handle, _, refresh_exp) =
        svc.register_user(&flow_registration(), &config, NOW).expect("registration");
    let r = svc.refresh_tokens(&access, &handle, &config, refresh_exp + 1);
    assert_eq!(r, Err(DbError::Execution(AuthServiceError::RefreshTokenNotFound)));
}

#[test]
fn logout_is_idempotent() {
    let config = flow_config();
    let mut svc = fresh_service();
    let (_, handle, _, _) =
        svc.register_user(&flow_registration(), &config, NOW).expect("registration");
    assert!(svc.logout(&handle).is_ok());
    assert_eq!(svc.registry().get_pair(&handle, NOW).unwrap(), None);
    assert!(svc.logout(&handle).is_ok());
    assert!(svc.logout("never-existed").is_ok());
}

#[test]
fn registry_outage_never_blocks_login_or_logout() {
    let config = flow_config();
    let mut registry = Cache::new();
    registry.set_available(false);
    let mut svc = AuthService::new(AccountStore::new(), registry);
    let (_, handle, _, _) = svc
        .register_user(&flow_registration(), &config, NOW)
        .expect("registration succeeds without the registry");
    let login = AuthorizationDto {
        email_or_username: "alice".to_string(),
        password: "longenough1".to_string(),
    };
    let (access, handle2, _, _) =
        svc.authorize_user(&login, &config, NOW).expect("login succeeds without the registry");
    assert!(svc.logout(&handle).is_ok());
    // only refresh treats the registry as the source of truth
    let r = svc.refresh_tokens(&access, &handle2, &config, NOW);
    assert_eq!(r, Err(DbError::Connection));
}

#[test]
fn store_outage_is_an_infrastructure_fault() {
    let config = flow_config();
    let mut store = AccountStore::new();
    store.set_available(false);
    let mut svc = AuthService::new(store, Cache::new());
    let r = svc.register_user(&flow_registration(), &config, NOW);
    assert_eq!(r, Err(DbError::Connection));
    let login = AuthorizationDto {
        email_or_username: "alice".to_string(),
        password: "longenough1".to_string(),
    };
    let r = svc.authorize_user(&login, &config, NOW);
    assert_eq!(r, Err(DbError::Connection));
}

#[test]
fn end_to_end_scenario() {
    let config = flow_config();
    let mut svc = fresh_service();
    // register: tokens returned, handle present in the registry
    let (access, handle, _, _) =
        svc.register_user(&flow_registration(), &config, NOW).expect("registration succeeds");
    assert_eq!(svc.registry().get_pair(&handle, NOW).unwrap(), Some(access.clone()));
    // wrong password: an invalid-credentials class rejection
    let bad = AuthorizationDto {
        email_or_username: "alice".to_string(),
        password: "wrongwrong1".to_string(),
    };
    let err = svc.authorize_user(&bad, &config, NOW).expect_err("wrong password rejected");
    assert_eq!(err, DbError::Execution(AuthServiceError::InvalidPassword));
    assert_eq!(authorization_response(&err), (400, "invalid_data"));
    // refresh with the (expired) access token and the correct handle
    let later = NOW + 3600;
    let (_, new_handle, _, _) =
        svc.refresh_tokens(&access, &handle, &config, later).expect("refresh succeeds");
    assert_eq!(svc.registry().get_pair(&handle, later).unwrap(), None);
    // logout twice: success both times
    assert!(svc.logout(&new_handle).is_ok());
    assert!(svc.logout(&new_handle).is_ok());
    assert_eq!(svc.registry().get_pair(&new_handle, later).unwrap(), None);
}

#[test]
fn profile_role_defaults_to_user() {
    let config = flow_config();
    let mut svc = fresh_service();
    svc.register_user(&flow_registration(), &config, NOW).expect("registration");
    let profile = svc.store().find_user_by_pk(2).expect("profile row exists");
    assert_eq!(profile.role, UserProfilesRoles::User);
    assert_eq!(profile.passport_uid, Some(1));
}

#[test]
fn refresh_rejects_identity_that_no_longer_exists() {
    let config = flow_config();
    let mut svc = fresh_service();
    let (_, handle, _, _) =
        svc.register_user(&flow_registration(), &config, NOW).expect("registration");
    // genuinely signed, but for an identity id the store has never issued
    let forged = issue_access(
        &JwtAccessData {
            uid: 999,
            sub: "a@b.com".to_string(),
            username: "alice".to_string(),
            role: "user".to_string(),
            exp: NOW + 300,
        },
        &config.access_secret,
    )
    .expect("token issued");
    let r = svc.refresh_tokens(&forged, &handle, &config, NOW);
    assert_eq!(r, Err(DbError::Execution(AuthServiceError::UserNotFound)));
}
