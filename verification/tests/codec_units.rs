use authcore::AuthService;
use authcore::Cache;
use authcore::CacheError;
use authcore::AuthServiceError;
use authcore::AuthorizationDto;
use authcore::Config;
use authcore::JwtAccessData;
use authcore::LawPage;
use authcore::RegistrationDto;
use authcore::UserProfilesRoles;
use authcore::current_epoch;
use authcore::decode_access;
use authcore::hash_password;
use authcore::issue_access;
use authcore::issue_refresh_marker;
use authcore::verify_password;

fn codec_config() -> Config {
    Config::new(
        "postgres://localhost/app".to_string(),
        "redis://localhost".to_string(),
        "127.0.0.1".to_string(),
        7878,
        b"somesaltsomesalt".to_vec(),
        b"access-secret".to_vec(),
        b"refresh-secret".to_vec(),
        300,
        2_592_000,
    )
}

fn sample_claims(exp: u64) -> JwtAccessData {
    JwtAccessData {
        uid: 7,
        sub: "a@b.com".to_string(),
        username: "alice".to_string(),
        role: "user".to_string(),
        exp,
    }
}

#[test]
fn token_round_trip_strict() {
    let secret = b"access-secret".to_vec();
    let token = issue_access(&sample_claims(1_000), &secret).expect("token issued");
    let claims = decode_access(&token, &secret, true, 500).expect("strict decode accepts");
    assert_eq!(claims.uid, 7);
    assert_eq!(claims.sub, "a@b.com");
    assert_eq!(claims.username, "alice");
    assert_eq!(claims.role, "user");
    assert_eq!(claims.exp, 1_000);
}

#[test]
fn expired_token_lenient_accepts_strict_rejects() {
    let secret = b"access-secret".to_vec();
    let token = issue_access(&sample_claims(1_000), &secret).expect("token issued");
    let lenient = decode_access(&token, &secret, false, 2_000).expect("lenient decode accepts");
    assert_eq!(lenient.exp, 1_000);
    let strict = decode_access(&token, &secret, true, 2_000);
    assert_eq!(strict, Err(AuthServiceError::TokenExpired));
    // expiry is exclusive: at the expiry instant the token is already dead
    let at_expiry = decode_access(&token, &secret, true, 1_000);
    assert_eq!(at_expiry, Err(AuthServiceError::TokenExpired));
}

#[test]
fn wrong_secret_or_tampering_is_invalid() {
    let secret = b"access-secret".to_vec();
    let other = b"other-secret".to_vec();
    let token = issue_access(&sample_claims(1_000), &secret).expect("token issued");
    assert_eq!(decode_access(&token, &other, false, 0), Err(AuthServiceError::InvalidToken));
    let mut tampered = token.clone();
    tampered.push('x');
    assert_eq!(decode_access(&tampered, &secret, false, 0), Err(AuthServiceError::InvalidToken));
    assert_eq!(decode_access("", &secret, false, 0), Err(AuthServiceError::InvalidToken));
}

#[test]
fn validate_and_decrypt_against_the_clock() {
    let config = codec_config();
    let now = current_epoch();
    assert!(now > 1_600_000_000);
    let live = issue_access(&sample_claims(now + 300), &config.access_secret).expect("issued");
    let c = AuthService::validate_token(&live, &config).expect("live token accepted");
    assert_eq!(c.exp, now + 300);
    let stale = issue_access(&sample_claims(100), &config.access_secret).expect("issued");
    assert_eq!(
        AuthService::validate_token(&stale, &config),
        Err(AuthServiceError::TokenExpired)
    );
    let c = AuthService::decrypt_token(&stale, &config).expect("lenient decode accepts");
    assert_eq!(c.exp, 100);
    assert_eq!(
        AuthService::decrypt_token("garbage", &config),
        Err(AuthServiceError::InvalidToken)
    );
}

#[test]
fn refresh_marker_is_an_opaque_identifier() {
    let m = issue_refresh_marker();
    assert_eq!(m.len(), 36);
    assert_eq!(m.chars().filter(|c| *c == '-').count(), 4);
}

#[test]
fn password_hash_verifies_and_embeds_parameters() {
    let hash = hash_password(b"longenough1", b"somesaltsomesalt").expect("hashing succeeds");
    assert!(hash.starts_with("$argon2id$"));
    assert_eq!(verify_password(b"longenough1", &hash), Ok(true));
    assert_eq!(verify_password(b"wrongwrong1", &hash), Ok(false));
    assert_eq!(
        verify_password(b"longenough1", "not-an-encoded-hash"),
        Err(AuthServiceError::PasswordVerify)
    );
}

#[test]
fn registration_dto_validation() {
    let good = RegistrationDto {
        email: "a@b.com".to_string(),
        username: "alice".to_string(),
        password: "longenough1".to_string(),
        first_name: "Alice".to_string(),
        second_name: "Smith".to_string(),
        patronymic: None,
        birth_date: 0,
    };
    assert!(good.validate());
    let mut bad_email = RegistrationDto { email: "not-an-email".to_string(), ..good };
    assert!(!bad_email.validate());
    bad_email.email = "a@b.com".to_string();
    bad_email.password = "short".to_string();
    assert!(!bad_email.validate());
    bad_email.password = "longenough1".to_string();
    bad_email.username = "ab".to_string();
    assert!(!bad_email.validate());
}

#[test]
fn authorization_dto_validation() {
    let by_email = AuthorizationDto {
        email_or_username: "a@b.com".to_string(),
        password: "longenough1".to_string(),
    };
    assert!(by_email.validate());
    let by_username = AuthorizationDto {
        email_or_username: "alice".to_string(),
        password: "longenough1".to_string(),
    };
    assert!(by_username.validate());
    let bad_login = AuthorizationDto {
        email_or_username: "ab".to_string(),
        password: "longenough1".to_string(),
    };
    assert!(!bad_login.validate());
    let bad_password = AuthorizationDto {
        email_or_username: "alice".to_string(),
        password: "short".to_string(),
    };
    assert!(!bad_password.validate());
}

#[test]
fn role_labels() {
    assert_eq!(UserProfilesRoles::User.as_str(), "user");
    assert_eq!(UserProfilesRoles::Employee.as_str(), "employee");
    assert_eq!(UserProfilesRoles::Law.as_str(), "law");
    assert_eq!(UserProfilesRoles::Admin.as_str(), "admin");
}

#[test]
fn admin_claims_gate_law_deletion() {
    let mut claims = sample_claims(1_000);
    assert!(!claims.is_admin());
    claims.role = "admin".to_string();
    assert!(claims.is_admin());
}

#[test]
fn law_page_offsets() {
    assert_eq!(LawPage { page: None }.offset(), 0);
    assert_eq!(LawPage { page: Some(0) }.offset(), 0);
    assert_eq!(LawPage { page: Some(1) }.offset(), 0);
    assert_eq!(LawPage { page: Some(3) }.offset(), 30);
}

#[test]
fn registry_upsert_and_ttl() {
    let mut cache = Cache::new();
    assert_eq!(cache.len(), 0);
    assert_eq!(cache.add_pair("h", "v1", 100), Ok(true));
    assert_eq!(cache.add_pair("h", "v2", 200), Ok(true));
    assert_eq!(cache.len(), 1);
    assert_eq!(cache.get_pair("h", 50).unwrap(), Some("v2".to_string()));
    assert_eq!(cache.get_pair("h", 200).unwrap(), None);
    assert_eq!(cache.get_pair("absent", 50).unwrap(), None);
    assert_eq!(cache.remove("h"), Ok(()));
    assert_eq!(cache.get_pair("h", 50).unwrap(), None);
    assert_eq!(cache.remove("h"), Ok(()));
}

#[test]
fn registry_outage_is_reported() {
    let mut cache = Cache::new();
    cache.add_pair("h", "v", 100).unwrap();
    cache.set_available(false);
    assert!(!cache.available());
    assert_eq!(cache.get_pair("h", 50), Err(CacheError::ConnectionGet));
    assert_eq!(cache.remove("h"), Err(CacheError::ConnectionGet));
    assert_eq!(cache.add_pair("g", "w", 100), Err(CacheError::ConnectionGet));
    cache.set_available(true);
    assert_eq!(cache.get_pair("h", 50).unwrap(), Some("v".to_string()));
}
