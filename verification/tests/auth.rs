use amr_backend::api::handlers::auth::{check_login, me, LoginResponse, UserAccount};
use amr_backend::api::middleware::auth::{bearer_token, invalid_token};
use amr_backend::error::AppError;
use amr_backend::services::auth_service::{self, claims_for, AuthError, Claims};

#[test]
fn test_password_hash_verify() {
    let hash = auth_service::hash_password("mypassword").expect("hashing should succeed");

    // Correct password should verify
    assert!(
        auth_service::verify_password("mypassword", &hash).is_ok(),
        "correct password should verify"
    );

    // Wrong password should fail
    assert!(
        auth_service::verify_password("wrongpassword", &hash).is_err(),
        "wrong password should fail verification"
    );
}

#[test]
fn test_password_hash_unique_salts() {
    let hash1 = auth_service::hash_password("samepassword").unwrap();
    let hash2 = auth_service::hash_password("samepassword").unwrap();

    // Even with the same input, salts differ so hashes differ
    assert_ne!(hash1, hash2, "two hashes of same password should differ (different salts)");

    // But both should still verify
    assert!(auth_service::verify_password("samepassword", &hash1).is_ok());
    assert!(auth_service::verify_password("samepassword", &hash2).is_ok());
}

#[test]
fn test_password_hash_invalid_hash_string() {
    let result = auth_service::verify_password("password", "not-a-valid-hash");
    assert!(result.is_err(), "invalid hash string should error");
}

#[test]
fn wrong_password_is_a_verification_failure() {
    let hash = auth_service::hash_password("right").unwrap();
    assert!(hash.starts_with("$argon2id$"));
    let err = auth_service::verify_password("wrong", &hash).unwrap_err();
    assert_eq!(err, AuthError::VerificationFailed);
    assert_eq!(err.message(), "Password verification failed");
}

#[test]
fn malformed_hash_reports_parse_error() {
    match auth_service::verify_password("password", "not-a-valid-hash") {
        Err(e @ AuthError::InvalidHash(_)) => assert!(e.message().starts_with("Invalid password hash: ")),
        other => panic!("unexpected result {:?}", other),
    }
}

#[test]
fn claims_expire_after_the_given_seconds() {
    let c = claims_for("user-123", "admin@test.com", "admin", 1_000, 3600);
    assert_eq!(
        c,
        Claims {
            sub: "user-123".to_string(),
            email: "admin@test.com".to_string(),
            role: "admin".to_string(),
            exp: 4_600,
            iat: 1_000,
        }
    );
}

fn account(password: &str) -> UserAccount {
    UserAccount {
        id: 0x67e5504410b1426f9247bb680e5fe0c8,
        email: "admin@test.com".to_string(),
        password_hash: auth_service::hash_password(password).unwrap(),
        role: "admin".to_string(),
    }
}

#[test]
fn login_gives_the_account_id_as_subject() {
    let u = account("secret");
    assert_eq!(check_login(Some(&u), "secret").unwrap(), "67e55044-10b1-426f-9247-bb680e5fe0c8");
}

#[test]
fn login_refusals_do_not_tell_which_part_was_wrong() {
    let u = account("secret");
    let expected = AppError::Unauthorized("Invalid email or password".to_string());
    assert_eq!(check_login(Some(&u), "guess").unwrap_err(), expected);
    assert_eq!(check_login(None, "secret").unwrap_err(), expected);
}

#[test]
fn login_response_is_a_bearer_token() {
    let r = LoginResponse::bearer("tok".to_string(), 3600);
    assert_eq!(r.token, "tok");
    assert_eq!(r.token_type, "Bearer");
    assert_eq!(r.expires_in, 3600);
}

#[test]
fn me_reads_the_claims() {
    let c = claims_for("user-456", "op@test.com", "operator", 0, 60);
    let m = me(Some(&c)).unwrap();
    assert_eq!((m.user_id.as_str(), m.email.as_str(), m.role.as_str()), ("user-456", "op@test.com", "operator"));
    assert_eq!(me(None).unwrap_err(), AppError::Unauthorized("Missing claims".to_string()));
}

#[test]
fn bearer_header_parsing() {
    assert_eq!(bearer_token(Some("Bearer abc.def")).unwrap(), "abc.def");
    assert_eq!(
        bearer_token(None).unwrap_err(),
        AppError::Unauthorized("Missing authorization header".to_string())
    );
    assert_eq!(
        bearer_token(Some("Basic abc")).unwrap_err(),
        AppError::Unauthorized("Invalid authorization header format".to_string())
    );
    assert_eq!(bearer_token(Some("Bearer ")).unwrap(), "");
    assert_eq!(
        invalid_token("Failed to decode JWT"),
        AppError::Unauthorized("Invalid token: Failed to decode JWT".to_string())
    );
}

#[test]
fn short_passwords_always_hash() {
    for p in ["", "a", "pässwörd", "correct horse battery staple"] {
        let h = auth_service::hash_password(p).expect("a short password hashes");
        assert!(auth_service::verify_password(p, &h).is_ok());
    }
}
