use activitymemes::account::{
    make_claims, validate_email, validate_sign_in, validate_sign_up, validate_username,
    PostSignUpBody, SignInBody, SESSION_LIFETIME_SECS,
};
use activitymemes::error::ApiError;

#[test]
fn email_validation_wants_an_at_sign_and_a_dot() {
    assert!(validate_email(b"alice@example.org"));
    assert!(validate_email(b"a@b.c"));
    assert!(validate_email(b"a@b@c.d"));
    assert!(!validate_email(b"alice"));
    assert!(!validate_email(b"@example.org"));
    assert!(!validate_email(b"alice@org"));
    assert!(!validate_email(b"alice@.org"));
    assert!(!validate_email(b"alice@example."));
    assert!(!validate_email(b"al ice@example.org"));
    assert!(!validate_email(b""));
}

#[test]
fn username_validation_wants_word_characters() {
    assert!(validate_username(b"alice"));
    assert!(validate_username(b"al_ice-9"));
    assert!(!validate_username(b""));
    assert!(!validate_username(b"al ice"));
    assert!(!validate_username(b"al/ice"));
}

#[test]
fn claims_expire_thirty_days_after_issue() {
    let claims = make_claims(1700000000, b"alice".to_vec());
    assert_eq!(claims.iat, 1700000000);
    assert_eq!(claims.exp, 1700000000 + SESSION_LIFETIME_SECS);
    assert_eq!(claims.exp - claims.iat, 30 * 24 * 60 * 60);
    assert_eq!(claims.iss, b"ActivityMemes Account Sign-In".to_vec());
    assert_eq!(claims.sub, b"alice".to_vec());
}

fn sign_up_body(username: &[u8], email: &[u8], password: &[u8]) -> PostSignUpBody {
    PostSignUpBody {
        username: username.to_vec(),
        email: email.to_vec(),
        password: password.to_vec(),
    }
}

#[test]
fn sign_up_checks_run_in_a_fixed_order() {
    let good = sign_up_body(b"alice", b"alice@example.org", b"secret");
    assert!(validate_sign_up(&good, false, false).is_ok());

    let bad_name = sign_up_body(b"al ice", b"bad", b"");
    assert_eq!(
        validate_sign_up(&bad_name, true, true).err(),
        Some(ApiError::InvalidUsername)
    );
    let bad_email = sign_up_body(b"alice", b"bad", b"");
    assert_eq!(
        validate_sign_up(&bad_email, true, true).err(),
        Some(ApiError::InvalidEmail)
    );
    assert_eq!(
        validate_sign_up(&good, true, true).err(),
        Some(ApiError::UsernameAlreadyTaken)
    );
    assert_eq!(
        validate_sign_up(&good, false, true).err(),
        Some(ApiError::EmailAlreadyTaken)
    );
    let empty_password = sign_up_body(b"alice", b"alice@example.org", b"");
    assert_eq!(
        validate_sign_up(&empty_password, false, false).err(),
        Some(ApiError::PasswordMustNotBeEmpty)
    );
}

#[test]
fn sign_in_requires_an_account_and_a_matching_password() {
    let body = SignInBody { email: b"alice@example.org".to_vec(), password: b"pw".to_vec() };
    assert!(validate_sign_in(&body, true, true).is_ok());
    assert_eq!(
        validate_sign_in(&body, false, true).err(),
        Some(ApiError::UserDoesNotExist)
    );
    assert_eq!(
        validate_sign_in(&body, true, false).err(),
        Some(ApiError::IncorrectPassword)
    );
    let bad = SignInBody { email: b"nope".to_vec(), password: b"pw".to_vec() };
    assert_eq!(
        validate_sign_in(&bad, true, true).err(),
        Some(ApiError::InvalidEmail)
    );
}
