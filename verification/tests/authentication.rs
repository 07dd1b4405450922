use zero2prod::authentication::AuthError;
use zero2prod::authentication::validate_credentials;
use zero2prod::authentication::validate_new_password;
use zero2prod::authentication::verify_password_hash;
use zero2prod::newsletters::basic_authentication;
use zero2prod::store::UserId;

fn phc_hash_of(password: &str) -> String {
    let salt = argon2::password_hash::SaltString::generate(&mut rand::thread_rng());
    argon2::PasswordHasher::hash_password(
        &argon2::Argon2::default(),
        password.as_bytes(),
        &salt,
    )
    .unwrap()
    .to_string()
}

#[test]
fn the_right_password_validates() {
    let hash = phc_hash_of("everythinghastostartsomewhere");
    let result = validate_credentials(
        Some((UserId(7), hash)),
        &"everythinghastostartsomewhere".to_string(),
    );
    assert_eq!(result.unwrap(), UserId(7));
}

#[test]
fn a_wrong_password_is_invalid_credentials() {
    let hash = phc_hash_of("everythinghastostartsomewhere");
    let result = validate_credentials(Some((UserId(7), hash)), &"wrong-password".to_string());
    assert!(matches!(result, Err(AuthError::InvalidCredentials(_))));
}

#[test]
fn an_unknown_username_is_invalid_credentials() {
    let result = validate_credentials(None, &"whatever-password".to_string());
    assert!(matches!(result, Err(AuthError::InvalidCredentials(_))));
}

#[test]
fn an_unreadable_stored_hash_is_an_unexpected_error() {
    let result = validate_credentials(
        Some((UserId(7), "not a phc string".to_string())),
        &"whatever-password".to_string(),
    );
    assert!(matches!(result, Err(AuthError::UnexpectedError(_))));
}

#[test]
fn verify_password_hash_accepts_its_own_hash() {
    let hash = phc_hash_of("a-long-enough-password");
    assert!(verify_password_hash(&hash, &"a-long-enough-password".to_string()).is_ok());
    assert!(matches!(
        verify_password_hash(&hash, &"another-password".to_string()),
        Err(AuthError::InvalidCredentials(_))
    ));
}

#[test]
fn basic_credentials_round_trip_through_the_header() {
    let encoded =
        base64::Engine::encode(&base64::engine::general_purpose::STANDARD, "user:pass:word");
    let header = format!("Basic {}", encoded).into_bytes();
    let credentials = basic_authentication(Some(&header)).unwrap();
    // The split happens at the first colon only.
    assert_eq!(credentials.username, "user");
    assert_eq!(credentials.password, "pass:word");
}

#[test]
fn a_missing_authorization_header_is_rejected() {
    let err = basic_authentication(None).unwrap_err();
    assert_eq!(err, "The 'Authorization' header was missing");
}

#[test]
fn a_non_basic_scheme_is_rejected() {
    let header = b"Bearer abcdef".to_vec();
    let err = basic_authentication(Some(&header)).unwrap_err();
    assert_eq!(err, "The authorization scheme was not 'Basic'.");
}

#[test]
fn malformed_base64_is_rejected() {
    let header = b"Basic !!!not-base64!!!".to_vec();
    let err = basic_authentication(Some(&header)).unwrap_err();
    assert_eq!(err, "Failed to base64-decode 'Basic' credentials.");
}

#[test]
fn credentials_without_a_colon_are_rejected() {
    let encoded =
        base64::Engine::encode(&base64::engine::general_purpose::STANDARD, "username-only");
    let header = format!("Basic {}", encoded).into_bytes();
    let err = basic_authentication(Some(&header)).unwrap_err();
    assert_eq!(err, "A password must be provided in 'Basic' auth.");
}

#[test]
fn mismatched_new_passwords_are_refused() {
    let err = validate_new_password("one-long-password", "another-long-password").unwrap_err();
    assert_eq!(
        err,
        "You entered two different new passwords - the field values must match."
    );
}

#[test]
fn a_too_short_new_password_is_refused() {
    let err = validate_new_password("short", "short").unwrap_err();
    assert_eq!(err, "The new password must be between 12 & 129 characters.");
}

#[test]
fn an_acceptable_new_password_passes() {
    assert!(validate_new_password("a-long-enough-password", "a-long-enough-password").is_ok());
}
