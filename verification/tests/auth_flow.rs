use zest_auth::auth::forgot_password;
use zest_auth::auth::login;
use zest_auth::auth::login_with_token;
use zest_auth::auth::logout;
use zest_auth::auth::register;
use zest_auth::auth::report_delivery;
use zest_auth::auth::validate_session;
use zest_auth::auth::LoginDetails;
use zest_auth::auth::RegisterDetails;
use zest_auth::store::AuthStore;
use zest_auth::AuthError;

fn reg(username: &str, email: &str, password: &str) -> RegisterDetails {
    RegisterDetails {
        username: username.to_string(),
        email: email.to_string(),
        password: password.to_string(),
    }
}

fn creds(username: &str, password: &str) -> LoginDetails {
    LoginDetails { username: username.to_string(), password: password.to_string() }
}

#[test]
fn register_then_login_is_accepted_by_validator() {
    let mut store = AuthStore::new();

    let registered = register(&mut store, &reg("alice", "a@x.com", "pw1"));
    assert_eq!(registered, Ok(1));

    let token = login(&mut store, &creds("alice", "pw1")).expect("login after register");
    let resolved = validate_session(&store, Some(token));
    assert_eq!(resolved, Ok(1));

    logout(&mut store, Some(token));
    let after_logout = validate_session(&store, Some(token));
    assert_eq!(after_logout, Err(AuthError::SessionNotFound));
    assert_eq!(AuthError::SessionNotFound.status_code(), 403);
}

#[test]
fn duplicate_registration_is_refused() {
    let mut store = AuthStore::new();
    assert!(register(&mut store, &reg("alice", "a@x.com", "pw1")).is_ok());

    let again = register(&mut store, &reg("alice", "other@x.com", "pw2"));
    assert_eq!(again, Err(AuthError::DuplicateRegistration));
    assert_eq!(AuthError::DuplicateRegistration.status_code(), 400);

    // the failed attempt must not have touched the stored credentials
    assert!(login(&mut store, &creds("alice", "pw1")).is_ok());
}

#[test]
fn login_rejects_unknown_user_and_wrong_password_alike() {
    let mut store = AuthStore::new();
    assert!(register(&mut store, &reg("alice", "a@x.com", "pw1")).is_ok());

    let unknown = login(&mut store, &creds("nobody", "pw1"));
    let wrong = login(&mut store, &creds("alice", "pw2"));
    assert_eq!(unknown, Err(AuthError::InvalidCredentials));
    assert_eq!(wrong, Err(AuthError::InvalidCredentials));
    assert_eq!(AuthError::InvalidCredentials.status_code(), 400);
}

#[test]
fn second_login_revokes_first_token() {
    let mut store = AuthStore::new();
    assert!(register(&mut store, &reg("alice", "a@x.com", "pw1")).is_ok());

    assert_eq!(login_with_token(&mut store, &creds("alice", "pw1"), 111), Ok(111));
    assert_eq!(login_with_token(&mut store, &creds("alice", "pw1"), 222), Ok(222));

    assert_eq!(validate_session(&store, Some(111)), Err(AuthError::SessionNotFound));
    assert_eq!(validate_session(&store, Some(222)), Ok(1));
}

#[test]
fn logout_with_stale_token_spares_newer_session() {
    let mut store = AuthStore::new();
    assert!(register(&mut store, &reg("alice", "a@x.com", "pw1")).is_ok());

    assert_eq!(login_with_token(&mut store, &creds("alice", "pw1"), 111), Ok(111));
    assert_eq!(login_with_token(&mut store, &creds("alice", "pw1"), 222), Ok(222));

    // a logout arriving with the stale cookie deletes by token, so the
    // fresh session survives
    logout(&mut store, Some(111));
    assert_eq!(validate_session(&store, Some(222)), Ok(1));
    assert_eq!(validate_session(&store, Some(111)), Err(AuthError::SessionNotFound));
}

#[test]
fn logout_is_idempotent_and_ignores_missing_cookie() {
    let mut store = AuthStore::new();
    assert!(register(&mut store, &reg("alice", "a@x.com", "pw1")).is_ok());
    assert_eq!(login_with_token(&mut store, &creds("alice", "pw1"), 7), Ok(7));

    logout(&mut store, None);
    assert_eq!(validate_session(&store, Some(7)), Ok(1));

    logout(&mut store, Some(7));
    logout(&mut store, Some(7));
    assert_eq!(validate_session(&store, Some(7)), Err(AuthError::SessionNotFound));
}

#[test]
fn validator_rejects_missing_and_forged_cookies() {
    let mut store = AuthStore::new();
    assert_eq!(validate_session(&store, None), Err(AuthError::SessionNotFound));
    assert_eq!(validate_session(&store, Some(12345)), Err(AuthError::SessionNotFound));
}

#[test]
fn token_already_owned_by_another_user_is_refused() {
    let mut store = AuthStore::new();
    assert!(register(&mut store, &reg("alice", "a@x.com", "pw1")).is_ok());
    assert!(register(&mut store, &reg("bob", "b@x.com", "pw2")).is_ok());

    assert_eq!(login_with_token(&mut store, &creds("alice", "pw1"), 42), Ok(42));
    let clash = login_with_token(&mut store, &creds("bob", "pw2"), 42);
    assert_eq!(clash, Err(AuthError::StoreUnavailable));
    assert_eq!(AuthError::StoreUnavailable.status_code(), 500);

    // alice's session survived the refused write
    assert_eq!(validate_session(&store, Some(42)), Ok(1));
}

#[test]
fn forgot_password_rotates_credentials_even_if_delivery_fails() {
    let mut store = AuthStore::new();
    assert!(register(&mut store, &reg("bob", "b@x.com", "oldpw")).is_ok());

    let reset = forgot_password(&mut store, &"b@x.com".to_string()).expect("reset");
    assert_eq!(reset.rows_affected, 1);
    assert_eq!(reset.temp_password.len(), 16);

    // the notification step failing is reported distinctly and does not
    // undo the rotation
    assert_eq!(report_delivery(false), Err(AuthError::DeliveryFailed));
    assert_eq!(AuthError::DeliveryFailed.status_code(), 502);
    assert_eq!(report_delivery(true), Ok(()));

    let old = login(&mut store, &creds("bob", "oldpw"));
    assert_eq!(old, Err(AuthError::InvalidCredentials));
    assert!(login(&mut store, &creds("bob", reset.temp_password.as_str())).is_ok());
}

#[test]
fn forgot_password_is_silent_about_unknown_addresses() {
    let mut store = AuthStore::new();
    assert!(register(&mut store, &reg("bob", "b@x.com", "oldpw")).is_ok());

    let reset = forgot_password(&mut store, &"nobody@x.com".to_string()).expect("reset");
    assert_eq!(reset.rows_affected, 0);

    // nothing was rotated
    assert!(login(&mut store, &creds("bob", "oldpw")).is_ok());
}

#[test]
fn temp_passwords_are_alphanumeric_and_fresh() {
    let mut store = AuthStore::new();
    assert!(register(&mut store, &reg("bob", "b@x.com", "oldpw")).is_ok());

    let first = forgot_password(&mut store, &"b@x.com".to_string()).expect("reset");
    let second = forgot_password(&mut store, &"b@x.com".to_string()).expect("reset");
    assert!(first.temp_password.chars().all(|c| c.is_ascii_alphanumeric()));
    assert!(second.temp_password.chars().all(|c| c.is_ascii_alphanumeric()));
    assert_ne!(first.temp_password, second.temp_password);
}
