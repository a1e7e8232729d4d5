use points_service::authentication::check_username;
use points_service::errors::{LoginError, SignupError};
use points_service::state::ServiceState;
use rand_chacha::rand_core::SeedableRng;
use rand_chacha::ChaCha8Rng;

fn rng() -> ChaCha8Rng {
    ChaCha8Rng::seed_from_u64(1)
}

#[test]
fn username_rule() {
    assert!(check_username("a"));
    assert!(check_username("Alice-42"));
    assert!(check_username("abcdefghijklmnopqrs")); // 19 characters
    assert!(!check_username("abcdefghijklmnopqrst")); // 20 characters
    assert!(!check_username(""));
    assert!(!check_username("ab cd"));
    assert!(!check_username("a_b"));
    assert!(!check_username("n\u{e9}e"));
}

#[test]
fn signup_with_space_in_name_fails_before_storage() {
    let mut s = ServiceState::new(200, 0);
    let mut r = rng();
    let out = s.signup("ab cd", "secret", &mut r);
    assert!(matches!(out, Err(SignupError::InvalidName)));
    // storage untouched: no user row was created, so login cannot find one
    assert!(matches!(
        s.login("ab cd", "secret", &mut r),
        Err(LoginError::UserDoesNotExist)
    ));
    assert_eq!(s.users.len(), 0);
    assert_eq!(s.sessions.len(), 0);
}

#[test]
fn signup_then_login_round_trip() {
    let mut s = ServiceState::new(200, 0);
    let mut r = rng();
    let token = s.signup("alice", "hunter2", &mut r).unwrap();
    // the signup session resolves to the new user
    let u = s.resolve(token).unwrap();
    assert_eq!(u.name.as_str(), "alice");
    // the right password verifies, a wrong one does not
    let t2 = s.login("alice", "hunter2", &mut r).unwrap();
    let u2 = s.resolve(t2).unwrap();
    assert_eq!(u2.id, u.id);
    assert!(matches!(
        s.login("alice", "hunter3", &mut r),
        Err(LoginError::WrongPassword)
    ));
    assert!(matches!(
        s.login("bob", "hunter2", &mut r),
        Err(LoginError::UserDoesNotExist)
    ));
}

#[test]
fn stored_hash_verifies_and_is_salted() {
    let mut s = ServiceState::new(200, 0);
    let mut r = rng();
    s.signup("alice", "sesame", &mut r).unwrap();
    s.signup("bob", "sesame", &mut r).unwrap();
    let h0 = s.users[0].pw_hash.clone();
    let h1 = s.users[1].pw_hash.clone();
    // never the plaintext
    assert_ne!(h0.as_str(), "sesame");
    // fresh salt: same password, different hashes
    assert_ne!(h0, h1);
    // the stored hash verifies against the password it came from and no other
    assert!(password_auth::verify_password("sesame", &h0).is_ok());
    assert!(password_auth::verify_password("other", &h0).is_err());
}

#[test]
fn duplicate_name_rejected() {
    let mut s = ServiceState::new(200, 0);
    let mut r = rng();
    s.signup("carol", "pw1", &mut r).unwrap();
    let out = s.signup("carol", "pw2", &mut r);
    assert!(matches!(out, Err(SignupError::NameExists)));
    assert_eq!(s.users.len(), 1);
}

#[test]
fn logout_is_idempotent() {
    let mut s = ServiceState::new(200, 0);
    let mut r = rng();
    let t = s.signup("dave", "pw", &mut r).unwrap();
    assert!(s.resolve(t).is_some());
    s.logout(t);
    assert!(s.resolve(t).is_none());
    // revoking twice is not an error and changes nothing
    s.logout(t);
    assert!(s.resolve(t).is_none());
}

#[test]
fn unknown_token_resolves_to_no_user() {
    let mut s = ServiceState::new(200, 0);
    let mut r = rng();
    s.signup("erin", "pw", &mut r).unwrap();
    let stranger = points_service::token::SessionToken { value: 12345 };
    assert!(s.resolve(stranger).is_none());
}

#[test]
fn error_messages() {
    assert_eq!(SignupError::InvalidName.message(), "Invalid user name");
    assert_eq!(SignupError::NameExists.message(), "User name already exists");
    assert_eq!(SignupError::InvalidPassword.message(), "Invalid Password");
    assert_eq!(SignupError::InternalError.message(), "Internal Error");
    assert_eq!(LoginError::UserDoesNotExist.message(), "User does not exist");
    assert_eq!(LoginError::WrongPassword.message(), "Wrong password");
}
