use points_service::authgate::{authenticate, AuthState};
use points_service::sessions::User;
use points_service::state::ServiceState;
use rand_chacha::rand_core::SeedableRng;
use rand_chacha::ChaCha8Rng;

fn rng() -> ChaCha8Rng {
    ChaCha8Rng::seed_from_u64(3)
}

fn headers(lines: &[&str]) -> Vec<String> {
    lines.iter().map(|l| l.to_string()).collect()
}

#[test]
fn authenticate_resolves_session_cookie() {
    let mut s = ServiceState::new(200, 0);
    let mut r = rng();
    let t = s.signup("alice", "pw", &mut r).unwrap();
    let cookie = format!("user_token={}", t.into_cookie_value());
    let a = authenticate(&s, &headers(&[cookie.as_str()]));
    let u = a.get_user().unwrap();
    assert_eq!(u.name.as_str(), "alice");
}

#[test]
fn authenticate_finds_cookie_among_others() {
    let mut s = ServiceState::new(200, 0);
    let mut r = rng();
    let t = s.signup("bob", "pw", &mut r).unwrap();
    let line = format!("theme=dark; user_token={}; lang=en", t.into_cookie_value());
    let a = authenticate(&s, &headers(&["tracking=off", line.as_str()]));
    assert_eq!(a.get_user().unwrap().name.as_str(), "bob");
}

#[test]
fn authenticate_takes_first_match() {
    let mut s = ServiceState::new(200, 0);
    let mut r = rng();
    let t1 = s.signup("carol", "pw", &mut r).unwrap();
    let t2 = s.signup("dave", "pw", &mut r).unwrap();
    let line = format!(
        "user_token={}; user_token={}",
        t1.into_cookie_value(),
        t2.into_cookie_value()
    );
    let a = authenticate(&s, &headers(&[line.as_str()]));
    assert_eq!(a.get_user().unwrap().name.as_str(), "carol");
}

#[test]
fn authenticate_without_cookie_is_anonymous() {
    let s = ServiceState::new(200, 0);
    let a = authenticate(&s, &headers(&[]));
    assert!(a.get_user().is_none());
    let b = authenticate(&s, &headers(&["theme=dark; lang=en"]));
    assert!(b.get_user().is_none());
}

#[test]
fn authenticate_with_unparseable_token_is_anonymous() {
    let s = ServiceState::new(200, 0);
    let a = authenticate(&s, &headers(&["user_token=not-a-number"]));
    assert!(a.get_user().is_none());
    let b = authenticate(&s, &headers(&["user_token="]));
    assert!(b.get_user().is_none());
}

#[test]
fn authenticate_with_unknown_token_is_anonymous() {
    let mut s = ServiceState::new(200, 0);
    let mut r = rng();
    let t = s.signup("erin", "pw", &mut r).unwrap();
    s.logout(t);
    let cookie = format!("user_token={}", t.into_cookie_value());
    let a = authenticate(&s, &headers(&[cookie.as_str()]));
    assert!(a.get_user().is_none());
}

#[test]
fn cookie_name_must_match_exactly() {
    let mut s = ServiceState::new(200, 0);
    let mut r = rng();
    let t = s.signup("frank", "pw", &mut r).unwrap();
    let near_miss = format!("user_tokens={}", t.into_cookie_value());
    let a = authenticate(&s, &headers(&[near_miss.as_str()]));
    assert!(a.get_user().is_none());
    // leading spaces after the separator are tolerated
    let padded = format!("theme=dark;   user_token={}", t.into_cookie_value());
    let b = authenticate(&s, &headers(&[padded.as_str()]));
    assert_eq!(b.get_user().unwrap().name.as_str(), "frank");
}

#[test]
fn get_user_reflects_state() {
    let none = AuthState { user: None };
    assert!(none.get_user().is_none());
    let some = AuthState {
        user: Some(User { id: 5, name: "gail".to_string() }),
    };
    let u = some.get_user().unwrap();
    assert_eq!(u.id, 5);
    assert_eq!(u.name.as_str(), "gail");
}
