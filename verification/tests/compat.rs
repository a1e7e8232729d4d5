use points_service::login::{Credentials, NextUrl, User};

#[test]
fn session_user_accessors() {
    let u = User { id: 9, pw_hash: vec![1, 2, 3] };
    assert_eq!(u.id(), 9);
    assert_eq!(u.session_auth_hash(), &[1, 2, 3]);
}

#[test]
fn credential_and_redirect_shapes() {
    let c = Credentials { name: "alice".to_string(), password: "pw".to_string() };
    assert_eq!(c.name.as_str(), "alice");
    assert_eq!(c.password.as_str(), "pw");
    let n = NextUrl { next: Some("/home".to_string()) };
    assert_eq!(n.next.as_deref(), Some("/home"));
    let none = NextUrl { next: None };
    assert!(none.next.is_none());
}
