use points_service::errors::{AssignApiError, AssignError, CollectApiError, CollectError};
use points_service::state::ServiceState;
use rand_chacha::rand_core::SeedableRng;
use rand_chacha::ChaCha8Rng;

fn rng() -> ChaCha8Rng {
    ChaCha8Rng::seed_from_u64(4)
}

fn cookie_for(t: points_service::token::SessionToken) -> Vec<String> {
    vec![format!("user_token={}", t.into_cookie_value())]
}

#[test]
fn collect_endpoint_requires_login() {
    let mut s = ServiceState::new(10, 0);
    let out = s.points_collect(&vec!["theme=dark".to_string()], 100);
    assert_eq!(out, Err(CollectApiError::Unauthenticated));
}

#[test]
fn collect_endpoint_end_to_end() {
    let mut s = ServiceState::new(10, 0);
    let mut r = rng();
    let t = s.signup("alice", "pw", &mut r).unwrap();
    let headers = cookie_for(t);
    assert_eq!(s.points_collect(&headers, 100), Ok(1));
    // a duplicate request observes the updated cooldown
    assert_eq!(
        s.points_collect(&headers, 101),
        Err(CollectApiError::Collect(CollectError::TooSoon(112)))
    );
    // a revoked session is rejected up front
    s.logout(t);
    assert_eq!(
        s.points_collect(&headers, 200),
        Err(CollectApiError::Unauthenticated)
    );
}

#[test]
fn assign_endpoint_end_to_end() {
    let mut s = ServiceState::new(10, 0);
    let mut r = rng();
    assert!(s.add_team(1, "reds".to_string()));
    assert!(s.add_champion(7, 1, "mouse".to_string()));
    let t = s.signup("bob", "pw", &mut r).unwrap();
    let headers = cookie_for(t);
    assert_eq!(
        s.points_assign(&headers, 7),
        Err(AssignApiError::Assign(AssignError::InsufficientFunds))
    );
    assert_eq!(s.points_collect(&headers, 100), Ok(1));
    assert_eq!(s.points_assign(&headers, 7), Ok(1));
    assert_eq!(s.get_champions()[0].points, 1);
    assert_eq!(
        s.points_assign(&vec![], 7),
        Err(AssignApiError::Unauthenticated)
    );
}
