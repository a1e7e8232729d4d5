use points_service::errors::{AssignError, CollectError, LedgerError};
use points_service::state::{
    ChampionRecord, PoolState, ServiceState, SessionRecord, TeamRecord, UserRecord,
};
use points_service::{COOLDOWN_SECS, POOL_CAPACITY, REFILL_DELAY_SECS};
use rand_chacha::rand_core::SeedableRng;
use rand_chacha::ChaCha8Rng;

fn rng() -> ChaCha8Rng {
    ChaCha8Rng::seed_from_u64(2)
}

/// Two users, champion 7 of team 1, pool as given.
fn setup(pool_points: u64, open_at: u64) -> (ServiceState, i64, i64) {
    let mut s = ServiceState::new(pool_points, open_at);
    let mut r = rng();
    s.signup("alice", "pw-a", &mut r).unwrap();
    s.signup("bob", "pw-b", &mut r).unwrap();
    let id_a = s.users[0].id;
    let id_b = s.users[1].id;
    assert!(s.add_team(1, "reds".to_string()));
    assert!(s.add_champion(7, 1, "mouse".to_string()));
    (s, id_a, id_b)
}

#[test]
fn collect_on_last_point_refills_and_closes() {
    let (mut s, a, b) = setup(1, 0);
    let now = 1000;
    // the draw that empties the pool succeeds and schedules the refill
    assert_eq!(s.collect(a, now), Ok(1));
    assert_eq!(s.pool.points, POOL_CAPACITY);
    assert_eq!(s.pool.open_at, now + REFILL_DELAY_SECS);
    // an immediate collect from a different user finds the pool closed
    assert_eq!(s.collect(b, now), Err(CollectError::PoolClosed));
    // the pool was pushed forward exactly once
    assert_eq!(s.pool.points, POOL_CAPACITY);
    assert_eq!(s.pool.open_at, now + REFILL_DELAY_SECS);
    // and reopens once the delay has passed
    assert_eq!(s.collect(b, now + REFILL_DELAY_SECS), Ok(1));
    assert_eq!(s.pool.points, POOL_CAPACITY - 1);
}

#[test]
fn collect_before_cooldown_fails_too_soon_and_mutates_nothing() {
    let (mut s, a, _) = setup(50, 0);
    let now = 1000;
    assert_eq!(s.collect(a, now), Ok(1));
    let pool_before = s.pool;
    // the cooldown was advanced to now + COOLDOWN_SECS
    let next = now + COOLDOWN_SECS;
    let out = s.collect(a, now + 1);
    assert_eq!(out, Err(CollectError::TooSoon(next)));
    // neither the ledger nor the pool moved
    assert_eq!(s.users[0].points, 1);
    assert_eq!(s.users[0].can_get_points_time, next);
    assert_eq!(s.pool, pool_before);
    // once the cooldown passes, collecting works again
    assert_eq!(s.collect(a, next), Ok(2));
}

#[test]
fn collect_on_closed_pool_fails() {
    let (mut s, a, _) = setup(50, 5000);
    assert_eq!(s.collect(a, 4999), Err(CollectError::PoolClosed));
    assert_eq!(s.pool.points, 50);
    // the boundary instant itself is open
    assert_eq!(s.collect(a, 5000), Ok(1));
}

#[test]
fn collect_unknown_user_fails() {
    let (mut s, _, _) = setup(50, 0);
    assert_eq!(s.collect(999, 100), Err(CollectError::NoSuchUser));
}

#[test]
fn assign_with_zero_balance_fails_and_champion_unchanged() {
    let (mut s, a, _) = setup(50, 0);
    let out = s.assign(a, 7);
    assert_eq!(out, Err(AssignError::InsufficientFunds));
    let champs = s.get_champions();
    assert_eq!(champs.len(), 1);
    assert_eq!(champs[0].points, 0);
    assert_eq!(s.users[0].points, 0);
}

#[test]
fn assign_moves_exactly_one_point() {
    let (mut s, a, b) = setup(50, 0);
    assert_eq!(s.collect(a, 100), Ok(1));
    assert_eq!(s.collect(b, 100), Ok(1));
    // two assigns from different users to the same champion both land
    assert_eq!(s.assign(a, 7), Ok(1));
    assert_eq!(s.assign(b, 7), Ok(2));
    assert_eq!(s.users[0].points, 0);
    assert_eq!(s.users[1].points, 0);
    let champs = s.get_champions();
    assert_eq!(champs[0].points, 2);
    // the pool is not touched by assigns
    assert_eq!(s.pool.points, 48);
    // a third assign finds the balance empty again
    assert_eq!(s.assign(a, 7), Err(AssignError::InsufficientFunds));
}

#[test]
fn assign_to_unknown_champion_fails_without_debit() {
    let (mut s, a, _) = setup(50, 0);
    assert_eq!(s.collect(a, 100), Ok(1));
    assert_eq!(s.assign(a, 8), Err(AssignError::ChampionNotFound));
    assert_eq!(s.users[0].points, 1);
}

#[test]
fn assign_unknown_user_fails() {
    let (mut s, _, _) = setup(50, 0);
    assert_eq!(s.assign(999, 7), Err(AssignError::NoSuchUser));
}

#[test]
fn collect_balance_overflow_is_rejected() {
    let mut s = ServiceState {
        users: vec![UserRecord {
            id: 1,
            name: "maxed".to_string(),
            pw_hash: "x".to_string(),
            points: u64::MAX,
            can_get_points_time: 0,
        }],
        sessions: Vec::new(),
        champions: Vec::new(),
        teams: Vec::new(),
        pool: PoolState { points: 10, open_at: 0 },
        next_user_id: 2,
    };
    assert_eq!(s.collect(1, 100), Err(CollectError::BalanceOverflow));
    assert_eq!(s.users[0].points, u64::MAX);
    assert_eq!(s.pool.points, 10);
}

#[test]
fn assign_champion_overflow_is_rejected() {
    let mut s = ServiceState {
        users: vec![UserRecord {
            id: 1,
            name: "rich".to_string(),
            pw_hash: "x".to_string(),
            points: 5,
            can_get_points_time: 0,
        }],
        sessions: vec![SessionRecord { token: 9, user_id: 1 }],
        champions: vec![ChampionRecord {
            id: 7,
            team_id: 1,
            name: "mouse".to_string(),
            points: u64::MAX,
        }],
        teams: vec![TeamRecord { id: 1, name: "reds".to_string() }],
        pool: PoolState { points: 10, open_at: 0 },
        next_user_id: 2,
    };
    assert_eq!(s.assign(1, 7), Err(AssignError::BalanceOverflow));
    assert_eq!(s.users[0].points, 5);
}

#[test]
fn pool_drains_one_by_one() {
    let (mut s, a, b) = setup(3, 0);
    assert_eq!(s.collect(a, 100), Ok(1));
    assert_eq!(s.pool.points, 2);
    assert_eq!(s.collect(b, 100), Ok(1));
    assert_eq!(s.pool.points, 1);
    // the last draw triggers the refill
    assert_eq!(s.collect(a, 200), Ok(2));
    assert_eq!(s.pool.points, POOL_CAPACITY);
    assert_eq!(s.pool.open_at, 200 + REFILL_DELAY_SECS);
}

#[test]
fn duplicate_champion_and_team_ids_rejected() {
    let mut s = ServiceState::new(10, 0);
    assert!(s.add_team(1, "reds".to_string()));
    assert!(!s.add_team(1, "blues".to_string()));
    assert!(s.add_champion(7, 1, "mouse".to_string()));
    assert!(!s.add_champion(7, 1, "rat".to_string()));
    assert_eq!(s.get_teams().len(), 1);
    assert_eq!(s.get_champions().len(), 1);
}

#[test]
fn champion_and_team_listings() {
    let mut s = ServiceState::new(10, 0);
    assert!(s.add_team(1, "reds".to_string()));
    assert!(s.add_team(2, "blues".to_string()));
    assert!(s.add_champion(7, 1, "mouse".to_string()));
    assert!(s.add_champion(8, 2, "cat".to_string()));
    let teams = s.get_teams();
    assert_eq!(teams.len(), 2);
    assert_eq!(teams[0].id, 1);
    assert_eq!(teams[0].name.as_str(), "reds");
    assert_eq!(teams[1].name.as_str(), "blues");
    let champs = s.get_champions();
    assert_eq!(champs.len(), 2);
    assert_eq!(champs[0].id, 7);
    assert_eq!(champs[0].team_id, 1);
    assert_eq!(champs[0].name.as_str(), "mouse");
    assert_eq!(champs[1].name.as_str(), "cat");
}

#[test]
fn ledger_credit_debit_and_cooldown() {
    let (mut s, a, _) = setup(50, 0);
    assert_eq!(s.get_cooldown(a), Some(0));
    assert_eq!(s.get_cooldown(999), None);
    assert_eq!(s.credit(a, 5, 1000), Ok(5));
    assert_eq!(s.get_cooldown(a), Some(1000 + COOLDOWN_SECS));
    assert_eq!(s.debit(a, 3), Ok(2));
    assert_eq!(s.debit(a, 3), Err(LedgerError::InsufficientFunds));
    assert_eq!(s.users[0].points, 2);
    assert_eq!(s.credit(999, 1, 0), Err(LedgerError::NoSuchUser));
    assert_eq!(s.debit(999, 1), Err(LedgerError::NoSuchUser));
}

#[test]
fn ledger_credit_overflow_rejected() {
    let mut s = ServiceState {
        users: vec![UserRecord {
            id: 1,
            name: "maxed".to_string(),
            pw_hash: "x".to_string(),
            points: u64::MAX - 1,
            can_get_points_time: 0,
        }],
        sessions: Vec::new(),
        champions: Vec::new(),
        teams: Vec::new(),
        pool: PoolState { points: 10, open_at: 0 },
        next_user_id: 2,
    };
    assert_eq!(s.credit(1, 2, 0), Err(LedgerError::BalanceOverflow));
    assert_eq!(s.credit(1, 1, 0), Ok(u64::MAX));
}

#[test]
fn transfer_matches_assign_for_one_point() {
    let (mut s1, a, b) = setup(50, 0);
    let (mut s2, _, _) = setup(50, 0);
    assert_eq!(s1.collect(a, 100), Ok(1));
    assert_eq!(s2.collect(a, 100), Ok(1));
    let r1 = s1.assign(a, 7);
    let r2 = s2.transfer(a, 7, 1);
    assert_eq!(r1, r2);
    assert_eq!(s1.users[0].points, s2.users[0].points);
    assert_eq!(s1.get_champions()[0].points, s2.get_champions()[0].points);
    let _ = b;
}

#[test]
fn transfer_moves_delta_or_nothing() {
    let (mut s, a, _) = setup(50, 0);
    assert_eq!(s.credit(a, 10, 0), Ok(10));
    assert_eq!(s.transfer(a, 7, 4), Ok(4));
    assert_eq!(s.users[0].points, 6);
    assert_eq!(s.get_champions()[0].points, 4);
    assert_eq!(s.transfer(a, 7, 7), Err(AssignError::InsufficientFunds));
    assert_eq!(s.users[0].points, 6);
    assert_eq!(s.get_champions()[0].points, 4);
    assert_eq!(s.transfer(a, 99, 1), Err(AssignError::ChampionNotFound));
    assert_eq!(s.users[0].points, 6);
}

#[test]
fn assigns_from_many_users_all_land() {
    let mut s = ServiceState::new(50, 0);
    let mut r = rng();
    assert!(s.add_team(1, "reds".to_string()));
    assert!(s.add_champion(7, 1, "mouse".to_string()));
    let mut ids: Vec<i64> = Vec::new();
    for name in ["ann", "ben", "cam"] {
        s.signup(name, "pw", &mut r).unwrap();
        let id = s.users[s.users.len() - 1].id;
        assert_eq!(s.collect(id, 100), Ok(1));
        ids.push(id);
    }
    // one assign from each distinct user: every one lands, none is lost
    for (n, id) in ids.iter().enumerate() {
        assert_eq!(s.assign(*id, 7), Ok(n as u64 + 1));
    }
    assert_eq!(s.get_champions()[0].points, 3);
    for k in 0..3 {
        assert_eq!(s.users[k].points, 0);
    }
}
