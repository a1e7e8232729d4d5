//! The operations of the service on its state.
//!
//! Each operation is one atomic unit of work: it either applies fully or
//! returns an error and leaves the state exactly as it was. The meaning of
//! the two ledger operations is given by pure transition functions
//! ([`collect_transition`], [`assign_transition`]), and each executable
//! operation is proved to implement its transition exactly.

use vstd::prelude::*;

use crate::errors::{AssignError, CollectError};
use crate::state::{
    champion_at, has_champion, has_user, lemma_champion_at_is, lemma_user_at_is, user_at, wf,
    ChampionModel, ChampionRecord, PoolState, ServiceState, StateModel, TeamModel, TeamRecord,
    UserModel,
};
use crate::{COOLDOWN_SECS, POOL_CAPACITY, REFILL_DELAY_SECS};

verus! {

/// What a `collect` does, as a pure function of the state, the acting
/// user and the current instant.
///
/// A collect first checks the user's cooldown, then draws one point from
/// the pool where the pool has opened; the draw that empties the pool
/// also schedules the refill: the pool is set back to [`POOL_CAPACITY`]
/// and its opening instant is pushed [`REFILL_DELAY_SECS`] into the
/// future. Finally the user's ledger is credited by one and the user's
/// cooldown advanced by [`COOLDOWN_SECS`]. On any failure the state is
/// returned unchanged.
pub open spec fn collect_transition(s: StateModel, user_id: i64, now: u64) -> (StateModel, Result<
    u64,
    CollectError,
>) {
    if !has_user(s.users, user_id) {
        (s, Err(CollectError::NoSuchUser))
    } else {
        let i = user_at(s.users, user_id);
        let u = s.users[i];
        if now < u.can_get_points_time {
            (s, Err(CollectError::TooSoon(u.can_get_points_time)))
        } else if now < s.pool.open_at || s.pool.points == 0 {
            (s, Err(CollectError::PoolClosed))
        } else if u.points == u64::MAX {
            (s, Err(CollectError::BalanceOverflow))
        } else {
            let new_pool = if s.pool.points == 1 {
                (PoolState { points: POOL_CAPACITY, open_at: (now + REFILL_DELAY_SECS) as u64 })
            } else {
                (PoolState { points: (s.pool.points - 1) as u64, open_at: s.pool.open_at })
            };
            let nu = (UserModel {
                points: (u.points + 1) as u64,
                can_get_points_time: (now + COOLDOWN_SECS) as u64,
                ..u
            });
            (
                (StateModel { users: s.users.update(i, nu), pool: new_pool, ..s }),
                Ok((u.points + 1) as u64),
            )
        }
    }
}

/// What an `assign` does, as a pure function of the state, the acting
/// user and the target champion.
///
/// An assign debits the acting user's ledger by one — failing with
/// `InsufficientFunds`, without any mutation, where the balance is zero —
/// and credits the champion's points by one. The shared pool is not
/// touched.
pub open spec fn assign_transition(s: StateModel, user_id: i64, champion_id: i64) -> (StateModel, Result<
    u64,
    AssignError,
>) {
    if !has_user(s.users, user_id) {
        (s, Err(AssignError::NoSuchUser))
    } else {
        let i = user_at(s.users, user_id);
        let u = s.users[i];
        if u.points == 0 {
            (s, Err(AssignError::InsufficientFunds))
        } else if !has_champion(s.champions, champion_id) {
            (s, Err(AssignError::ChampionNotFound))
        } else {
            let j = champion_at(s.champions, champion_id);
            let c = s.champions[j];
            if c.points == u64::MAX {
                (s, Err(AssignError::BalanceOverflow))
            } else {
                let nu = (UserModel { points: (u.points - 1) as u64, ..u });
                let nc = (ChampionModel { points: (c.points + 1) as u64, ..c });
                (
                    (StateModel {
                        users: s.users.update(i, nu),
                        champions: s.champions.update(j, nc),
                        ..s
                    }),
                    Ok((c.points + 1) as u64),
                )
            }
        }
    }
}

impl ServiceState {
    /// A fresh service state with the given pool contents and opening
    /// instant, and no users, sessions, champions or teams.
    pub fn new(pool_points: u64, pool_open_at: u64) -> (s: ServiceState)
        ensures
            wf(s@),
            s@.users.len() == 0,
            s@.sessions.len() == 0,
            s@.champions.len() == 0,
            s@.teams.len() == 0,
            s@.pool == (PoolState { points: pool_points, open_at: pool_open_at }),
            s@.next_user_id == 1,
    {
        ServiceState {
            users: Vec::new(),
            sessions: Vec::new(),
            champions: Vec::new(),
            teams: Vec::new(),
            pool: PoolState { points: pool_points, open_at: pool_open_at },
            next_user_id: 1,
        }
    }

    /// The index of the user row with the given identifier, if any.
    pub fn find_user_index(&self, user_id: i64) -> (r: Option<usize>)
        ensures
            match r {
                Some(i) => i < self@.users.len() && self@.users[i as int].id == user_id,
                None => !has_user(self@.users, user_id),
            },
    {
        let n = self.users.len();
        let mut k: usize = 0;
        while k < n
            invariant
                n == self@.users.len(),
                k <= n,
                forall|j: int| 0 <= j < k ==> (#[trigger] self@.users[j]).id != user_id,
            decreases n - k,
        {
            if self.users[k].id == user_id {
                return Some(k);
            }
            k += 1;
        }
        None
    }

    /// The index of the champion row with the given identifier, if any.
    pub fn find_champion_index(&self, champion_id: i64) -> (r: Option<usize>)
        ensures
            match r {
                Some(i) => i < self@.champions.len() && self@.champions[i as int].id
                    == champion_id,
                None => !has_champion(self@.champions, champion_id),
            },
    {
        let n = self.champions.len();
        let mut k: usize = 0;
        while k < n
            invariant
                n == self@.champions.len(),
                k <= n,
                forall|j: int| 0 <= j < k ==> (#[trigger] self@.champions[j]).id != champion_id,
            decreases n - k,
        {
            if self.champions[k].id == champion_id {
                return Some(k);
            }
            k += 1;
        }
        None
    }

    /// Registers a champion. Returns `false`, leaving the state
    /// unchanged, where the identifier is already taken.
    pub fn add_champion(&mut self, id: i64, team_id: i64, name: String) -> (r: bool)
        requires
            wf(old(self)@),
        ensures
            wf(final(self)@),
            r == !has_champion(old(self)@.champions, id),
            r ==> final(self)@.champions =~= old(self)@.champions.push(
                (ChampionModel { id, team_id, name: name@, points: 0 }),
            ),
            !r ==> final(self)@.champions == old(self)@.champions,
            final(self)@.users == old(self)@.users,
            final(self)@.sessions == old(self)@.sessions,
            final(self)@.teams == old(self)@.teams,
            final(self)@.pool == old(self)@.pool,
            final(self)@.next_user_id == old(self)@.next_user_id,
    {
        match self.find_champion_index(id) {
            Some(_) => false,
            None => {
                self.champions.push(ChampionRecord { id, team_id, name, points: 0 });
                proof {
                    assert(self@.champions =~= old(self)@.champions.push(
                        (ChampionModel { id, team_id, name: name@, points: 0 }),
                    ));
                }
                true
            },
        }
    }

    /// Registers a team. Returns `false`, leaving the state unchanged,
    /// where the identifier is already taken.
    pub fn add_team(&mut self, id: i64, name: String) -> (r: bool)
        requires
            wf(old(self)@),
        ensures
            wf(final(self)@),
            r == !(exists|i: int|
                0 <= i < old(self)@.teams.len() && (#[trigger] old(self)@.teams[i]).id == id),
            r ==> final(self)@.teams =~= old(self)@.teams.push((TeamModel { id, name: name@ })),
            !r ==> final(self)@.teams == old(self)@.teams,
            final(self)@.users == old(self)@.users,
            final(self)@.sessions == old(self)@.sessions,
            final(self)@.champions == old(self)@.champions,
            final(self)@.pool == old(self)@.pool,
            final(self)@.next_user_id == old(self)@.next_user_id,
    {
        let n = self.teams.len();
        let mut k: usize = 0;
        while k < n
            invariant
                self == old(self),
                wf(old(self)@),
                n == self@.teams.len(),
                k <= n,
                forall|j: int| 0 <= j < k ==> (#[trigger] self@.teams[j]).id != id,
            decreases n - k,
        {
            if self.teams[k].id == id {
                proof {
                    assert(0 <= k < old(self)@.teams.len() && old(self)@.teams[k as int].id == id);
                }
                return false;
            }
            k += 1;
        }
        self.teams.push(TeamRecord { id, name });
        proof {
            assert(self@.teams =~= old(self)@.teams.push((TeamModel { id, name: name@ })));
        }
        true
    }

    /// Draws one point from the shared pool for the given user, per
    /// [`collect_transition`].
    pub fn collect(&mut self, user_id: i64, now: u64) -> (r: Result<u64, CollectError>)
        requires
            wf(old(self)@),
            now <= u64::MAX - REFILL_DELAY_SECS,
        ensures
            wf(final(self)@),
            final(self)@ == collect_transition(old(self)@, user_id, now).0,
            r == collect_transition(old(self)@, user_id, now).1,
    {
        let i = match self.find_user_index(user_id) {
            None => {
                return Err(CollectError::NoSuchUser);
            },
            Some(i) => i,
        };
        proof {
            lemma_user_at_is(self@.users, user_id, i as int);
        }
        let cooldown = self.users[i].can_get_points_time;
        if now < cooldown {
            return Err(CollectError::TooSoon(cooldown));
        }
        if now < self.pool.open_at || self.pool.points == 0 {
            return Err(CollectError::PoolClosed);
        }
        if self.users[i].points == u64::MAX {
            return Err(CollectError::BalanceOverflow);
        }
        if self.pool.points == 1 {
            self.pool = PoolState { points: POOL_CAPACITY, open_at: now + REFILL_DELAY_SECS };
        } else {
            self.pool = PoolState { points: self.pool.points - 1, open_at: self.pool.open_at };
        }
        let new_balance = self.users[i].points + 1;
        self.users[i].points = new_balance;
        self.users[i].can_get_points_time = now + COOLDOWN_SECS;
        proof {
            let (t, res) = collect_transition(old(self)@, user_id, now);
            assert(self@.users =~= t.users);
            assert(self@ =~= t);
        }
        Ok(new_balance)
    }

    /// Moves one point from the given user to the given champion, per
    /// [`assign_transition`].
    pub fn assign(&mut self, user_id: i64, champion_id: i64) -> (r: Result<u64, AssignError>)
        requires
            wf(old(self)@),
        ensures
            wf(final(self)@),
            final(self)@ == assign_transition(old(self)@, user_id, champion_id).0,
            r == assign_transition(old(self)@, user_id, champion_id).1,
    {
        let i = match self.find_user_index(user_id) {
            None => {
                return Err(AssignError::NoSuchUser);
            },
            Some(i) => i,
        };
        proof {
            lemma_user_at_is(self@.users, user_id, i as int);
        }
        if self.users[i].points == 0 {
            return Err(AssignError::InsufficientFunds);
        }
        let j = match self.find_champion_index(champion_id) {
            None => {
                return Err(AssignError::ChampionNotFound);
            },
            Some(j) => j,
        };
        proof {
            lemma_champion_at_is(self@.champions, champion_id, j as int);
        }
        if self.champions[j].points == u64::MAX {
            return Err(AssignError::BalanceOverflow);
        }
        let new_balance = self.users[i].points - 1;
        self.users[i].points = new_balance;
        let new_champion_points = self.champions[j].points + 1;
        self.champions[j].points = new_champion_points;
        proof {
            let (t, res) = assign_transition(old(self)@, user_id, champion_id);
            assert(self@.users =~= t.users);
            assert(self@.champions =~= t.champions);
            assert(self@ =~= t);
        }
        Ok(new_champion_points)
    }

    /// A copy of every champion row, in registration order.
    pub fn get_champions(&self) -> (r: Vec<ChampionRecord>)
        ensures
            r@.len() == self@.champions.len(),
            forall|i: int| 0 <= i < r@.len() ==> (#[trigger] r@[i])@ == self@.champions[i],
    {
        let mut out: Vec<ChampionRecord> = Vec::new();
        let n = self.champions.len();
        let mut k: usize = 0;
        while k < n
            invariant
                n == self@.champions.len(),
                k <= n,
                out@.len() == k,
                forall|i: int| 0 <= i < k ==> (#[trigger] out@[i])@ == self@.champions[i],
            decreases n - k,
        {
            let c = &self.champions[k];
            out.push(
                ChampionRecord {
                    id: c.id,
                    team_id: c.team_id,
                    name: c.name.clone(),
                    points: c.points,
                },
            );
            k += 1;
        }
        out
    }

    /// A copy of every team row, in registration order.
    pub fn get_teams(&self) -> (r: Vec<TeamRecord>)
        ensures
            r@.len() == self@.teams.len(),
            forall|i: int| 0 <= i < r@.len() ==> (#[trigger] r@[i])@ == self@.teams[i],
    {
        let mut out: Vec<TeamRecord> = Vec::new();
        let n = self.teams.len();
        let mut k: usize = 0;
        while k < n
            invariant
                n == self@.teams.len(),
                k <= n,
                out@.len() == k,
                forall|i: int| 0 <= i < k ==> (#[trigger] out@[i])@ == self@.teams[i],
            decreases n - k,
        {
            let t = &self.teams[k];
            out.push(TeamRecord { id: t.id, name: t.name.clone() });
            k += 1;
        }
        out
    }
}

} // verus!
