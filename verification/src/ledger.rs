//! The per-user points ledger: balance reads, credits, debits and
//! transfers to champions.
//!
//! Every mutation is one atomic step: a rejected operation leaves the
//! state exactly as it was. `collect` and `assign` compose these rules
//! with the pool; this module exposes them directly, for any positive
//! amount.

use vstd::prelude::*;

use crate::errors::{AssignError, LedgerError};
use crate::service::assign_transition;
use crate::state::{
    champion_at, has_champion, has_user, lemma_champion_at_is, lemma_user_at_is, user_at, wf,
    ChampionModel, ServiceState, StateModel, UserModel,
};
use crate::COOLDOWN_SECS;

verus! {

/// What a credit does: raises the user's balance by `delta` and
/// advances the cooldown to `now` plus the fixed interval.
pub open spec fn credit_transition(s: StateModel, user_id: i64, delta: u64, now: u64) -> (
    StateModel,
    Result<u64, LedgerError>,
) {
    if !has_user(s.users, user_id) {
        (s, Err(LedgerError::NoSuchUser))
    } else {
        let i = user_at(s.users, user_id);
        let u = s.users[i];
        if u.points + delta > u64::MAX {
            (s, Err(LedgerError::BalanceOverflow))
        } else {
            let nu = (UserModel {
                points: (u.points + delta) as u64,
                can_get_points_time: (now + COOLDOWN_SECS) as u64,
                ..u
            });
            (
                (StateModel { users: s.users.update(i, nu), ..s }),
                Ok((u.points + delta) as u64),
            )
        }
    }
}

/// What a debit does: lowers the user's balance by `delta`, failing
/// without any mutation where the balance would go negative.
pub open spec fn debit_transition(s: StateModel, user_id: i64, delta: u64) -> (
    StateModel,
    Result<u64, LedgerError>,
) {
    if !has_user(s.users, user_id) {
        (s, Err(LedgerError::NoSuchUser))
    } else {
        let i = user_at(s.users, user_id);
        let u = s.users[i];
        if u.points < delta {
            (s, Err(LedgerError::InsufficientFunds))
        } else {
            let nu = (UserModel { points: (u.points - delta) as u64, ..u });
            (
                (StateModel { users: s.users.update(i, nu), ..s }),
                Ok((u.points - delta) as u64),
            )
        }
    }
}

/// What a transfer does: one user debit and one champion credit of the
/// same amount, both applied or neither.
pub open spec fn transfer_transition(s: StateModel, user_id: i64, champion_id: i64, delta: u64) -> (
    StateModel,
    Result<u64, AssignError>,
) {
    if !has_user(s.users, user_id) {
        (s, Err(AssignError::NoSuchUser))
    } else {
        let i = user_at(s.users, user_id);
        let u = s.users[i];
        if u.points < delta {
            (s, Err(AssignError::InsufficientFunds))
        } else if !has_champion(s.champions, champion_id) {
            (s, Err(AssignError::ChampionNotFound))
        } else {
            let j = champion_at(s.champions, champion_id);
            let c = s.champions[j];
            if c.points + delta > u64::MAX {
                (s, Err(AssignError::BalanceOverflow))
            } else {
                let nu = (UserModel { points: (u.points - delta) as u64, ..u });
                let nc = (ChampionModel { points: (c.points + delta) as u64, ..c });
                (
                    (StateModel {
                        users: s.users.update(i, nu),
                        champions: s.champions.update(j, nc),
                        ..s
                    }),
                    Ok((c.points + delta) as u64),
                )
            }
        }
    }
}

/// An assign is exactly a transfer of one point.
pub proof fn lemma_assign_is_unit_transfer(s: StateModel, user_id: i64, champion_id: i64)
    ensures
        assign_transition(s, user_id, champion_id) == transfer_transition(
            s,
            user_id,
            champion_id,
            1,
        ),
{
}

impl ServiceState {
    /// The user's current earliest-next-collect time, or `None` for an
    /// unknown user.
    pub fn get_cooldown(&self, user_id: i64) -> (r: Option<u64>)
        requires
            wf(self@),
        ensures
            match r {
                Some(t) => has_user(self@.users, user_id) && t == self@.users[user_at(
                    self@.users,
                    user_id,
                )].can_get_points_time,
                None => !has_user(self@.users, user_id),
            },
    {
        match self.find_user_index(user_id) {
            None => None,
            Some(i) => {
                proof {
                    lemma_user_at_is(self@.users, user_id, i as int);
                }
                Some(self.users[i].can_get_points_time)
            },
        }
    }

    /// Credits the user's balance by `delta` and advances the cooldown,
    /// per [`credit_transition`].
    pub fn credit(&mut self, user_id: i64, delta: u64, now: u64) -> (r: Result<u64, LedgerError>)
        requires
            wf(old(self)@),
            delta > 0,
            now <= u64::MAX - COOLDOWN_SECS,
        ensures
            wf(final(self)@),
            final(self)@ == credit_transition(old(self)@, user_id, delta, now).0,
            r == credit_transition(old(self)@, user_id, delta, now).1,
    {
        let i = match self.find_user_index(user_id) {
            None => {
                return Err(LedgerError::NoSuchUser);
            },
            Some(i) => i,
        };
        proof {
            lemma_user_at_is(self@.users, user_id, i as int);
        }
        let balance = self.users[i].points;
        if delta > u64::MAX - balance {
            return Err(LedgerError::BalanceOverflow);
        }
        let new_balance = balance + delta;
        self.users[i].points = new_balance;
        self.users[i].can_get_points_time = now + COOLDOWN_SECS;
        proof {
            let (t, _res) = credit_transition(old(self)@, user_id, delta, now);
            assert(self@.users =~= t.users);
            assert(self@ =~= t);
        }
        Ok(new_balance)
    }

    /// Debits the user's balance by `delta`, per [`debit_transition`]:
    /// the balance never goes negative, an overdraft is rejected whole.
    pub fn debit(&mut self, user_id: i64, delta: u64) -> (r: Result<u64, LedgerError>)
        requires
            wf(old(self)@),
            delta > 0,
        ensures
            wf(final(self)@),
            final(self)@ == debit_transition(old(self)@, user_id, delta).0,
            r == debit_transition(old(self)@, user_id, delta).1,
    {
        let i = match self.find_user_index(user_id) {
            None => {
                return Err(LedgerError::NoSuchUser);
            },
            Some(i) => i,
        };
        proof {
            lemma_user_at_is(self@.users, user_id, i as int);
        }
        let balance = self.users[i].points;
        if balance < delta {
            return Err(LedgerError::InsufficientFunds);
        }
        let new_balance = balance - delta;
        self.users[i].points = new_balance;
        proof {
            let (t, _res) = debit_transition(old(self)@, user_id, delta);
            assert(self@.users =~= t.users);
            assert(self@ =~= t);
        }
        Ok(new_balance)
    }

    /// Moves `delta` points from the user to the champion, per
    /// [`transfer_transition`]: both rows change or neither does.
    pub fn transfer(&mut self, user_id: i64, champion_id: i64, delta: u64) -> (r: Result<
        u64,
        AssignError,
    >)
        requires
            wf(old(self)@),
            delta > 0,
        ensures
            wf(final(self)@),
            final(self)@ == transfer_transition(old(self)@, user_id, champion_id, delta).0,
            r == transfer_transition(old(self)@, user_id, champion_id, delta).1,
    {
        let i = match self.find_user_index(user_id) {
            None => {
                return Err(AssignError::NoSuchUser);
            },
            Some(i) => i,
        };
        proof {
            lemma_user_at_is(self@.users, user_id, i as int);
        }
        if self.users[i].points < delta {
            return Err(AssignError::InsufficientFunds);
        }
        let j = match self.find_champion_index(champion_id) {
            None => {
                return Err(AssignError::ChampionNotFound);
            },
            Some(j) => j,
        };
        proof {
            lemma_champion_at_is(self@.champions, champion_id, j as int);
        }
        let champion_points = self.champions[j].points;
        if delta > u64::MAX - champion_points {
            return Err(AssignError::BalanceOverflow);
        }
        let new_balance = self.users[i].points - delta;
        self.users[i].points = new_balance;
        let new_champion_points = champion_points + delta;
        self.champions[j].points = new_champion_points;
        proof {
            let (t, _res) = transfer_transition(old(self)@, user_id, champion_id, delta);
            assert(self@.users =~= t.users);
            assert(self@.champions =~= t.champions);
            assert(self@ =~= t);
        }
        Ok(new_champion_points)
    }
}

} // verus!
