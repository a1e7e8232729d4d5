//! Proved laws of the service: properties that relate several operations
//! or hold of every state, stated over the pure transition functions.

use vstd::prelude::*;

use crate::errors::{AssignError, CollectError};
use crate::service::{assign_transition, collect_transition};
use crate::state::{
    champion_at, has_champion, has_user, lemma_champion_at_is, lemma_user_at_is, user_at, wf,
    StateModel,
};
use crate::{POOL_CAPACITY, REFILL_DELAY_SECS};

verus! {

/// A collect attempted before the user's cooldown has passed always
/// fails with `TooSoon`, carrying the next eligible instant, and mutates
/// neither the ledger nor the pool.
pub proof fn lemma_collect_too_soon_mutates_nothing(s: StateModel, user_id: i64, now: u64)
    requires
        has_user(s.users, user_id),
        now < s.users[user_at(s.users, user_id)].can_get_points_time,
    ensures
        collect_transition(s, user_id, now).0 == s,
        collect_transition(s, user_id, now).1 == Err::<u64, CollectError>(
            CollectError::TooSoon(s.users[user_at(s.users, user_id)].can_get_points_time),
        ),
{
}

/// Two collect calls racing on a pool that holds one point: exactly one
/// succeeds and the other fails `PoolClosed`; the pool ends refilled to
/// [`POOL_CAPACITY`] with its opening instant pushed forward exactly
/// once, and the second call mutates nothing.
///
/// The service serializes concurrent collects (one state, one atomic
/// operation at a time), so a race on the last point is the composition
/// of the two transitions in some order; this lemma covers either order,
/// the two users being arbitrary.
pub proof fn lemma_collect_exclusive_on_last_point(s: StateModel, u1: i64, u2: i64, now: u64)
    requires
        wf(s),
        u1 != u2,
        has_user(s.users, u1),
        has_user(s.users, u2),
        s.pool.points == 1,
        s.pool.open_at <= now,
        s.users[user_at(s.users, u1)].can_get_points_time <= now,
        s.users[user_at(s.users, u2)].can_get_points_time <= now,
        s.users[user_at(s.users, u1)].points < u64::MAX,
        now + REFILL_DELAY_SECS <= u64::MAX,
    ensures
        ({
            let (s1, r1) = collect_transition(s, u1, now);
            let (s2, r2) = collect_transition(s1, u2, now);
            &&& r1 == Ok::<u64, CollectError>((s.users[user_at(s.users, u1)].points + 1) as u64)
            &&& s1.pool.points == POOL_CAPACITY
            &&& s1.pool.open_at == now + REFILL_DELAY_SECS
            &&& r2 == Err::<u64, CollectError>(CollectError::PoolClosed)
            &&& s2 == s1
        }),
{
    let i1 = user_at(s.users, u1);
    let i2 = user_at(s.users, u2);
    let (s1, r1) = collect_transition(s, u1, now);
    assert(s1.users =~= s.users.update(i1, s1.users[i1]));
    assert(forall|k: int|
        0 <= k < s1.users.len() ==> (#[trigger] s1.users[k]).id == s.users[k].id);
    lemma_user_at_is(s1.users, u2, i2);
    assert(s1.users[i2] == s.users[i2]);
    assert(now < s1.pool.open_at);
}

/// A successful collect strictly advances the acting user's cooldown,
/// and touches no other user's row.
pub proof fn lemma_collect_advances_cooldown(s: StateModel, user_id: i64, now: u64)
    requires
        wf(s),
        has_user(s.users, user_id),
        now + REFILL_DELAY_SECS <= u64::MAX,
    ensures
        ({
            let (s2, r) = collect_transition(s, user_id, now);
            let i = user_at(s.users, user_id);
            r is Ok ==> {
                &&& s2.users[i].can_get_points_time > s.users[i].can_get_points_time
                &&& s2.users[i].can_get_points_time > now
                &&& forall|k: int| 0 <= k < s.users.len() && k != i ==> s2.users[k] == s.users[k]
            }
        }),
{
}

/// The pool changes in only two ways: a draw lowers it by exactly one,
/// and the draw that empties it refills it to [`POOL_CAPACITY`] with
/// its opening instant pushed into the future; every failed collect
/// leaves it untouched.
pub proof fn lemma_pool_changes_shape(s: StateModel, user_id: i64, now: u64)
    requires
        now + REFILL_DELAY_SECS <= u64::MAX,
    ensures
        ({
            let (s2, r) = collect_transition(s, user_id, now);
            &&& r is Err ==> s2.pool == s.pool
            &&& r is Ok ==> (s.pool.points > 1 && s2.pool.points == s.pool.points - 1
                && s2.pool.open_at == s.pool.open_at) || (s.pool.points == 1 && s2.pool.points
                == POOL_CAPACITY && s2.pool.open_at == now + REFILL_DELAY_SECS
                && s2.pool.open_at > now)
        }),
{
}

/// An assign moves exactly one point: the acting user's balance drops by
/// one (it can never go negative: a zero balance is rejected with
/// `InsufficientFunds` before any mutation) and the champion's points
/// rise by exactly that one, in the same atomic step; every other row
/// and the pool are untouched.
pub proof fn lemma_assign_transfers_exactly(s: StateModel, user_id: i64, champion_id: i64)
    requires
        wf(s),
        has_user(s.users, user_id),
        has_champion(s.champions, champion_id),
        s.users[user_at(s.users, user_id)].points >= 1,
        s.champions[champion_at(s.champions, champion_id)].points < u64::MAX,
    ensures
        ({
            let (s2, r) = assign_transition(s, user_id, champion_id);
            let i = user_at(s.users, user_id);
            let j = champion_at(s.champions, champion_id);
            &&& r == Ok::<u64, AssignError>((s.champions[j].points + 1) as u64)
            &&& s2.users[i].points == s.users[i].points - 1
            &&& s2.champions[j].points == s.champions[j].points + 1
            &&& forall|k: int| 0 <= k < s.users.len() && k != i ==> s2.users[k] == s.users[k]
            &&& forall|k: int|
                0 <= k < s.champions.len() && k != j ==> s2.champions[k] == s.champions[k]
            &&& s2.pool == s.pool
            &&& s2.sessions == s.sessions
        }),
{
}

/// No lost updates: two assigns to the same champion from two different
/// users, serialized in either order, each debit one user by one and
/// together raise the champion's points by exactly two.
pub proof fn lemma_assign_no_lost_updates(s: StateModel, u1: i64, u2: i64, champion_id: i64)
    requires
        wf(s),
        u1 != u2,
        has_user(s.users, u1),
        has_user(s.users, u2),
        has_champion(s.champions, champion_id),
        s.users[user_at(s.users, u1)].points >= 1,
        s.users[user_at(s.users, u2)].points >= 1,
        s.champions[champion_at(s.champions, champion_id)].points + 2 <= u64::MAX,
    ensures
        ({
            let (s1, r1) = assign_transition(s, u1, champion_id);
            let (s2, r2) = assign_transition(s1, u2, champion_id);
            let i1 = user_at(s.users, u1);
            let i2 = user_at(s.users, u2);
            let j = champion_at(s.champions, champion_id);
            &&& r1 is Ok
            &&& r2 is Ok
            &&& s2.champions[j].points == s.champions[j].points + 2
            &&& s2.users[i1].points == s.users[i1].points - 1
            &&& s2.users[i2].points == s.users[i2].points - 1
        }),
{
    let i1 = user_at(s.users, u1);
    let i2 = user_at(s.users, u2);
    let j = champion_at(s.champions, champion_id);
    let (s1, r1) = assign_transition(s, u1, champion_id);
    assert(forall|k: int|
        0 <= k < s1.users.len() ==> (#[trigger] s1.users[k]).id == s.users[k].id);
    lemma_user_at_is(s1.users, u2, i2);
    assert(s1.users[i2] == s.users[i2]);
    assert(forall|k: int|
        0 <= k < s1.champions.len() ==> (#[trigger] s1.champions[k]).id == s.champions[k].id);
    lemma_champion_at_is(s1.champions, champion_id, j);
}

/// The state after a run of assigns to one champion, one from each id
/// in the sequence, in order.
pub open spec fn assigns_fold(s: StateModel, ids: Seq<i64>, champion_id: i64) -> StateModel
    decreases ids.len(),
{
    if ids.len() == 0 {
        s
    } else {
        assigns_fold(assign_transition(s, ids[0], champion_id).0, ids.drop_first(), champion_id)
    }
}

/// Whether every assign in the run succeeds.
pub open spec fn assigns_all_ok(s: StateModel, ids: Seq<i64>, champion_id: i64) -> bool
    decreases ids.len(),
{
    if ids.len() == 0 {
        true
    } else {
        assign_transition(s, ids[0], champion_id).1 is Ok && assigns_all_ok(
            assign_transition(s, ids[0], champion_id).0,
            ids.drop_first(),
            champion_id,
        )
    }
}

/// No id occurs twice in the sequence.
pub open spec fn pairwise_distinct(ids: Seq<i64>) -> bool {
    forall|a: int, b: int| 0 <= a < b < ids.len() ==> ids[a] != ids[b]
}

/// Every id in the sequence names an existing user holding at least one
/// point.
pub open spec fn all_can_pay(s: StateModel, ids: Seq<i64>) -> bool {
    forall|k: int|
        0 <= k < ids.len() ==> has_user(s.users, #[trigger] ids[k]) && s.users[user_at(
            s.users,
            ids[k],
        )].points >= 1
}

/// One successful assign, with everything the induction over a run
/// needs: well-formedness is preserved, every row keeps its identity,
/// and only the two balances move.
proof fn lemma_assign_step(s: StateModel, user_id: i64, champion_id: i64)
    requires
        wf(s),
        has_user(s.users, user_id),
        s.users[user_at(s.users, user_id)].points >= 1,
        has_champion(s.champions, champion_id),
        s.champions[champion_at(s.champions, champion_id)].points < u64::MAX,
    ensures
        ({
            let (s1, r) = assign_transition(s, user_id, champion_id);
            let i = user_at(s.users, user_id);
            let j = champion_at(s.champions, champion_id);
            &&& r is Ok
            &&& wf(s1)
            &&& s1.users.len() == s.users.len()
            &&& s1.champions.len() == s.champions.len()
            &&& forall|k: int|
                0 <= k < s.users.len() ==> (#[trigger] s1.users[k]).id == s.users[k].id && (
                #[trigger] s1.users[k]).name == s.users[k].name
            &&& forall|k: int|
                0 <= k < s.champions.len() ==> (#[trigger] s1.champions[k]).id == s.champions[k].id
            &&& forall|k: int| 0 <= k < s.users.len() && k != i ==> s1.users[k] == s.users[k]
            &&& s1.users[i].points == s.users[i].points - 1
            &&& forall|k: int|
                0 <= k < s.champions.len() && k != j ==> s1.champions[k] == s.champions[k]
            &&& s1.champions[j].points == s.champions[j].points + 1
            &&& s1.pool == s.pool
            &&& s1.sessions == s.sessions
            &&& s1.teams == s.teams
            &&& s1.next_user_id == s.next_user_id
        }),
{
    let (s1, r) = assign_transition(s, user_id, champion_id);
    let i = user_at(s.users, user_id);
    let j = champion_at(s.champions, champion_id);
    assert(forall|k: int|
        0 <= k < s1.users.len() ==> (#[trigger] s1.users[k]).id == s.users[k].id && (
        #[trigger] s1.users[k]).name == s.users[k].name);
    assert(forall|k: int|
        0 <= k < s1.champions.len() ==> (#[trigger] s1.champions[k]).id == s.champions[k].id);
    assert(wf(s1)) by {
        assert forall|a: int, b: int|
            0 <= a < b < s1.users.len() implies (#[trigger] s1.users[a]).id != (
        #[trigger] s1.users[b]).id && (#[trigger] s1.users[a]).name != (
        #[trigger] s1.users[b]).name by {
            assert(s.users[a].id != s.users[b].id);
            assert(s.users[a].name != s.users[b].name);
        }
        assert forall|a: int, b: int|
            0 <= a < b < s1.champions.len() implies (#[trigger] s1.champions[a]).id != (
        #[trigger] s1.champions[b]).id by {
            assert(s.champions[a].id != s.champions[b].id);
        }
        assert forall|k: int|
            0 <= k < s1.users.len() implies 0 <= (#[trigger] s1.users[k]).id
            < s1.next_user_id by {
            assert(0 <= s.users[k].id < s.next_user_id);
        }
    }
}

/// No lost updates under any number of writers: a run of assigns to one
/// champion, one from each of any number of distinct users who can all
/// pay, succeeds throughout and raises the champion's points by exactly
/// the length of the run, while each user in the run pays exactly one
/// point and every other row is untouched.
pub proof fn lemma_assign_no_lost_updates_many(s: StateModel, ids: Seq<i64>, champion_id: i64)
    requires
        wf(s),
        pairwise_distinct(ids),
        all_can_pay(s, ids),
        has_champion(s.champions, champion_id),
        s.champions[champion_at(s.champions, champion_id)].points + ids.len() <= u64::MAX,
    ensures
        ({
            let s2 = assigns_fold(s, ids, champion_id);
            let j = champion_at(s.champions, champion_id);
            &&& assigns_all_ok(s, ids, champion_id)
            &&& s2.users.len() == s.users.len()
            &&& s2.champions.len() == s.champions.len()
            &&& forall|k: int| 0 <= k < s.users.len() ==> (#[trigger] s2.users[k]).id == s.users[k].id
            &&& s2.champions[j].points == s.champions[j].points + ids.len()
            &&& forall|k: int|
                0 <= k < s.champions.len() && k != j ==> s2.champions[k] == s.champions[k]
            &&& forall|k: int|
                0 <= k < ids.len() ==> s2.users[user_at(s.users, #[trigger] ids[k])].points
                    == s.users[user_at(s.users, ids[k])].points - 1
            &&& forall|k: int|
                0 <= k < s.users.len() && !ids.contains(s.users[k].id) ==> (#[trigger] s2.users[k])
                    == s.users[k]
            &&& s2.pool == s.pool
            &&& s2.sessions == s.sessions
        }),
    decreases ids.len(),
{
    if ids.len() == 0 {
    } else {
        let u0 = ids[0];
        let i0 = user_at(s.users, u0);
        let j = champion_at(s.champions, champion_id);
        assert(has_user(s.users, u0) && s.users[i0].points >= 1);
        lemma_assign_step(s, u0, champion_id);
        let (s1, r1) = assign_transition(s, u0, champion_id);
        let t = ids.drop_first();
        assert(forall|a: int| 0 <= a < t.len() ==> #[trigger] t[a] == ids[a + 1]);
        assert(pairwise_distinct(t)) by {
            assert forall|a: int, b: int| 0 <= a < b < t.len() implies t[a] != t[b] by {
                assert(ids[a + 1] != ids[b + 1]);
            }
        }
        // every later id names a different user, whose row step one left alone
        assert forall|k: int|
            0 <= k < t.len() implies has_user(s1.users, #[trigger] t[k]) && user_at(
            s1.users,
            t[k],
        ) == user_at(s.users, t[k]) && s1.users[user_at(s1.users, t[k])] == s.users[user_at(
            s.users,
            t[k],
        )] by {
            assert(t[k] == ids[k + 1]);
            assert(ids[0] != ids[k + 1]);
            let ik = user_at(s.users, t[k]);
            assert(has_user(s.users, t[k]) && s.users[ik].points >= 1);
            assert(s1.users[ik].id == t[k]);
            lemma_user_at_is(s1.users, t[k], ik);
            assert(ik != i0);
        }
        assert(all_can_pay(s1, t));
        assert(s1.champions[j].id == champion_id);
        lemma_champion_at_is(s1.champions, champion_id, j);
        lemma_assign_no_lost_updates_many(s1, t, champion_id);
        let s2 = assigns_fold(s1, t, champion_id);
        assert(assigns_fold(s, ids, champion_id) == s2);
        // the first payer is not among the later ids, so the tail of the
        // run leaves that row alone
        assert(!t.contains(s1.users[i0].id)) by {
            assert(s1.users[i0].id == u0);
            if t.contains(u0) {
                let a = choose|a: int| 0 <= a < t.len() && t[a] == u0;
                assert(ids[a + 1] == ids[0]);
            }
        }
        assert(s2.users[i0] == s1.users[i0]);
        assert forall|k: int|
            0 <= k < ids.len() implies s2.users[user_at(s.users, #[trigger] ids[k])].points
            == s.users[user_at(s.users, ids[k])].points - 1 by {
            if k == 0 {
            } else {
                assert(t[k - 1] == ids[k]);
                assert(s2.users[user_at(s1.users, t[k - 1])].points == s1.users[user_at(
                    s1.users,
                    t[k - 1],
                )].points - 1);
            }
        }
        assert forall|k: int|
            0 <= k < s.users.len() && !ids.contains(s.users[k].id) implies (#[trigger] s2.users[k])
            == s.users[k] by {
            assert(s.users[k].id != ids[0]) by {
                if s.users[k].id == ids[0] {
                    assert(ids.contains(s.users[k].id));
                }
            }
            assert(k != i0) by {
                assert(s.users[i0].id == u0);
            }
            assert(s1.users[k] == s.users[k]);
            assert(!t.contains(s1.users[k].id)) by {
                if t.contains(s1.users[k].id) {
                    let a = choose|a: int| 0 <= a < t.len() && t[a] == s1.users[k].id;
                    assert(ids[a + 1] == s.users[k].id);
                    assert(ids.contains(s.users[k].id));
                }
            }
        }
    }
}

} // verus!
