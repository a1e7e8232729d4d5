//! Session management: issuing, resolving and revoking session tokens.
//!
//! The sessions table maps each issued token to a user identifier. Its
//! contract is map-like: inserting records the token, revoking forgets
//! it, and every other token resolves exactly as before.
//!
//! Expiry policy, stated explicitly: tokens do not expire here; a
//! session lasts until it is revoked. A store layered on top may impose
//! its own lifetime.

use vstd::prelude::*;

use crate::state::{
    has_session, has_user, lemma_session_at_is, lemma_user_at_is, session_at, session_user,
    unique_session_tokens, user_at, wf, ServiceState, SessionRecord, StateModel, UserModel,
};
use crate::token::SessionToken;

verus! {

/// A resolved identity: the join of a session row with its user row,
/// holding what handlers need of the user.
pub struct User {
    pub id: i64,
    pub name: String,
}

/// The user a token resolves to in state `s`: the identity joined
/// through the sessions table, `None` for an unrecognized token or a
/// dangling session.
pub open spec fn resolved_user(s: StateModel, token: u128) -> Option<UserModel> {
    match session_user(s.sessions, token) {
        None => None,
        Some(uid) => if has_user(s.users, uid) {
            Some(s.users[user_at(s.users, uid)])
        } else {
            None
        },
    }
}

impl ServiceState {
    /// The index of the session row with the given token, if any.
    fn find_session_index(&self, token: u128) -> (r: Option<usize>)
        ensures
            match r {
                Some(i) => i < self@.sessions.len() && self@.sessions[i as int].token == token,
                None => !has_session(self@.sessions, token),
            },
    {
        let n = self.sessions.len();
        let mut k: usize = 0;
        while k < n
            invariant
                n == self@.sessions.len(),
                k <= n,
                forall|j: int| 0 <= j < k ==> (#[trigger] self@.sessions[j]).token != token,
            decreases n - k,
        {
            if self.sessions[k].token == token {
                return Some(k);
            }
            k += 1;
        }
        None
    }

    /// Records that `token` names `user_id`. Map-insert semantics: a
    /// token already present is re-pointed at the given user (a 128-bit
    /// collision is vanishingly rare, and re-pointing keeps the
    /// operation total); any other token is appended.
    fn insert_session(&mut self, token: SessionToken, user_id: i64)
        requires
            wf(old(self)@),
        ensures
            wf(final(self)@),
            session_user(final(self)@.sessions, token@) == Some(user_id),
            forall|t2: u128|
                t2 != token@ ==> session_user(final(self)@.sessions, t2) == session_user(
                    old(self)@.sessions,
                    t2,
                ),
            final(self)@.users == old(self)@.users,
            final(self)@.champions == old(self)@.champions,
            final(self)@.teams == old(self)@.teams,
            final(self)@.pool == old(self)@.pool,
            final(self)@.next_user_id == old(self)@.next_user_id,
    {
        let ghost oldseq = self@.sessions;
        match self.find_session_index(token.value) {
            Some(i) => {
                self.sessions[i].user_id = user_id;
                proof {
                    let newseq = self@.sessions;
                    assert(forall|k: int|
                        0 <= k < newseq.len() ==> (#[trigger] newseq[k]).token == oldseq[k].token);
                    assert(unique_session_tokens(newseq));
                    lemma_session_at_is(newseq, token.value, i as int);
                    assert forall|t2: u128| t2 != token@ implies session_user(newseq, t2)
                        == session_user(oldseq, t2) by {
                        if has_session(oldseq, t2) {
                            let j = session_at(oldseq, t2);
                            lemma_session_at_is(oldseq, t2, j);
                            assert(j != i);
                            assert(newseq[j] == oldseq[j]);
                            lemma_session_at_is(newseq, t2, j);
                        } else {
                            assert(!has_session(newseq, t2)) by {
                                assert forall|k: int|
                                    0 <= k < newseq.len() implies (#[trigger] newseq[k]).token
                                    != t2 by {
                                    assert(oldseq[k].token != t2);
                                }
                            }
                        }
                    }
                }
            },
            None => {
                self.sessions.push(SessionRecord { token: token.value, user_id });
                proof {
                    let newseq = self@.sessions;
                    assert(newseq == oldseq.push(SessionRecord { token: token@, user_id }));
                    assert(unique_session_tokens(newseq)) by {
                        assert forall|a: int, b: int|
                            0 <= a < b < newseq.len() implies (#[trigger] newseq[a]).token != (
                        #[trigger] newseq[b]).token by {
                            if b == oldseq.len() {
                                assert(oldseq[a].token != token@);
                            }
                        }
                    }
                    lemma_session_at_is(newseq, token.value, oldseq.len() as int);
                    assert forall|t2: u128| t2 != token@ implies session_user(newseq, t2)
                        == session_user(oldseq, t2) by {
                        if has_session(oldseq, t2) {
                            let j = session_at(oldseq, t2);
                            lemma_session_at_is(oldseq, t2, j);
                            assert(newseq[j] == oldseq[j]);
                            lemma_session_at_is(newseq, t2, j);
                        } else {
                            assert(!has_session(newseq, t2)) by {
                                assert forall|k: int|
                                    0 <= k < newseq.len() implies (#[trigger] newseq[k]).token
                                    != t2 by {
                                    if k < oldseq.len() {
                                        assert(oldseq[k].token != t2);
                                    }
                                }
                            }
                        }
                    }
                }
            },
        }
    }

    /// Issues a fresh session token for `user_id` and records it; the
    /// token is drawn from the given random source.
    pub fn new_session(&mut self, rng: &mut rand_chacha::ChaCha8Rng, user_id: i64) -> (t:
        SessionToken)
        requires
            wf(old(self)@),
        ensures
            wf(final(self)@),
            session_user(final(self)@.sessions, t@) == Some(user_id),
            forall|t2: u128|
                t2 != t@ ==> session_user(final(self)@.sessions, t2) == session_user(
                    old(self)@.sessions,
                    t2,
                ),
            final(self)@.users == old(self)@.users,
            final(self)@.champions == old(self)@.champions,
            final(self)@.teams == old(self)@.teams,
            final(self)@.pool == old(self)@.pool,
            final(self)@.next_user_id == old(self)@.next_user_id,
    {
        let t = SessionToken::generate_new(rng);
        self.insert_session(t, user_id);
        t
    }

    /// Revokes the session named by `token`. Idempotent: an unknown
    /// token leaves the state exactly as it was, and is not an error.
    pub fn logout(&mut self, token: SessionToken)
        requires
            wf(old(self)@),
        ensures
            wf(final(self)@),
            session_user(final(self)@.sessions, token@) == None::<i64>,
            forall|t2: u128|
                t2 != token@ ==> session_user(final(self)@.sessions, t2) == session_user(
                    old(self)@.sessions,
                    t2,
                ),
            has_session(old(self)@.sessions, token@) ==> final(self)@.sessions == old(
                self,
            )@.sessions.remove(session_at(old(self)@.sessions, token@)),
            !has_session(old(self)@.sessions, token@) ==> final(self)@.sessions == old(
                self,
            )@.sessions,
            final(self)@.users == old(self)@.users,
            final(self)@.champions == old(self)@.champions,
            final(self)@.teams == old(self)@.teams,
            final(self)@.pool == old(self)@.pool,
            final(self)@.next_user_id == old(self)@.next_user_id,
    {
        let ghost oldseq = self@.sessions;
        match self.find_session_index(token.value) {
            None => {
            },
            Some(i) => {
                proof {
                    lemma_session_at_is(oldseq, token.value, i as int);
                }
                self.sessions.remove(i);
                proof {
                    let newseq = self@.sessions;
                    oldseq.remove_ensures(i as int);
                    assert(unique_session_tokens(newseq)) by {
                        assert forall|a: int, b: int|
                            0 <= a < b < newseq.len() implies (#[trigger] newseq[a]).token != (
                        #[trigger] newseq[b]).token by {
                            let a0: int = if a < i { a } else { a + 1 };
                            let b0: int = if b < i { b } else { b + 1 };
                            assert(newseq[a] == oldseq[a0]);
                            assert(newseq[b] == oldseq[b0]);
                        }
                    }
                    assert(!has_session(newseq, token@)) by {
                        assert forall|k: int|
                            0 <= k < newseq.len() implies (#[trigger] newseq[k]).token
                            != token@ by {
                            let k0: int = if k < i { k } else { k + 1 };
                            assert(newseq[k] == oldseq[k0]);
                            assert(k0 != i);
                            if k0 < i {
                                assert(oldseq[k0].token != oldseq[i as int].token);
                            } else {
                                assert(oldseq[i as int].token != oldseq[k0].token);
                            }
                        }
                    }
                    assert forall|t2: u128| t2 != token@ implies session_user(newseq, t2)
                        == session_user(oldseq, t2) by {
                        if has_session(oldseq, t2) {
                            let j = session_at(oldseq, t2);
                            lemma_session_at_is(oldseq, t2, j);
                            assert(j != i);
                            let j2: int = if j < i { j } else { j - 1 };
                            assert(newseq[j2] == oldseq[j]);
                            lemma_session_at_is(newseq, t2, j2);
                        } else {
                            assert(!has_session(newseq, t2)) by {
                                assert forall|k: int|
                                    0 <= k < newseq.len() implies (#[trigger] newseq[k]).token
                                    != t2 by {
                                    let k0: int = if k < i { k } else { k + 1 };
                                    assert(newseq[k] == oldseq[k0]);
                                    assert(oldseq[k0].token != t2);
                                }
                            }
                        }
                    }
                }
            },
        }
    }

    /// Resolves a token to the user it names: a pure read with no side
    /// effects. An unrecognized token yields no user rather than an
    /// error.
    pub fn resolve(&self, token: SessionToken) -> (r: Option<User>)
        requires
            wf(self@),
        ensures
            resolved_user(self@, token@) is None ==> r is None,
            resolved_user(self@, token@) matches Some(mu) ==> r matches Some(u) && u.id == mu.id
                && u.name@ == mu.name,
    {
        let i = match self.find_session_index(token.value) {
            None => {
                return None;
            },
            Some(i) => i,
        };
        proof {
            lemma_session_at_is(self@.sessions, token.value, i as int);
        }
        let uid = self.sessions[i].user_id;
        let j = match self.find_user_index(uid) {
            None => {
                return None;
            },
            Some(j) => j,
        };
        proof {
            lemma_user_at_is(self@.users, uid, j as int);
        }
        Some(User { id: self.users[j].id, name: self.users[j].name.clone() })
    }
}

} // verus!
