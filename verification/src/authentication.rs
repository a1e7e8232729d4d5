//! Account creation and login.
//!
//! Signup validates the requested name before touching any state, hashes
//! the password (never storing plaintext) and opens a session for the new
//! user. Login verifies the credential against the stored hash and opens
//! a new session. Both say exactly on which inputs they succeed.

use vstd::prelude::*;
use vstd::string::StrSliceExecFns;
use vstd::string::StringExecFns;

use crate::credentials::{check_password, hash_password, password_matches, MAX_PASSWORD_CHARS};
use crate::errors::{LoginError, SignupError};
use crate::state::{
    has_user_named, lemma_user_named_at_is, session_user, unique_user_ids, unique_user_names,
    user_named_at, wf, ServiceState, UserRecord,
};
use crate::token::SessionToken;

verus! {

/// The body of a signup request.
pub struct SignupData {
    pub name: String,
    pub password: String,
}

/// The body of a login request.
pub struct LoginData {
    pub name: String,
    pub password: String,
}

/// Whether `c` may appear in a username.
pub open spec fn valid_username_char(c: char) -> bool {
    ('a' <= c && c <= 'z') || ('A' <= c && c <= 'Z') || ('0' <= c && c <= '9') || c == '-'
}

/// The username rule: 1 to 19 characters, each of `[A-Za-z0-9-]`.
pub open spec fn valid_username(name: Seq<char>) -> bool {
    1 <= name.len() < 20 && forall|i: int|
        0 <= i < name.len() ==> valid_username_char(#[trigger] name[i])
}

/// Checks the username rule.
pub fn check_username(name: &str) -> (r: bool)
    ensures
        r == valid_username(name@),
{
    let n = name.unicode_len();
    if n < 1 || n >= 20 {
        return false;
    }
    let mut k: usize = 0;
    while k < n
        invariant
            n == name@.len(),
            k <= n,
            1 <= n < 20,
            forall|i: int| 0 <= i < k ==> valid_username_char(#[trigger] name@[i]),
        decreases n - k,
    {
        let c = name.get_char(k);
        let ok = (c >= 'a' && c <= 'z') || (c >= 'A' && c <= 'Z') || (c >= '0' && c <= '9') || c
            == '-';
        if !ok {
            proof {
                assert(!valid_username_char(name@[k as int]));
            }
            return false;
        }
        k += 1;
    }
    true
}

impl ServiceState {
    /// The index of the user row with the given name, if any.
    fn find_user_by_name(&self, name: &str) -> (r: Option<usize>)
        ensures
            match r {
                Some(i) => i < self@.users.len() && self@.users[i as int].name == name@,
                None => !has_user_named(self@.users, name@),
            },
    {
        let n = self.users.len();
        let mut k: usize = 0;
        while k < n
            invariant
                n == self@.users.len(),
                k <= n,
                forall|j: int| 0 <= j < k ==> (#[trigger] self@.users[j]).name != name@,
            decreases n - k,
        {
            if crate::text::str_eq(self.users[k].name.as_str(), name) {
                return Some(k);
            }
            k += 1;
        }
        None
    }

    /// Creates an account: validates the requested name before touching
    /// any state, rejects a taken name, hashes the password and stores
    /// only the hash, then opens a session for the new user.
    pub fn signup(&mut self, name: &str, password: &str, rng: &mut rand_chacha::ChaCha8Rng) -> (r:
        Result<SessionToken, SignupError>)
        requires
            wf(old(self)@),
        ensures
            wf(final(self)@),
            match r {
                Ok(t) => {
                    &&& valid_username(name@)
                    &&& password@.len() <= MAX_PASSWORD_CHARS
                    &&& !has_user_named(old(self)@.users, name@)
                    &&& old(self)@.next_user_id < i64::MAX
                    &&& final(self)@.users.len() == old(self)@.users.len() + 1
                    &&& final(self)@.users.take(old(self)@.users.len() as int) == old(self)@.users
                    &&& final(self)@.users.last().id == old(self)@.next_user_id
                    &&& final(self)@.users.last().name == name@
                    &&& final(self)@.users.last().points == 0
                    &&& final(self)@.users.last().can_get_points_time == 0
                    &&& password_matches(password@, final(self)@.users.last().pw_hash)
                    &&& final(self)@.next_user_id == old(self)@.next_user_id + 1
                    &&& session_user(final(self)@.sessions, t@) == Some(old(self)@.next_user_id)
                    &&& forall|t2: u128|
                        t2 != t@ ==> session_user(final(self)@.sessions, t2) == session_user(
                            old(self)@.sessions,
                            t2,
                        )
                    &&& final(self)@.champions == old(self)@.champions
                    &&& final(self)@.teams == old(self)@.teams
                    &&& final(self)@.pool == old(self)@.pool
                },
                Err(e) => {
                    &&& final(self)@ == old(self)@
                    &&& match e {
                        SignupError::InvalidName => !valid_username(name@),
                        SignupError::InvalidPassword => valid_username(name@) && password@.len()
                            > MAX_PASSWORD_CHARS,
                        SignupError::NameExists => valid_username(name@) && password@.len()
                            <= MAX_PASSWORD_CHARS && has_user_named(old(self)@.users, name@),
                        SignupError::InternalError => valid_username(name@) && password@.len()
                            <= MAX_PASSWORD_CHARS && !has_user_named(old(self)@.users, name@)
                            && old(self)@.next_user_id == i64::MAX,
                    }
                },
            },
    {
        if !check_username(name) {
            return Err(SignupError::InvalidName);
        }
        if password.unicode_len() > MAX_PASSWORD_CHARS {
            return Err(SignupError::InvalidPassword);
        }
        match self.find_user_by_name(name) {
            Some(i) => {
                proof {
                    assert(has_user_named(self@.users, name@));
                }
                return Err(SignupError::NameExists);
            },
            None => {
            },
        }
        if self.next_user_id == i64::MAX {
            return Err(SignupError::InternalError);
        }
        let hash = hash_password(password);
        let uid = self.next_user_id;
        let ghost pre = self@;
        self.users.push(
            UserRecord {
                id: uid,
                name: String::from_str(name),
                pw_hash: hash,
                points: 0,
                can_get_points_time: 0,
            },
        );
        self.next_user_id = uid + 1;
        proof {
            let newu = self@.users;
            assert(newu.take(pre.users.len() as int) =~= pre.users);
            assert(forall|k: int| 0 <= k < pre.users.len() ==> (#[trigger] newu[k]) == pre.users[k]);
            assert(newu.last().id == uid && newu.last().name == name@);
            assert(unique_user_ids(newu)) by {
                assert forall|a: int, b: int|
                    0 <= a < b < newu.len() implies (#[trigger] newu[a]).id != (
                #[trigger] newu[b]).id by {
                    if b == pre.users.len() {
                        assert(pre.users[a].id < pre.next_user_id);
                    }
                }
            }
            assert(unique_user_names(newu)) by {
                assert forall|a: int, b: int|
                    0 <= a < b < newu.len() implies (#[trigger] newu[a]).name != (
                #[trigger] newu[b]).name by {
                    if b == pre.users.len() {
                        assert(pre.users[a].name != name@);
                    }
                }
            }
            assert forall|k: int|
                0 <= k < newu.len() implies 0 <= (#[trigger] newu[k]).id < self@.next_user_id by {
                if k < pre.users.len() {
                    assert(newu[k] == pre.users[k]);
                    assert(0 <= pre.users[k].id < pre.next_user_id);
                }
            }
            assert(wf(self@));
        }
        let t = self.new_session(rng, uid);
        Ok(t)
    }

    /// Verifies a credential and opens a new session for the user. The
    /// two failures stay distinguishable here; a transport layer may
    /// collapse them into one generic message.
    pub fn login(&mut self, name: &str, password: &str, rng: &mut rand_chacha::ChaCha8Rng) -> (r:
        Result<SessionToken, LoginError>)
        requires
            wf(old(self)@),
        ensures
            wf(final(self)@),
            match r {
                Ok(t) => {
                    &&& has_user_named(old(self)@.users, name@)
                    &&& password_matches(
                        password@,
                        old(self)@.users[user_named_at(old(self)@.users, name@)].pw_hash,
                    )
                    &&& session_user(final(self)@.sessions, t@) == Some(
                        old(self)@.users[user_named_at(old(self)@.users, name@)].id,
                    )
                    &&& forall|t2: u128|
                        t2 != t@ ==> session_user(final(self)@.sessions, t2) == session_user(
                            old(self)@.sessions,
                            t2,
                        )
                    &&& final(self)@.users == old(self)@.users
                    &&& final(self)@.champions == old(self)@.champions
                    &&& final(self)@.teams == old(self)@.teams
                    &&& final(self)@.pool == old(self)@.pool
                    &&& final(self)@.next_user_id == old(self)@.next_user_id
                },
                Err(e) => {
                    &&& final(self)@ == old(self)@
                    &&& match e {
                        LoginError::UserDoesNotExist => !has_user_named(old(self)@.users, name@),
                        LoginError::WrongPassword => has_user_named(old(self)@.users, name@)
                            && !password_matches(
                            password@,
                            old(self)@.users[user_named_at(old(self)@.users, name@)].pw_hash,
                        ),
                    }
                },
            },
    {
        let i = match self.find_user_by_name(name) {
            None => {
                return Err(LoginError::UserDoesNotExist);
            },
            Some(i) => i,
        };
        proof {
            lemma_user_named_at_is(self@.users, name@, i as int);
        }
        let ok = check_password(password, self.users[i].pw_hash.as_str());
        if !ok {
            return Err(LoginError::WrongPassword);
        }
        let uid = self.users[i].id;
        let t = self.new_session(rng, uid);
        Ok(t)
    }
}

} // verus!
