//! The persisted state of the service and its mathematical model.
//!
//! The executable state is a set of plain tables (users, sessions,
//! champions, teams) plus the one shared points pool. Its model replaces
//! each `String` with a `Seq<char>` and each `Vec` with a `Seq`, so that
//! contracts can speak of the state as a value.

use vstd::prelude::*;

verus! {

/// One row of the users table: identity, credential and ledger entry.
pub struct UserRecord {
    pub id: i64,
    pub name: String,
    pub pw_hash: String,
    pub points: u64,
    pub can_get_points_time: u64,
}

/// One row of the sessions table: an issued token and the user it names.
#[derive(Clone, Copy, PartialEq, Eq, Structural, Debug)]
pub struct SessionRecord {
    pub token: u128,
    pub user_id: i64,
}

/// One row of the champions table.
pub struct ChampionRecord {
    pub id: i64,
    pub team_id: i64,
    pub name: String,
    pub points: u64,
}

/// One row of the teams table.
pub struct TeamRecord {
    pub id: i64,
    pub name: String,
}

/// The shared points pool: how many points are left, and the earliest
/// instant at which a draw may next succeed.
#[derive(Clone, Copy, PartialEq, Eq, Structural, Debug)]
pub struct PoolState {
    pub points: u64,
    pub open_at: u64,
}

/// Model of one user row.
pub ghost struct UserModel {
    pub id: i64,
    pub name: Seq<char>,
    pub pw_hash: Seq<char>,
    pub points: u64,
    pub can_get_points_time: u64,
}

/// Model of one champion row.
pub ghost struct ChampionModel {
    pub id: i64,
    pub team_id: i64,
    pub name: Seq<char>,
    pub points: u64,
}

/// Model of one team row.
pub ghost struct TeamModel {
    pub id: i64,
    pub name: Seq<char>,
}

/// Model of the whole service state.
#[verifier::ext_equal]
pub ghost struct StateModel {
    pub users: Seq<UserModel>,
    pub sessions: Seq<SessionRecord>,
    pub champions: Seq<ChampionModel>,
    pub teams: Seq<TeamModel>,
    pub pool: PoolState,
    pub next_user_id: i64,
}

impl View for UserRecord {
    type V = UserModel;

    open spec fn view(&self) -> UserModel {
        UserModel {
            id: self.id,
            name: self.name@,
            pw_hash: self.pw_hash@,
            points: self.points,
            can_get_points_time: self.can_get_points_time,
        }
    }
}

impl View for ChampionRecord {
    type V = ChampionModel;

    open spec fn view(&self) -> ChampionModel {
        ChampionModel {
            id: self.id,
            team_id: self.team_id,
            name: self.name@,
            points: self.points,
        }
    }
}

impl View for TeamRecord {
    type V = TeamModel;

    open spec fn view(&self) -> TeamModel {
        TeamModel { id: self.id, name: self.name@ }
    }
}

/// Whether some user row carries the given identifier.
pub open spec fn has_user(users: Seq<UserModel>, id: i64) -> bool {
    exists|i: int| 0 <= i < users.len() && (#[trigger] users[i].id) == id
}

/// The index of the user row with the given identifier (unique under
/// [`wf`], meaningful only when [`has_user`] holds).
pub open spec fn user_at(users: Seq<UserModel>, id: i64) -> int {
    choose|i: int| 0 <= i < users.len() && (#[trigger] users[i].id) == id
}

/// Whether some user row carries the given name.
pub open spec fn has_user_named(users: Seq<UserModel>, name: Seq<char>) -> bool {
    exists|i: int| 0 <= i < users.len() && (#[trigger] users[i].name) == name
}

/// The index of the user row with the given name (unique under [`wf`],
/// meaningful only when [`has_user_named`] holds).
pub open spec fn user_named_at(users: Seq<UserModel>, name: Seq<char>) -> int {
    choose|i: int| 0 <= i < users.len() && (#[trigger] users[i].name) == name
}

/// Whether some champion row carries the given identifier.
pub open spec fn has_champion(champions: Seq<ChampionModel>, id: i64) -> bool {
    exists|i: int| 0 <= i < champions.len() && (#[trigger] champions[i].id) == id
}

/// The index of the champion row with the given identifier (unique under
/// [`wf`], meaningful only when [`has_champion`] holds).
pub open spec fn champion_at(champions: Seq<ChampionModel>, id: i64) -> int {
    choose|i: int| 0 <= i < champions.len() && (#[trigger] champions[i].id) == id
}

/// Whether some session row carries the given token.
pub open spec fn has_session(sessions: Seq<SessionRecord>, token: u128) -> bool {
    exists|i: int| 0 <= i < sessions.len() && (#[trigger] sessions[i].token) == token
}

/// The index of the session row with the given token (unique under
/// [`wf`], meaningful only when [`has_session`] holds).
pub open spec fn session_at(sessions: Seq<SessionRecord>, token: u128) -> int {
    choose|i: int| 0 <= i < sessions.len() && (#[trigger] sessions[i].token) == token
}

/// The user a token resolves to: `None` for an unrecognized token.
pub open spec fn session_user(sessions: Seq<SessionRecord>, token: u128) -> Option<i64> {
    if has_session(sessions, token) {
        Some(sessions[session_at(sessions, token)].user_id)
    } else {
        None
    }
}

/// No two user rows share an identifier.
pub open spec fn unique_user_ids(users: Seq<UserModel>) -> bool {
    forall|i: int, j: int|
        0 <= i < j < users.len() ==> (#[trigger] users[i]).id != (#[trigger] users[j]).id
}

/// No two user rows share a name.
pub open spec fn unique_user_names(users: Seq<UserModel>) -> bool {
    forall|i: int, j: int|
        0 <= i < j < users.len() ==> (#[trigger] users[i]).name != (#[trigger] users[j]).name
}

/// No two session rows share a token.
pub open spec fn unique_session_tokens(sessions: Seq<SessionRecord>) -> bool {
    forall|i: int, j: int|
        0 <= i < j < sessions.len() ==> (#[trigger] sessions[i]).token != (
        #[trigger] sessions[j]).token
}

/// No two champion rows share an identifier.
pub open spec fn unique_champion_ids(champions: Seq<ChampionModel>) -> bool {
    forall|i: int, j: int|
        0 <= i < j < champions.len() ==> (#[trigger] champions[i]).id != (
        #[trigger] champions[j]).id
}

/// No two team rows share an identifier.
pub open spec fn unique_team_ids(teams: Seq<TeamModel>) -> bool {
    forall|i: int, j: int|
        0 <= i < j < teams.len() ==> (#[trigger] teams[i]).id != (#[trigger] teams[j]).id
}

/// Well-formedness of the state: user identifiers and names are unique,
/// identifiers stay below the allocation counter, session tokens are
/// unique, and champion and team identifiers are unique.
pub open spec fn wf(s: StateModel) -> bool {
    &&& 0 <= s.next_user_id
    &&& unique_user_ids(s.users)
    &&& unique_user_names(s.users)
    &&& forall|i: int| 0 <= i < s.users.len() ==> 0 <= (#[trigger] s.users[i]).id < s.next_user_id
    &&& unique_session_tokens(s.sessions)
    &&& unique_champion_ids(s.champions)
    &&& unique_team_ids(s.teams)
}

/// Under unique identifiers, a row that carries `id` is the row
/// [`user_at`] picks.
pub proof fn lemma_user_at_is(users: Seq<UserModel>, id: i64, i: int)
    requires
        unique_user_ids(users),
        0 <= i < users.len(),
        users[i].id == id,
    ensures
        has_user(users, id),
        user_at(users, id) == i,
{
    assert(has_user(users, id));
    let k = user_at(users, id);
    if k != i {
        if k < i {
            assert(users[k].id != users[i].id);
        } else {
            assert(users[i].id != users[k].id);
        }
    }
}

/// Under unique names, a row that carries `name` is the row
/// [`user_named_at`] picks.
pub proof fn lemma_user_named_at_is(users: Seq<UserModel>, name: Seq<char>, i: int)
    requires
        unique_user_names(users),
        0 <= i < users.len(),
        users[i].name == name,
    ensures
        has_user_named(users, name),
        user_named_at(users, name) == i,
{
    assert(has_user_named(users, name));
    let k = user_named_at(users, name);
    if k != i {
        if k < i {
            assert(users[k].name != users[i].name);
        } else {
            assert(users[i].name != users[k].name);
        }
    }
}

/// Under unique identifiers, a row that carries `id` is the row
/// [`champion_at`] picks.
pub proof fn lemma_champion_at_is(champions: Seq<ChampionModel>, id: i64, i: int)
    requires
        unique_champion_ids(champions),
        0 <= i < champions.len(),
        champions[i].id == id,
    ensures
        has_champion(champions, id),
        champion_at(champions, id) == i,
{
    assert(has_champion(champions, id));
    let k = champion_at(champions, id);
    if k != i {
        if k < i {
            assert(champions[k].id != champions[i].id);
        } else {
            assert(champions[i].id != champions[k].id);
        }
    }
}

/// Under unique tokens, a row that carries `token` is the row
/// [`session_at`] picks.
pub proof fn lemma_session_at_is(sessions: Seq<SessionRecord>, token: u128, i: int)
    requires
        unique_session_tokens(sessions),
        0 <= i < sessions.len(),
        sessions[i].token == token,
    ensures
        has_session(sessions, token),
        session_at(sessions, token) == i,
        session_user(sessions, token) == Some(sessions[i].user_id),
{
    assert(has_session(sessions, token));
    let k = session_at(sessions, token);
    if k != i {
        if k < i {
            assert(sessions[k].token != sessions[i].token);
        } else {
            assert(sessions[i].token != sessions[k].token);
        }
    }
}

/// The in-memory state of the whole service: every table the schema
/// persists, plus the singleton points pool.
pub struct ServiceState {
    pub users: Vec<UserRecord>,
    pub sessions: Vec<SessionRecord>,
    pub champions: Vec<ChampionRecord>,
    pub teams: Vec<TeamRecord>,
    pub pool: PoolState,
    pub next_user_id: i64,
}

impl View for ServiceState {
    type V = StateModel;

    open spec fn view(&self) -> StateModel {
        StateModel {
            users: self.users@.map_values(|u: UserRecord| u@),
            sessions: self.sessions@,
            champions: self.champions@.map_values(|c: ChampionRecord| c@),
            teams: self.teams@.map_values(|t: TeamRecord| t@),
            pool: self.pool,
            next_user_id: self.next_user_id,
        }
    }
}

} // verus!
