//! The authentication gate: resolving a request's cookies to a user.
//!
//! A request carries zero or more `Cookie` header values, each a
//! semicolon-separated list of `name=value` pairs. The first cookie
//! named `user_token` is parsed as a session token and resolved
//! against the session table — once, at request entry,
//! yielding an immutable [`AuthState`] that is passed onward. A missing
//! or unparseable cookie marks the request anonymous; no error is raised
//! here, rejection is deferred to the handlers.

use vstd::prelude::*;
use vstd::string::StrSliceExecFns;
use vstd::string::StringExecFns;

use crate::sessions::{resolved_user, User};
use crate::state::{wf, ServiceState};
use crate::token::{parse_dec, SessionToken};

verus! {

/// The first index at which `c` occurs in `s`, or `s.len()` if it does
/// not occur.
pub open spec fn first_index_of(s: Seq<char>, c: char) -> int
    decreases s.len(),
{
    if s.len() == 0 {
        0
    } else if s[0] == c {
        0
    } else {
        1 + first_index_of(s.drop_first(), c)
    }
}

/// `s` without its leading spaces.
pub open spec fn trim_leading_spaces(s: Seq<char>) -> Seq<char>
    decreases s.len(),
{
    if s.len() > 0 && s[0] == ' ' {
        trim_leading_spaces(s.drop_first())
    } else {
        s
    }
}

/// What one `name=value` segment yields for `name`: its value where the
/// segment, after leading spaces, names exactly `name` before the first
/// `=`; nothing otherwise.
pub open spec fn seg_lookup(seg: Seq<char>, name: Seq<char>) -> Option<Seq<char>> {
    let t = trim_leading_spaces(seg);
    let e = first_index_of(t, '=');
    if e < t.len() && t.take(e) == name {
        Some(t.skip(e + 1))
    } else {
        None
    }
}

/// The value of the first cookie named `name` in one header value: the
/// header is split on `;`, each segment read as a `name=value` pair.
pub open spec fn find_cookie(s: Seq<char>, name: Seq<char>) -> Option<Seq<char>>
    decreases s.len(),
{
    let k = first_index_of(s, ';');
    if !(0 <= k <= s.len()) {
        None  // cannot arise; keeps the recursion well-founded
    } else {
        let r = seg_lookup(s.take(k), name);
        if r is Some {
            r
        } else if k < s.len() {
            find_cookie(s.skip(k + 1), name)
        } else {
            None
        }
    }
}

/// The value of the first cookie named `name` across the request's
/// header values, in order.
pub open spec fn cookies_value(headers: Seq<Seq<char>>, name: Seq<char>) -> Option<Seq<char>>
    decreases headers.len(),
{
    if headers.len() == 0 {
        None
    } else {
        match find_cookie(headers[0], name) {
            Some(v) => Some(v),
            None => cookies_value(headers.drop_first(), name),
        }
    }
}

/// The session token a request carries: the first `user_token` cookie,
/// parsed as a decimal 128-bit value.
pub open spec fn request_token(headers: Seq<Seq<char>>) -> Option<u128> {
    match cookies_value(headers, "user_token"@) {
        None => None,
        Some(v) => parse_dec(v),
    }
}

/// A prefix free of `c` up to an occurrence (or the end) pins
/// [`first_index_of`].
proof fn lemma_first_index_of_is(s: Seq<char>, c: char, k: int)
    requires
        0 <= k <= s.len(),
        forall|j: int| 0 <= j < k ==> s[j] != c,
        k == s.len() || s[k] == c,
    ensures
        first_index_of(s, c) == k,
    decreases k,
{
    if k == 0 {
    } else {
        assert(s[0] != c);
        let t = s.drop_first();
        assert(forall|j: int| 0 <= j < k - 1 ==> t[j] == s[j + 1] && s[j + 1] != c);
        assert(k - 1 == t.len() || t[k - 1] == c);
        lemma_first_index_of_is(t, c, k - 1);
    }
}

/// A prefix of spaces up to a non-space (or the end) pins
/// [`trim_leading_spaces`].
proof fn lemma_trim_is(s: Seq<char>, a: int)
    requires
        0 <= a <= s.len(),
        forall|j: int| 0 <= j < a ==> s[j] == ' ',
        a == s.len() || s[a] != ' ',
    ensures
        trim_leading_spaces(s) == s.skip(a),
    decreases a,
{
    if a == 0 {
        assert(s.skip(0) =~= s);
    } else {
        assert(s[0] == ' ');
        let t = s.drop_first();
        assert(forall|j: int| 0 <= j < a - 1 ==> t[j] == s[j + 1] && s[j + 1] == ' ');
        assert(a - 1 == t.len() || t[a - 1] != ' ');
        lemma_trim_is(t, a - 1);
        assert(t.skip(a - 1) =~= s.skip(a));
    }
}

/// Skipping header values in which the cookie does not occur leaves
/// [`cookies_value`] unchanged.
proof fn lemma_cookies_value_skip(headers: Seq<Seq<char>>, name: Seq<char>, i: int)
    requires
        0 <= i <= headers.len(),
        forall|j: int| 0 <= j < i ==> find_cookie(#[trigger] headers[j], name) is None,
    ensures
        cookies_value(headers, name) == cookies_value(headers.skip(i), name),
    decreases i,
{
    if i == 0 {
        assert(headers.skip(0) =~= headers);
    } else {
        assert(find_cookie(headers[0], name) is None);
        let t = headers.drop_first();
        assert(forall|j: int|
            0 <= j < i - 1 ==> #[trigger] t[j] == headers[j + 1] && find_cookie(
                headers[j + 1],
                name,
            ) is None);
        lemma_cookies_value_skip(t, name, i - 1);
        assert(t.skip(i - 1) =~= headers.skip(i));
    }
}

/// The index of the first occurrence of `c` in `s`, or the length of
/// `s` if there is none.
fn index_of_char(s: &str, c: char) -> (k: usize)
    ensures
        k <= s@.len(),
        k == first_index_of(s@, c),
        k < s@.len() ==> s@[k as int] == c,
        forall|j: int| 0 <= j < k ==> s@[j] != c,
{
    let n = s.unicode_len();
    let mut k: usize = 0;
    while k < n
        invariant
            n == s@.len(),
            k <= n,
            forall|j: int| 0 <= j < k ==> s@[j] != c,
        decreases n - k,
    {
        if s.get_char(k) == c {
            proof {
                lemma_first_index_of_is(s@, c, k as int);
            }
            return k;
        }
        k += 1;
    }
    proof {
        lemma_first_index_of_is(s@, c, n as int);
    }
    n
}

/// The number of leading spaces of `s`.
fn count_leading_spaces(s: &str) -> (a: usize)
    ensures
        a <= s@.len(),
        trim_leading_spaces(s@) == s@.skip(a as int),
        forall|j: int| 0 <= j < a ==> s@[j] == ' ',
        a < s@.len() ==> s@[a as int] != ' ',
{
    let n = s.unicode_len();
    let mut a: usize = 0;
    while a < n
        invariant
            n == s@.len(),
            a <= n,
            forall|j: int| 0 <= j < a ==> s@[j] == ' ',
        decreases n - a,
    {
        if s.get_char(a) != ' ' {
            proof {
                lemma_trim_is(s@, a as int);
            }
            return a;
        }
        a += 1;
    }
    proof {
        lemma_trim_is(s@, n as int);
    }
    n
}

/// Reads one `name=value` segment, per [`seg_lookup`].
fn seg_lookup_str(seg: &str, name: &str) -> (r: Option<String>)
    ensures
        match r {
            Some(v) => seg_lookup(seg@, name@) == Some(v@),
            None => seg_lookup(seg@, name@) is None,
        },
{
    let n = seg.unicode_len();
    let a = count_leading_spaces(seg);
    let t = seg.substring_char(a, n);
    proof {
        assert(t@ =~= trim_leading_spaces(seg@));
    }
    let tn = t.unicode_len();
    let e = index_of_char(t, '=');
    if e >= tn {
        return None;
    }
    let key = t.substring_char(0, e);
    proof {
        assert(key@ =~= trim_leading_spaces(seg@).take(e as int));
    }
    if !crate::text::str_eq(key, name) {
        return None;
    }
    let v = t.substring_char(e + 1, tn);
    proof {
        assert(v@ =~= trim_leading_spaces(seg@).skip(e as int + 1));
    }
    Some(String::from_str(v))
}

/// The value of the first cookie named `name` in one header value, per
/// [`find_cookie`].
fn find_cookie_str(s: &str, name: &str) -> (r: Option<String>)
    ensures
        match r {
            Some(v) => find_cookie(s@, name@) == Some(v@),
            None => find_cookie(s@, name@) is None,
        },
    decreases s@.len(),
{
    let n = s.unicode_len();
    let k = index_of_char(s, ';');
    let seg = s.substring_char(0, k);
    proof {
        assert(seg@ =~= s@.take(k as int));
    }
    match seg_lookup_str(seg, name) {
        Some(v) => Some(v),
        None => {
            if k < n {
                let rest = s.substring_char(k + 1, n);
                proof {
                    assert(rest@ =~= s@.skip(k as int + 1));
                }
                find_cookie_str(rest, name)
            } else {
                None
            }
        },
    }
}

/// The value of the first cookie named `name` across the request's
/// header values, per [`cookies_value`].
fn headers_cookie_value(headers: &Vec<String>, name: &str) -> (r: Option<String>)
    ensures
        match r {
            Some(v) => cookies_value(headers@.map_values(|h: String| h@), name@) == Some(v@),
            None => cookies_value(headers@.map_values(|h: String| h@), name@) is None,
        },
{
    let ghost hs = headers@.map_values(|h: String| h@);
    let n = headers.len();
    let mut i: usize = 0;
    while i < n
        invariant
            n == headers@.len(),
            hs == headers@.map_values(|h: String| h@),
            i <= n,
            forall|j: int| 0 <= j < i ==> find_cookie(#[trigger] hs[j], name@) is None,
        decreases n - i,
    {
        match find_cookie_str(headers[i].as_str(), name) {
            Some(v) => {
                proof {
                    lemma_cookies_value_skip(hs, name@, i as int);
                    assert(hs.skip(i as int)[0] == hs[i as int]);
                    assert(hs.skip(i as int).len() > 0);
                }
                return Some(v);
            },
            None => {
            },
        }
        i += 1;
    }
    proof {
        lemma_cookies_value_skip(hs, name@, n as int);
        assert(hs.skip(n as int).len() == 0);
    }
    None
}

/// The resolved identity of one request: computed once at request entry
/// and passed onward by value.
pub struct AuthState {
    pub user: Option<User>,
}

impl AuthState {
    /// The user this request acts as, or `None` for an anonymous
    /// request. Handlers that need a user fail with their own
    /// unauthenticated error when this is `None`; authentication
    /// itself rejects nothing.
    pub fn get_user(&self) -> (r: Option<&User>)
        ensures
            r is Some <==> self.user is Some,
            r matches Some(u) ==> self.user matches Some(v) && *u == v,
    {
        self.user.as_ref()
    }
}

/// Resolves a request's `Cookie` header values to a user, once: the
/// first cookie named `user_token` is parsed as a session token and
/// looked up in the session table. A missing cookie, an unparseable
/// value and an unknown token all yield an anonymous request.
pub fn authenticate(state: &ServiceState, headers: &Vec<String>) -> (r: AuthState)
    requires
        wf(state@),
    ensures
        ({
            let tok = request_token(headers@.map_values(|h: String| h@));
            match tok {
                None => r.user is None,
                Some(tv) => match resolved_user(state@, tv) {
                    None => r.user is None,
                    Some(mu) => r.user matches Some(u) && u.id == mu.id && u.name@ == mu.name,
                },
            }
        }),
{
    let value = match headers_cookie_value(headers, "user_token") {
        None => {
            return AuthState { user: None };
        },
        Some(v) => v,
    };
    let token = match SessionToken::from_cookie_value(value.as_str()) {
        None => {
            return AuthState { user: None };
        },
        Some(t) => t,
    };
    AuthState { user: state.resolve(token) }
}

} // verus!
