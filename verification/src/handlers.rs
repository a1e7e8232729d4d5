//! The request handlers: whole operations from raw request headers to a
//! result.
//!
//! Each handler resolves the caller once through the authentication
//! gate, then runs one atomic ledger operation. An unauthenticated
//! request is rejected before any state is read or written.

use vstd::prelude::*;

use crate::authgate::{authenticate, request_token};
use crate::errors::{AssignApiError, CollectApiError};
use crate::service::{assign_transition, collect_transition};
use crate::sessions::resolved_user;
use crate::state::{wf, ServiceState};
use crate::REFILL_DELAY_SECS;

verus! {

impl ServiceState {
    /// The collect endpoint: resolves the request's session cookie and
    /// draws one point from the pool for that user. A request without a
    /// resolvable session is rejected before any state is touched.
    pub fn points_collect(&mut self, headers: &Vec<String>, now: u64) -> (r: Result<
        u64,
        CollectApiError,
    >)
        requires
            wf(old(self)@),
            now <= u64::MAX - REFILL_DELAY_SECS,
        ensures
            wf(final(self)@),
            ({
                let tok = request_token(headers@.map_values(|h: String| h@));
                match tok {
                    None => r == Err::<u64, CollectApiError>(CollectApiError::Unauthenticated)
                        && final(self)@ == old(self)@,
                    Some(tv) => match resolved_user(old(self)@, tv) {
                        None => r == Err::<u64, CollectApiError>(CollectApiError::Unauthenticated)
                            && final(self)@ == old(self)@,
                        Some(mu) => {
                            let (s2, res) = collect_transition(old(self)@, mu.id, now);
                            final(self)@ == s2 && match res {
                                Ok(b) => r == Ok::<u64, CollectApiError>(b),
                                Err(e) => r == Err::<u64, CollectApiError>(
                                    CollectApiError::Collect(e),
                                ),
                            }
                        },
                    },
                }
            }),
    {
        let auth = authenticate(self, headers);
        let user = match auth.get_user() {
            None => {
                return Err(CollectApiError::Unauthenticated);
            },
            Some(u) => u,
        };
        match self.collect(user.id, now) {
            Ok(balance) => Ok(balance),
            Err(e) => Err(CollectApiError::Collect(e)),
        }
    }

    /// The assign endpoint: resolves the request's session cookie and
    /// moves one point from that user to the named champion. A request
    /// without a resolvable session is rejected before any state is
    /// touched.
    pub fn points_assign(&mut self, headers: &Vec<String>, champion_id: i64) -> (r: Result<
        u64,
        AssignApiError,
    >)
        requires
            wf(old(self)@),
        ensures
            wf(final(self)@),
            ({
                let tok = request_token(headers@.map_values(|h: String| h@));
                match tok {
                    None => r == Err::<u64, AssignApiError>(AssignApiError::Unauthenticated)
                        && final(self)@ == old(self)@,
                    Some(tv) => match resolved_user(old(self)@, tv) {
                        None => r == Err::<u64, AssignApiError>(AssignApiError::Unauthenticated)
                            && final(self)@ == old(self)@,
                        Some(mu) => {
                            let (s2, res) = assign_transition(old(self)@, mu.id, champion_id);
                            final(self)@ == s2 && match res {
                                Ok(p) => r == Ok::<u64, AssignApiError>(p),
                                Err(e) => r == Err::<u64, AssignApiError>(
                                    AssignApiError::Assign(e),
                                ),
                            }
                        },
                    },
                }
            }),
    {
        let auth = authenticate(self, headers);
        let user = match auth.get_user() {
            None => {
                return Err(AssignApiError::Unauthenticated);
            },
            Some(u) => u,
        };
        match self.assign(user.id, champion_id) {
            Ok(points) => Ok(points),
            Err(e) => Err(AssignApiError::Assign(e)),
        }
    }
}

} // verus!
