//! A session-authenticated resource-allocation service.
//!
//! Users sign up with a name and password, receive an opaque session token,
//! and then draw points from a shared, time-gated pool (`collect`) or
//! transfer points to champions (`assign`).
//!
//! The service state is held in one in-process structure; callers are
//! expected to guard it with a mutex (or equivalent) so that each operation
//! runs as one atomic unit of work. Every operation either applies fully or
//! leaves the state unchanged, and each contract says exactly which.

pub mod authentication;
pub mod authgate;
pub mod credentials;
pub mod errors;
pub mod handlers;
pub mod laws;
pub mod ledger;
pub mod login;
pub mod rng;
pub mod service;
pub mod sessions;
pub mod state;
pub mod text;
pub mod token;

use vstd::prelude::*;

verus! {

/// Number of points the pool holds right after a refill.
pub const POOL_CAPACITY: u64 = 200;

/// Seconds between draining the pool and the refill becoming available.
pub const REFILL_DELAY_SECS: u64 = 7200;

/// Seconds a user must wait between two successful collects.
pub const COOLDOWN_SECS: u64 = 12;

} // verus!
