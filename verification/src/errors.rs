//! Error types for every operation of the service.
//!
//! Each operation returns a distinguishable reason for failure; no failure
//! is silently swallowed. Validation errors are raised before any state is
//! read, resource errors leave the state untouched.

use vstd::prelude::*;

verus! {

/// Why a signup was rejected.
#[derive(Debug, PartialEq, Eq, Structural, Clone, Copy)]
pub enum SignupError {
    /// The requested name is already taken by another user.
    NameExists,
    /// The requested name is not 1 to 19 characters of `[A-Za-z0-9-]`.
    InvalidName,
    /// The password is longer than the hashing backend can take.
    InvalidPassword,
    /// The service cannot allocate another user identifier.
    InternalError,
}

/// Why a login was rejected. Kept distinguishable internally; a transport
/// layer may collapse both to one generic message.
#[derive(Debug, PartialEq, Eq, Structural, Clone, Copy)]
pub enum LoginError {
    /// No user carries the given name.
    UserDoesNotExist,
    /// The user exists but the password does not match the stored hash.
    WrongPassword,
}

/// Why a collect was rejected.
#[derive(Debug, PartialEq, Eq, Structural, Clone, Copy)]
pub enum CollectError {
    /// The acting user does not exist.
    NoSuchUser,
    /// The user's cooldown has not yet passed; carries the earliest
    /// instant at which a collect may next succeed.
    TooSoon(u64),
    /// The pool is closed (its opening instant lies in the future) or empty.
    PoolClosed,
    /// The user's balance cannot be represented after one more credit.
    BalanceOverflow,
}

/// Why a ledger credit or debit was rejected.
#[derive(Debug, PartialEq, Eq, Structural, Clone, Copy)]
pub enum LedgerError {
    /// The named user does not exist.
    NoSuchUser,
    /// A debit would take the balance below zero; nothing was mutated.
    InsufficientFunds,
    /// The balance cannot be represented after the credit.
    BalanceOverflow,
}

/// Why an assign was rejected.
#[derive(Debug, PartialEq, Eq, Structural, Clone, Copy)]
pub enum AssignError {
    /// The acting user does not exist.
    NoSuchUser,
    /// The acting user's balance is zero; a debit would go negative.
    InsufficientFunds,
    /// No champion carries the given identifier.
    ChampionNotFound,
    /// The champion's balance cannot be represented after one more credit.
    BalanceOverflow,
}

/// Why a collect request, taken as a whole, was rejected.
#[derive(Debug, PartialEq, Eq, Structural, Clone, Copy)]
pub enum CollectApiError {
    /// The request carries no resolvable session: the caller must be
    /// logged in.
    Unauthenticated,
    /// The caller is known but the collect itself was rejected.
    Collect(CollectError),
}

/// Why an assign request, taken as a whole, was rejected.
#[derive(Debug, PartialEq, Eq, Structural, Clone, Copy)]
pub enum AssignApiError {
    /// The request carries no resolvable session: the caller must be
    /// logged in.
    Unauthenticated,
    /// The caller is known but the assign itself was rejected.
    Assign(AssignError),
}

impl SignupError {
    /// A human-readable description of the failure.
    pub fn message(&self) -> (r: &'static str)
        ensures
            ({
                match *self {
                    SignupError::InvalidName => r@ == "Invalid user name"@,
                    SignupError::NameExists => r@ == "User name already exists"@,
                    SignupError::InvalidPassword => r@ == "Invalid Password"@,
                    SignupError::InternalError => r@ == "Internal Error"@,
                }
            }),
    {
        match self {
            SignupError::InvalidName => "Invalid user name",
            SignupError::NameExists => "User name already exists",
            SignupError::InvalidPassword => "Invalid Password",
            SignupError::InternalError => "Internal Error",
        }
    }
}

impl LoginError {
    /// A human-readable description of the failure.
    pub fn message(&self) -> (r: &'static str)
        ensures
            ({
                match *self {
                    LoginError::UserDoesNotExist => r@ == "User does not exist"@,
                    LoginError::WrongPassword => r@ == "Wrong password"@,
                }
            }),
    {
        match self {
            LoginError::UserDoesNotExist => "User does not exist",
            LoginError::WrongPassword => "Wrong password",
        }
    }
}

} // verus!
