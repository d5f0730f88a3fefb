//! A meal-window voting service: members of a dining community cast one
//! score per active serving window, the service tallies per-meal totals,
//! and participation is gated behind tickets issued by an external
//! CAS-style single-sign-on provider.
//!
//! The library holds the verified core: the resolver that maps wall-clock
//! instants to serving windows, the ledger that converges requests onto a
//! single meal row per (date, period), the vote recorder that enforces
//! at-most-one-vote-per-user-per-meal, the ticket lifecycle (issuance,
//! validity, age-based purge), and the parser for the sign-on provider's
//! two-line validation protocol.
use vstd::prelude::*;

pub mod api;
pub mod laws;
pub mod meals;
pub mod period;
pub mod sso;
pub mod store;
pub mod tickets;
pub mod time;
pub mod votes;

verus! {

/// Everything that can go wrong while serving a request.
#[derive(Clone, Copy, Debug, PartialEq, Eq, Structural)]
pub enum BackendError {
    /// The store could not take another row (its id space is exhausted).
    StoreFailure,
    /// No serving window is open at the given instant.
    NoMealInProgress,
    /// The voter already has a vote on record for this meal.
    UserAlreadyVoted,
    /// A submitted score lies outside 0..=10.
    ScoreOutOfRange,
    /// The caller presented no valid ticket.
    NotAuthed,
    /// No ticket row carries the given token.
    TicketNotFound,
}

impl BackendError {
    /// The plain-text message reported to clients for this condition.
    pub open spec fn message_spec(self) -> Seq<char> {
        match self {
            BackendError::StoreFailure => "Store error"@,
            BackendError::NoMealInProgress => "No meal in progress"@,
            BackendError::UserAlreadyVoted => "User already submitted a vote for this period"@,
            BackendError::ScoreOutOfRange => "Score out of range"@,
            BackendError::NotAuthed => "User is not logged in"@,
            BackendError::TicketNotFound => "Ticket not found"@,
        }
    }

    pub fn message(&self) -> (r: &'static str)
        ensures
            r@ == self.message_spec(),
    {
        match self {
            BackendError::StoreFailure => "Store error",
            BackendError::NoMealInProgress => "No meal in progress",
            BackendError::UserAlreadyVoted => "User already submitted a vote for this period",
            BackendError::ScoreOutOfRange => "Score out of range",
            BackendError::NotAuthed => "User is not logged in",
            BackendError::TicketNotFound => "Ticket not found",
        }
    }
}

} // verus!
