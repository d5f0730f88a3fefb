//! The request-level operations: the stats report, the authenticated vote
//! submission, and the credential check.
//!
//! Each takes the caller's credential and payload as plain values; the
//! transport (routing, cookies, JSON) lives outside the library.
use crate::meals::{spec_get_or_create, spec_score_total, spec_vote_count};
use crate::period::MealPeriod;
use crate::store::{Meal, Store, StoreView, Ticket, Vote};
use crate::tickets::{lemma_valid_iff_found, spec_find_ticket, spec_ticket_valid};
use crate::time::{now_unix, MAX_INSTANT, MIN_INSTANT, SERVICE_OFFSET_SECONDS};
use crate::votes::spec_insert_for_current;
use crate::BackendError;
use vstd::prelude::*;

verus! {

/// The application state assembled at launch: a fresh store holding the
/// three empty tables. The transport layer mounts the operations of this
/// module around it, and the collector loop periodically purges it.
pub fn rocket() -> (s: Store)
    ensures
        s.wf(),
        s@ == StoreView::empty(),
{
    Store::new()
}

/// What the stats report shows: the current period and its totals, or
/// three absent fields while no window is open.
#[derive(Clone, Copy, Debug, PartialEq, Eq)]
pub struct Stats {
    pub current_meal: Option<MealPeriod>,
    pub scores_total: Option<i64>,
    pub num_votes: Option<i64>,
}

/// The empty report served while no window is open.
pub open spec fn spec_no_meal_stats() -> Stats {
    Stats { current_meal: None, scores_total: None, num_votes: None }
}

/// What the stats request at instant `t` does: resolve (or create) the
/// current meal and report its period, total score and vote count; while
/// no window is open, report absence.
pub open spec fn spec_stats_response(s: StoreView, t: int) -> (StoreView, Result<
    Stats,
    BackendError,
>) {
    let s1 = spec_get_or_create(s, t).0;
    match spec_get_or_create(s, t).1 {
        None => (s, Ok(spec_no_meal_stats())),
        Some(Err(e)) => (s1, Err(e)),
        Some(Ok(m)) => (
            s1,
            Ok(
                Stats {
                    current_meal: Some(MealPeriod::from_int_spec(m.meal_period as int)),
                    scores_total: Some(spec_score_total(s1.votes, m.id as int) as i64),
                    num_votes: Some(spec_vote_count(s1.votes, m.id as int) as i64),
                },
            ),
        ),
    }
}

/// The stats report for instant `t`.
pub fn current_stats_at(store: &mut Store, t: i64) -> (r: Result<Stats, BackendError>)
    requires
        old(store).wf(),
        MIN_INSTANT <= t <= MAX_INSTANT,
    ensures
        final(store).wf(),
        (final(store)@, r) == spec_stats_response(old(store)@, t as int),
{
    match Meal::get_or_create_at(store, t) {
        None => Ok(Stats { current_meal: None, scores_total: None, num_votes: None }),
        Some(Err(e)) => Err(e),
        Some(Ok(m)) => {
            proof {
                crate::meals::lemma_get_or_create_ok(old(store)@, t as int);
            }
            let stats = m.get_stats(store);
            Ok(
                Stats {
                    current_meal: Some(MealPeriod::from_int(m.meal_period)),
                    scores_total: Some(stats.0),
                    num_votes: Some(stats.1),
                },
            )
        },
    }
}

/// The stats report for right now, by the system clock.
pub fn current_stats(store: &mut Store) -> (r: Result<Stats, BackendError>)
    requires
        old(store).wf(),
    ensures
        final(store).wf(),
        exists|t: int|
            0 <= t && (final(store)@, r) == #[trigger] spec_stats_response(old(store)@, t),
{
    let t = now_unix();
    if t <= MAX_INSTANT {
        let r = current_stats_at(store, t);
        proof {
            assert((store@, r) == spec_stats_response(old(store)@, t as int));
        }
        r
    } else {
        proof {
            assert(crate::period::period_at(SERVICE_OFFSET_SECONDS as int) == Option::<
                MealPeriod,
            >::None);
            assert((store@, Result::<Stats, BackendError>::Ok(spec_no_meal_stats()))
                == spec_stats_response(old(store)@, SERVICE_OFFSET_SECONDS as int));
        }
        Ok(Stats { current_meal: None, scores_total: None, num_votes: None })
    }
}

/// What a vote submission at instant `t` does: an out-of-range score is
/// rejected whatever the credential; a missing or unknown ticket is
/// rejected as unauthenticated; otherwise the vote is recorded for the
/// ticket's voter through the recorder.
pub open spec fn spec_submit_vote(
    s: StoreView,
    ticket: Option<Seq<char>>,
    score: int,
    t: int,
) -> (StoreView, Result<(), BackendError>) {
    if score > 10 {
        (s, Err(BackendError::ScoreOutOfRange))
    } else {
        match ticket {
            None => (s, Err(BackendError::NotAuthed)),
            Some(token) => {
                match spec_find_ticket(s.tickets, token) {
                    None => (s, Err(BackendError::NotAuthed)),
                    Some(row) => spec_insert_for_current(s, row.case_id, score, t),
                }
            },
        }
    }
}

/// The view of an optional credential token.
pub open spec fn ticket_view(ticket: Option<&str>) -> Option<Seq<char>> {
    match ticket {
        Some(tok) => Some(tok@),
        None => None,
    }
}

/// Submit a score for the meal open at instant `t`, on behalf of the
/// voter the credential `ticket` was issued to.
pub fn submit_vote_at(store: &mut Store, ticket: Option<&str>, score: u8, t: i64) -> (r: Result<
    (),
    BackendError,
>)
    requires
        old(store).wf(),
        MIN_INSTANT <= t <= MAX_INSTANT,
    ensures
        final(store).wf(),
        (final(store)@, r) == spec_submit_vote(old(store)@, ticket_view(ticket), score as int,
            t as int),
{
    if score > 10 {
        return Err(BackendError::ScoreOutOfRange);
    }
    let token = match ticket {
        None => {
            return Err(BackendError::NotAuthed);
        },
        Some(token) => token,
    };
    proof {
        lemma_valid_iff_found(store@.tickets, token@);
    }
    if !Ticket::is_valid(token, store) {
        return Err(BackendError::NotAuthed);
    }
    let case_id = match Ticket::get_case_id(store, token) {
        Ok(cid) => cid,
        Err(_) => {
            return vstd::pervasive::unreached();
        },
    };
    Vote::insert_for_current_meal_at(store, case_id, score as i32, t)
}

/// Submit a score for the meal open right now, by the system clock.
pub fn submit_vote(store: &mut Store, ticket: Option<&str>, score: u8) -> (r: Result<
    (),
    BackendError,
>)
    requires
        old(store).wf(),
    ensures
        final(store).wf(),
        exists|t: int|
            0 <= t && (final(store)@, r) == #[trigger] spec_submit_vote(
                old(store)@,
                ticket_view(ticket),
                score as int,
                t,
            ),
{
    let t = now_unix();
    if t <= MAX_INSTANT {
        let r = submit_vote_at(store, ticket, score, t);
        proof {
            assert((store@, r) == spec_submit_vote(old(store)@, ticket_view(ticket), score as int,
                t as int));
        }
        r
    } else {
        let r = submit_vote_at(store, ticket, score, SERVICE_OFFSET_SECONDS);
        proof {
            assert(crate::period::period_at(SERVICE_OFFSET_SECONDS as int) == Option::<
                MealPeriod,
            >::None);
            assert((store@, r) == spec_submit_vote(old(store)@, ticket_view(ticket), score as int,
                SERVICE_OFFSET_SECONDS as int));
        }
        r
    }
}

/// Whether the caller's credential is currently valid; absent credentials
/// are simply invalid.
pub fn check_ticket(store: &Store, ticket: Option<&str>) -> (r: bool)
    ensures
        r == match ticket_view(ticket) {
            None => false,
            Some(token) => spec_ticket_valid(store@, token),
        },
{
    match ticket {
        None => false,
        Some(token) => Ticket::is_valid(token, store),
    }
}

} // verus!
