//! The vote recorder: at most one vote per user per meal.
//!
//! A submission resolves the current meal through the ledger (creating the
//! row when it is the first request of the window), rejects voters who
//! already have a vote on record for it, and appends the vote row.
use crate::meals::{spec_get_or_create, spec_has_voted};
use crate::period::{period_at, MealPeriod};
use crate::store::{Meal, Store, StoreView, Vote, VoteView};
use crate::time::{now_unix, MAX_INSTANT, MIN_INSTANT, SERVICE_OFFSET_SECONDS};
use crate::BackendError;
use vstd::prelude::*;

verus! {

/// Appending one vote row once the meal is resolved and the voter is known
/// to be fresh.
pub open spec fn spec_append_vote(s: StoreView, meal_id: int, voter: Seq<char>, score: int) -> (
    StoreView,
    Result<(), BackendError>,
) {
    if s.votes.len() >= i32::MAX {
        (s, Err(BackendError::StoreFailure))
    } else {
        let row = VoteView {
            id: s.votes.len() + 1int,
            meal_id,
            voter_caseid: voter,
            score,
        };
        (StoreView { votes: s.votes.push(row), ..s }, Ok(()))
    }
}

/// What recording a vote at instant `t` does: resolve (or create) the
/// current meal, reject a closed window or a repeat voter, else append
/// the row. A meal row created on the way stays even when the vote is
/// then rejected.
pub open spec fn spec_insert_for_current(s: StoreView, voter: Seq<char>, score: int, t: int) -> (
    StoreView,
    Result<(), BackendError>,
) {
    let s1 = spec_get_or_create(s, t).0;
    match spec_get_or_create(s, t).1 {
        None => (s1, Err(BackendError::NoMealInProgress)),
        Some(Err(e)) => (s1, Err(e)),
        Some(Ok(m)) => {
            if spec_has_voted(s1, m.id as int, voter) {
                (s1, Err(BackendError::UserAlreadyVoted))
            } else {
                spec_append_vote(s1, m.id as int, voter, score)
            }
        },
    }
}

impl Vote {
    /// Record `voter_caseid`'s score for the meal open at instant `t`.
    /// The caller has already validated the score's range.
    pub fn insert_for_current_meal_at(
        store: &mut Store,
        voter_caseid: String,
        score: i32,
        t: i64,
    ) -> (r: Result<(), BackendError>)
        requires
            old(store).wf(),
            MIN_INSTANT <= t <= MAX_INSTANT,
            0 <= score <= 10,
        ensures
            final(store).wf(),
            (final(store)@, r) == spec_insert_for_current(
                old(store)@,
                voter_caseid@,
                score as int,
                t as int,
            ),
    {
        let ghost voter_view = voter_caseid@;
        match Meal::get_or_create_at(store, t) {
            None => Err(BackendError::NoMealInProgress),
            Some(Err(e)) => Err(e),
            Some(Ok(m)) => {
                if m.has_user_voted(voter_caseid.as_str(), store) {
                    Err(BackendError::UserAlreadyVoted)
                } else if store.votes.len() >= i32::MAX as usize {
                    Err(BackendError::StoreFailure)
                } else {
                    let ghost mid = store@;
                    let id = (store.votes.len() + 1) as i32;
                    store.votes.push(Vote { id, meal_id: m.id, voter_caseid, score });
                    proof {
                        crate::meals::lemma_get_or_create_ok(old(store)@, t as int);
                        assert(store@ =~~= spec_append_vote(mid, m.id as int, voter_view,
                            score as int).0);
                        assert(store@.meals_wf() && store@.tickets_wf());
                        assert forall|i: int, j: int|
                            0 <= i < store@.votes.len() && 0 <= j < store@.votes.len() && i
                                != j implies !((#[trigger] store@.votes[i]).meal_id == (
                        #[trigger] store@.votes[j]).meal_id && store@.votes[i].voter_caseid
                            == store@.votes[j].voter_caseid) by {
                            if j == store@.votes.len() - 1 && store@.votes[i].meal_id == m.id
                                && store@.votes[i].voter_caseid == voter_view {
                                assert(spec_has_voted(mid, m.id as int, voter_view));
                            }
                            if i == store@.votes.len() - 1 && store@.votes[j].meal_id == m.id
                                && store@.votes[j].voter_caseid == voter_view {
                                assert(spec_has_voted(mid, m.id as int, voter_view));
                            }
                        }
                        assert(store@.votes_wf());
                    }
                    Ok(())
                }
            },
        }
    }

    /// Record `voter_caseid`'s score for the meal open right now, by the
    /// system clock.
    pub fn insert_for_current_meal(store: &mut Store, voter_caseid: String, score: i32) -> (r:
        Result<(), BackendError>)
        requires
            old(store).wf(),
            0 <= score <= 10,
        ensures
            final(store).wf(),
            exists|t: int|
                0 <= t && (final(store)@, r) == #[trigger] spec_insert_for_current(
                    old(store)@,
                    voter_caseid@,
                    score as int,
                    t,
                ),
    {
        let t = now_unix();
        let ghost voter_view = voter_caseid@;
        if t <= MAX_INSTANT {
            let r = Self::insert_for_current_meal_at(store, voter_caseid, score, t);
            proof {
                assert((store@, r) == spec_insert_for_current(old(store)@, voter_view,
                    score as int, t as int));
            }
            r
        } else {
            proof {
                assert(period_at(SERVICE_OFFSET_SECONDS as int) == Option::<MealPeriod>::None);
                assert((store@, Result::<(), BackendError>::Err(BackendError::NoMealInProgress))
                    == spec_insert_for_current(old(store)@, voter_view, score as int,
                    SERVICE_OFFSET_SECONDS as int));
            }
            Err(BackendError::NoMealInProgress)
        }
    }
}

} // verus!
