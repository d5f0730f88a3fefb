//! The guarantees that tie the operations together, stated and proved
//! over the store model.
use crate::meals::{
    lemma_find_meal_none, lemma_find_meal_some, lemma_get_or_create_ok, meal_has_key,
    spec_find_meal, spec_get_or_create, spec_has_voted, spec_score_total, spec_vote_count,
};
use crate::period::{is_weekday, period_at, spec_window, MealPeriod};
use crate::sso::{cas_identity, cas_success, spec_sso_callback, SsoOutcome};
use crate::store::{Meal, StoreView, TicketView, VoteView};
use crate::tickets::{
    lemma_kept_contains, spec_insert_ticket, spec_kept, spec_purge, spec_ticket_valid,
    RETENTION_SECONDS,
};
use crate::time::{day_of, month_of, year_of, SERVICE_OFFSET_SECONDS};
use crate::votes::spec_insert_for_current;
use crate::BackendError;
use vstd::prelude::*;

verus! {

/// Every serving window includes both of its endpoints, with the window
/// table read in its fixed order: on a Friday the lunch window still owns
/// its five-o'clock upper endpoint, so dinner's lower endpoint takes
/// effect on the other days.
pub proof fn lemma_windows_closed()
    ensures
        forall|w: int| is_weekday(w) ==> spec_window(w, 420) == Some(MealPeriod::Breakfast),
        forall|w: int| is_weekday(w) ==> spec_window(w, 630) == Some(MealPeriod::Breakfast),
        forall|w: int| w == 5 || w == 6 ==> spec_window(w, 570) == Some(MealPeriod::Brunch),
        forall|w: int| w == 5 || w == 6 ==> spec_window(w, 870) == Some(MealPeriod::Brunch),
        spec_window(4, 660) == Some(MealPeriod::Lunch),
        spec_window(4, 1020) == Some(MealPeriod::Lunch),
        forall|w: int| 0 <= w <= 3 ==> spec_window(w, 660) == Some(MealPeriod::Lunch),
        forall|w: int| 0 <= w <= 3 ==> spec_window(w, 960) == Some(MealPeriod::Lunch),
        forall|w: int| 0 <= w <= 6 && w != 4 ==> spec_window(w, 1020) == Some(MealPeriod::Dinner),
        forall|w: int| 0 <= w <= 6 ==> spec_window(w, 1200) == Some(MealPeriod::Dinner),
{
}

/// Two instants fall into the same serving window of the same service
/// day.
pub open spec fn same_service_window(t1: int, t2: int) -> bool {
    let u1 = t1 - SERVICE_OFFSET_SECONDS;
    let u2 = t2 - SERVICE_OFFSET_SECONDS;
    &&& period_at(t1) == period_at(t2)
    &&& year_of(u1) as i32 == year_of(u2) as i32
    &&& month_of(u1) as i32 == month_of(u2) as i32
    &&& day_of(u1) as i32 == day_of(u2) as i32
}

/// In a well-formed store a row with the window key is the one the lookup
/// answers with.
proof fn lemma_find_unique(s: StoreView, m: Meal, y: i32, mo: i32, d: i32, p: i32)
    requires
        s.wf(),
        exists|j: int| 0 <= j < s.meals.len() && #[trigger] s.meals[j] == m,
        meal_has_key(m, y, mo, d, p),
    ensures
        spec_find_meal(s.meals, y, mo, d, p) == Some(m),
{
    let j = choose|j: int| 0 <= j < s.meals.len() && #[trigger] s.meals[j] == m;
    if spec_find_meal(s.meals, y, mo, d, p) is None {
        lemma_find_meal_none(s.meals, y, mo, d, p);
        assert(!meal_has_key(s.meals[j], y, mo, d, p));
        assert(false);
    }
    lemma_find_meal_some(s.meals, y, mo, d, p);
    let found = spec_find_meal(s.meals, y, mo, d, p).unwrap();
    let k = choose|k: int| 0 <= k < s.meals.len() && #[trigger] s.meals[k] == found;
    assert(found == m) by {
        if k != j {
            assert(!crate::store::same_window(s.meals[k], s.meals[j]));
        }
    }
}

/// Get-or-create is idempotent: once a call during a window has answered
/// with a meal row, every further call during the same window answers
/// with that same row and leaves the store as it was.
pub proof fn lemma_get_or_create_idempotent(s: StoreView, t1: int, t2: int)
    requires
        s.wf(),
        same_service_window(t1, t2),
    ensures
        spec_get_or_create(s, t1).1 matches Some(Ok(m1)) ==> ({
            let s1 = spec_get_or_create(s, t1).0;
            &&& spec_get_or_create(s1, t2).0 == s1
            &&& spec_get_or_create(s1, t2).1 == Some(Ok::<Meal, BackendError>(m1))
        }),
{
    lemma_get_or_create_ok(s, t1);
    match spec_get_or_create(s, t1).1 {
        Some(Ok(m1)) => {
        let s1 = spec_get_or_create(s, t1).0;
        let p = period_at(t1).unwrap();
        let u1 = t1 - SERVICE_OFFSET_SECONDS;
        let y = year_of(u1) as i32;
        let mo = month_of(u1) as i32;
        let d = day_of(u1) as i32;
        let pc = p.as_int_spec() as i32;
        assert(meal_has_key(m1, y, mo, d, pc)) by {
            match spec_find_meal(s.meals, y, mo, d, pc) {
                Some(_) => {
                    lemma_find_meal_some(s.meals, y, mo, d, pc);
                },
                None => {},
            }
        }
        lemma_find_unique(s1, m1, y, mo, d, pc);
        },
        _ => {},
    }
}

/// A second submission by the same voter for the same still-open meal is
/// rejected as a repeat, and changes nothing.
pub proof fn lemma_second_vote_rejected(
    s: StoreView,
    voter: Seq<char>,
    score1: int,
    score2: int,
    t1: int,
    t2: int,
)
    requires
        s.wf(),
        same_service_window(t1, t2),
        spec_insert_for_current(s, voter, score1, t1).1 is Ok,
    ensures
        ({
            let s1 = spec_insert_for_current(s, voter, score1, t1).0;
            spec_insert_for_current(s1, voter, score2, t2) == (
                s1,
                Err::<(), BackendError>(BackendError::UserAlreadyVoted),
            )
        }),
{
    lemma_get_or_create_ok(s, t1);
    let s0 = spec_get_or_create(s, t1).0;
    let m = match spec_get_or_create(s, t1).1 {
        Some(Ok(m)) => m,
        _ => arbitrary(),
    };
    let s1 = spec_insert_for_current(s, voter, score1, t1).0;
    assert(s1.votes == s0.votes.push(
        VoteView { id: s0.votes.len() + 1int, meal_id: m.id as int, voter_caseid: voter, score: score1 },
    ));
    let p = period_at(t1).unwrap();
    let u1 = t1 - SERVICE_OFFSET_SECONDS;
    let y = year_of(u1) as i32;
    let mo = month_of(u1) as i32;
    let d = day_of(u1) as i32;
    let pc = p.as_int_spec() as i32;
    assert(meal_has_key(m, y, mo, d, pc)) by {
        match spec_find_meal(s.meals, y, mo, d, pc) {
            Some(_) => {
                lemma_find_meal_some(s.meals, y, mo, d, pc);
            },
            None => {},
        }
    }
    let s1m = StoreView { votes: s1.votes, ..s0 };
    assert(s1 == s1m);
    lemma_find_unique(StoreView { votes: s0.votes, ..s0 }, m, y, mo, d, pc);
    assert(spec_find_meal(s1.meals, y, mo, d, pc) == Some(m)) by {
        assert(s1.meals == s0.meals);
    }
    assert(spec_get_or_create(s1, t2).0 == s1 && spec_get_or_create(s1, t2).1 == Some(
        Ok::<Meal, BackendError>(m),
    ));
    assert(spec_has_voted(s1, m.id as int, voter)) by {
        assert((#[trigger] s1.votes[s1.votes.len() - 1]).meal_id == m.id as int
            && s1.votes[s1.votes.len() - 1].voter_caseid == voter);
    }
}

/// An out-of-range score is rejected no matter the credential, and
/// changes nothing.
pub proof fn lemma_score_out_of_range(
    s: StoreView,
    ticket: Option<Seq<char>>,
    score: int,
    t: int,
)
    requires
        score > 10,
    ensures
        crate::api::spec_submit_vote(s, ticket, score, t) == (
            s,
            Err::<(), BackendError>(BackendError::ScoreOutOfRange),
        ),
{
}

/// A meal that no vote references reports zero total and zero count.
pub proof fn lemma_stats_zero(votes: Seq<VoteView>, meal_id: int)
    requires
        forall|i: int| 0 <= i < votes.len() ==> (#[trigger] votes[i]).meal_id != meal_id,
    ensures
        spec_score_total(votes, meal_id) == 0,
        spec_vote_count(votes, meal_id) == 0,
    decreases votes.len(),
{
    if votes.len() > 0 {
        assert(forall|i: int|
            0 <= i < votes.len() - 1 ==> #[trigger] votes.drop_last()[i] == votes[i]);
        lemma_stats_zero(votes.drop_last(), meal_id);
    }
}

/// A meal row fresh from get-or-create has no votes yet: its stats are
/// zero while the report's current meal is populated.
pub proof fn lemma_fresh_meal_stats_zero(s: StoreView, t: int)
    requires
        s.wf(),
    ensures
        spec_get_or_create(s, t).1 matches Some(Ok(m)) ==> m.id > s.meals.len() ==> ({
            let s1 = spec_get_or_create(s, t).0;
            spec_score_total(s1.votes, m.id as int) == 0 && spec_vote_count(s1.votes, m.id as int)
                == 0
        }),
{
    lemma_get_or_create_ok(s, t);
    match spec_get_or_create(s, t).1 {
        Some(Ok(m)) => {
            if m.id > s.meals.len() {
                let s1 = spec_get_or_create(s, t).0;
                assert(s1.votes == s.votes);
                lemma_stats_zero(s1.votes, m.id as int);
            }
        },
        _ => {},
    }
}

/// One accepted vote raises the meal's total by its score and its count
/// by one, and leaves every other meal's stats unchanged.
pub proof fn lemma_stats_after_vote(s: StoreView, voter: Seq<char>, score: int, t: int)
    requires
        spec_insert_for_current(s, voter, score, t).1 is Ok,
    ensures
        spec_get_or_create(s, t).1 matches Some(Ok(m)) ==> ({
            let s0 = spec_get_or_create(s, t).0;
            let s1 = spec_insert_for_current(s, voter, score, t).0;
            &&& spec_score_total(s1.votes, m.id as int) == spec_score_total(
                s0.votes,
                m.id as int,
            ) + score
            &&& spec_vote_count(s1.votes, m.id as int) == spec_vote_count(s0.votes, m.id as int)
                + 1
            &&& forall|other: int|
                other != m.id ==> spec_score_total(s1.votes, other) == spec_score_total(
                    s0.votes,
                    other,
                ) && spec_vote_count(s1.votes, other) == spec_vote_count(s0.votes, other)
        }),
{
    match spec_get_or_create(s, t).1 {
        Some(Ok(m)) => {
        let s0 = spec_get_or_create(s, t).0;
        let s1 = spec_insert_for_current(s, voter, score, t).0;
        assert(s1.votes.drop_last() == s0.votes && s1.votes.last() == (VoteView {
            id: s0.votes.len() + 1int,
            meal_id: m.id as int,
            voter_caseid: voter,
            score,
        })) by {
            assert(s1.votes == s0.votes.push(
                VoteView {
                    id: s0.votes.len() + 1int,
                    meal_id: m.id as int,
                    voter_caseid: voter,
                    score,
                },
            ));
            assert(s0.votes.push(
                VoteView {
                    id: s0.votes.len() + 1int,
                    meal_id: m.id as int,
                    voter_caseid: voter,
                    score,
                },
            ).drop_last() =~= s0.votes);
        }
        },
        _ => {},
    }
}

/// Sum of a sequence of scores.
pub open spec fn sum_scores(scores: Seq<int>) -> int
    decreases scores.len(),
{
    if scores.len() == 0 {
        0
    } else {
        sum_scores(scores.drop_last()) + scores.last()
    }
}

/// The store after one submission per voter, all during the window open
/// at instant `t`, the i-th voter submitting the i-th score.
pub open spec fn spec_submit_series(
    s: StoreView,
    voters: Seq<Seq<char>>,
    scores: Seq<int>,
    t: int,
) -> StoreView
    decreases voters.len(),
{
    if voters.len() == 0 {
        s
    } else {
        spec_insert_for_current(
            spec_submit_series(s, voters.drop_last(), scores.drop_last(), t),
            voters.last(),
            scores.last(),
            t,
        ).0
    }
}

/// Stats round-trip: submitting one vote each for n distinct voters who
/// have not voted yet, during one window, raises that meal's total by the
/// sum of their scores and its count by n; the meal stays the current one
/// throughout, and a voter outside the series still has no vote on
/// record.
pub proof fn lemma_stats_roundtrip(s: StoreView, voters: Seq<Seq<char>>, scores: Seq<int>, t: int)
    requires
        s.wf(),
        voters.len() == scores.len(),
        forall|i: int, j: int| 0 <= i < j < voters.len() ==> voters[i] != voters[j],
        forall|i: int| 0 <= i < scores.len() ==> 0 <= #[trigger] scores[i] <= 10,
        s.votes.len() + voters.len() <= i32::MAX,
        match spec_get_or_create(s, t).1 {
            Some(Ok(m)) => forall|i: int|
                0 <= i < voters.len() ==> !spec_has_voted(s, m.id as int, #[trigger] voters[i]),
            _ => false,
        },
    ensures
        match spec_get_or_create(s, t).1 {
            Some(Ok(m)) => ({
                let sn = spec_submit_series(s, voters, scores, t);
                &&& sn.wf()
                &&& spec_get_or_create(sn, t).1 == Some(Ok::<Meal, BackendError>(m))
                &&& sn.votes.len() == s.votes.len() + voters.len()
                &&& spec_score_total(sn.votes, m.id as int) == spec_score_total(
                    s.votes,
                    m.id as int,
                ) + sum_scores(scores)
                &&& spec_vote_count(sn.votes, m.id as int) == spec_vote_count(
                    s.votes,
                    m.id as int,
                ) + voters.len()
                &&& forall|v: Seq<char>|
                    !spec_has_voted(s, m.id as int, v) && !voters.contains(v)
                        ==> !spec_has_voted(sn, m.id as int, v)
            }),
            _ => false,
        },
    decreases voters.len(),
{
    lemma_get_or_create_ok(s, t);
    match spec_get_or_create(s, t).1 {
        Some(Ok(m)) => {
            if voters.len() == 0 {
                return ;
            }
            let vpre = voters.drop_last();
            let spre = scores.drop_last();
            assert(forall|i: int| 0 <= i < vpre.len() ==> vpre[i] == #[trigger] voters[i]);
            assert(forall|i: int| 0 <= i < spre.len() ==> spre[i] == #[trigger] scores[i]);
            lemma_stats_roundtrip(s, vpre, spre, t);
            let sk = spec_submit_series(s, vpre, spre, t);
            let last = voters.last();
            let score = scores.last();
            assert(voters.contains(last)) by {
                assert(voters[voters.len() - 1] == last);
            }
            assert(!vpre.contains(last)) by {
                if vpre.contains(last) {
                    let i = choose|i: int| 0 <= i < vpre.len() && vpre[i] == last;
                    assert(voters[i] == voters[voters.len() - 1]);
                    assert(false);
                }
            }
            assert(!spec_has_voted(sk, m.id as int, last));

            lemma_get_or_create_ok(sk, t);
            let s0k = spec_get_or_create(sk, t).0;
            assert(s0k.votes == sk.votes);
            let sn = spec_submit_series(s, voters, scores, t);
            let row = VoteView {
                id: sk.votes.len() + 1int,
                meal_id: m.id as int,
                voter_caseid: last,
                score,
            };
            assert(sn == spec_insert_for_current(sk, last, score, t).0);
            assert(sn.votes == sk.votes.push(row));
            assert(sn.votes.drop_last() =~= sk.votes);

            // the new table is still well formed
            assert(sn.meals_wf() && sn.tickets_wf()) by {
                assert(sn.meals == s0k.meals && sn.tickets == s0k.tickets);
            }
            assert forall|i: int, j: int|
                0 <= i < sn.votes.len() && 0 <= j < sn.votes.len() && i != j implies !((
            #[trigger] sn.votes[i]).meal_id == (#[trigger] sn.votes[j]).meal_id
                && sn.votes[i].voter_caseid == sn.votes[j].voter_caseid) by {
                if j == sn.votes.len() - 1 && sn.votes[i].meal_id == m.id as int
                    && sn.votes[i].voter_caseid == last {
                    assert(spec_has_voted(sk, m.id as int, last)) by {
                        assert((#[trigger] sk.votes[i]).meal_id == m.id as int
                            && sk.votes[i].voter_caseid == last);
                    }
                }
                if i == sn.votes.len() - 1 && sn.votes[j].meal_id == m.id as int
                    && sn.votes[j].voter_caseid == last {
                    assert(spec_has_voted(sk, m.id as int, last)) by {
                        assert((#[trigger] sk.votes[j]).meal_id == m.id as int
                            && sk.votes[j].voter_caseid == last);
                    }
                }
            }
            assert(sn.votes_wf());

            // the meal of the window is still the answer
            assert(1 <= m.id <= s0k.meals.len() && s0k.meals[m.id - 1] == m);
            let u1 = t - SERVICE_OFFSET_SECONDS;
            let p = period_at(t).unwrap();
            let y = year_of(u1) as i32;
            let mo = month_of(u1) as i32;
            let d = day_of(u1) as i32;
            let pc = p.as_int_spec() as i32;
            assert(meal_has_key(m, y, mo, d, pc)) by {
                match spec_find_meal(sk.meals, y, mo, d, pc) {
                    Some(_) => {
                        lemma_find_meal_some(sk.meals, y, mo, d, pc);
                    },
                    None => {},
                }
            }
            assert(exists|j: int| 0 <= j < sn.meals.len() && #[trigger] sn.meals[j] == m) by {
                assert(sn.meals[m.id - 1] == m);
            }
            lemma_find_unique(sn, m, y, mo, d, pc);
            assert(spec_get_or_create(sn, t).1 == Some(Ok::<Meal, BackendError>(m)));

            // the totals move by exactly the last score and one vote
            assert(spec_score_total(sn.votes, m.id as int) == spec_score_total(
                sk.votes,
                m.id as int,
            ) + score);
            assert(spec_vote_count(sn.votes, m.id as int) == spec_vote_count(
                sk.votes,
                m.id as int,
            ) + 1);

            // outsiders still have no vote on record
            assert forall|v: Seq<char>|
                !spec_has_voted(s, m.id as int, v) && !voters.contains(v) implies !spec_has_voted(
                sn,
                m.id as int,
                v,
            ) by {
                assert(!vpre.contains(v)) by {
                    if vpre.contains(v) {
                        let i = choose|i: int| 0 <= i < vpre.len() && vpre[i] == v;
                        assert(voters[i] == v);
                        assert(voters.contains(v));
                    }
                }
                assert(!spec_has_voted(sk, m.id as int, v));
                assert(v != last);
                if spec_has_voted(sn, m.id as int, v) {
                    let i = choose|i: int|
                        0 <= i < sn.votes.len() && (#[trigger] sn.votes[i]).meal_id == m.id as int
                            && sn.votes[i].voter_caseid == v;
                    assert(i < sn.votes.len() - 1);
                    assert((#[trigger] sk.votes[i]).meal_id == m.id as int
                        && sk.votes[i].voter_caseid == v);
                    assert(false);
                }
            }
        },
        _ => {},
    }
}

/// A ticket issued at `t_issue` under a fresh token is valid at once, and
/// a purge run at `t_purge` keeps it exactly as long as the retention
/// window has not passed.
pub proof fn lemma_ticket_lifecycle(
    s: StoreView,
    token: Seq<char>,
    case_id: Seq<char>,
    t_issue: int,
    t_purge: int,
)
    requires
        s.wf(),
        !spec_ticket_valid(s, token),
        spec_insert_ticket(s, token, case_id, t_issue).1 is Ok,
    ensures
        ({
            let s1 = spec_insert_ticket(s, token, case_id, t_issue).0;
            &&& spec_ticket_valid(s1, token)
            &&& (spec_ticket_valid(spec_purge(s1, t_purge).0, token) <==> t_purge < t_issue
                + RETENTION_SECONDS)
        }),
{
    let s1 = spec_insert_ticket(s, token, case_id, t_issue).0;
    let row = TicketView { id: s.next_ticket_id, ticket: token, case_id, timestamp: t_issue };
    assert(s1.tickets == s.tickets.push(row));
    assert(spec_ticket_valid(s1, token)) by {
        assert((#[trigger] s1.tickets[s1.tickets.len() - 1]).ticket == token);
    }
    let cutoff = t_purge - RETENTION_SECONDS;
    let kept = spec_kept(s1.tickets, cutoff);
    lemma_kept_contains(s1.tickets, cutoff);
    assert(spec_purge(s1, t_purge).0.tickets == kept);
    if t_purge < t_issue + RETENTION_SECONDS {
        assert(row.timestamp > cutoff);
        assert(s1.tickets.contains(row)) by {
            assert(s1.tickets[s1.tickets.len() - 1] == row);
        }
        assert(kept.contains(row));
        let i = choose|i: int| 0 <= i < kept.len() && kept[i] == row;
        assert(spec_ticket_valid(spec_purge(s1, t_purge).0, token)) by {
            assert((#[trigger] kept[i]).ticket == token);
        }
    }
    if spec_ticket_valid(spec_purge(s1, t_purge).0, token) {
        let i = choose|i: int| 0 <= i < kept.len() && (#[trigger] kept[i]).ticket == token;
        let x = kept[i];
        assert(kept.contains(x));
        assert(s1.tickets.contains(x) && x.timestamp > cutoff);
        let j = choose|j: int| 0 <= j < s1.tickets.len() && s1.tickets[j] == x;
        assert(x == row) by {
            if j < s.tickets.len() {
                assert((#[trigger] s.tickets[j]).ticket == token);
                assert(spec_ticket_valid(s, token));
                assert(false);
            }
        }
        assert(t_purge < t_issue + RETENTION_SECONDS);
    }
}

/// A failed callback persists nothing; a successful one records exactly
/// one ticket row under the reported identity.
pub proof fn lemma_sso_outcomes(
    s: StoreView,
    ticket: Seq<char>,
    response: Option<Seq<char>>,
    now: int,
)
    ensures
        spec_sso_callback(s, ticket, response, now).1 == SsoOutcome::Failure ==> spec_sso_callback(
            s,
            ticket,
            response,
            now,
        ).0 == s,
        spec_sso_callback(s, ticket, response, now).1 == SsoOutcome::Success ==> (response matches
        Some(body) && cas_success(body) && spec_sso_callback(s, ticket, response, now).0
            == spec_insert_ticket(s, ticket, cas_identity(body), now).0),
{
}

} // verus!
