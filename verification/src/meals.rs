//! The meal ledger: one row per serving window, created lazily, plus the
//! per-meal aggregates.
//!
//! `get_or_create` converges every request made during one window onto a
//! single meal row: the well-formed store never holds two rows for the
//! same (year, month, day, period) tuple, and a second lookup during the
//! window returns the row the first one made.
use crate::period::{period_at, MealPeriod};
use crate::store::{Meal, Store, StoreView, VoteView};
use crate::time::{
    day_of, month_of, now_unix, service_civil, year_of, MAX_INSTANT, MIN_INSTANT,
    SERVICE_OFFSET_SECONDS,
};
use crate::BackendError;
use vstd::prelude::*;

verus! {

/// The meal row `m` is the row of the window (`y`, `mo`, `d`, `p`).
pub open spec fn meal_has_key(m: Meal, y: i32, mo: i32, d: i32, p: i32) -> bool {
    m.year == y && m.month == mo && m.day == d && m.meal_period == p
}

/// The first meal row of the window (`y`, `mo`, `d`, `p`), if any.
pub open spec fn spec_find_meal(meals: Seq<Meal>, y: i32, mo: i32, d: i32, p: i32) -> Option<Meal>
    decreases meals.len(),
{
    if meals.len() == 0 {
        None
    } else if meal_has_key(meals[0], y, mo, d, p) {
        Some(meals[0])
    } else {
        spec_find_meal(meals.drop_first(), y, mo, d, p)
    }
}

proof fn lemma_find_meal_skip(meals: Seq<Meal>, y: i32, mo: i32, d: i32, p: i32, i: int)
    requires
        0 <= i <= meals.len(),
        forall|j: int| 0 <= j < i ==> !meal_has_key(#[trigger] meals[j], y, mo, d, p),
    ensures
        spec_find_meal(meals, y, mo, d, p) == spec_find_meal(meals.skip(i), y, mo, d, p),
    decreases i,
{
    if i > 0 {
        lemma_find_meal_skip(meals, y, mo, d, p, i - 1);
        assert(meals.skip(i - 1)[0] == meals[i - 1]);
        assert(meals.skip(i - 1).drop_first() =~= meals.skip(i));
    } else {
        assert(meals.skip(0) =~= meals);
    }
}

/// A missing find answer means no row of the window exists at all.
pub proof fn lemma_find_meal_none(meals: Seq<Meal>, y: i32, mo: i32, d: i32, p: i32)
    requires
        spec_find_meal(meals, y, mo, d, p) is None,
    ensures
        forall|j: int| 0 <= j < meals.len() ==> !meal_has_key(#[trigger] meals[j], y, mo, d, p),
    decreases meals.len(),
{
    if meals.len() > 0 {
        lemma_find_meal_none(meals.drop_first(), y, mo, d, p);
        assert forall|j: int| 0 <= j < meals.len() implies !meal_has_key(
            #[trigger] meals[j],
            y,
            mo,
            d,
            p,
        ) by {
            if j >= 1 {
                assert(meals.drop_first()[j - 1] == meals[j]);
            }
        }
    }
}

/// A find answer is a row of the store with the asked-for window.
pub proof fn lemma_find_meal_some(meals: Seq<Meal>, y: i32, mo: i32, d: i32, p: i32)
    requires
        spec_find_meal(meals, y, mo, d, p) is Some,
    ensures
        exists|j: int|
            0 <= j < meals.len() && #[trigger] meals[j] == spec_find_meal(
                meals,
                y,
                mo,
                d,
                p,
            ).unwrap(),
        meal_has_key(spec_find_meal(meals, y, mo, d, p).unwrap(), y, mo, d, p),
    decreases meals.len(),
{
    if meals.len() > 0 && !meal_has_key(meals[0], y, mo, d, p) {
        lemma_find_meal_some(meals.drop_first(), y, mo, d, p);
        let m = spec_find_meal(meals, y, mo, d, p).unwrap();
        let j = choose|j: int| 0 <= j < meals.drop_first().len() && #[trigger] meals.drop_first()[j]
            == m;
        assert(meals[j + 1] == m);
    }
}

/// What get-or-create does to the store once the window key is fixed:
/// return the existing row, or append a fresh one numbered after the last.
pub open spec fn spec_find_or_insert(s: StoreView, y: i32, mo: i32, d: i32, p: i32) -> (
    StoreView,
    Option<Result<Meal, BackendError>>,
) {
    match spec_find_meal(s.meals, y, mo, d, p) {
        Some(m) => (s, Some(Ok(m))),
        None => {
            if s.meals.len() >= i32::MAX {
                (s, Some(Err(BackendError::StoreFailure)))
            } else {
                let m = Meal {
                    id: (s.meals.len() + 1) as i32,
                    year: y,
                    month: mo,
                    day: d,
                    meal_period: p,
                };
                (StoreView { meals: s.meals.push(m), ..s }, Some(Ok(m)))
            }
        },
    }
}

/// What get-or-create does to the store at instant `t`: nothing when no
/// window is open, otherwise find-or-insert under the window key of the
/// service day containing `t`.
pub open spec fn spec_get_or_create(s: StoreView, t: int) -> (
    StoreView,
    Option<Result<Meal, BackendError>>,
) {
    match period_at(t) {
        None => (s, None),
        Some(p) => {
            let u = t - SERVICE_OFFSET_SECONDS;
            spec_find_or_insert(
                s,
                year_of(u) as i32,
                month_of(u) as i32,
                day_of(u) as i32,
                p.as_int_spec() as i32,
            )
        },
    }
}

/// Get-or-create preserves well-formedness, and a returned meal is a row
/// of the resulting store, sitting at the index its id names.
pub proof fn lemma_get_or_create_ok(s: StoreView, t: int)
    requires
        s.wf(),
    ensures
        spec_get_or_create(s, t).0.wf(),
        match spec_get_or_create(s, t).1 {
            Some(Ok(m)) => 1 <= m.id <= spec_get_or_create(s, t).0.meals.len()
                && spec_get_or_create(s, t).0.meals[m.id - 1] == m,
            Some(Err(e)) => e == BackendError::StoreFailure && spec_get_or_create(s, t).0 == s,
            None => spec_get_or_create(s, t).0 == s,
        },
{
    match period_at(t) {
        None => {},
        Some(p) => {
            let u = t - SERVICE_OFFSET_SECONDS;
            let y = year_of(u) as i32;
            let mo = month_of(u) as i32;
            let d = day_of(u) as i32;
            let pc = p.as_int_spec() as i32;
            match spec_find_meal(s.meals, y, mo, d, pc) {
                Some(m) => {
                    lemma_find_meal_some(s.meals, y, mo, d, pc);
                    let j = choose|j: int| 0 <= j < s.meals.len() && #[trigger] s.meals[j] == m;
                    assert(m.id == j + 1);
                },
                None => {
                    if s.meals.len() < i32::MAX {
                        lemma_find_meal_none(s.meals, y, mo, d, pc);
                        let s1 = spec_find_or_insert(s, y, mo, d, pc).0;
                        assert(s1.meals_wf());
                        assert(s1.votes_wf());
                    }
                },
            }
        },
    }
}

/// Sum of the scores of the votes for meal `meal_id`.
pub open spec fn spec_score_total(votes: Seq<VoteView>, meal_id: int) -> int
    decreases votes.len(),
{
    if votes.len() == 0 {
        0
    } else {
        spec_score_total(votes.drop_last(), meal_id) + if votes.last().meal_id == meal_id {
            votes.last().score
        } else {
            0
        }
    }
}

/// Number of votes for meal `meal_id`.
pub open spec fn spec_vote_count(votes: Seq<VoteView>, meal_id: int) -> int
    decreases votes.len(),
{
    if votes.len() == 0 {
        0
    } else {
        spec_vote_count(votes.drop_last(), meal_id) + if votes.last().meal_id == meal_id {
            1int
        } else {
            0int
        }
    }
}

impl Meal {
    /// The meal row of the window (`y`, `mo`, `d`, `p`), if the store has
    /// one.
    fn find(store: &Store, y: i32, mo: i32, d: i32, p: i32) -> (r: Option<Meal>)
        ensures
            r == spec_find_meal(store@.meals, y, mo, d, p),
    {
        let n = store.meals.len();
        let mut i: usize = 0;
        while i < n
            invariant
                n == store.meals.len(),
                0 <= i <= n,
                forall|j: int|
                    0 <= j < i ==> !meal_has_key(#[trigger] store@.meals[j], y, mo, d, p),
            decreases n - i,
        {
            let m = store.meals[i];
            if m.year == y && m.month == mo && m.day == d && m.meal_period == p {
                proof {
                    lemma_find_meal_skip(store@.meals, y, mo, d, p, i as int);
                    assert(store@.meals.skip(i as int)[0] == store@.meals[i as int]);
                }
                return Some(m);
            }
            i += 1;
        }
        proof {
            lemma_find_meal_skip(store@.meals, y, mo, d, p, n as int);
            assert(store@.meals.skip(n as int) =~= Seq::<Meal>::empty());
        }
        None
    }

    /// The meal row for the window open at instant `t`, created if it does
    /// not exist yet. `None` means no window is open at `t` and the store
    /// is untouched; the error means the meal table is full.
    pub fn get_or_create_at(store: &mut Store, t: i64) -> (r: Option<Result<Meal, BackendError>>)
        requires
            old(store).wf(),
            MIN_INSTANT <= t <= MAX_INSTANT,
        ensures
            final(store).wf(),
            (final(store)@, r) == spec_get_or_create(old(store)@, t as int),
    {
        let ghost u = t - SERVICE_OFFSET_SECONDS;
        let c = service_civil(t);
        let period = match MealPeriod::current(&c) {
            None => {
                return None;
            },
            Some(p) => p,
        };
        let y = c.year;
        let mo = c.month as i32;
        let d = c.day as i32;
        let p = period.as_int();
        proof {
            assert(y == year_of(u) as i32 && mo == month_of(u) as i32 && d == day_of(u) as i32);
            assert(p == period.as_int_spec() as i32);
            assert(period_at(t as int) == Some(period));
        }
        let found = Self::find(store, y, mo, d, p);
        match found {
            Some(m) => Some(Ok(m)),
            None => {
                if store.meals.len() >= i32::MAX as usize {
                    Some(Err(BackendError::StoreFailure))
                } else {
                    let id = (store.meals.len() + 1) as i32;
                    let m = Meal { id, year: y, month: mo, day: d, meal_period: p };
                    store.meals.push(m);
                    proof {
                        lemma_find_meal_none(old(store)@.meals, y, mo, d, p);
                        assert(store@ =~~= spec_find_or_insert(old(store)@, y, mo, d, p).0);
                        assert(store@.wf());
                    }
                    Some(Ok(m))
                }
            },
        }
    }

    /// The meal row for the window open right now, by the system clock.
    /// The clock is read once; an instant beyond the supported range
    /// counts as no meal in progress.
    pub fn get_or_create_current(store: &mut Store) -> (r: Option<Result<Meal, BackendError>>)
        requires
            old(store).wf(),
        ensures
            final(store).wf(),
            exists|t: int|
                0 <= t && (final(store)@, r) == #[trigger] spec_get_or_create(old(store)@, t),
    {
        let t = now_unix();
        if t <= MAX_INSTANT {
            let r = Self::get_or_create_at(store, t);
            proof {
                assert((store@, r) == spec_get_or_create(old(store)@, t as int));
            }
            r
        } else {
            proof {
                assert(period_at(SERVICE_OFFSET_SECONDS as int) == Option::<MealPeriod>::None);
                assert((store@, Option::<Result<Meal, BackendError>>::None) == spec_get_or_create(
                    old(store)@,
                    SERVICE_OFFSET_SECONDS as int,
                ));
            }
            None
        }
    }

    /// Total score and number of votes this meal has received; (0, 0) for
    /// a meal nobody has voted on.
    pub fn get_stats(&self, store: &Store) -> (r: (i64, i64))
        requires
            store.wf(),
        ensures
            r.0 == spec_score_total(store@.votes, self.id as int),
            r.1 == spec_vote_count(store@.votes, self.id as int),
    {
        let n = store.votes.len();
        let mut total: i64 = 0;
        let mut count: i64 = 0;
        let mut i: usize = 0;
        while i < n
            invariant
                store.wf(),
                n == store.votes.len(),
                0 <= i <= n,
                total == spec_score_total(store@.votes.take(i as int), self.id as int),
                count == spec_vote_count(store@.votes.take(i as int), self.id as int),
                0 <= total <= 10 * i,
                0 <= count <= i,
            decreases n - i,
        {
            proof {
                assert(store@.votes.take(i + 1).drop_last() =~= store@.votes.take(i as int));
                assert(store@.votes.take(i + 1).last() == store@.votes[i as int]);
            }
            let v = &store.votes[i];
            if v.meal_id == self.id {
                total = total + v.score as i64;
                count = count + 1;
            }
            i += 1;
        }
        proof {
            assert(store@.votes.take(n as int) =~= store@.votes);
        }
        (total, count)
    }

    /// Whether `case_id` already has a vote on record for this meal.
    pub fn has_user_voted(&self, case_id: &str, store: &Store) -> (r: bool)
        ensures
            r == spec_has_voted(store@, self.id as int, case_id@),
    {
        let needle: String = case_id.to_owned();
        let n = store.votes.len();
        let mut i: usize = 0;
        while i < n
            invariant
                n == store.votes.len(),
                0 <= i <= n,
                needle@ == case_id@,
                forall|j: int|
                    0 <= j < i ==> !((#[trigger] store@.votes[j]).meal_id == self.id
                        && store@.votes[j].voter_caseid == case_id@),
            decreases n - i,
        {
            let v = &store.votes[i];
            if v.meal_id == self.id && v.voter_caseid == needle {
                proof {
                    assert((#[trigger] store@.votes[i as int]).meal_id == self.id
                        && store@.votes[i as int].voter_caseid == case_id@);
                }
                return true;
            }
            i += 1;
        }
        false
    }
}

/// Some vote of the store belongs to meal `meal_id` and voter `voter`.
pub open spec fn spec_has_voted(s: StoreView, meal_id: int, voter: Seq<char>) -> bool {
    exists|i: int|
        0 <= i < s.votes.len() && (#[trigger] s.votes[i]).meal_id == meal_id
            && s.votes[i].voter_caseid == voter
}

} // verus!
