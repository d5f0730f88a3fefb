// The meal ledger and the vote recorder against an in-memory store.
use mealvote::api::{current_stats, current_stats_at};
use mealvote::period::MealPeriod;
use mealvote::store::{Meal, Store, Vote};
use mealvote::BackendError;

// 2021-06-01 (a Tuesday) 00:00 UTC.
const TUE: i64 = 1622505600;

fn service(day: i64, hh: i64, mm: i64) -> i64 {
    day + (hh + 4) * 3600 + mm * 60
}

#[test]
fn launch_state_is_empty() {
    let store = mealvote::api::rocket();
    assert_eq!(store.meals.len(), 0);
    assert_eq!(store.votes.len(), 0);
    assert_eq!(store.tickets.len(), 0);
    assert_eq!(store.next_ticket_id, 1);
}

#[test]
fn clock_driven_stats_are_coherent() {
    let mut store = Store::new();
    let stats = current_stats(&mut store).unwrap();
    match stats.current_meal {
        Some(_) => {
            assert_eq!(stats.scores_total, Some(0));
            assert_eq!(stats.num_votes, Some(0));
        },
        None => {
            assert_eq!(stats.scores_total, None);
            assert_eq!(stats.num_votes, None);
        },
    }
}

#[test]
fn first_call_creates_second_call_reuses() {
    let mut store = Store::new();
    let t = service(TUE, 7, 30);
    let first = Meal::get_or_create_at(&mut store, t).unwrap().unwrap();
    assert_eq!(first.id, 1);
    assert_eq!((first.year, first.month, first.day), (2021, 6, 1));
    assert_eq!(first.meal_period, MealPeriod::Breakfast.as_int());
    let again = Meal::get_or_create_at(&mut store, t).unwrap().unwrap();
    assert_eq!(again.id, first.id);
    assert_eq!(store.meals.len(), 1);
}

#[test]
fn later_call_in_same_window_reuses_the_row() {
    let mut store = Store::new();
    let early = Meal::get_or_create_at(&mut store, service(TUE, 7, 0)).unwrap().unwrap();
    let late = Meal::get_or_create_at(&mut store, service(TUE, 10, 30)).unwrap().unwrap();
    assert_eq!(early.id, late.id);
    assert_eq!(store.meals.len(), 1);
}

#[test]
fn closed_window_creates_nothing() {
    let mut store = Store::new();
    assert!(Meal::get_or_create_at(&mut store, service(TUE, 6, 59)).is_none());
    assert_eq!(store.meals.len(), 0);
}

#[test]
fn distinct_windows_get_distinct_rows() {
    let mut store = Store::new();
    let breakfast = Meal::get_or_create_at(&mut store, service(TUE, 8, 0)).unwrap().unwrap();
    let dinner = Meal::get_or_create_at(&mut store, service(TUE, 18, 0)).unwrap().unwrap();
    assert_ne!(breakfast.id, dinner.id);
    assert_eq!(store.meals.len(), 2);
}

#[test]
fn fresh_meal_reports_zero_stats_with_period_populated() {
    let mut store = Store::new();
    let t = service(TUE, 12, 0);
    let stats = current_stats_at(&mut store, t).unwrap();
    assert_eq!(stats.current_meal, Some(MealPeriod::Lunch));
    assert_eq!(stats.scores_total, Some(0));
    assert_eq!(stats.num_votes, Some(0));
    assert_eq!(store.meals.len(), 1);
}

#[test]
fn stats_report_absence_while_closed() {
    let mut store = Store::new();
    let stats = current_stats_at(&mut store, service(TUE, 3, 0)).unwrap();
    assert_eq!(stats.current_meal, None);
    assert_eq!(stats.scores_total, None);
    assert_eq!(stats.num_votes, None);
}

#[test]
fn votes_accumulate_into_totals() {
    let mut store = Store::new();
    let t = service(TUE, 12, 0);
    Vote::insert_for_current_meal_at(&mut store, "ada".to_string(), 3, t).unwrap();
    Vote::insert_for_current_meal_at(&mut store, "ben".to_string(), 7, t).unwrap();
    Vote::insert_for_current_meal_at(&mut store, "cal".to_string(), 10, t).unwrap();
    let meal = Meal::get_or_create_at(&mut store, t).unwrap().unwrap();
    assert_eq!(meal.get_stats(&store), (20, 3));
}

#[test]
fn second_vote_by_same_voter_is_rejected() {
    let mut store = Store::new();
    let t = service(TUE, 12, 0);
    Vote::insert_for_current_meal_at(&mut store, "ada".to_string(), 9, t).unwrap();
    let second = Vote::insert_for_current_meal_at(&mut store, "ada".to_string(), 2, t);
    assert_eq!(second, Err(BackendError::UserAlreadyVoted));
    assert_eq!(store.votes.len(), 1);
    let meal = Meal::get_or_create_at(&mut store, t).unwrap().unwrap();
    assert_eq!(meal.get_stats(&store), (9, 1));
}

#[test]
fn voting_outside_any_window_fails() {
    let mut store = Store::new();
    let r = Vote::insert_for_current_meal_at(&mut store, "ada".to_string(), 5, service(TUE, 5, 0));
    assert_eq!(r, Err(BackendError::NoMealInProgress));
    assert_eq!(store.votes.len(), 0);
}

#[test]
fn votes_in_different_windows_are_independent() {
    let mut store = Store::new();
    let lunch = service(TUE, 12, 0);
    let dinner = service(TUE, 18, 0);
    Vote::insert_for_current_meal_at(&mut store, "ada".to_string(), 4, lunch).unwrap();
    Vote::insert_for_current_meal_at(&mut store, "ada".to_string(), 6, dinner).unwrap();
    let lunch_meal = Meal::get_or_create_at(&mut store, lunch).unwrap().unwrap();
    let dinner_meal = Meal::get_or_create_at(&mut store, dinner).unwrap().unwrap();
    assert_eq!(lunch_meal.get_stats(&store), (4, 1));
    assert_eq!(dinner_meal.get_stats(&store), (6, 1));
}
