// Instants below are seconds since the Unix epoch. The service day runs
// four hours behind UTC, so e.g. 07:00 service time on Tuesday
// 2021-06-01 is 11:00 UTC that day.
use mealvote::period::{current_period_at, MealPeriod};
use mealvote::BackendError;

// 2021-06-01 (a Tuesday) 00:00 UTC.
const TUE: i64 = 1622505600;
// 2021-06-03 (a Thursday) 00:00 UTC.
const THU: i64 = 1622678400;
// 2021-06-04 (a Friday) 00:00 UTC.
const FRI: i64 = 1622764800;
// 2021-06-05 (a Saturday) 00:00 UTC.
const SAT: i64 = 1622851200;

/// The instant of `hh:mm` service time on the day starting at `day` UTC.
fn service(day: i64, hh: i64, mm: i64) -> i64 {
    day + (hh + 4) * 3600 + mm * 60
}

#[test]
fn breakfast_opens_at_seven_on_tuesday() {
    assert_eq!(current_period_at(service(TUE, 7, 0)), Some(MealPeriod::Breakfast));
}

#[test]
fn no_meal_one_minute_before_breakfast() {
    assert_eq!(current_period_at(service(TUE, 6, 59)), None);
}

#[test]
fn breakfast_includes_its_last_minute() {
    assert_eq!(current_period_at(service(TUE, 10, 30)), Some(MealPeriod::Breakfast));
    assert_eq!(current_period_at(service(TUE, 10, 31)), None);
}

#[test]
fn weekday_lunch_window_is_closed() {
    assert_eq!(current_period_at(service(TUE, 11, 0)), Some(MealPeriod::Lunch));
    assert_eq!(current_period_at(service(TUE, 16, 0)), Some(MealPeriod::Lunch));
    assert_eq!(current_period_at(service(TUE, 16, 1)), None);
}

#[test]
fn friday_lunch_runs_to_five() {
    assert_eq!(current_period_at(service(FRI, 16, 30)), Some(MealPeriod::Lunch));
    assert_eq!(current_period_at(service(FRI, 17, 0)), Some(MealPeriod::Lunch));
    assert_eq!(current_period_at(service(FRI, 17, 1)), Some(MealPeriod::Dinner));
}

#[test]
fn dinner_window_is_closed() {
    assert_eq!(current_period_at(service(THU, 17, 0)), Some(MealPeriod::Dinner));
    assert_eq!(current_period_at(service(THU, 20, 0)), Some(MealPeriod::Dinner));
    assert_eq!(current_period_at(service(THU, 20, 1)), None);
}

#[test]
fn saturday_serves_brunch_not_breakfast() {
    assert_eq!(current_period_at(service(SAT, 7, 0)), None);
    assert_eq!(current_period_at(service(SAT, 9, 29)), None);
    assert_eq!(current_period_at(service(SAT, 9, 30)), Some(MealPeriod::Brunch));
    assert_eq!(current_period_at(service(SAT, 14, 30)), Some(MealPeriod::Brunch));
    assert_eq!(current_period_at(service(SAT, 14, 31)), None);
}

#[test]
fn clock_driven_resolver_answers() {
    // Exercises the system-clock path; any of the five answers is fine.
    let _ = mealvote::period::current_period();
}

#[test]
fn period_tokens_are_stable_lowercase() {
    assert_eq!(MealPeriod::Breakfast.token(), "breakfast");
    assert_eq!(MealPeriod::Brunch.token(), "brunch");
    assert_eq!(MealPeriod::Lunch.token(), "lunch");
    assert_eq!(MealPeriod::Dinner.token(), "dinner");
}

#[test]
fn period_codes_round_trip() {
    for code in 0..4 {
        assert_eq!(MealPeriod::from_int(code).as_int(), code);
    }
    assert_eq!(MealPeriod::from_int(0), MealPeriod::Breakfast);
    assert_eq!(MealPeriod::from_int(3), MealPeriod::Dinner);
}

#[test]
fn error_messages_match_the_reported_conditions() {
    assert_eq!(BackendError::NoMealInProgress.message(), "No meal in progress");
    assert_eq!(
        BackendError::UserAlreadyVoted.message(),
        "User already submitted a vote for this period"
    );
    assert_eq!(BackendError::ScoreOutOfRange.message(), "Score out of range");
    assert_eq!(BackendError::NotAuthed.message(), "User is not logged in");
    assert_eq!(BackendError::TicketNotFound.message(), "Ticket not found");
    assert_eq!(BackendError::StoreFailure.message(), "Store error");
}
