// Ticket lifecycle, the sign-on callback, and the authenticated routes.
use mealvote::api::{check_ticket, submit_vote_at};
use mealvote::sso::{parse_cas_response, sso_callback_at, SsoOutcome};
use mealvote::store::{Meal, Store, Ticket};
use mealvote::tickets::RETENTION_SECONDS;
use mealvote::BackendError;

// 2021-06-01 (a Tuesday) 00:00 UTC.
const TUE: i64 = 1622505600;

fn service(day: i64, hh: i64, mm: i64) -> i64 {
    day + (hh + 4) * 3600 + mm * 60
}

#[test]
fn clock_stamped_ticket_is_valid_and_survives_an_immediate_purge() {
    let mut store = Store::new();
    Ticket::insert_new(&mut store, "tok-1".to_string(), "ada".to_string()).unwrap();
    assert!(Ticket::is_valid("tok-1", &store));
    let removed = Ticket::purge_old_tickets(&mut store);
    assert_eq!(removed, 0);
    assert!(Ticket::is_valid("tok-1", &store));
}

#[test]
fn ticket_is_valid_immediately_after_issue() {
    let mut store = Store::new();
    Ticket::insert_new_at(&mut store, "tok-1".to_string(), "ada".to_string(), 1_000_000).unwrap();
    assert!(Ticket::is_valid("tok-1", &store));
    assert!(!Ticket::is_valid("tok-2", &store));
}

#[test]
fn purge_respects_the_retention_window() {
    let mut store = Store::new();
    let issued: i64 = 1_000_000;
    Ticket::insert_new_at(&mut store, "tok-1".to_string(), "ada".to_string(), issued).unwrap();

    let removed = Ticket::purge_old_tickets_at(&mut store, issued + RETENTION_SECONDS - 1);
    assert_eq!(removed, 0);
    assert!(Ticket::is_valid("tok-1", &store));

    let removed = Ticket::purge_old_tickets_at(&mut store, issued + RETENTION_SECONDS + 1);
    assert_eq!(removed, 1);
    assert!(!Ticket::is_valid("tok-1", &store));
    assert_eq!(store.tickets.len(), 0);
}

#[test]
fn purge_keeps_young_tickets_and_drops_old_ones() {
    let mut store = Store::new();
    Ticket::insert_new_at(&mut store, "old".to_string(), "ada".to_string(), 0).unwrap();
    Ticket::insert_new_at(&mut store, "new".to_string(), "ben".to_string(), RETENTION_SECONDS + 10)
        .unwrap();
    let removed = Ticket::purge_old_tickets_at(&mut store, 2 * RETENTION_SECONDS);
    assert_eq!(removed, 1);
    assert!(!Ticket::is_valid("old", &store));
    assert!(Ticket::is_valid("new", &store));
}

#[test]
fn case_id_lookup_finds_the_issuing_voter() {
    let mut store = Store::new();
    Ticket::insert_new_at(&mut store, "tok-1".to_string(), "ada".to_string(), 5).unwrap();
    assert_eq!(Ticket::get_case_id(&store, "tok-1"), Ok("ada".to_string()));
    assert_eq!(Ticket::get_case_id(&store, "gone"), Err(BackendError::TicketNotFound));
}

#[test]
fn parse_accepts_a_confirming_two_line_body() {
    assert_eq!(parse_cas_response("yes\nabc123"), Some("abc123".to_string()));
    assert_eq!(parse_cas_response("yes\nabc123\n"), Some("abc123".to_string()));
    assert_eq!(parse_cas_response("yes\r\nabc123\r\n"), Some("abc123".to_string()));
    assert_eq!(parse_cas_response("yes\nabc\nignored"), Some("abc".to_string()));
}

#[test]
fn parse_rejects_everything_else() {
    assert_eq!(parse_cas_response("no\n"), None);
    assert_eq!(parse_cas_response(""), None);
    assert_eq!(parse_cas_response("yes"), None);
    assert_eq!(parse_cas_response("yes\n"), None);
    assert_eq!(parse_cas_response("yes "), None);
    assert_eq!(parse_cas_response("maybe\nabc123"), None);
}

#[test]
fn confirmed_callback_persists_the_ticket() {
    let mut store = Store::new();
    let outcome = sso_callback_at(&mut store, "tok-9".to_string(), Some("yes\nabc123"), 42);
    assert_eq!(outcome, SsoOutcome::Success);
    assert!(Ticket::is_valid("tok-9", &store));
    assert_eq!(Ticket::get_case_id(&store, "tok-9"), Ok("abc123".to_string()));
    assert_eq!(store.tickets.len(), 1);
    assert_eq!(store.tickets[0].timestamp, 42);
}

#[test]
fn refused_or_missing_responses_persist_nothing() {
    let mut store = Store::new();
    assert_eq!(
        sso_callback_at(&mut store, "tok-9".to_string(), Some("no\n"), 42),
        SsoOutcome::Failure
    );
    assert_eq!(sso_callback_at(&mut store, "tok-9".to_string(), Some(""), 42), SsoOutcome::Failure);
    assert_eq!(sso_callback_at(&mut store, "tok-9".to_string(), None, 42), SsoOutcome::Failure);
    assert_eq!(store.tickets.len(), 0);
}

#[test]
fn check_ticket_reports_credential_validity() {
    let mut store = Store::new();
    assert!(!check_ticket(&store, None));
    assert!(!check_ticket(&store, Some("tok-1")));
    Ticket::insert_new_at(&mut store, "tok-1".to_string(), "ada".to_string(), 7).unwrap();
    assert!(check_ticket(&store, Some("tok-1")));
}

#[test]
fn submitting_without_credentials_is_rejected() {
    let mut store = Store::new();
    let t = service(TUE, 12, 0);
    assert_eq!(submit_vote_at(&mut store, None, 5, t), Err(BackendError::NotAuthed));
    assert_eq!(submit_vote_at(&mut store, Some("bogus"), 5, t), Err(BackendError::NotAuthed));
}

#[test]
fn out_of_range_score_is_rejected_before_auth() {
    let mut store = Store::new();
    let t = service(TUE, 12, 0);
    assert_eq!(submit_vote_at(&mut store, None, 11, t), Err(BackendError::ScoreOutOfRange));
    assert_eq!(submit_vote_at(&mut store, Some("bogus"), 11, t), Err(BackendError::ScoreOutOfRange));
}

#[test]
fn authenticated_submission_records_the_vote() {
    let mut store = Store::new();
    let t = service(TUE, 12, 0);
    let outcome = sso_callback_at(&mut store, "tok-1".to_string(), Some("yes\nada"), t);
    assert_eq!(outcome, SsoOutcome::Success);
    submit_vote_at(&mut store, Some("tok-1"), 8, t).unwrap();
    let meal = Meal::get_or_create_at(&mut store, t).unwrap().unwrap();
    assert_eq!(meal.get_stats(&store), (8, 1));
    assert_eq!(store.votes[0].voter_caseid, "ada");
    let again = submit_vote_at(&mut store, Some("tok-1"), 8, t);
    assert_eq!(again, Err(BackendError::UserAlreadyVoted));
}
