//! The ticket store and its garbage collection.
//!
//! A ticket is issued after a successful external sign-on, read on every
//! authenticated action, and deleted once older than the retention window.
//! A token is valid exactly as long as a row carries it; expiry acts only
//! through the purge.
use crate::store::{Store, StoreView, Ticket, TicketView};
use crate::time::now_unix;
use crate::BackendError;
use vstd::prelude::*;

verus! {

/// Tickets issued more than this many seconds ago (five days) are purged.
pub const RETENTION_SECONDS: i64 = 5 * 24 * 60 * 60;

/// How long the garbage collector sleeps between purges (five days).
pub const GC_INTERVAL_SECONDS: i64 = 5 * 24 * 60 * 60;

/// Some ticket row carries the token.
pub open spec fn spec_ticket_valid(s: StoreView, token: Seq<char>) -> bool {
    exists|i: int| 0 <= i < s.tickets.len() && (#[trigger] s.tickets[i]).ticket == token
}

/// The first ticket row carrying the token, if any.
pub open spec fn spec_find_ticket(tickets: Seq<TicketView>, token: Seq<char>) -> Option<TicketView>
    decreases tickets.len(),
{
    if tickets.len() == 0 {
        None
    } else if tickets[0].ticket == token {
        Some(tickets[0])
    } else {
        spec_find_ticket(tickets.drop_first(), token)
    }
}

proof fn lemma_find_ticket_skip(tickets: Seq<TicketView>, token: Seq<char>, i: int)
    requires
        0 <= i <= tickets.len(),
        forall|j: int| 0 <= j < i ==> (#[trigger] tickets[j]).ticket != token,
    ensures
        spec_find_ticket(tickets, token) == spec_find_ticket(tickets.skip(i), token),
    decreases i,
{
    if i > 0 {
        lemma_find_ticket_skip(tickets, token, i - 1);
        assert(tickets.skip(i - 1)[0] == tickets[i - 1]);
        assert(tickets.skip(i - 1).drop_first() =~= tickets.skip(i));
    } else {
        assert(tickets.skip(0) =~= tickets);
    }
}

/// A token is valid exactly when looking it up finds a row.
pub proof fn lemma_valid_iff_found(tickets: Seq<TicketView>, token: Seq<char>)
    ensures
        (exists|i: int| 0 <= i < tickets.len() && (#[trigger] tickets[i]).ticket == token)
            <==> spec_find_ticket(tickets, token) is Some,
    decreases tickets.len(),
{
    if tickets.len() > 0 && tickets[0].ticket != token {
        lemma_valid_iff_found(tickets.drop_first(), token);
        if exists|i: int| 0 <= i < tickets.len() && (#[trigger] tickets[i]).ticket == token {
            let i = choose|i: int| 0 <= i < tickets.len() && (#[trigger] tickets[i]).ticket
                == token;
            assert(tickets.drop_first()[i - 1] == tickets[i]);
        }
        if spec_find_ticket(tickets.drop_first(), token) is Some {
            let i = choose|i: int|
                0 <= i < tickets.drop_first().len() && (#[trigger] tickets.drop_first()[i]).ticket
                    == token;
            assert(tickets[i + 1] == tickets.drop_first()[i]);
        }
    }
}

/// Recording a fresh ticket: append a row stamped `now` under the next id.
pub open spec fn spec_insert_ticket(
    s: StoreView,
    token: Seq<char>,
    case_id: Seq<char>,
    now: int,
) -> (StoreView, Result<(), BackendError>) {
    if s.next_ticket_id >= i32::MAX {
        (s, Err(BackendError::StoreFailure))
    } else {
        let row = TicketView { id: s.next_ticket_id, ticket: token, case_id, timestamp: now };
        (
            StoreView { tickets: s.tickets.push(row), next_ticket_id: s.next_ticket_id + 1, ..s },
            Ok(()),
        )
    }
}

/// The rows that survive a purge with the given cutoff: exactly those
/// stamped after it, in their original order.
pub open spec fn spec_kept(tickets: Seq<TicketView>, cutoff: int) -> Seq<TicketView>
    decreases tickets.len(),
{
    if tickets.len() == 0 {
        Seq::empty()
    } else {
        let rest = spec_kept(tickets.drop_last(), cutoff);
        if tickets.last().timestamp > cutoff {
            rest.push(tickets.last())
        } else {
            rest
        }
    }
}

/// What the purge at instant `now` does: keep the rows younger than the
/// retention window, and report how many rows went away.
pub open spec fn spec_purge(s: StoreView, now: int) -> (StoreView, int) {
    let kept = spec_kept(s.tickets, now - RETENTION_SECONDS);
    (StoreView { tickets: kept, ..s }, s.tickets.len() - kept.len())
}

/// Every survivor of a purge is a row of the original table.
pub proof fn lemma_kept_sub(tickets: Seq<TicketView>, cutoff: int)
    ensures
        spec_kept(tickets, cutoff).len() <= tickets.len(),
        forall|k: int|
            0 <= k < spec_kept(tickets, cutoff).len() ==> tickets.contains(
                #[trigger] spec_kept(tickets, cutoff)[k],
            ),
    decreases tickets.len(),
{
    if tickets.len() > 0 {
        lemma_kept_sub(tickets.drop_last(), cutoff);
        assert(forall|j: int|
            0 <= j < tickets.len() - 1 ==> #[trigger] tickets.drop_last()[j] == tickets[j]);
        assert forall|k: int| 0 <= k < spec_kept(tickets, cutoff).len() implies tickets.contains(
            #[trigger] spec_kept(tickets, cutoff)[k],
        ) by {
            let kept = spec_kept(tickets, cutoff);
            let rest = spec_kept(tickets.drop_last(), cutoff);
            if k < rest.len() {
                assert(tickets.drop_last().contains(rest[k]));
                let j = choose|j: int|
                    0 <= j < tickets.drop_last().len() && tickets.drop_last()[j] == rest[k];
                assert(tickets[j] == kept[k]);
            } else {
                assert(kept[k] == tickets.last());
            }
        }
    }
}

/// A row survives the purge exactly when it is on the table and younger
/// than the cutoff.
pub proof fn lemma_kept_contains(tickets: Seq<TicketView>, cutoff: int)
    ensures
        forall|x: TicketView|
            #![trigger spec_kept(tickets, cutoff).contains(x)]
            #![trigger tickets.contains(x)]
            spec_kept(tickets, cutoff).contains(x) <==> (tickets.contains(x) && x.timestamp
                > cutoff),
    decreases tickets.len(),
{
    if tickets.len() > 0 {
        lemma_kept_contains(tickets.drop_last(), cutoff);
        assert forall|x: TicketView| spec_kept(tickets, cutoff).contains(x) <==> (tickets.contains(
            x,
        ) && x.timestamp > cutoff) by {
            let kept = spec_kept(tickets, cutoff);
            let rest = spec_kept(tickets.drop_last(), cutoff);
            if kept.contains(x) {
                let k = choose|k: int| 0 <= k < kept.len() && kept[k] == x;
                if tickets.last().timestamp > cutoff && k == kept.len() - 1 {
                    assert(x == tickets.last());
                    assert(tickets.contains(x)) by {
                        assert(tickets[tickets.len() - 1] == x);
                    }
                } else {
                    assert(rest.contains(x)) by {
                        assert(rest[k] == x);
                    }
                    assert(tickets.drop_last().contains(x));
                    let j = choose|j: int|
                        0 <= j < tickets.drop_last().len() && tickets.drop_last()[j] == x;
                    assert(tickets[j] == x);
                }
            }
            if tickets.contains(x) && x.timestamp > cutoff {
                let j = choose|j: int| 0 <= j < tickets.len() && tickets[j] == x;
                if j == tickets.len() - 1 {
                    assert(kept[kept.len() - 1] == x);
                } else {
                    assert(tickets.drop_last()[j] == x);
                    assert(tickets.drop_last().contains(x));
                    assert(rest.contains(x));
                    let k = choose|k: int| 0 <= k < rest.len() && rest[k] == x;
                    assert(kept[k] == x);
                }
            }
        }
    }
}

proof fn lemma_kept_wf(s: StoreView, cutoff: int)
    requires
        s.tickets_wf(),
    ensures
        (StoreView { tickets: spec_kept(s.tickets, cutoff), ..s }).tickets_wf(),
{
    let kept = spec_kept(s.tickets, cutoff);
    lemma_kept_sub(s.tickets, cutoff);
    lemma_kept_distinct(s.tickets, cutoff);
    assert forall|k: int| 0 <= k < kept.len() implies 1 <= (#[trigger] kept[k]).id
        < s.next_ticket_id by {
        assert(s.tickets.contains(kept[k]));
        let j = choose|j: int| 0 <= j < s.tickets.len() && s.tickets[j] == kept[k];
        assert(1 <= s.tickets[j].id < s.next_ticket_id);
    }
}

proof fn lemma_kept_distinct(tickets: Seq<TicketView>, cutoff: int)
    requires
        forall|i: int, j: int|
            0 <= i < j < tickets.len() ==> (#[trigger] tickets[i]).id != (
            #[trigger] tickets[j]).id,
    ensures
        forall|i: int, j: int|
            0 <= i < j < spec_kept(tickets, cutoff).len() ==> (#[trigger] spec_kept(
                tickets,
                cutoff,
            )[i]).id != (#[trigger] spec_kept(tickets, cutoff)[j]).id,
    decreases tickets.len(),
{
    if tickets.len() > 0 {
        assert(forall|j: int|
            0 <= j < tickets.len() - 1 ==> #[trigger] tickets.drop_last()[j] == tickets[j]);
        lemma_kept_distinct(tickets.drop_last(), cutoff);
        let kept = spec_kept(tickets, cutoff);
        let rest = spec_kept(tickets.drop_last(), cutoff);
        lemma_kept_sub(tickets.drop_last(), cutoff);
        assert forall|i: int, j: int| 0 <= i < j < kept.len() implies (#[trigger] kept[i]).id != (
        #[trigger] kept[j]).id by {
            if tickets.last().timestamp > cutoff && j == kept.len() - 1 {
                assert(kept[j] == tickets.last());
                assert(tickets.drop_last().contains(rest[i]));
                let a = choose|a: int|
                    0 <= a < tickets.drop_last().len() && tickets.drop_last()[a] == rest[i];
                assert(tickets[a].id != tickets[tickets.len() - 1].id);
            }
        }
    }
}

impl Ticket {
    /// Whether a ticket row carries the token; existence, not age, decides
    /// validity.
    pub fn is_valid(ticket: &str, store: &Store) -> (r: bool)
        ensures
            r == spec_ticket_valid(store@, ticket@),
    {
        let needle: String = ticket.to_owned();
        let n = store.tickets.len();
        let mut i: usize = 0;
        while i < n
            invariant
                n == store.tickets.len(),
                0 <= i <= n,
                needle@ == ticket@,
                forall|j: int| 0 <= j < i ==> (#[trigger] store@.tickets[j]).ticket != ticket@,
            decreases n - i,
        {
            let t = &store.tickets[i];
            if t.ticket == needle {
                proof {
                    assert((#[trigger] store@.tickets[i as int]).ticket == ticket@);
                }
                return true;
            }
            i += 1;
        }
        false
    }

    /// Record a ticket issued at instant `now` for the voter `case_id`.
    /// Token uniqueness is the issuing protocol's business: no pre-check.
    pub fn insert_new_at(store: &mut Store, ticket: String, case_id: String, now: i64) -> (r:
        Result<(), BackendError>)
        requires
            old(store).wf(),
        ensures
            final(store).wf(),
            (final(store)@, r) == spec_insert_ticket(old(store)@, ticket@, case_id@, now as int),
    {
        if store.next_ticket_id >= i32::MAX {
            Err(BackendError::StoreFailure)
        } else {
            let ghost prior = store@;
            let id = store.next_ticket_id;
            store.next_ticket_id = store.next_ticket_id + 1;
            let ghost token_view = ticket@;
            let ghost case_view = case_id@;
            store.tickets.push(Ticket { id, ticket, case_id, timestamp: now });
            proof {
                assert(store@ =~~= spec_insert_ticket(prior, token_view, case_view, now as int).0);
            }
            Ok(())
        }
    }

    /// Record a ticket issued right now, by the system clock.
    pub fn insert_new(store: &mut Store, ticket: String, case_id: String) -> (r: Result<
        (),
        BackendError,
    >)
        requires
            old(store).wf(),
        ensures
            final(store).wf(),
            exists|now: int|
                0 <= now && (final(store)@, r) == #[trigger] spec_insert_ticket(
                    old(store)@,
                    ticket@,
                    case_id@,
                    now,
                ),
    {
        let now = now_unix();
        let ghost token_view = ticket@;
        let ghost case_view = case_id@;
        let r = Self::insert_new_at(store, ticket, case_id, now);
        proof {
            assert((store@, r) == spec_insert_ticket(old(store)@, token_view, case_view,
                now as int));
        }
        r
    }

    /// The voter identity a ticket token was issued for; fails when no row
    /// carries the token.
    pub fn get_case_id(store: &Store, ticket: &str) -> (r: Result<String, BackendError>)
        ensures
            match spec_find_ticket(store@.tickets, ticket@) {
                Some(row) => r matches Ok(cid) && cid@ == row.case_id,
                None => r == Err::<String, BackendError>(BackendError::TicketNotFound),
            },
    {
        let needle: String = ticket.to_owned();
        let n = store.tickets.len();
        let mut i: usize = 0;
        while i < n
            invariant
                n == store.tickets.len(),
                0 <= i <= n,
                needle@ == ticket@,
                forall|j: int| 0 <= j < i ==> (#[trigger] store@.tickets[j]).ticket != ticket@,
            decreases n - i,
        {
            let t = &store.tickets[i];
            if t.ticket == needle {
                proof {
                    lemma_find_ticket_skip(store@.tickets, ticket@, i as int);
                    assert(store@.tickets.skip(i as int)[0] == store@.tickets[i as int]);
                }
                return Ok(t.case_id.clone());
            }
            i += 1;
        }
        proof {
            lemma_find_ticket_skip(store@.tickets, ticket@, n as int);
            assert(store@.tickets.skip(n as int) =~= Seq::<TicketView>::empty());
        }
        Err(BackendError::TicketNotFound)
    }

    /// Delete every ticket older than the retention window, measured from
    /// instant `now`; the count of deleted rows is returned.
    pub fn purge_old_tickets_at(store: &mut Store, now: i64) -> (r: usize)
        requires
            old(store).wf(),
            i64::MIN + RETENTION_SECONDS <= now,
        ensures
            final(store).wf(),
            (final(store)@, r as int) == spec_purge(old(store)@, now as int),
    {
        let cutoff = now - RETENTION_SECONDS;
        let n = store.tickets.len();
        let mut kept: Vec<Ticket> = Vec::new();
        let mut i: usize = 0;
        while i < n
            invariant
                n == store.tickets.len(),
                0 <= i <= n,
                kept@.map_values(|t: Ticket| t@) =~= spec_kept(
                    store@.tickets.take(i as int),
                    cutoff as int,
                ),
                kept@.len() <= i,
            decreases n - i,
        {
            proof {
                assert(store@.tickets.take(i + 1).drop_last() =~= store@.tickets.take(i as int));
                assert(store@.tickets.take(i + 1).last() == store@.tickets[i as int]);
            }
            let t = &store.tickets[i];
            if t.timestamp > cutoff {
                kept.push(t.clone());
            }
            i += 1;
        }
        proof {
            assert(store@.tickets.take(n as int) =~= store@.tickets);
        }
        let removed = store.tickets.len() - kept.len();
        store.tickets = kept;
        proof {
            lemma_kept_wf(old(store)@, cutoff as int);
            assert(store@ =~~= spec_purge(old(store)@, now as int).0);
        }
        removed
    }

    /// Delete every ticket older than the retention window, measured from
    /// the system clock.
    pub fn purge_old_tickets(store: &mut Store) -> (r: usize)
        requires
            old(store).wf(),
        ensures
            final(store).wf(),
            exists|now: int|
                0 <= now && (final(store)@, r as int) == #[trigger] spec_purge(old(store)@, now),
    {
        let now = now_unix();
        let r = Self::purge_old_tickets_at(store, now);
        proof {
            assert((store@, r as int) == spec_purge(old(store)@, now as int));
        }
        r
    }
}

} // verus!
