//! The single-sign-on callback: validating a login ticket against the
//! external CAS-style provider.
//!
//! The provider answers with a plain-text body: first line exactly `yes`,
//! second line the voter's identity. Anything else - no response, another
//! first line, a missing second line - is a failure. On success the ticket
//! is recorded against the parsed identity. The network round trip itself
//! happens outside the library; this module owns the parsing rule and the
//! state step.
use crate::store::{Store, StoreView, Ticket};
use crate::tickets::spec_insert_ticket;
use crate::time::now_unix;
use vstd::prelude::*;

verus! {

/// Index of the first newline at or after `from`, or the length if none.
pub open spec fn nl_pos(s: Seq<char>, from: int) -> int
    decreases s.len() - from,
{
    if from < 0 || from >= s.len() {
        s.len() as int
    } else if s[from] == '\n' {
        from
    } else {
        nl_pos(s, from + 1)
    }
}

proof fn lemma_nl_pos_step(s: Seq<char>, from: int, i: int)
    requires
        0 <= from <= i <= s.len(),
        forall|j: int| from <= j < i ==> s[j] != '\n',
    ensures
        nl_pos(s, from) == nl_pos(s, i),
    decreases i - from,
{
    if from < i {
        lemma_nl_pos_step(s, from + 1, i);
    }
}

/// The line starting at `from`, as `str::lines` yields it: everything up
/// to the next newline, with one trailing carriage return stripped when
/// that newline exists.
pub open spec fn line_at(s: Seq<char>, from: int) -> Seq<char> {
    let e = nl_pos(s, from);
    let raw = s.subrange(from, e);
    if e < s.len() && raw.len() > 0 && raw.last() == '\r' {
        raw.drop_last()
    } else {
        raw
    }
}

/// The provider confirmed the ticket: the first line is exactly `yes` and
/// a nonempty remainder follows it, carrying the identity.
pub open spec fn cas_success(s: Seq<char>) -> bool {
    line_at(s, 0) == "yes"@ && nl_pos(s, 0) + 1 < s.len()
}

/// The identity the provider reported: the second line of the body.
pub open spec fn cas_identity(s: Seq<char>) -> Seq<char> {
    line_at(s, nl_pos(s, 0) + 1)
}

/// Index of the first newline at or after `from`.
fn find_newline(body: &str, from: usize) -> (r: usize)
    requires
        from <= body@.len(),
    ensures
        r == nl_pos(body@, from as int),
        from <= r <= body@.len(),
{
    let n = body.unicode_len();
    let mut i: usize = from;
    while i < n
        invariant
            from <= i <= n,
            n == body@.len(),
            forall|j: int| from <= j < i ==> body@[j] != '\n',
        decreases n - i,
    {
        if body.get_char(i) == '\n' {
            proof {
                lemma_nl_pos_step(body@, from as int, i as int);
            }
            return i;
        }
        i += 1;
    }
    proof {
        lemma_nl_pos_step(body@, from as int, n as int);
    }
    n
}

/// Where the line starting at `from` ends once a trailing carriage return
/// before a newline is stripped; the line is `body[from..end]`.
fn line_end(body: &str, from: usize, nl: usize) -> (r: usize)
    requires
        from <= nl <= body@.len(),
        nl == nl_pos(body@, from as int),
    ensures
        from <= r <= nl,
        line_at(body@, from as int) == body@.subrange(from as int, r as int),
{
    let n = body.unicode_len();
    if nl < n && nl > from && body.get_char(nl - 1) == '\r' {
        proof {
            let raw = body@.subrange(from as int, nl as int);
            assert(raw.last() == body@[nl - 1]);
            assert(raw.drop_last() =~= body@.subrange(from as int, nl - 1));
        }
        nl - 1
    } else {
        proof {
            let raw = body@.subrange(from as int, nl as int);
            if nl < n && nl > from {
                assert(raw.last() == body@[nl - 1]);
            }
        }
        nl
    }
}

/// Parse the provider's response body. `Some` carries the reported
/// identity exactly when the body confirms the ticket.
pub fn parse_cas_response(body: &str) -> (r: Option<String>)
    ensures
        r is Some <==> cas_success(body@),
        r matches Some(id) ==> id@ == cas_identity(body@),
{
    proof {
        reveal_strlit("yes");
    }
    let n = body.unicode_len();
    let nl1 = find_newline(body, 0);
    let e1 = line_end(body, 0, nl1);

    let first_is_yes = e1 == 3 && body.get_char(0) == 'y' && body.get_char(1) == 'e'
        && body.get_char(2) == 's';
    proof {
        let line = line_at(body@, 0);
        assert(line == body@.subrange(0, e1 as int));
        if first_is_yes {
            assert(line =~= "yes"@);
        } else if line == "yes"@ {
            assert(line.len() == 3);
            assert(line[0] == 'y' && line[1] == 'e' && line[2] == 's');
            assert(body@[0] == line[0] && body@[1] == line[1] && body@[2] == line[2]);
            assert(false);
        }
    }
    if !first_is_yes || nl1 + 1 >= n {
        return None;
    }
    let start = nl1 + 1;
    let nl2 = find_newline(body, start);
    let e2 = line_end(body, start, nl2);
    let identity = String::from_str(body.substring_char(start, e2));
    proof {
        assert(identity@ == cas_identity(body@));
    }
    Some(identity)
}

/// The callback's outcome: the client is either sent on to the voting
/// view or to the failure notice.
#[derive(Clone, Copy, Debug, PartialEq, Eq, Structural)]
pub enum SsoOutcome {
    Success,
    Failure,
}

/// The view of an optional response body.
pub open spec fn response_view(response: Option<&str>) -> Option<Seq<char>> {
    match response {
        Some(b) => Some(b@),
        None => None,
    }
}

/// What one callback at instant `now` does: on a confirming response the
/// ticket is recorded under the reported identity; on anything else -
/// no response, a refusal, or a full store - nothing changes.
pub open spec fn spec_sso_callback(
    s: StoreView,
    ticket: Seq<char>,
    response: Option<Seq<char>>,
    now: int,
) -> (StoreView, SsoOutcome) {
    match response {
        None => (s, SsoOutcome::Failure),
        Some(body) => {
            if cas_success(body) {
                match spec_insert_ticket(s, ticket, cas_identity(body), now).1 {
                    Ok(_) => (spec_insert_ticket(s, ticket, cas_identity(body), now).0,
                    SsoOutcome::Success),
                    Err(_) => (s, SsoOutcome::Failure),
                }
            } else {
                (s, SsoOutcome::Failure)
            }
        },
    }
}

/// Handle one callback carrying `ticket`, given the provider's response
/// body (or `None` when the round trip itself failed), stamping the
/// ticket with instant `now`.
pub fn sso_callback_at(store: &mut Store, ticket: String, response: Option<&str>, now: i64) -> (r:
    SsoOutcome)
    requires
        old(store).wf(),
    ensures
        final(store).wf(),
        (final(store)@, r) == spec_sso_callback(
            old(store)@,
            ticket@,
            response_view(response),
            now as int,
        ),
{
    let ghost ticket_view = ticket@;
    match response {
        None => SsoOutcome::Failure,
        Some(body) => {
            match parse_cas_response(body) {
                None => SsoOutcome::Failure,
                Some(identity) => {
                    match Ticket::insert_new_at(store, ticket, identity, now) {
                        Ok(_) => SsoOutcome::Success,
                        Err(_) => SsoOutcome::Failure,
                    }
                },
            }
        },
    }
}

/// Handle one callback stamped with the system clock.
pub fn sso_callback(store: &mut Store, ticket: String, response: Option<&str>) -> (r: SsoOutcome)
    requires
        old(store).wf(),
    ensures
        final(store).wf(),
        exists|now: int|
            0 <= now && (final(store)@, r) == #[trigger] spec_sso_callback(
                old(store)@,
                ticket@,
                response_view(response),
                now,
            ),
{
    let now = now_unix();
    let ghost ticket_view = ticket@;
    let r = sso_callback_at(store, ticket, response, now);
    proof {
        assert((store@, r) == spec_sso_callback(old(store)@, ticket_view, response_view(response),
            now as int));
    }
    r
}

} // verus!
