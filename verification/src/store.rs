//! The relational store, modelled in memory.
//!
//! Three tables back the service: meals, votes and tickets. The store is
//! the sole owner of the rows; request handlers read and write it through
//! the operations of the surrounding modules. Its well-formedness carries
//! the uniqueness guarantees the tables are created with: one meal row per
//! (year, month, day, period) tuple, one vote row per (meal, voter) pair,
//! and strictly increasing ticket ids.
use vstd::prelude::*;

verus! {

/// One serving window on one calendar date of the service day.
#[derive(Clone, Copy, Debug, PartialEq, Eq, Structural)]
pub struct Meal {
    pub id: i32,
    pub year: i32,
    pub month: i32,
    pub day: i32,
    /// Integer code of the period, as `MealPeriod::as_int` gives it.
    pub meal_period: i32,
}

/// One user's score for one meal.
pub struct Vote {
    pub id: i32,
    pub meal_id: i32,
    pub voter_caseid: String,
    pub score: i32,
}

/// A credential issued after a successful external sign-on.
pub struct Ticket {
    pub id: i32,
    pub ticket: String,
    pub case_id: String,
    /// Issuance instant, seconds since the epoch.
    pub timestamp: i64,
}

/// Mathematical image of a vote row.
#[verifier::ext_equal]
pub struct VoteView {
    pub id: int,
    pub meal_id: int,
    pub voter_caseid: Seq<char>,
    pub score: int,
}

/// Mathematical image of a ticket row.
#[verifier::ext_equal]
pub struct TicketView {
    pub id: int,
    pub ticket: Seq<char>,
    pub case_id: Seq<char>,
    pub timestamp: int,
}

/// Mathematical image of the whole store.
#[verifier::ext_equal]
pub struct StoreView {
    pub meals: Seq<Meal>,
    pub votes: Seq<VoteView>,
    pub tickets: Seq<TicketView>,
    pub next_ticket_id: int,
}

impl View for Vote {
    type V = VoteView;

    open spec fn view(&self) -> VoteView {
        VoteView {
            id: self.id as int,
            meal_id: self.meal_id as int,
            voter_caseid: self.voter_caseid@,
            score: self.score as int,
        }
    }
}

impl View for Ticket {
    type V = TicketView;

    open spec fn view(&self) -> TicketView {
        TicketView {
            id: self.id as int,
            ticket: self.ticket@,
            case_id: self.case_id@,
            timestamp: self.timestamp as int,
        }
    }
}

impl Clone for Ticket {
    fn clone(&self) -> (r: Self)
        ensures
            r == *self,
    {
        Ticket {
            id: self.id,
            ticket: self.ticket.clone(),
            case_id: self.case_id.clone(),
            timestamp: self.timestamp,
        }
    }
}

/// Two meal rows describe the same serving window.
pub open spec fn same_window(a: Meal, b: Meal) -> bool {
    a.year == b.year && a.month == b.month && a.day == b.day && a.meal_period == b.meal_period
}

impl StoreView {
    /// Meal rows are numbered 1.. in insertion order, each window has at
    /// most one row, and the period code is one of the four.
    pub open spec fn meals_wf(self) -> bool {
        &&& forall|i: int|
            0 <= i < self.meals.len() ==> (#[trigger] self.meals[i]).id == i + 1
        &&& forall|i: int, j: int|
            0 <= i < self.meals.len() && 0 <= j < self.meals.len() && i != j ==> !same_window(
                #[trigger] self.meals[i],
                #[trigger] self.meals[j],
            )
        &&& forall|i: int|
            0 <= i < self.meals.len() ==> 0 <= (#[trigger] self.meals[i]).meal_period <= 3
        &&& self.meals.len() <= i32::MAX
    }

    /// Vote rows are numbered 1.. in insertion order, reference an
    /// existing meal, carry a score in 0..=10, and no (meal, voter) pair
    /// appears twice.
    pub open spec fn votes_wf(self) -> bool {
        &&& forall|i: int|
            0 <= i < self.votes.len() ==> (#[trigger] self.votes[i]).id == i + 1
        &&& forall|i: int|
            0 <= i < self.votes.len() ==> 1 <= (#[trigger] self.votes[i]).meal_id
                <= self.meals.len()
        &&& forall|i: int|
            0 <= i < self.votes.len() ==> 0 <= (#[trigger] self.votes[i]).score <= 10
        &&& forall|i: int, j: int|
            0 <= i < self.votes.len() && 0 <= j < self.votes.len() && i != j ==> !((
            #[trigger] self.votes[i]).meal_id == (#[trigger] self.votes[j]).meal_id
                && self.votes[i].voter_caseid == self.votes[j].voter_caseid)
        &&& self.votes.len() <= i32::MAX
    }

    /// Ticket ids are pairwise distinct and below the issuance counter.
    pub open spec fn tickets_wf(self) -> bool {
        &&& forall|i: int, j: int|
            0 <= i < j < self.tickets.len() ==> (#[trigger] self.tickets[i]).id != (
            #[trigger] self.tickets[j]).id
        &&& forall|i: int|
            0 <= i < self.tickets.len() ==> 1 <= (#[trigger] self.tickets[i]).id
                < self.next_ticket_id
        &&& 1 <= self.next_ticket_id <= i32::MAX
    }

    pub open spec fn wf(self) -> bool {
        self.meals_wf() && self.votes_wf() && self.tickets_wf()
    }

    pub open spec fn empty() -> StoreView {
        StoreView {
            meals: Seq::empty(),
            votes: Seq::empty(),
            tickets: Seq::empty(),
            next_ticket_id: 1,
        }
    }
}

/// The in-memory relational store.
pub struct Store {
    pub meals: Vec<Meal>,
    pub votes: Vec<Vote>,
    pub tickets: Vec<Ticket>,
    pub next_ticket_id: i32,
}

impl View for Store {
    type V = StoreView;

    open spec fn view(&self) -> StoreView {
        StoreView {
            meals: self.meals@,
            votes: self.votes@.map_values(|v: Vote| v@),
            tickets: self.tickets@.map_values(|t: Ticket| t@),
            next_ticket_id: self.next_ticket_id as int,
        }
    }
}

impl Store {
    pub open spec fn wf(&self) -> bool {
        self@.wf()
    }

    /// A fresh store with all three tables empty.
    pub fn new() -> (s: Store)
        ensures
            s.wf(),
            s@ == StoreView::empty(),
    {
        let s = Store { meals: Vec::new(), votes: Vec::new(), tickets: Vec::new(), next_ticket_id: 1 };
        proof {
            assert(s@ =~~= StoreView::empty());
        }
        s
    }
}

} // verus!
