//! The subscribers and whether each has confirmed.

use crate::lookup::{first_where, is_first, lemma_first_found, lemma_first_missing};
use vstd::prelude::*;
use vstd::string::*;

verus! {

/// Where a subscriber stands.
#[derive(Clone, Copy, Debug, PartialEq, Eq, Structural)]
pub enum SubscriptionStatus {
    /// Signed up; the confirmation is outstanding.
    PendingConfirmation,
    /// Confirmed: issues are delivered to this subscriber.
    Confirmed,
}

/// One subscriber.
#[derive(Debug)]
pub struct Subscription {
    pub id: u128,
    pub email: String,
    pub status: SubscriptionStatus,
}

/// `Subscription`, as mathematical values.
pub struct SubscriptionView {
    pub id: u128,
    pub email: Seq<char>,
    pub status: SubscriptionStatus,
}

impl View for Subscription {
    type V = SubscriptionView;

    open spec fn view(&self) -> SubscriptionView {
        SubscriptionView { id: self.id, email: self.email@, status: self.status }
    }
}

/// No two subscribers share an address or an identifier.
pub open spec fn one_subscriber_per_email(rows: Seq<SubscriptionView>) -> bool {
    forall|i: int, j: int|
        0 <= i < j < rows.len() ==> (#[trigger] rows[i]).email != (#[trigger] rows[j]).email
            && rows[i].id != rows[j].id
}

/// The row of the subscriber with this identifier.
pub open spec fn subscriber_row(rows: Seq<SubscriptionView>, id: u128) -> Option<int> {
    first_where(rows, |row: SubscriptionView| row.id == id)
}

/// The table after the subscriber with this identifier was confirmed.
pub open spec fn with_confirmed(rows: Seq<SubscriptionView>, id: u128) -> Seq<SubscriptionView> {
    match subscriber_row(rows, id) {
        Some(i) => rows.update(
            i,
            SubscriptionView { id, email: rows[i].email, status: SubscriptionStatus::Confirmed },
        ),
        None => rows,
    }
}

/// Whether a subscriber with this address or this identifier is stored.
pub open spec fn is_taken(rows: Seq<SubscriptionView>, id: u128, email: Seq<char>) -> bool {
    exists|i: int| 0 <= i < rows.len() && ((#[trigger] rows[i]).id == id || rows[i].email == email)
}

/// The table of subscribers.
#[derive(Debug)]
pub struct SubscriptionTable {
    rows: Vec<Subscription>,
}

impl View for SubscriptionTable {
    type V = Seq<SubscriptionView>;

    closed spec fn view(&self) -> Seq<SubscriptionView> {
        self.rows@.map_values(|row: Subscription| row@)
    }
}

impl SubscriptionTable {
    /// Each address and each identifier belongs to at most one subscriber.
    pub open spec fn wf(&self) -> bool {
        one_subscriber_per_email(self@)
    }

    /// A table without subscribers.
    pub fn new() -> (table: SubscriptionTable)
        ensures
            table@ == Seq::<SubscriptionView>::empty(),
            table.wf(),
    {
        let table = SubscriptionTable { rows: Vec::new() };
        assert(table@ =~= Seq::<SubscriptionView>::empty());
        table
    }

    /// The number of subscribers.
    pub fn len(&self) -> (n: usize)
        ensures
            n == self@.len(),
    {
        self.rows.len()
    }

    /// The subscriber in row `i`.
    pub fn get(&self, i: usize) -> (row: &Subscription)
        requires
            i < self@.len(),
        ensures
            row@ == self@[i as int],
    {
        &self.rows[i]
    }

    /// Adds a subscriber at the end. An address or an identifier that is
    /// taken is refused: the table stays as it is and `false` comes back.
    pub fn insert(&mut self, subscription: Subscription) -> (added: bool)
        ensures
            added == !is_taken(old(self)@, subscription.id, subscription.email@),
            final(self)@ == if added {
                old(self)@.push(subscription@)
            } else {
                old(self)@
            },
            old(self).wf() ==> final(self).wf(),
    {
        let mut i: usize = 0;
        while i < self.rows.len()
            invariant
                i <= self.rows.len(),
                self@ == old(self)@,
                forall|k: int|
                    0 <= k < i ==> (#[trigger] self@[k]).id != subscription.id && self@[k].email
                        != subscription.email@,
            decreases self.rows.len() - i,
        {
            let row = &self.rows[i];
            assert(self@[i as int] == row@);
            if row.id == subscription.id || row.email == subscription.email {
                return false;
            }
            i += 1;
        }
        let ghost before = self@;
        let ghost added_row = subscription@;
        self.rows.push(subscription);
        assert(self@ =~= before.push(added_row));
        true
    }

    /// Marks the subscriber with this identifier as confirmed. An unknown
    /// identifier changes nothing.
    pub fn confirm_subscriber(&mut self, subscriber_id: u128)
        ensures
            final(self)@ == with_confirmed(old(self)@, subscriber_id),
            old(self).wf() ==> final(self).wf(),
    {
        let ghost wanted = |row: SubscriptionView| row.id == subscriber_id;
        let mut i: usize = 0;
        while i < self.rows.len()
            invariant
                i <= self.rows.len(),
                self@ == old(self)@,
                wanted == (|row: SubscriptionView| row.id == subscriber_id),
                forall|k: int| 0 <= k < i ==> !wanted(#[trigger] self@[k]),
            decreases self.rows.len() - i,
        {
            assert(self@[i as int] == self.rows[i as int]@);
            if self.rows[i].id == subscriber_id {
                let ghost before = self@;
                let confirmed = Subscription {
                    id: subscriber_id,
                    email: self.rows[i].email.clone(),
                    status: SubscriptionStatus::Confirmed,
                };
                proof {
                    assert(wanted(before[i as int]));
                    assert(is_first(before, wanted, i as int));
                    lemma_first_found(before, wanted, i as int);
                }
                self.rows.set(i, confirmed);
                proof {
                    let after = before.update(
                        i as int,
                        SubscriptionView {
                            id: subscriber_id,
                            email: before[i as int].email,
                            status: SubscriptionStatus::Confirmed,
                        },
                    );
                    assert(self@ =~= after);
                    if one_subscriber_per_email(before) {
                        assert forall|a: int, b: int| 0 <= a < b < after.len() implies (
                        #[trigger] after[a]).email != (#[trigger] after[b]).email && after[a].id
                            != after[b].id by {
                            assert(before[a].email != before[b].email && before[a].id
                                != before[b].id);
                        }
                    }
                }
                return ;
            }
            assert(!wanted(self@[i as int]));
            i += 1;
        }
        proof {
            lemma_first_missing(self@, wanted);
        }
    }
}

} // verus!
