//! The relational store as plain values: the four tables, and the unit of
//! work in which a publish request stages what it writes until it commits.

use crate::delivery_queue::{one_row_per_delivery, DeliveryQueue, RowView};
use crate::idempotency::key::IdempotencyKey;
use crate::idempotency::persistence::RecordView;
use crate::idempotency::table::{one_record_per_key, IdempotencyTable};
use crate::issue_delivery_worker::{
    after_iteration, free_row, lemma_iteration_keeps_order, queues_issue, DeliveryTask,
    IssueView, NewsletterIssue, TaskView,
};
use crate::newsletter_issues::{
    issue_of, one_issue_per_id, IssueTable, StoredIssue, StoredIssueView,
};
use crate::subscriptions::{
    one_subscriber_per_email, SubscriptionStatus, SubscriptionTable, SubscriptionView,
};
use vstd::prelude::*;

verus! {

/// Everything that is persisted.
#[derive(Debug)]
pub struct Store {
    pub idempotency: IdempotencyTable,
    pub newsletter_issues: IssueTable,
    pub issue_delivery_queue: DeliveryQueue,
    pub subscriptions: SubscriptionTable,
}

/// `Store`, as mathematical values.
pub struct StoreView {
    pub idempotency: Seq<RecordView>,
    pub issues: Seq<StoredIssueView>,
    pub queue: Seq<RowView>,
    pub subscriptions: Seq<SubscriptionView>,
}

impl View for Store {
    type V = StoreView;

    open spec fn view(&self) -> StoreView {
        StoreView {
            idempotency: self.idempotency@,
            issues: self.newsletter_issues@,
            queue: self.issue_delivery_queue@,
            subscriptions: self.subscriptions@,
        }
    }
}

/// Every pending delivery is of an issue that is stored.
pub open spec fn deliveries_have_issues(
    queue: Seq<RowView>,
    issues: Seq<StoredIssueView>,
) -> bool {
    forall|i: int|
        0 <= i < queue.len() ==> issue_of(issues, (#[trigger] queue[i]).task.issue_id) is Some
}

/// The constraints that the store enforces: one record per caller and key,
/// one issue per identifier, one row per delivery, one subscriber per
/// address, and no delivery without its issue.
pub open spec fn consistent(store: StoreView) -> bool {
    &&& one_record_per_key(store.idempotency)
    &&& one_issue_per_id(store.issues)
    &&& one_row_per_delivery(store.queue)
    &&& one_subscriber_per_email(store.subscriptions)
    &&& deliveries_have_issues(store.queue, store.issues)
}

impl Store {
    /// The store's constraints hold.
    pub open spec fn wf(&self) -> bool {
        consistent(self@)
    }

    /// A store with four empty tables.
    pub fn new() -> (store: Store)
        ensures
            store.wf(),
            store@.idempotency.len() == 0,
            store@.issues.len() == 0,
            store@.queue.len() == 0,
            store@.subscriptions.len() == 0,
    {
        Store {
            idempotency: IdempotencyTable::new(),
            newsletter_issues: IssueTable::new(),
            issue_delivery_queue: DeliveryQueue::new(),
            subscriptions: SubscriptionTable::new(),
        }
    }
}

/// An iteration of the worker leaves the store's constraints in force.
pub proof fn lemma_iteration_keeps_consistency(store: StoreView, transport_accepts: bool)
    requires
        consistent(store),
    ensures
        consistent(
            StoreView {
                queue: after_iteration(store.queue, store.issues, transport_accepts),
                ..store
            },
        ),
{
    let after = after_iteration(store.queue, store.issues, transport_accepts);
    lemma_iteration_keeps_order(store.queue, store.issues, transport_accepts);
    assert forall|k: int| 0 <= k < after.len() implies issue_of(
        store.issues,
        (#[trigger] after[k]).task.issue_id,
    ) is Some by {
        assert(queues_issue(store.queue, after[k].task.issue_id));
        let i = choose|i: int|
            0 <= i < store.queue.len() && (#[trigger] store.queue[i]).task.issue_id
                == after[k].task.issue_id;
        assert(issue_of(store.issues, store.queue[i].task.issue_id) is Some);
    }
}

/// The task that delivers issue `issue_id` to `email`, not yet tried.
pub open spec fn first_attempt(issue_id: u128, email: Seq<char>) -> TaskView {
    TaskView { issue_id, email, n_retries: 0 }
}

/// The tasks that publishing issue `issue_id` creates: one for each
/// confirmed subscriber, in the order of the subscribers, and none for any
/// other subscriber.
pub open spec fn tasks_for(subscribers: Seq<SubscriptionView>, issue_id: u128) -> Seq<TaskView>
    decreases subscribers.len(),
{
    if subscribers.len() == 0 {
        Seq::empty()
    } else {
        let earlier = tasks_for(subscribers.drop_last(), issue_id);
        if subscribers.last().status == SubscriptionStatus::Confirmed {
            earlier.push(first_attempt(issue_id, subscribers.last().email))
        } else {
            earlier
        }
    }
}

/// The free rows that hold `tasks`.
pub open spec fn staged_rows(tasks: Seq<TaskView>) -> Seq<RowView> {
    tasks.map_values(|task: TaskView| free_row(task))
}

/// Whether a confirmed subscriber has the address `email`.
pub open spec fn is_confirmed_address(
    subscribers: Seq<SubscriptionView>,
    email: Seq<char>,
) -> bool {
    exists|i: int|
        0 <= i < subscribers.len() && (#[trigger] subscribers[i]).status
            == SubscriptionStatus::Confirmed && subscribers[i].email == email
}

/// What `tasks_for` holds: each task is a first attempt for the issue and
/// goes to a confirmed subscriber, each confirmed subscriber gets a task,
/// and where no two subscribers share an address no two tasks do.
pub proof fn lemma_tasks_for(subscribers: Seq<SubscriptionView>, issue_id: u128)
    ensures
        tasks_for(subscribers, issue_id).len() <= subscribers.len(),
        forall|k: int|
            0 <= k < tasks_for(subscribers, issue_id).len() ==> {
                let task = #[trigger] tasks_for(subscribers, issue_id)[k];
                task == first_attempt(issue_id, task.email) && is_confirmed_address(
                    subscribers,
                    task.email,
                )
            },
        forall|i: int|
            0 <= i < subscribers.len() && (#[trigger] subscribers[i]).status
                == SubscriptionStatus::Confirmed ==> tasks_for(subscribers, issue_id).contains(
                first_attempt(issue_id, subscribers[i].email),
            ),
        one_subscriber_per_email(subscribers) ==> forall|k: int, l: int|
            0 <= k < l < tasks_for(subscribers, issue_id).len() ==> (#[trigger] tasks_for(
                subscribers,
                issue_id,
            )[k]).email != (#[trigger] tasks_for(subscribers, issue_id)[l]).email,
    decreases subscribers.len(),
{
    let tasks = tasks_for(subscribers, issue_id);
    if subscribers.len() > 0 {
        let before = subscribers.drop_last();
        let earlier = tasks_for(before, issue_id);
        let last = subscribers.last();
        lemma_tasks_for(before, issue_id);
        assert forall|k: int| 0 <= k < tasks.len() implies {
            let task = #[trigger] tasks[k];
            task == first_attempt(issue_id, task.email) && is_confirmed_address(
                subscribers,
                task.email,
            )
        } by {
            if k < earlier.len() {
                assert(tasks[k] == earlier[k]);
                assert(is_confirmed_address(before, earlier[k].email));
                let i = choose|i: int|
                    0 <= i < before.len() && (#[trigger] before[i]).status
                        == SubscriptionStatus::Confirmed && before[i].email == earlier[k].email;
                assert(subscribers[i] == before[i]);
            } else {
                assert(subscribers[subscribers.len() - 1] == last);
            }
        }
        assert forall|i: int|
            0 <= i < subscribers.len() && (#[trigger] subscribers[i]).status
                == SubscriptionStatus::Confirmed implies tasks.contains(
            first_attempt(issue_id, subscribers[i].email),
        ) by {
            if i < before.len() {
                assert(before[i] == subscribers[i]);
                let wanted = first_attempt(issue_id, subscribers[i].email);
                assert(earlier.contains(wanted));
                let k = choose|k: int| 0 <= k < earlier.len() && earlier[k] == wanted;
                assert(tasks[k] == wanted);
            } else {
                assert(tasks[tasks.len() - 1] == first_attempt(issue_id, last.email));
            }
        }
        if one_subscriber_per_email(subscribers) {
            assert(one_subscriber_per_email(before)) by {
                assert forall|i: int, j: int| 0 <= i < j < before.len() implies (
                #[trigger] before[i]).email != (#[trigger] before[j]).email && before[i].id
                    != before[j].id by {
                    assert(before[i] == subscribers[i] && before[j] == subscribers[j]);
                }
            }
            assert forall|k: int, l: int| 0 <= k < l < tasks.len() implies (
            #[trigger] tasks[k]).email != (#[trigger] tasks[l]).email by {
                if l < earlier.len() {
                    assert(tasks[k] == earlier[k] && tasks[l] == earlier[l]);
                } else {
                    assert(tasks[k] == earlier[k]);
                    assert(is_confirmed_address(before, earlier[k].email));
                    let i = choose|i: int|
                        0 <= i < before.len() && (#[trigger] before[i]).status
                            == SubscriptionStatus::Confirmed && before[i].email
                            == earlier[k].email;
                    assert(subscribers[i] == before[i]);
                    assert(subscribers[subscribers.len() - 1] == last);
                    assert(subscribers[i].email != subscribers[subscribers.len() - 1].email);
                }
            }
        }
    }
}

/// Why the store turned a write down.
#[derive(Clone, Copy, Debug, PartialEq, Eq, Structural)]
pub enum StoreError {
    /// Another request holds the key and has not finished. A caller is
    /// suspended here until the holder commits or rolls back; this is not a
    /// failure.
    ContentionWait,
    /// The write would break a constraint of the store.
    ConstraintViolation,
    /// A stored record cannot be read back.
    UnreadableRecord,
}

/// The writes of one publish request, staged until the request commits. No
/// other request sees them before that, and a unit of work that is rolled
/// back or lost leaves no trace of them.
#[derive(Debug)]
pub struct UnitOfWork {
    pub user_id: u128,
    pub idempotency_key: IdempotencyKey,
    pub issue: Option<StoredIssue>,
    pub tasks: Vec<DeliveryTask>,
}

/// `UnitOfWork`, as mathematical values.
pub struct UnitOfWorkView {
    pub user_id: u128,
    pub key: Seq<char>,
    pub issue: Option<StoredIssueView>,
    pub tasks: Seq<TaskView>,
}

impl View for UnitOfWork {
    type V = UnitOfWorkView;

    open spec fn view(&self) -> UnitOfWorkView {
        UnitOfWorkView {
            user_id: self.user_id,
            key: self.idempotency_key@,
            issue: match self.issue {
                Some(issue) => Some(issue@),
                None => None,
            },
            tasks: self.tasks@.map_values(|task: DeliveryTask| task@),
        }
    }
}

/// What is staged fits together: tasks are staged only with their issue,
/// and no two of them go to the same address.
pub open spec fn staged_ok(work: UnitOfWorkView) -> bool {
    &&& forall|k: int|
        0 <= k < work.tasks.len() ==> work.issue is Some && (#[trigger] work.tasks[k]).issue_id
            == work.issue->0.id
    &&& forall|k: int, l: int|
        0 <= k < l < work.tasks.len() ==> (#[trigger] work.tasks[k]).email != (
        #[trigger] work.tasks[l]).email
}

impl UnitOfWork {
    /// What is staged fits together.
    pub open spec fn wf(&self) -> bool {
        staged_ok(self@)
    }

    /// Stages a new issue under `newsletter_issue_id`. An identifier that an
    /// issue in `issues` has already is refused at once, and so is a second
    /// issue in one unit of work; then nothing changes.
    pub fn insert_newsletter_issue(
        &mut self,
        issues: &IssueTable,
        newsletter_issue_id: u128,
        title: &str,
        text_content: &str,
        html_content: &str,
    ) -> (r: Result<u128, StoreError>)
        ensures
            match r {
                Ok(id) => {
                    &&& old(self)@.issue is None
                    &&& issue_of(issues@, newsletter_issue_id) is None
                    &&& id == newsletter_issue_id
                    &&& final(self)@ == (UnitOfWorkView {
                        issue: Some(
                            StoredIssueView {
                                id: newsletter_issue_id,
                                issue: IssueView {
                                    title: title@,
                                    text_content: text_content@,
                                    html_content: html_content@,
                                },
                            },
                        ),
                        ..old(self)@
                    })
                },
                Err(e) => {
                    &&& old(self)@.issue is Some || issue_of(issues@, newsletter_issue_id) is Some
                    &&& e == StoreError::ConstraintViolation
                    &&& final(self)@ == old(self)@
                },
            },
            old(self).wf() ==> final(self).wf(),
    {
        if self.issue.is_some() || issues.contains(newsletter_issue_id) {
            return Err(StoreError::ConstraintViolation);
        }
        self.issue = Some(
            StoredIssue {
                newsletter_issue_id,
                issue: NewsletterIssue {
                    title: title.to_owned(),
                    text_content: text_content.to_owned(),
                    html_content: html_content.to_owned(),
                },
            },
        );
        Ok(newsletter_issue_id)
    }

    /// Stages one delivery task, with a retry counter of 0, for each
    /// subscriber that is confirmed right now, and none for the others. The
    /// issue must be the one staged in this unit of work, and its tasks must
    /// not be staged yet; otherwise nothing changes.
    pub fn enqueue_delivery_tasks(
        &mut self,
        subscriptions: &SubscriptionTable,
        newsletter_issue_id: u128,
    ) -> (r: Result<(), StoreError>)
        ensures
            r is Ok <==> (old(self)@.issue is Some && old(self)@.issue->0.id
                == newsletter_issue_id && old(self)@.tasks.len() == 0),
            r is Ok ==> final(self)@ == (UnitOfWorkView {
                tasks: tasks_for(subscriptions@, newsletter_issue_id),
                ..old(self)@
            }),
            r matches Err(e) ==> e == StoreError::ConstraintViolation && final(self)@ == old(
                self,
            )@,
            old(self).wf() && subscriptions.wf() ==> final(self).wf(),
    {
        let staged = match &self.issue {
            Some(issue) => issue.newsletter_issue_id == newsletter_issue_id,
            None => false,
        };
        if !staged || self.tasks.len() != 0 {
            return Err(StoreError::ConstraintViolation);
        }
        let ghost subscribers = subscriptions@;
        let mut i: usize = 0;
        while i < subscriptions.len()
            invariant
                i <= subscribers.len(),
                subscribers == subscriptions@,
                self.user_id == old(self).user_id,
                self.idempotency_key == old(self).idempotency_key,
                self.issue == old(self).issue,
                self.tasks@.map_values(|task: DeliveryTask| task@) == tasks_for(
                    subscribers.take(i as int),
                    newsletter_issue_id,
                ),
            decreases subscribers.len() - i,
        {
            let subscriber = subscriptions.get(i);
            let ghost before = self.tasks@;
            proof {
                assert(subscribers.take(i + 1).drop_last() =~= subscribers.take(i as int));
                assert(subscribers.take(i + 1).last() == subscribers[i as int]);
            }
            if subscriber.status == SubscriptionStatus::Confirmed {
                let task = DeliveryTask {
                    newsletter_issue_id,
                    subscriber_email: subscriber.email.clone(),
                    n_retries: 0,
                };
                let ghost added = task@;
                self.tasks.push(task);
                assert(self.tasks@.map_values(|task: DeliveryTask| task@) =~= before.map_values(
                    |task: DeliveryTask| task@,
                ).push(added));
            }
            i += 1;
        }
        proof {
            assert(subscribers.take(subscribers.len() as int) =~= subscribers);
            lemma_tasks_for(subscribers, newsletter_issue_id);
            assert(self@.tasks == tasks_for(subscribers, newsletter_issue_id));
        }
        Ok(())
    }
}

} // verus!
