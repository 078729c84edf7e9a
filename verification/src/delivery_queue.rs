//! The delivery queue: the pending tasks, each with its retry counter, and
//! the claims that workers hold on them.

use crate::issue_delivery_worker::{DeliveryTask, TaskView};
use crate::lookup::{first_where, is_first, lemma_first_found, lemma_first_missing};
use vstd::prelude::*;
use vstd::string::*;

verus! {

/// One row of the queue: a task, and whether an open transaction holds it.
#[derive(Debug)]
pub struct QueueRow {
    pub task: DeliveryTask,
    pub claimed: bool,
}

/// `QueueRow`, as mathematical values.
pub struct RowView {
    pub task: TaskView,
    pub claimed: bool,
}

impl View for QueueRow {
    type V = RowView;

    open spec fn view(&self) -> RowView {
        RowView { task: self.task@, claimed: self.claimed }
    }
}

/// The row is for this issue and this subscriber.
pub open spec fn is_for(row: RowView, issue_id: u128, email: Seq<char>) -> bool {
    row.task.issue_id == issue_id && row.task.email == email
}

/// No two rows are for the same issue and the same subscriber.
pub open spec fn one_row_per_delivery(rows: Seq<RowView>) -> bool {
    forall|i: int, j: int|
        0 <= i < j < rows.len() ==> !is_for(
            #[trigger] rows[i],
            (#[trigger] rows[j]).task.issue_id,
            rows[j].task.email,
        )
}

/// The first row that no transaction holds.
pub open spec fn first_free(rows: Seq<RowView>) -> Option<int> {
    first_where(rows, |row: RowView| !row.claimed)
}

/// The row for this issue and this subscriber.
pub open spec fn row_of(rows: Seq<RowView>, issue_id: u128, email: Seq<char>) -> Option<int> {
    first_where(rows, |row: RowView| is_for(row, issue_id, email))
}

/// The task that a claim takes: that of the first free row.
pub open spec fn claimable(rows: Seq<RowView>) -> Option<TaskView> {
    match first_free(rows) {
        Some(i) => Some(rows[i].task),
        None => None,
    }
}

/// The queue after a claim: the first free row is held, nothing else moves.
pub open spec fn after_claim(rows: Seq<RowView>) -> Seq<RowView> {
    match first_free(rows) {
        Some(i) => rows.update(i, RowView { task: rows[i].task, claimed: true }),
        None => rows,
    }
}

/// The queue after the delivery's row was deleted.
pub open spec fn after_delete(rows: Seq<RowView>, issue_id: u128, email: Seq<char>) -> Seq<
    RowView,
> {
    match row_of(rows, issue_id, email) {
        Some(i) => rows.remove(i),
        None => rows,
    }
}

/// The queue after the delivery's counter was set to `n_retries` and its row
/// was let go.
pub open spec fn after_retry(
    rows: Seq<RowView>,
    issue_id: u128,
    email: Seq<char>,
    n_retries: u16,
) -> Seq<RowView> {
    match row_of(rows, issue_id, email) {
        Some(i) => rows.update(
            i,
            RowView { task: TaskView { issue_id, email, n_retries }, claimed: false },
        ),
        None => rows,
    }
}

/// The queue after the delivery's row was let go unchanged.
pub open spec fn after_release(rows: Seq<RowView>, issue_id: u128, email: Seq<char>) -> Seq<
    RowView,
> {
    match row_of(rows, issue_id, email) {
        Some(i) => rows.update(i, RowView { task: rows[i].task, claimed: false }),
        None => rows,
    }
}

/// The queue with one more free row at its end, unless the delivery already
/// has a row.
pub open spec fn after_insert(rows: Seq<RowView>, task: TaskView) -> Seq<RowView> {
    if row_of(rows, task.issue_id, task.email) is Some {
        rows
    } else {
        rows.push(RowView { task, claimed: false })
    }
}

/// The persisted set of pending deliveries. It is the only record of pending
/// work, so any number of workers can share it.
#[derive(Debug)]
pub struct DeliveryQueue {
    rows: Vec<QueueRow>,
}

impl View for DeliveryQueue {
    type V = Seq<RowView>;

    closed spec fn view(&self) -> Seq<RowView> {
        self.rows@.map_values(|row: QueueRow| row@)
    }
}

impl DeliveryQueue {
    /// Each delivery has at most one row.
    pub open spec fn wf(&self) -> bool {
        one_row_per_delivery(self@)
    }

    /// A queue without rows.
    pub fn new() -> (queue: DeliveryQueue)
        ensures
            queue@ == Seq::<RowView>::empty(),
            queue.wf(),
    {
        let queue = DeliveryQueue { rows: Vec::new() };
        assert(queue@ =~= Seq::<RowView>::empty());
        queue
    }

    /// The number of rows, claimed ones included.
    pub fn len(&self) -> (n: usize)
        ensures
            n == self@.len(),
    {
        self.rows.len()
    }

    /// The tasks of all rows, in the order of the rows.
    pub fn tasks(&self) -> (tasks: Vec<DeliveryTask>)
        ensures
            tasks@.len() == self@.len(),
            forall|i: int| 0 <= i < self@.len() ==> (#[trigger] tasks@[i])@ == self@[i].task,
    {
        let mut tasks: Vec<DeliveryTask> = Vec::new();
        let mut i: usize = 0;
        while i < self.rows.len()
            invariant
                i <= self.rows.len(),
                tasks@.len() == i,
                forall|k: int| 0 <= k < i ==> (#[trigger] tasks@[k])@ == self@[k].task,
            decreases self.rows.len() - i,
        {
            tasks.push(self.rows[i].task.duplicate());
            i += 1;
        }
        tasks
    }

    /// The index of the delivery's row.
    fn find(&self, newsletter_issue_id: u128, subscriber_email: &str) -> (found: Option<usize>)
        ensures
            match found {
                Some(i) => row_of(self@, newsletter_issue_id, subscriber_email@) == Some(i as int),
                None => row_of(self@, newsletter_issue_id, subscriber_email@) is None,
            },
    {
        let ghost wanted = |row: RowView| is_for(row, newsletter_issue_id, subscriber_email@);
        let email = String::from_str(subscriber_email);
        let mut i: usize = 0;
        while i < self.rows.len()
            invariant
                i <= self.rows.len(),
                email@ == subscriber_email@,
                wanted == (|row: RowView| is_for(row, newsletter_issue_id, subscriber_email@)),
                forall|k: int| 0 <= k < i ==> !wanted(#[trigger] self@[k]),
            decreases self.rows.len() - i,
        {
            let row = &self.rows[i];
            assert(self@[i as int] == row@);
            if row.task.newsletter_issue_id == newsletter_issue_id && row.task.subscriber_email
                == email {
                proof {
                    assert(wanted(self@[i as int]));
                    assert(is_first(self@, wanted, i as int));
                    lemma_first_found(self@, wanted, i as int);
                }
                return Some(i);
            }
            assert(!wanted(self@[i as int]));
            i += 1;
        }
        proof {
            lemma_first_missing(self@, wanted);
        }
        None
    }

    /// Adds a free row for `task` at the end. A delivery that already has a
    /// row is not added again, and `false` comes back.
    pub fn insert(&mut self, task: DeliveryTask) -> (added: bool)
        ensures
            final(self)@ == after_insert(old(self)@, task@),
            added == (row_of(old(self)@, task@.issue_id, task@.email) is None),
            old(self).wf() ==> final(self).wf(),
    {
        if self.find(task.newsletter_issue_id, task.subscriber_email.as_str()).is_some() {
            return false;
        }
        let ghost before = self@;
        let ghost added_row = RowView { task: task@, claimed: false };
        self.rows.push(QueueRow { task, claimed: false });
        proof {
            assert(self@ =~= before.push(added_row));
            if one_row_per_delivery(before) {
                crate::lookup::lemma_first_where(
                    before,
                    |row: RowView| is_for(row, added_row.task.issue_id, added_row.task.email),
                );
                assert forall|i: int, j: int| 0 <= i < j < self@.len() implies !is_for(
                    #[trigger] self@[i],
                    (#[trigger] self@[j]).task.issue_id,
                    self@[j].task.email,
                ) by {
                    if j < before.len() {
                        assert(self@[i] == before[i] && self@[j] == before[j]);
                    } else {
                        assert(self@[i] == before[i]);
                        assert(!(|row: RowView|
                            is_for(row, added_row.task.issue_id, added_row.task.email))(before[i]));
                    }
                }
            }
        }
        true
    }

    /// Adds a free row for each of `tasks` at the end, in their order. The
    /// caller answers for the deliveries being new to the queue.
    pub(crate) fn append(&mut self, tasks: Vec<DeliveryTask>)
        ensures
            final(self)@ == old(self)@ + tasks@.map_values(|task: DeliveryTask| task@).map_values(
                |task: TaskView| RowView { task, claimed: false },
            ),
    {
        let ghost views = tasks@.map_values(|task: DeliveryTask| task@).map_values(
            |task: TaskView| RowView { task, claimed: false },
        );
        let mut tasks = tasks;
        let mut i: usize = 0;
        let n = tasks.len();
        while i < n
            invariant
                i <= n,
                n == tasks.len(),
                views == tasks@.map_values(|task: DeliveryTask| task@).map_values(
                    |task: TaskView| RowView { task, claimed: false },
                ),
                self@ == old(self)@ + views.take(i as int),
            decreases n - i,
        {
            let ghost before = self@;
            let task = tasks[i].duplicate();
            self.rows.push(QueueRow { task, claimed: false });
            assert(self@ =~= before.push(views[i as int]));
            assert(self@ =~= old(self)@ + views.take(i + 1));
            i += 1;
        }
        assert(views.take(n as int) =~= views);
    }

    /// Claims one task for the caller: the first row that no transaction
    /// holds becomes held and its task comes back. Rows that others hold are
    /// passed over. Without a free row nothing changes.
    pub fn dequeue_task(&mut self) -> (claimed: Option<DeliveryTask>)
        ensures
            final(self)@ == after_claim(old(self)@),
            match claimed {
                Some(task) => claimable(old(self)@) == Some(task@),
                None => claimable(old(self)@) is None,
            },
            old(self).wf() ==> final(self).wf(),
    {
        let ghost free = |row: RowView| !row.claimed;
        let mut i: usize = 0;
        while i < self.rows.len()
            invariant
                i <= self.rows.len(),
                self@ == old(self)@,
                free == (|row: RowView| !row.claimed),
                forall|k: int| 0 <= k < i ==> !free(#[trigger] self@[k]),
            decreases self.rows.len() - i,
        {
            if !self.rows[i].claimed {
                let task = self.rows[i].task.duplicate();
                let held = QueueRow { task: self.rows[i].task.duplicate(), claimed: true };
                let ghost before = self@;
                proof {
                    assert(free(before[i as int]));
                    assert(is_first(before, free, i as int));
                    lemma_first_found(before, free, i as int);
                }
                self.rows.set(i, held);
                proof {
                    assert(self@ =~= before.update(
                        i as int,
                        RowView { task: before[i as int].task, claimed: true },
                    ));
                    lemma_update_keeps_deliveries(before, i as int, true);
                }
                return Some(task);
            }
            assert(!free(self@[i as int]));
            i += 1;
        }
        proof {
            lemma_first_missing(self@, free);
        }
        None
    }

    /// Deletes the delivery's row, which ends the transaction that held it.
    /// A delivery without a row leaves the queue as it is.
    pub fn delete_task(&mut self, newsletter_issue_id: u128, subscriber_email: &str)
        ensures
            final(self)@ == after_delete(old(self)@, newsletter_issue_id, subscriber_email@),
            old(self).wf() ==> final(self).wf(),
    {
        if let Some(i) = self.find(newsletter_issue_id, subscriber_email) {
            let ghost before = self@;
            self.rows.remove(i);
            proof {
                assert(self@ =~= before.remove(i as int));
                lemma_remove_keeps_deliveries(before, i as int);
            }
        }
    }

    /// Raises the counter of the delivery's row by one and lets the row go,
    /// so that any worker may claim it again. `n_retries` is the counter
    /// that the task was claimed with: the row is left with one more.
    pub fn increment_retries(
        &mut self,
        newsletter_issue_id: u128,
        subscriber_email: &str,
        n_retries: u16,
    )
        requires
            n_retries < u16::MAX,
        ensures
            final(self)@ == after_retry(
                old(self)@,
                newsletter_issue_id,
                subscriber_email@,
                (n_retries + 1) as u16,
            ),
            old(self).wf() ==> final(self).wf(),
    {
        if let Some(i) = self.find(newsletter_issue_id, subscriber_email) {
            let ghost before = self@;
            let task = DeliveryTask {
                newsletter_issue_id,
                subscriber_email: self.rows[i].task.subscriber_email.clone(),
                n_retries: n_retries + 1,
            };
            proof {
                crate::lookup::lemma_first_where(
                    before,
                    |row: RowView| is_for(row, newsletter_issue_id, subscriber_email@),
                );
            }
            self.rows.set(i, QueueRow { task, claimed: false });
            proof {
                let row = RowView {
                    task: TaskView {
                        issue_id: newsletter_issue_id,
                        email: subscriber_email@,
                        n_retries: (n_retries + 1) as u16,
                    },
                    claimed: false,
                };
                assert(self@ =~= before.update(i as int, row));
                lemma_rewrite_keeps_deliveries(before, i as int, row);
            }
        }
    }

    /// Lets the delivery's row go unchanged: the transaction that held it was
    /// rolled back.
    pub fn release(&mut self, newsletter_issue_id: u128, subscriber_email: &str)
        ensures
            final(self)@ == after_release(old(self)@, newsletter_issue_id, subscriber_email@),
            old(self).wf() ==> final(self).wf(),
    {
        if let Some(i) = self.find(newsletter_issue_id, subscriber_email) {
            let ghost before = self@;
            let free = QueueRow { task: self.rows[i].task.duplicate(), claimed: false };
            self.rows.set(i, free);
            proof {
                assert(self@ =~= before.update(
                    i as int,
                    RowView { task: before[i as int].task, claimed: false },
                ));
                lemma_update_keeps_deliveries(before, i as int, false);
            }
        }
    }
}

/// Taking or letting go of a row leaves each delivery with one row.
pub proof fn lemma_update_keeps_deliveries(rows: Seq<RowView>, i: int, claimed: bool)
    requires
        0 <= i < rows.len(),
    ensures
        one_row_per_delivery(rows) ==> one_row_per_delivery(
            rows.update(i, RowView { task: rows[i].task, claimed }),
        ),
{
    lemma_rewrite_keeps_deliveries(rows, i, RowView { task: rows[i].task, claimed });
}

/// Deleting a row leaves each delivery with one row.
pub proof fn lemma_remove_keeps_deliveries(rows: Seq<RowView>, i: int)
    requires
        0 <= i < rows.len(),
    ensures
        one_row_per_delivery(rows) ==> one_row_per_delivery(rows.remove(i)),
{
    let after = rows.remove(i);
    if one_row_per_delivery(rows) {
        assert forall|a: int, b: int| 0 <= a < b < after.len() implies !is_for(
            #[trigger] after[a],
            (#[trigger] after[b]).task.issue_id,
            after[b].task.email,
        ) by {
            let a0 = if a < i { a } else { a + 1 };
            let b0 = if b < i { b } else { b + 1 };
            assert(after[a] == rows[a0] && after[b] == rows[b0]);
        }
    }
}

/// Rewriting a row for the same delivery leaves each delivery with one row.
pub proof fn lemma_rewrite_keeps_deliveries(rows: Seq<RowView>, i: int, row: RowView)
    requires
        0 <= i < rows.len(),
        is_for(row, rows[i].task.issue_id, rows[i].task.email),
    ensures
        one_row_per_delivery(rows) ==> one_row_per_delivery(rows.update(i, row)),
{
    let after = rows.update(i, row);
    if one_row_per_delivery(rows) {
        assert forall|a: int, b: int| 0 <= a < b < after.len() implies !is_for(
            #[trigger] after[a],
            (#[trigger] after[b]).task.issue_id,
            after[b].task.email,
        ) by {
            assert(!is_for(rows[a], rows[b].task.issue_id, rows[b].task.email));
        }
    }
}


/// How many of `attempts` claims in a row get a task, when none of the
/// claimants ends its transaction in between.
pub open spec fn successful_claims(rows: Seq<RowView>, attempts: nat) -> nat
    decreases attempts,
{
    if attempts == 0 {
        0
    } else {
        let won: nat = if claimable(rows) is Some { 1 } else { 0 };
        won + successful_claims(after_claim(rows), (attempts - 1) as nat)
    }
}

/// While every row is held, no claim gets a task and the queue stays as it
/// is, however many claimants try.
pub proof fn lemma_no_claim_on_held_rows(rows: Seq<RowView>, attempts: nat)
    requires
        forall|i: int| 0 <= i < rows.len() ==> (#[trigger] rows[i]).claimed,
    ensures
        claimable(rows) is None,
        after_claim(rows) == rows,
        successful_claims(rows, attempts) == 0,
    decreases attempts,
{
    lemma_first_missing(rows, |row: RowView| !row.claimed);
    if attempts > 0 {
        lemma_no_claim_on_held_rows(rows, (attempts - 1) as nat);
    }
}

/// A task that one claimant holds is handed to no other: the next claim
/// takes a later row, or nothing.
pub proof fn lemma_no_double_claim(rows: Seq<RowView>)
    ensures
        first_free(rows) matches Some(i) ==> {
            &&& after_claim(rows)[i].claimed
            &&& after_claim(rows)[i].task == rows[i].task
            &&& first_free(after_claim(rows)) matches Some(j) ==> i < j
        },
{
    let free = |row: RowView| !row.claimed;
    crate::lookup::lemma_first_where(rows, free);
    crate::lookup::lemma_first_where(after_claim(rows), free);
    if let Some(i) = first_free(rows) {
        if let Some(j) = first_free(after_claim(rows)) {
            assert(free(after_claim(rows)[j]));
            if j < i {
                assert(after_claim(rows)[j] == rows[j]);
                assert(!free(rows[j]));
            }
        }
    }
}

/// Concurrent-safe dequeue: of any number of claims made at once on a queue
/// that holds exactly one free task, exactly one gets the task and all the
/// others find nothing to claim.
pub proof fn lemma_one_task_one_winner(rows: Seq<RowView>, attempts: nat)
    requires
        rows.len() == 1,
        !rows[0].claimed,
        attempts >= 1,
    ensures
        claimable(rows) == Some(rows[0].task),
        successful_claims(rows, attempts) == 1,
        successful_claims(after_claim(rows), (attempts - 1) as nat) == 0,
{
    let free = |row: RowView| !row.claimed;
    assert(free(rows[0]));
    assert(is_first(rows, free, 0));
    lemma_first_found(rows, free, 0);
    let held = after_claim(rows);
    assert(held[0].claimed);
    lemma_no_claim_on_held_rows(held, (attempts - 1) as nat);
}

} // verus!
