//! The dispatch worker: one delivery task is claimed, delivered and resolved
//! per iteration. The worker itself keeps nothing between iterations.

use crate::delivery_queue::{
    after_claim, after_delete, after_release, after_retry, claimable, first_free, is_for,
    lemma_remove_keeps_deliveries, lemma_rewrite_keeps_deliveries, one_row_per_delivery, row_of,
    DeliveryQueue, RowView,
};
use crate::domain::{has_address_shape, well_formed_address};
use crate::lookup::{is_first, lemma_first_found, lemma_first_where};
use crate::newsletter_issues::{issue_of, IssueTable, StoredIssueView};
use vstd::prelude::*;

verus! {

/// A failed send is retried while the task's counter is below this budget.
pub const MAX_RETRIES: u16 = 5;

/// How one iteration of the worker ended.
#[derive(Clone, Copy, Debug, PartialEq, Eq, Structural)]
pub enum ExecutionOutcome {
    /// A task was claimed and resolved: deleted, or kept for a later retry.
    TaskCompleted,
    /// Nothing could be claimed.
    EmptyQueue,
}

/// Why an iteration was abandoned without resolving its task.
#[derive(Clone, Copy, Debug, PartialEq, Eq, Structural)]
pub enum WorkerFault {
    /// The store or the transport reported an unexpected fault.
    Infrastructure,
    /// An event arrived that the current state does not wait for.
    OutOfTurn,
}

/// Why a task leaves the queue.
#[derive(Clone, Copy, Debug, PartialEq, Eq, Structural)]
pub enum Removal {
    /// The issue reached the subscriber.
    Delivered,
    /// The stored address is malformed, so no send can ever succeed.
    InvalidAddress,
    /// The send failed and the retry budget is used up.
    RetriesExhausted,
}

/// One pending delivery of one issue to one subscriber.
#[derive(Debug)]
pub struct DeliveryTask {
    pub newsletter_issue_id: u128,
    pub subscriber_email: String,
    pub n_retries: u16,
}

/// What a `DeliveryTask` holds, as mathematical values.
pub struct TaskView {
    pub issue_id: u128,
    pub email: Seq<char>,
    pub n_retries: u16,
}

impl View for DeliveryTask {
    type V = TaskView;

    open spec fn view(&self) -> TaskView {
        TaskView {
            issue_id: self.newsletter_issue_id,
            email: self.subscriber_email@,
            n_retries: self.n_retries,
        }
    }
}

impl DeliveryTask {
    /// A second handle on the same task.
    pub fn duplicate(&self) -> (copy: DeliveryTask)
        ensures
            copy@ == self@,
    {
        DeliveryTask {
            newsletter_issue_id: self.newsletter_issue_id,
            subscriber_email: self.subscriber_email.clone(),
            n_retries: self.n_retries,
        }
    }
}

/// The content of a published issue, as the worker sends it.
#[derive(Debug)]
pub struct NewsletterIssue {
    pub title: String,
    pub text_content: String,
    pub html_content: String,
}

/// What a `NewsletterIssue` holds, as mathematical values.
pub struct IssueView {
    pub title: Seq<char>,
    pub text_content: Seq<char>,
    pub html_content: Seq<char>,
}

impl View for NewsletterIssue {
    type V = IssueView;

    open spec fn view(&self) -> IssueView {
        IssueView {
            title: self.title@,
            text_content: self.text_content@,
            html_content: self.html_content@,
        }
    }
}

impl NewsletterIssue {
    /// A second handle on the same content.
    pub fn duplicate(&self) -> (copy: NewsletterIssue)
        ensures
            copy@ == self@,
    {
        NewsletterIssue {
            title: self.title.clone(),
            text_content: self.text_content.clone(),
            html_content: self.html_content.clone(),
        }
    }
}

/// What the worker waits for inside the delivering state.
#[derive(Clone, Copy, Debug, PartialEq, Eq, Structural)]
pub enum DeliveryPhase {
    /// The issue's content.
    FetchingIssue,
    /// The transport's answer.
    Sending,
}

/// Where the worker stands inside one iteration.
#[derive(Debug)]
pub enum WorkerState {
    /// Between iterations.
    Idle,
    /// A claim was asked for.
    Claiming,
    /// A task is claimed and on its way out.
    Delivering { task: DeliveryTask, phase: DeliveryPhase },
    /// The task's fate is decided and is being written down.
    Resolving,
}

/// `WorkerState`, as mathematical values.
pub enum WorkerStateView {
    Idle,
    Claiming,
    Delivering { task: TaskView, phase: DeliveryPhase },
    Resolving,
}

impl View for WorkerState {
    type V = WorkerStateView;

    open spec fn view(&self) -> WorkerStateView {
        match *self {
            WorkerState::Idle => WorkerStateView::Idle,
            WorkerState::Claiming => WorkerStateView::Claiming,
            WorkerState::Delivering { task, phase } => WorkerStateView::Delivering {
                task: task@,
                phase,
            },
            WorkerState::Resolving => WorkerStateView::Resolving,
        }
    }
}

/// What the outside hands back to the worker.
#[derive(Debug)]
pub enum WorkerEvent {
    /// Time to start an iteration.
    Wake,
    /// The answer to a claim: a task that is now locked for this worker, or
    /// nothing.
    Claimed(Option<DeliveryTask>),
    /// The content of the issue that was asked for.
    IssueFetched(NewsletterIssue),
    /// The transport accepted the message.
    Delivered,
    /// The transport did not accept the message.
    DeliveryFailed,
    /// The resolution is committed.
    Resolved,
    /// Claiming, fetching or resolving met an unexpected fault.
    Fault,
}

/// `WorkerEvent`, as mathematical values.
pub enum WorkerEventView {
    Wake,
    Claimed(Option<TaskView>),
    IssueFetched(IssueView),
    Delivered,
    DeliveryFailed,
    Resolved,
    Fault,
}

impl View for WorkerEvent {
    type V = WorkerEventView;

    open spec fn view(&self) -> WorkerEventView {
        match *self {
            WorkerEvent::Wake => WorkerEventView::Wake,
            WorkerEvent::Claimed(None) => WorkerEventView::Claimed(None),
            WorkerEvent::Claimed(Some(task)) => WorkerEventView::Claimed(Some(task@)),
            WorkerEvent::IssueFetched(issue) => WorkerEventView::IssueFetched(issue@),
            WorkerEvent::Delivered => WorkerEventView::Delivered,
            WorkerEvent::DeliveryFailed => WorkerEventView::DeliveryFailed,
            WorkerEvent::Resolved => WorkerEventView::Resolved,
            WorkerEvent::Fault => WorkerEventView::Fault,
        }
    }
}

/// What the worker asks the outside to do next.
#[derive(Debug)]
pub enum WorkerAction {
    /// Open a transaction and lock one task that no other worker holds.
    Claim,
    /// Read the issue's content.
    FetchIssue { newsletter_issue_id: u128 },
    /// Hand the message to the transport.
    SendEmail { recipient: String, title: String, html_content: String, text_content: String },
    /// Raise the task's counter by one, and commit. `n_retries` is the
    /// counter that the task was claimed with.
    IncrementRetries { newsletter_issue_id: u128, subscriber_email: String, n_retries: u16 },
    /// Delete the task, and commit.
    DeleteTask { newsletter_issue_id: u128, subscriber_email: String, reason: Removal },
    /// End the iteration with this result. A transaction that is still open
    /// is rolled back, which frees its task for a later claim.
    Finish(Result<ExecutionOutcome, WorkerFault>),
}

/// `WorkerAction`, as mathematical values.
pub enum WorkerActionView {
    Claim,
    FetchIssue { newsletter_issue_id: u128 },
    SendEmail {
        recipient: Seq<char>,
        title: Seq<char>,
        html_content: Seq<char>,
        text_content: Seq<char>,
    },
    IncrementRetries { newsletter_issue_id: u128, subscriber_email: Seq<char>, n_retries: u16 },
    DeleteTask { newsletter_issue_id: u128, subscriber_email: Seq<char>, reason: Removal },
    Finish(Result<ExecutionOutcome, WorkerFault>),
}

impl View for WorkerAction {
    type V = WorkerActionView;

    open spec fn view(&self) -> WorkerActionView {
        match *self {
            WorkerAction::Claim => WorkerActionView::Claim,
            WorkerAction::FetchIssue { newsletter_issue_id } => WorkerActionView::FetchIssue {
                newsletter_issue_id,
            },
            WorkerAction::SendEmail { recipient, title, html_content, text_content } => {
                WorkerActionView::SendEmail {
                    recipient: recipient@,
                    title: title@,
                    html_content: html_content@,
                    text_content: text_content@,
                }
            },
            WorkerAction::IncrementRetries { newsletter_issue_id, subscriber_email, n_retries } => {
                WorkerActionView::IncrementRetries {
                    newsletter_issue_id,
                    subscriber_email: subscriber_email@,
                    n_retries,
                }
            },
            WorkerAction::DeleteTask { newsletter_issue_id, subscriber_email, reason } => {
                WorkerActionView::DeleteTask {
                    newsletter_issue_id,
                    subscriber_email: subscriber_email@,
                    reason,
                }
            },
            WorkerAction::Finish(result) => WorkerActionView::Finish(result),
        }
    }
}

/// The action that deletes `task` from the queue for `reason`.
pub open spec fn delete_of(task: TaskView, reason: Removal) -> WorkerActionView {
    WorkerActionView::DeleteTask {
        newsletter_issue_id: task.issue_id,
        subscriber_email: task.email,
        reason,
    }
}

/// How a claimed task is resolved once the transport has answered: a
/// delivered task is deleted; a failed one has its counter raised by one
/// while the counter is below `MAX_RETRIES`, and is deleted otherwise.
pub open spec fn resolution(task: TaskView, delivered: bool) -> WorkerActionView {
    if delivered {
        delete_of(task, Removal::Delivered)
    } else if task.n_retries < MAX_RETRIES {
        WorkerActionView::IncrementRetries {
            newsletter_issue_id: task.issue_id,
            subscriber_email: task.email,
            n_retries: task.n_retries,
        }
    } else {
        delete_of(task, Removal::RetriesExhausted)
    }
}

/// The iteration is given up: back to idle, with the open transaction
/// rolled back.
pub open spec fn abandon(fault: WorkerFault) -> (WorkerStateView, WorkerActionView) {
    (WorkerStateView::Idle, WorkerActionView::Finish(Err(fault)))
}

/// The worker's transition relation: the state and the action that follow
/// from `state` when `event` arrives.
pub open spec fn next_step(state: WorkerStateView, event: WorkerEventView) -> (
    WorkerStateView,
    WorkerActionView,
) {
    match (state, event) {
        (_, WorkerEventView::Fault) => abandon(WorkerFault::Infrastructure),
        (WorkerStateView::Idle, WorkerEventView::Wake) => (
            WorkerStateView::Claiming,
            WorkerActionView::Claim,
        ),
        (WorkerStateView::Claiming, WorkerEventView::Claimed(None)) => (
            WorkerStateView::Idle,
            WorkerActionView::Finish(Ok(ExecutionOutcome::EmptyQueue)),
        ),
        (WorkerStateView::Claiming, WorkerEventView::Claimed(Some(task))) => {
            if well_formed_address(task.email) {
                (
                    WorkerStateView::Delivering { task, phase: DeliveryPhase::FetchingIssue },
                    WorkerActionView::FetchIssue { newsletter_issue_id: task.issue_id },
                )
            } else {
                (WorkerStateView::Resolving, delete_of(task, Removal::InvalidAddress))
            }
        },
        (
            WorkerStateView::Delivering { task, phase: DeliveryPhase::FetchingIssue },
            WorkerEventView::IssueFetched(issue),
        ) => (
            WorkerStateView::Delivering { task, phase: DeliveryPhase::Sending },
            WorkerActionView::SendEmail {
                recipient: task.email,
                title: issue.title,
                html_content: issue.html_content,
                text_content: issue.text_content,
            },
        ),
        (
            WorkerStateView::Delivering { task, phase: DeliveryPhase::Sending },
            WorkerEventView::Delivered,
        ) => (WorkerStateView::Resolving, resolution(task, true)),
        (
            WorkerStateView::Delivering { task, phase: DeliveryPhase::Sending },
            WorkerEventView::DeliveryFailed,
        ) => (WorkerStateView::Resolving, resolution(task, false)),
        (WorkerStateView::Resolving, WorkerEventView::Resolved) => (
            WorkerStateView::Idle,
            WorkerActionView::Finish(Ok(ExecutionOutcome::TaskCompleted)),
        ),
        _ => abandon(WorkerFault::OutOfTurn),
    }
}

/// The action that resolves `task` after the transport's answer.
fn resolve(task: DeliveryTask, delivered: bool) -> (action: WorkerAction)
    ensures
        action@ == resolution(task@, delivered),
{
    if delivered {
        WorkerAction::DeleteTask {
            newsletter_issue_id: task.newsletter_issue_id,
            subscriber_email: task.subscriber_email,
            reason: Removal::Delivered,
        }
    } else if task.n_retries < MAX_RETRIES {
        WorkerAction::IncrementRetries {
            newsletter_issue_id: task.newsletter_issue_id,
            subscriber_email: task.subscriber_email,
            n_retries: task.n_retries,
        }
    } else {
        WorkerAction::DeleteTask {
            newsletter_issue_id: task.newsletter_issue_id,
            subscriber_email: task.subscriber_email,
            reason: Removal::RetriesExhausted,
        }
    }
}

/// Advances the worker by one event. The caller performs the action that
/// comes back and reports what happened as the next event; after a `Finish`
/// the worker is idle again and the iteration is over.
pub fn try_execute_task(state: WorkerState, event: WorkerEvent) -> (r: (WorkerState, WorkerAction))
    ensures
        (r.0@, r.1@) == next_step(state@, event@),
{
    match (state, event) {
        (_, WorkerEvent::Fault) => (
            WorkerState::Idle,
            WorkerAction::Finish(Err(WorkerFault::Infrastructure)),
        ),
        (WorkerState::Idle, WorkerEvent::Wake) => (WorkerState::Claiming, WorkerAction::Claim),
        (WorkerState::Claiming, WorkerEvent::Claimed(None)) => (
            WorkerState::Idle,
            WorkerAction::Finish(Ok(ExecutionOutcome::EmptyQueue)),
        ),
        (WorkerState::Claiming, WorkerEvent::Claimed(Some(task))) => {
            if has_address_shape(task.subscriber_email.as_str()) {
                let newsletter_issue_id = task.newsletter_issue_id;
                (
                    WorkerState::Delivering { task, phase: DeliveryPhase::FetchingIssue },
                    WorkerAction::FetchIssue { newsletter_issue_id },
                )
            } else {
                (
                    WorkerState::Resolving,
                    WorkerAction::DeleteTask {
                        newsletter_issue_id: task.newsletter_issue_id,
                        subscriber_email: task.subscriber_email,
                        reason: Removal::InvalidAddress,
                    },
                )
            }
        },
        (
            WorkerState::Delivering { task, phase: DeliveryPhase::FetchingIssue },
            WorkerEvent::IssueFetched(issue),
        ) => {
            let recipient = task.subscriber_email.clone();
            (
                WorkerState::Delivering { task, phase: DeliveryPhase::Sending },
                WorkerAction::SendEmail {
                    recipient,
                    title: issue.title,
                    html_content: issue.html_content,
                    text_content: issue.text_content,
                },
            )
        },
        (
            WorkerState::Delivering { task, phase: DeliveryPhase::Sending },
            WorkerEvent::Delivered,
        ) => (WorkerState::Resolving, resolve(task, true)),
        (
            WorkerState::Delivering { task, phase: DeliveryPhase::Sending },
            WorkerEvent::DeliveryFailed,
        ) => (WorkerState::Resolving, resolve(task, false)),
        (WorkerState::Resolving, WorkerEvent::Resolved) => (
            WorkerState::Idle,
            WorkerAction::Finish(Ok(ExecutionOutcome::TaskCompleted)),
        ),
        _ => (WorkerState::Idle, WorkerAction::Finish(Err(WorkerFault::OutOfTurn))),
    }
}

/// How long the worker rests between iterations.
#[derive(Clone, Copy, Debug, PartialEq, Eq, Structural)]
pub struct BackoffPolicy {
    /// Seconds to wait after finding the queue empty.
    pub empty_queue_secs: u64,
    /// Seconds to wait after an abandoned iteration.
    pub error_secs: u64,
}

/// The pause that `policy` prescribes after an iteration that ended with
/// `result`: none after a completed task.
pub open spec fn pause_for(
    policy: BackoffPolicy,
    result: Result<ExecutionOutcome, WorkerFault>,
) -> Option<u64> {
    match result {
        Err(_) => Some(policy.error_secs),
        Ok(ExecutionOutcome::EmptyQueue) => Some(policy.empty_queue_secs),
        Ok(ExecutionOutcome::TaskCompleted) => None,
    }
}

impl BackoffPolicy {
    /// Ten seconds on an empty queue, one second after a fault.
    pub fn standard() -> (policy: BackoffPolicy)
        ensures
            policy == (BackoffPolicy { empty_queue_secs: 10, error_secs: 1 }),
    {
        BackoffPolicy { empty_queue_secs: 10, error_secs: 1 }
    }

    /// The number of seconds to sleep before the next iteration, if any.
    pub fn pause_after(&self, result: Result<ExecutionOutcome, WorkerFault>) -> (pause: Option<u64>)
        ensures
            pause == pause_for(*self, result),
    {
        match result {
            Err(_) => Some(self.error_secs),
            Ok(ExecutionOutcome::EmptyQueue) => Some(self.empty_queue_secs),
            Ok(ExecutionOutcome::TaskCompleted) => None,
        }
    }
}

/// The queue after `action` was carried out on it.
pub open spec fn carried_out(rows: Seq<RowView>, action: WorkerActionView) -> Seq<RowView> {
    match action {
        WorkerActionView::DeleteTask { newsletter_issue_id, subscriber_email, .. } => after_delete(
            rows,
            newsletter_issue_id,
            subscriber_email,
        ),
        WorkerActionView::IncrementRetries {
            newsletter_issue_id,
            subscriber_email,
            n_retries,
        } => after_retry(rows, newsletter_issue_id, subscriber_email, (n_retries + 1) as u16),
        _ => rows,
    }
}

/// How the claimed `task` is resolved: it is deleted unsent where its
/// address is malformed, the iteration is abandoned where its issue cannot
/// be read, and otherwise the transport's answer decides.
pub open spec fn fate(
    task: TaskView,
    issues: Seq<StoredIssueView>,
    transport_accepts: bool,
) -> Result<WorkerActionView, WorkerFault> {
    if !well_formed_address(task.email) {
        Ok(delete_of(task, Removal::InvalidAddress))
    } else if issue_of(issues, task.issue_id) is None {
        Err(WorkerFault::Infrastructure)
    } else {
        Ok(resolution(task, transport_accepts))
    }
}

/// The result of one whole iteration on the queue `rows`.
pub open spec fn iteration_result(
    rows: Seq<RowView>,
    issues: Seq<StoredIssueView>,
    transport_accepts: bool,
) -> Result<ExecutionOutcome, WorkerFault> {
    match claimable(rows) {
        None => Ok(ExecutionOutcome::EmptyQueue),
        Some(task) => match fate(task, issues, transport_accepts) {
            Ok(_) => Ok(ExecutionOutcome::TaskCompleted),
            Err(fault) => Err(fault),
        },
    }
}

/// The queue after one whole iteration: the claimed task is resolved as its
/// fate says, or let go unchanged where the iteration was abandoned.
pub open spec fn after_iteration(
    rows: Seq<RowView>,
    issues: Seq<StoredIssueView>,
    transport_accepts: bool,
) -> Seq<RowView> {
    match claimable(rows) {
        None => rows,
        Some(task) => match fate(task, issues, transport_accepts) {
            Ok(action) => carried_out(after_claim(rows), action),
            Err(_) => after_release(after_claim(rows), task.issue_id, task.email),
        },
    }
}

/// The steps that are left in an iteration that stands at `state`.
pub open spec fn steps_left(state: WorkerStateView) -> nat {
    match state {
        WorkerStateView::Idle => 5,
        WorkerStateView::Claiming => 4,
        WorkerStateView::Delivering { phase: DeliveryPhase::FetchingIssue, .. } => 3,
        WorkerStateView::Delivering { phase: DeliveryPhase::Sending, .. } => 2,
        WorkerStateView::Resolving => 1,
    }
}

/// The iteration that began on `start` has come, in turn, to `state` with
/// `event` waiting, the queue standing at `rows` and `held` naming the task
/// that its transaction holds.
pub open spec fn in_turn(
    start: Seq<RowView>,
    issues: Seq<StoredIssueView>,
    transport_accepts: bool,
    state: WorkerStateView,
    event: WorkerEventView,
    rows: Seq<RowView>,
    held: Option<(u128, Seq<char>)>,
) -> bool {
    match state {
        WorkerStateView::Idle => event == WorkerEventView::Wake && rows == start && held is None,
        WorkerStateView::Claiming => {
            &&& event == WorkerEventView::Claimed(claimable(start))
            &&& rows == after_claim(start)
            &&& held == match claimable(start) {
                Some(task) => Some((task.issue_id, task.email)),
                None => None,
            }
        },
        WorkerStateView::Delivering { task, phase } => {
            &&& claimable(start) == Some(task)
            &&& rows == after_claim(start)
            &&& held == Some((task.issue_id, task.email))
            &&& well_formed_address(task.email)
            &&& match phase {
                DeliveryPhase::FetchingIssue => event == match issue_of(issues, task.issue_id) {
                    Some(issue) => WorkerEventView::IssueFetched(issue),
                    None => WorkerEventView::Fault,
                },
                DeliveryPhase::Sending => {
                    &&& issue_of(issues, task.issue_id) is Some
                    &&& event == if transport_accepts {
                        WorkerEventView::Delivered
                    } else {
                        WorkerEventView::DeliveryFailed
                    }
                },
            }
        },
        WorkerStateView::Resolving => {
            &&& event == WorkerEventView::Resolved
            &&& held is None
            &&& claimable(start) matches Some(task)
            &&& fate(task, issues, transport_accepts) is Ok
            &&& rows == after_iteration(start, issues, transport_accepts)
        },
    }
}

/// Runs one whole iteration of the worker on a queue held in memory: claim,
/// deliver, resolve. `transport_accepts` says what the transport answers if
/// it is handed the claimed task's message; an issue that cannot be read is
/// a fault, on which the task is let go unchanged.
pub fn run_iteration(
    queue: &mut DeliveryQueue,
    issues: &IssueTable,
    transport_accepts: bool,
) -> (result: Result<ExecutionOutcome, WorkerFault>)
    ensures
        result == iteration_result(old(queue)@, issues@, transport_accepts),
        final(queue)@ == after_iteration(old(queue)@, issues@, transport_accepts),
        old(queue).wf() ==> final(queue).wf(),
{
    let ghost start = queue@;
    let mut state = WorkerState::Idle;
    let mut event = WorkerEvent::Wake;
    let mut held: Option<(u128, String)> = None;
    loop
        invariant
            in_turn(
                start,
                issues@,
                transport_accepts,
                state@,
                event@,
                queue@,
                match held {
                    Some(key) => Some((key.0, key.1@)),
                    None => None,
                },
            ),
            start == old(queue)@,
            old(queue).wf() ==> queue.wf(),
        decreases steps_left(state@),
    {
        let (next, action) = try_execute_task(state, event);
        state = next;
        match action {
            WorkerAction::Claim => {
                let claimed = queue.dequeue_task();
                held = match &claimed {
                    Some(task) => Some((task.newsletter_issue_id, task.subscriber_email.clone())),
                    None => None,
                };
                event = WorkerEvent::Claimed(claimed);
            },
            WorkerAction::FetchIssue { newsletter_issue_id } => {
                event = match issues.get_issue(newsletter_issue_id) {
                    Some(issue) => WorkerEvent::IssueFetched(issue),
                    None => WorkerEvent::Fault,
                };
            },
            WorkerAction::SendEmail { .. } => {
                event = if transport_accepts {
                    WorkerEvent::Delivered
                } else {
                    WorkerEvent::DeliveryFailed
                };
            },
            WorkerAction::IncrementRetries { newsletter_issue_id, subscriber_email, n_retries } => {
                queue.increment_retries(newsletter_issue_id, subscriber_email.as_str(), n_retries);
                held = None;
                event = WorkerEvent::Resolved;
            },
            WorkerAction::DeleteTask { newsletter_issue_id, subscriber_email, .. } => {
                queue.delete_task(newsletter_issue_id, subscriber_email.as_str());
                held = None;
                event = WorkerEvent::Resolved;
            },
            WorkerAction::Finish(result) => {
                if let Some(key) = held {
                    queue.release(key.0, key.1.as_str());
                }
                return result;
            },
        }
    }
}

/// The queue after `cycles` iterations in a row in which every send fails.
pub open spec fn after_failed_cycles(
    rows: Seq<RowView>,
    issues: Seq<StoredIssueView>,
    cycles: nat,
) -> Seq<RowView>
    decreases cycles,
{
    if cycles == 0 {
        rows
    } else {
        after_iteration(
            after_failed_cycles(rows, issues, (cycles - 1) as nat),
            issues,
            false,
        )
    }
}

/// A free row that holds `task`.
pub open spec fn free_row(task: TaskView) -> RowView {
    RowView { task, claimed: false }
}

/// `task` with its counter set to `n_retries`.
pub open spec fn with_retries(task: TaskView, n_retries: u16) -> TaskView {
    TaskView { issue_id: task.issue_id, email: task.email, n_retries }
}

/// In a queue with one row per delivery, the row that a claim has taken is
/// the row that its delivery is found under.
pub proof fn lemma_claimed_row_is_found(rows: Seq<RowView>)
    requires
        one_row_per_delivery(rows),
    ensures
        first_free(rows) matches Some(i) ==> row_of(
            after_claim(rows),
            rows[i].task.issue_id,
            rows[i].task.email,
        ) == Some(i),
{
    lemma_first_where(rows, |row: RowView| !row.claimed);
    if let Some(i) = first_free(rows) {
        let held = after_claim(rows);
        let wanted = |row: RowView| is_for(row, rows[i].task.issue_id, rows[i].task.email);
        assert(wanted(held[i]));
        assert forall|j: int| 0 <= j < i implies !wanted(#[trigger] held[j]) by {
            assert(held[j] == rows[j]);
            assert(!is_for(rows[j], rows[i].task.issue_id, rows[i].task.email));
        }
        assert(is_first(held, wanted, i));
        lemma_first_found(held, wanted, i);
    }
}

/// One iteration, row by row: with `i` the first free row of a queue that
/// has one row per delivery, a task whose fate is deletion leaves row `i`
/// empty, a task that is retried stays in row `i`, free again, with its
/// counter raised by one, and an abandoned iteration changes nothing. No
/// other row is touched.
pub proof fn lemma_iteration_by_rows(
    rows: Seq<RowView>,
    issues: Seq<StoredIssueView>,
    transport_accepts: bool,
)
    requires
        one_row_per_delivery(rows),
    ensures
        first_free(rows) is None ==> after_iteration(rows, issues, transport_accepts) == rows,
        first_free(rows) matches Some(i) ==> after_iteration(rows, issues, transport_accepts)
            == match fate(rows[i].task, issues, transport_accepts) {
            Ok(WorkerActionView::IncrementRetries { .. }) => rows.update(
                i,
                free_row(with_retries(rows[i].task, (rows[i].task.n_retries + 1) as u16)),
            ),
            Ok(_) => rows.remove(i),
            Err(_) => rows,
        },
{
    lemma_first_where(rows, |row: RowView| !row.claimed);
    lemma_claimed_row_is_found(rows);
    if let Some(i) = first_free(rows) {
        let held = after_claim(rows);
        let task = rows[i].task;
        match fate(task, issues, transport_accepts) {
            Ok(WorkerActionView::IncrementRetries { .. }) => {
                assert(after_iteration(rows, issues, transport_accepts) =~= rows.update(
                    i,
                    free_row(with_retries(task, (task.n_retries + 1) as u16)),
                ));
            },
            Ok(_) => {
                assert(after_iteration(rows, issues, transport_accepts) =~= rows.remove(i));
            },
            Err(_) => {
                assert(after_iteration(rows, issues, transport_accepts) =~= rows);
            },
        }
    }
}

/// Retry budget: a task whose send always fails stays in the queue while its
/// counter climbs by one per iteration up to `MAX_RETRIES`, and the
/// iteration after that deletes it without raising the counter again. From a
/// counter of 0 that is five iterations with the counter at 1, 2, 3, 4, 5,
/// and an empty queue after the sixth.
pub proof fn lemma_retry_budget(task: TaskView, issues: Seq<StoredIssueView>, cycles: nat)
    requires
        well_formed_address(task.email),
        issue_of(issues, task.issue_id) is Some,
        task.n_retries <= MAX_RETRIES,
        cycles <= MAX_RETRIES - task.n_retries + 1,
    ensures
        after_failed_cycles(seq![free_row(task)], issues, cycles) == if task.n_retries + cycles
            <= MAX_RETRIES {
            seq![free_row(with_retries(task, (task.n_retries + cycles) as u16))]
        } else {
            Seq::<RowView>::empty()
        },
    decreases cycles,
{
    if cycles == 0 {
        assert(with_retries(task, task.n_retries) == task);
    } else {
        lemma_retry_budget(task, issues, (cycles - 1) as nat);
        let current = with_retries(task, (task.n_retries + cycles - 1) as u16);
        let rows = seq![free_row(current)];
        assert(after_failed_cycles(seq![free_row(task)], issues, (cycles - 1) as nat) == rows);
        let free = |row: RowView| !row.claimed;
        assert(free(rows[0]));
        assert(is_first(rows, free, 0));
        lemma_first_found(rows, free, 0);
        lemma_iteration_by_rows(rows, issues, false);
        if current.n_retries < MAX_RETRIES {
            assert(rows.update(
                0,
                free_row(with_retries(current, (current.n_retries + 1) as u16)),
            ) =~= seq![free_row(with_retries(task, (task.n_retries + cycles) as u16))]);
        } else {
            assert(rows.remove(0) =~= Seq::<RowView>::empty());
        }
    }
}

/// Malformed recipient: a claimed task whose stored address is malformed is
/// deleted in that same iteration, whatever its counter, the transport or
/// the stored issues, and no counter is raised; the worker asks for the
/// deletion as soon as the task is claimed, and from there the iteration
/// can only end, so no send is asked for.
pub proof fn lemma_malformed_recipient_is_dropped(
    rows: Seq<RowView>,
    issues: Seq<StoredIssueView>,
    transport_accepts: bool,
    later: WorkerEventView,
)
    requires
        one_row_per_delivery(rows),
        first_free(rows) is Some,
        !well_formed_address(rows[first_free(rows)->0].task.email),
    ensures
        after_iteration(rows, issues, transport_accepts) == rows.remove(first_free(rows)->0),
        iteration_result(rows, issues, transport_accepts) == Ok::<ExecutionOutcome, WorkerFault>(
            ExecutionOutcome::TaskCompleted,
        ),
        next_step(
            WorkerStateView::Claiming,
            WorkerEventView::Claimed(Some(rows[first_free(rows)->0].task)),
        ) == (
            WorkerStateView::Resolving,
            delete_of(rows[first_free(rows)->0].task, Removal::InvalidAddress),
        ),
        next_step(WorkerStateView::Resolving, later).0 == WorkerStateView::Idle,
        next_step(WorkerStateView::Resolving, later).1 is Finish,
{
    lemma_first_where(rows, |row: RowView| !row.claimed);
    lemma_iteration_by_rows(rows, issues, transport_accepts);
}

/// Whether the queue holds a delivery of the issue `issue_id`.
pub open spec fn queues_issue(rows: Seq<RowView>, issue_id: u128) -> bool {
    exists|i: int| 0 <= i < rows.len() && (#[trigger] rows[i]).task.issue_id == issue_id
}

/// An iteration keeps the queue in order: each delivery still has one row,
/// and every row that is left is for an issue that the queue held a
/// delivery of before.
pub proof fn lemma_iteration_keeps_order(
    rows: Seq<RowView>,
    issues: Seq<StoredIssueView>,
    transport_accepts: bool,
)
    requires
        one_row_per_delivery(rows),
    ensures
        one_row_per_delivery(after_iteration(rows, issues, transport_accepts)),
        forall|k: int|
            0 <= k < after_iteration(rows, issues, transport_accepts).len() ==> queues_issue(
                rows,
                (#[trigger] after_iteration(rows, issues, transport_accepts)[k]).task.issue_id,
            ),
{
    let after = after_iteration(rows, issues, transport_accepts);
    lemma_first_where(rows, |row: RowView| !row.claimed);
    lemma_iteration_by_rows(rows, issues, transport_accepts);
    match first_free(rows) {
        None => {
            assert forall|k: int| 0 <= k < after.len() implies queues_issue(
                rows,
                (#[trigger] after[k]).task.issue_id,
            ) by {
                assert(rows[k].task.issue_id == after[k].task.issue_id);
            }
        },
        Some(i) => {
            if rows[i].task.n_retries < MAX_RETRIES {
                lemma_rewrite_keeps_deliveries(
                    rows,
                    i,
                    free_row(with_retries(rows[i].task, (rows[i].task.n_retries + 1) as u16)),
                );
            }
            lemma_remove_keeps_deliveries(rows, i);
            assert forall|k: int| 0 <= k < after.len() implies queues_issue(
                rows,
                (#[trigger] after[k]).task.issue_id,
            ) by {
                if after == rows.remove(i) {
                    let k0 = if k < i { k } else { k + 1 };
                    assert(rows[k0].task.issue_id == after[k].task.issue_id);
                } else {
                    assert(rows[k].task.issue_id == after[k].task.issue_id);
                }
            }
        },
    }
}

} // verus!
