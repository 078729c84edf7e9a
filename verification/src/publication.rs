//! A publish request carried out on the store, and what that guarantees:
//! one set of writes per idempotency key, and all of them or none.

use crate::idempotency::key::{acceptable_key, key_error};
use crate::idempotency::persistence::{
    completed, saved_response, valid_status, RecordError, RecordView, ResponseView,
};
use crate::idempotency::processing::{
    after_start, committed, fresh_work, holds_placeholder, lemma_start_holds, rollback,
    rolled_back, save_response, start_of, try_processing, NextAction, NextActionView,
};
use crate::idempotency::table::{is_record_of, record_row};
use crate::issue_delivery_worker::IssueView;
use crate::lookup::lemma_first_where_push;
use crate::newsletter_issues::{issue_of, StoredIssueView};
use crate::routes::admin::newsletters::post::{
    form_page, newsletter_check, outcome_view, publish_newsletter_with, published, sent_back,
    FormData, FormView, PublishAction, PublishEvent, PublishEventView, PublishFailure,
    PublishState, PublishStateView, Reply, ReplyView,
};
use crate::store::{
    consistent, staged_rows, tasks_for, Store, StoreError, StoreView, UnitOfWork, UnitOfWorkView,
};
use vstd::prelude::*;

verus! {

/// The issue that `form` describes, under the identifier `id`.
pub open spec fn issue_from(form: FormView, id: u128) -> StoredIssueView {
    StoredIssueView {
        id,
        issue: IssueView {
            title: form.title,
            text_content: form.text_content,
            html_content: form.html_content,
        },
    }
}

/// What a request stages before it commits: the issue of `form`, and one
/// task for each subscriber that is confirmed in `store`.
pub open spec fn staged_work(
    store: StoreView,
    user_id: u128,
    form: FormView,
    id: u128,
) -> UnitOfWorkView {
    UnitOfWorkView {
        user_id,
        key: form.idempotency_key,
        issue: Some(issue_from(form, id)),
        tasks: tasks_for(store.subscriptions, id),
    }
}

/// Whether the request publishes: its key is well formed and free, its form
/// is complete, and the identifier `id` is not taken.
pub open spec fn publishes(store: StoreView, user_id: u128, form: FormView, id: u128) -> bool {
    &&& acceptable_key(form.idempotency_key)
    &&& record_row(store.idempotency, user_id, form.idempotency_key) is None
    &&& newsletter_check(form.title, form.html_content, form.text_content) is Ok
    &&& issue_of(store.issues, id) is None
}

/// What the client is told when `user_id` submits `form` to `store`.
pub open spec fn request_outcome(
    store: StoreView,
    user_id: u128,
    form: FormView,
    id: u128,
) -> Result<ReplyView, PublishFailure> {
    if !acceptable_key(form.idempotency_key) {
        Err(PublishFailure::Validation(key_error(form.idempotency_key)))
    } else {
        match start_of(store, user_id, form.idempotency_key) {
            Err(StoreError::ContentionWait) => Err(PublishFailure::ContentionWait),
            Err(_) => Err(PublishFailure::Unexpected),
            Ok(NextActionView::ReturnSavedResponse(response)) => published(response),
            Ok(NextActionView::StartProcessing(_)) => match newsletter_check(
                form.title,
                form.html_content,
                form.text_content,
            ) {
                Err(error) => sent_back(error),
                Ok(_) => if issue_of(store.issues, id) is None {
                    published(form_page())
                } else {
                    Err(PublishFailure::Unexpected)
                },
            },
        }
    }
}

/// The store after `user_id` submitted `form`: where the request publishes,
/// the record of the key with the response in it, the issue, and one free
/// task per confirmed subscriber are added; in every other case the store
/// is as it was.
pub open spec fn after_request(
    store: StoreView,
    user_id: u128,
    form: FormView,
    id: u128,
) -> StoreView {
    if publishes(store, user_id, form, id) {
        StoreView {
            idempotency: store.idempotency.push(
                completed(user_id, form.idempotency_key, form_page()),
            ),
            issues: store.issues.push(issue_from(form, id)),
            queue: store.queue + staged_rows(tasks_for(store.subscriptions, id)),
            subscriptions: store.subscriptions,
        }
    } else {
        store
    }
}

/// The steps that are left in a request that stands at `state`.
pub open spec fn publish_steps_left(state: PublishStateView) -> nat {
    match state {
        PublishStateView::Received => 5,
        PublishStateView::Starting { .. } => 4,
        PublishStateView::InsertingIssue { .. } => 3,
        PublishStateView::Enqueueing { .. } => 2,
        PublishStateView::Saving => 1,
        PublishStateView::Done => 0,
    }
}

/// The request that began on `start` has come, in turn, to `state` with
/// `event` waiting, the store standing at `store` and `work` being its open
/// unit of work.
pub open spec fn on_course(
    start: StoreView,
    user_id: u128,
    form: FormView,
    id: u128,
    state: PublishStateView,
    event: PublishEventView,
    store: StoreView,
    work: Option<UnitOfWorkView>,
) -> bool {
    let key = form.idempotency_key;
    let begun = after_start(start, user_id, key);
    match state {
        PublishStateView::Received => {
            &&& event == PublishEventView::Submitted { user_id, form }
            &&& store == start
            &&& work is None
        },
        PublishStateView::Starting {
            user_id: u,
            idempotency_key,
            title,
            html_content,
            text_content,
        } => {
            &&& acceptable_key(key)
            &&& u == user_id
            &&& idempotency_key == key
            &&& title == form.title
            &&& html_content == form.html_content
            &&& text_content == form.text_content
            &&& store == begun
            &&& match start_of(start, user_id, key) {
                Ok(NextActionView::StartProcessing(_)) => {
                    &&& event == PublishEventView::Started
                    &&& work == Some(fresh_work(user_id, key))
                },
                Ok(NextActionView::ReturnSavedResponse(response)) => {
                    &&& event == PublishEventView::Rejoined(response)
                    &&& work is None
                },
                Err(e) => {
                    &&& e != StoreError::ContentionWait
                    &&& event == PublishEventView::Fault
                    &&& work is None
                },
            }
        },
        PublishStateView::InsertingIssue { user_id: u, idempotency_key, newsletter_issue_id } => {
            &&& acceptable_key(key)
            &&& u == user_id
            &&& idempotency_key == key
            &&& newsletter_issue_id == id
            &&& record_row(start.idempotency, user_id, key) is None
            &&& newsletter_check(form.title, form.html_content, form.text_content) is Ok
            &&& store == begun
            &&& if issue_of(start.issues, id) is None {
                &&& event == PublishEventView::IssueInserted
                &&& work == Some(
                    UnitOfWorkView {
                        tasks: Seq::empty(),
                        ..staged_work(start, user_id, form, id)
                    },
                )
            } else {
                &&& event == PublishEventView::Fault
                &&& work == Some(fresh_work(user_id, key))
            }
        },
        PublishStateView::Enqueueing { user_id: u, idempotency_key } => {
            &&& acceptable_key(key)
            &&& u == user_id
            &&& idempotency_key == key
            &&& record_row(start.idempotency, user_id, key) is None
            &&& newsletter_check(form.title, form.html_content, form.text_content) is Ok
            &&& issue_of(start.issues, id) is None
            &&& store == begun
            &&& event == PublishEventView::TasksEnqueued
            &&& work == Some(staged_work(start, user_id, form, id))
        },
        PublishStateView::Saving => {
            &&& acceptable_key(key)
            &&& record_row(start.idempotency, user_id, key) is None
            &&& newsletter_check(form.title, form.html_content, form.text_content) is Ok
            &&& issue_of(start.issues, id) is None
            &&& work is None
            &&& event == PublishEventView::ResponseSaved(form_page())
            &&& store == committed(begun, staged_work(start, user_id, form, id), form_page())
        },
        PublishStateView::Done => false,
    }
}

/// A unit of work that is rolled back right after its start leaves the
/// store as it was before the start.
pub proof fn lemma_rollback_restores(store: StoreView, work: UnitOfWorkView)
    requires
        record_row(store.idempotency, work.user_id, work.key) is None,
    ensures
        rolled_back(after_start(store, work.user_id, work.key), work) == store,
{
    lemma_start_holds(store, work.user_id, work.key);
    let begun = after_start(store, work.user_id, work.key);
    assert(rolled_back(begun, work).idempotency =~= store.idempotency);
}

/// A unit of work that is committed right after its start has put the
/// record of its key, completed, at the end of the idempotency table.
pub proof fn lemma_commit_completes(store: StoreView, work: UnitOfWorkView, response: ResponseView)
    requires
        record_row(store.idempotency, work.user_id, work.key) is None,
    ensures
        committed(after_start(store, work.user_id, work.key), work, response).idempotency
            == store.idempotency.push(completed(work.user_id, work.key, response)),
{
    lemma_start_holds(store, work.user_id, work.key);
    let begun = after_start(store, work.user_id, work.key);
    assert(committed(begun, work, response).idempotency =~= store.idempotency.push(
        completed(work.user_id, work.key, response),
    ));
}

/// Carries out one publish request on the store: the handler is run from
/// the arrival of `form` to its answer, and every action that it asks for is
/// performed on `store`. `fresh_id` is the identifier that a new issue gets.
/// A request that would have to wait for another one comes back with
/// `ContentionWait` and has changed nothing.
pub fn run_request(store: &mut Store, user_id: u128, form: FormData, fresh_id: u128) -> (outcome:
    Result<Reply, PublishFailure>)
    ensures
        outcome_view(outcome) == request_outcome(old(store)@, user_id, form@, fresh_id),
        final(store)@ == after_request(old(store)@, user_id, form@, fresh_id),
        old(store).wf() ==> final(store).wf(),
{
    let ghost start = store@;
    let ghost sent = form@;
    let mut state = PublishState::Received;
    let mut event = PublishEvent::Submitted { user_id, form };
    let mut work: Option<UnitOfWork> = None;
    loop
        invariant
            on_course(
                start,
                user_id,
                sent,
                fresh_id,
                state@,
                event@,
                store@,
                match work {
                    Some(w) => Some(w@),
                    None => None,
                },
            ),
            start == old(store)@,
            sent == form@,
            old(store).wf() ==> store.wf(),
            old(store).wf() ==> (work matches Some(w) ==> w.wf()),
            work matches Some(w) ==> holds_placeholder(store@, w@),
        decreases publish_steps_left(state@),
    {
        let (next, action) = publish_newsletter_with(state, event, fresh_id);
        state = next;
        match action {
            PublishAction::TryProcessing { user_id: caller, idempotency_key } => {
                match try_processing(store, &idempotency_key, caller) {
                    Ok(NextAction::StartProcessing(opened)) => {
                        work = Some(opened);
                        event = PublishEvent::Started;
                    },
                    Ok(NextAction::ReturnSavedResponse(response)) => {
                        event = PublishEvent::Rejoined(response);
                    },
                    Err(StoreError::ContentionWait) => {
                        return Err(PublishFailure::ContentionWait);
                    },
                    Err(_) => {
                        event = PublishEvent::Fault;
                    },
                }
            },
            PublishAction::InsertIssue {
                newsletter_issue_id,
                title,
                text_content,
                html_content,
            } => {
                match work {
                    Some(mut open) => {
                        let inserted = open.insert_newsletter_issue(
                            &store.newsletter_issues,
                            newsletter_issue_id,
                            title.as_str(),
                            text_content.as_str(),
                            html_content.as_str(),
                        );
                        work = Some(open);
                        event = match inserted {
                            Ok(_) => PublishEvent::IssueInserted,
                            Err(_) => PublishEvent::Fault,
                        };
                    },
                    None => {
                        work = None;
                        event = PublishEvent::Fault;
                    },
                }
            },
            PublishAction::EnqueueDeliveryTasks { newsletter_issue_id } => {
                match work {
                    Some(mut open) => {
                        let enqueued = open.enqueue_delivery_tasks(
                            &store.subscriptions,
                            newsletter_issue_id,
                        );
                        work = Some(open);
                        event = match enqueued {
                            Ok(_) => PublishEvent::TasksEnqueued,
                            Err(_) => PublishEvent::Fault,
                        };
                    },
                    None => {
                        work = None;
                        event = PublishEvent::Fault;
                    },
                }
            },
            PublishAction::SaveResponse { user_id: caller, idempotency_key, response } => {
                match work {
                    Some(open) => {
                        proof {
                            lemma_rollback_restores(start, open@);
                        }
                        work = None;
                        let saved = save_response(store, open, &idempotency_key, caller, response);
                        event = match saved {
                            Ok(saved) => PublishEvent::ResponseSaved(saved),
                            Err(_) => PublishEvent::Fault,
                        };
                    },
                    None => {
                        work = None;
                        event = PublishEvent::Fault;
                    },
                }
            },
            PublishAction::Finish(outcome) => {
                if let Some(open) = work {
                    proof {
                        lemma_rollback_restores(start, open@);
                    }
                    rollback(store, open);
                }
                proof {
                    if publishes(start, user_id, sent, fresh_id) {
                        lemma_commit_completes(
                            start,
                            staged_work(start, user_id, sent, fresh_id),
                            form_page(),
                        );
                        assert(store@ == after_request(start, user_id, sent, fresh_id));
                    }
                }
                return outcome;
            },
        }
    }
}

/// The store after the request was carried out once for each identifier of
/// `ids`, one after the other.
pub open spec fn after_requests(
    store: StoreView,
    user_id: u128,
    form: FormView,
    ids: Seq<u128>,
) -> StoreView
    decreases ids.len(),
{
    if ids.len() == 0 {
        store
    } else {
        after_request(
            after_requests(store, user_id, form, ids.drop_last()),
            user_id,
            form,
            ids.last(),
        )
    }
}

/// A request that is repeated is answered as it was the first time and
/// writes nothing more, unless the first try failed in the store: then
/// nothing was written and the repetition is a first try.
pub proof fn lemma_request_repeats(
    store: StoreView,
    user_id: u128,
    form: FormView,
    first_id: u128,
    next_id: u128,
)
    requires
        request_outcome(store, user_id, form, first_id) != Err::<ReplyView, PublishFailure>(
            PublishFailure::Unexpected,
        ),
    ensures
        request_outcome(after_request(store, user_id, form, first_id), user_id, form, next_id)
            == request_outcome(store, user_id, form, first_id),
        after_request(after_request(store, user_id, form, first_id), user_id, form, next_id)
            == after_request(store, user_id, form, first_id),
{
    let key = form.idempotency_key;
    if publishes(store, user_id, form, first_id) {
        let saved = completed(user_id, key, form_page());
        lemma_first_where_push(
            store.idempotency,
            |record: RecordView| is_record_of(record, user_id, key),
            saved,
        );
        let after = after_request(store, user_id, form, first_id);
        assert(after.idempotency[store.idempotency.len() as int] == saved);
        assert(saved_response(saved) == Ok::<ResponseView, RecordError>(form_page()));
    }
}

/// Idempotency: however often one request is submitted, one after the
/// other, every submission gets the answer that the first one got (same
/// status, same headers, same body, same message), and the store holds what
/// it held after the first: one issue and one batch of tasks where the
/// request published, nothing new where it did not. Only a first try that
/// failed in the store is left out: it wrote nothing and may be tried again.
pub proof fn lemma_publish_is_idempotent(
    store: StoreView,
    user_id: u128,
    form: FormView,
    ids: Seq<u128>,
)
    requires
        ids.len() >= 1,
        request_outcome(store, user_id, form, ids[0]) != Err::<ReplyView, PublishFailure>(
            PublishFailure::Unexpected,
        ),
    ensures
        after_requests(store, user_id, form, ids) == after_request(store, user_id, form, ids[0]),
        forall|n: int|
            0 <= n < ids.len() ==> request_outcome(
                #[trigger] after_requests(store, user_id, form, ids.take(n)),
                user_id,
                form,
                ids[n],
            ) == request_outcome(store, user_id, form, ids[0]),
        after_request(store, user_id, form, ids[0]).issues.len() <= store.issues.len() + 1,
    decreases ids.len(),
{
    let once = after_request(store, user_id, form, ids[0]);
    if ids.len() == 1 {
        assert(ids.drop_last() =~= Seq::<u128>::empty());
        assert(after_requests(store, user_id, form, ids.drop_last()) == store);
        assert(ids.take(0) =~= Seq::<u128>::empty());
        assert(after_requests(store, user_id, form, ids.take(0)) == store);
    } else {
        let earlier = ids.drop_last();
        lemma_publish_is_idempotent(store, user_id, form, earlier);
        assert(earlier[0] == ids[0]);
        lemma_request_repeats(store, user_id, form, ids[0], ids.last());
        assert forall|n: int| 0 <= n < ids.len() implies request_outcome(
            #[trigger] after_requests(store, user_id, form, ids.take(n)),
            user_id,
            form,
            ids[n],
        ) == request_outcome(store, user_id, form, ids[0]) by {
            if n < earlier.len() {
                assert(ids.take(n) =~= earlier.take(n));
                assert(ids[n] == earlier[n]);
            } else {
                assert(ids.take(n) =~= earlier);
            }
        }
    }
}

/// Concurrent duplicates: while one request holds the key, a second one
/// under the same key is made to wait and changes nothing; once the first
/// has committed with `response`, the second is handed that very response,
/// and again changes nothing.
pub proof fn lemma_duplicate_waits_then_rejoins(
    store: StoreView,
    work: UnitOfWorkView,
    response: ResponseView,
)
    requires
        record_row(store.idempotency, work.user_id, work.key) is None,
        valid_status(response.status_code),
    ensures
        ({
            let begun = after_start(store, work.user_id, work.key);
            let done = committed(begun, work, response);
            &&& start_of(begun, work.user_id, work.key) == Err::<NextActionView, StoreError>(
                StoreError::ContentionWait,
            )
            &&& after_start(begun, work.user_id, work.key) == begun
            &&& start_of(done, work.user_id, work.key) == Ok::<NextActionView, StoreError>(
                NextActionView::ReturnSavedResponse(response),
            )
            &&& after_start(done, work.user_id, work.key) == done
        }),
{
    let wanted = |record: RecordView| is_record_of(record, work.user_id, work.key);
    lemma_start_holds(store, work.user_id, work.key);
    lemma_commit_completes(store, work, response);
    lemma_first_where_push(
        store.idempotency,
        wanted,
        completed(work.user_id, work.key, response),
    );
    let done = committed(after_start(store, work.user_id, work.key), work, response);
    assert(done.idempotency[store.idempotency.len() as int] == completed(
        work.user_id,
        work.key,
        response,
    ));
}

/// Outbox atomicity: an issue and its delivery tasks are in the store
/// together or not at all. While the unit of work of a request is open, and
/// after it was rolled back or lost, the store holds neither the issue nor
/// any task for it; the commit puts the issue and every staged task there
/// in one step.
pub proof fn lemma_outbox_is_atomic(store: StoreView, work: UnitOfWorkView, response: ResponseView)
    requires
        consistent(store),
        record_row(store.idempotency, work.user_id, work.key) is None,
        work.issue is Some,
        issue_of(store.issues, work.issue->0.id) is None,
    ensures
        ({
            let id = work.issue->0.id;
            let begun = after_start(store, work.user_id, work.key);
            let done = committed(begun, work, response);
            &&& rolled_back(begun, work) == store
            &&& issue_of(begun.issues, id) is None
            &&& forall|i: int|
                0 <= i < begun.queue.len() ==> (#[trigger] begun.queue[i]).task.issue_id != id
            &&& done.issues == store.issues.push(work.issue->0)
            &&& done.queue == store.queue + staged_rows(work.tasks)
            &&& issue_of(done.issues, id) == Some(work.issue->0.issue)
        }),
{
    let id = work.issue->0.id;
    lemma_rollback_restores(store, work);
    lemma_first_where_push(store.issues, |row: StoredIssueView| row.id == id, work.issue->0);
    assert forall|i: int| 0 <= i < store.queue.len() implies (
    #[trigger] store.queue[i]).task.issue_id != id by {
        assert(issue_of(store.issues, store.queue[i].task.issue_id) is Some);
    }
}

/// Where one of several requests under one key stands.
pub enum Progress {
    /// It has not got hold of the key: it has not tried yet, or it waits.
    Arriving,
    /// It holds the key and its unit of work is open.
    Holding,
    /// It has been answered.
    Answered(Result<ReplyView, PublishFailure>),
}

/// The store and the requests after request `i` took its next step, while
/// the others stand still. A request that arrives claims the key where it
/// is free, waits where it is held, and is answered with the saved response
/// where the action completed. A request that holds the key commits what the
/// form asks for, or rolls back where it cannot. All requests are by
/// `user_id` with `form`; request `i` would give a new issue the identifier
/// `ids[i]`.
pub open spec fn after_step(
    store: StoreView,
    user_id: u128,
    form: FormView,
    ids: Seq<u128>,
    progress: Seq<Progress>,
    i: int,
) -> (StoreView, Seq<Progress>) {
    let key = form.idempotency_key;
    if !(0 <= i < progress.len()) {
        (store, progress)
    } else {
        match progress[i] {
            Progress::Arriving => if !acceptable_key(key) {
                (
                    store,
                    progress.update(
                        i,
                        Progress::Answered(Err(PublishFailure::Validation(key_error(key)))),
                    ),
                )
            } else {
                match start_of(store, user_id, key) {
                    Ok(NextActionView::StartProcessing(_)) => (
                        after_start(store, user_id, key),
                        progress.update(i, Progress::Holding),
                    ),
                    Ok(NextActionView::ReturnSavedResponse(response)) => (
                        store,
                        progress.update(i, Progress::Answered(published(response))),
                    ),
                    Err(StoreError::ContentionWait) => (store, progress),
                    Err(_) => (
                        store,
                        progress.update(i, Progress::Answered(Err(PublishFailure::Unexpected))),
                    ),
                }
            },
            Progress::Holding => match newsletter_check(
                form.title,
                form.html_content,
                form.text_content,
            ) {
                Err(error) => (
                    rolled_back(store, fresh_work(user_id, key)),
                    progress.update(i, Progress::Answered(sent_back(error))),
                ),
                Ok(_) => if issue_of(store.issues, ids[i]) is None {
                    (
                        committed(
                            store,
                            staged_work(store, user_id, form, ids[i]),
                            form_page(),
                        ),
                        progress.update(i, Progress::Answered(published(form_page()))),
                    )
                } else {
                    (
                        rolled_back(store, fresh_work(user_id, key)),
                        progress.update(i, Progress::Answered(Err(PublishFailure::Unexpected))),
                    )
                },
            },
            Progress::Answered(_) => (store, progress),
        }
    }
}

/// The store and the requests after the steps of `schedule` were taken one
/// after the other: each entry names the request that moves next.
pub open spec fn after_schedule(
    store: StoreView,
    user_id: u128,
    form: FormView,
    ids: Seq<u128>,
    progress: Seq<Progress>,
    schedule: Seq<int>,
) -> (StoreView, Seq<Progress>)
    decreases schedule.len(),
{
    if schedule.len() == 0 {
        (store, progress)
    } else {
        let earlier = after_schedule(store, user_id, form, ids, progress, schedule.drop_last());
        after_step(earlier.0, user_id, form, ids, earlier.1, schedule.last())
    }
}

/// A request that runs alone is its own two steps: what `run_request` does
/// to the store and answers is what the request's step on arrival and its
/// step while holding the key do, unless it is made to wait.
pub proof fn lemma_request_alone_is_two_steps(
    store: StoreView,
    user_id: u128,
    form: FormView,
    id: u128,
)
    requires
        request_outcome(store, user_id, form, id) != Err::<ReplyView, PublishFailure>(
            PublishFailure::ContentionWait,
        ),
    ensures
        after_schedule(store, user_id, form, seq![id], seq![Progress::Arriving], seq![0int, 0int])
            == (
            after_request(store, user_id, form, id),
            seq![Progress::Answered(request_outcome(store, user_id, form, id))],
        ),
{
    let key = form.idempotency_key;
    let ids = seq![id];
    let arriving = seq![Progress::Arriving];
    let schedule = seq![0int, 0int];
    assert(schedule.drop_last() =~= seq![0int]);
    assert(seq![0int].drop_last() =~= Seq::<int>::empty());
    let none = after_schedule(store, user_id, form, ids, arriving, Seq::<int>::empty());
    assert(none == (store, arriving));
    let first = after_schedule(store, user_id, form, ids, arriving, seq![0int]);
    assert(first == after_step(store, user_id, form, ids, arriving, 0));
    let second = after_schedule(store, user_id, form, ids, arriving, schedule);
    assert(second == after_step(first.0, user_id, form, ids, first.1, 0));
    let outcome = request_outcome(store, user_id, form, id);
    if acceptable_key(key) && record_row(store.idempotency, user_id, key) is None {
        lemma_rollback_restores(store, fresh_work(user_id, key));
        lemma_commit_completes(store, staged_work(store, user_id, form, id), form_page());
        assert(first.1 =~= seq![Progress::Holding]);
        assert(staged_work(first.0, user_id, form, id) == staged_work(store, user_id, form, id));
    }
    assert(second.1 =~= seq![Progress::Answered(outcome)]);
}

/// No request has got anywhere yet.
pub open spec fn all_arriving(progress: Seq<Progress>) -> bool {
    forall|i: int| 0 <= i < progress.len() ==> (#[trigger] progress[i]) is Arriving
}

/// Request `h` holds the key, and it alone has got anywhere.
pub open spec fn holds_alone(progress: Seq<Progress>, h: int) -> bool {
    &&& 0 <= h < progress.len()
    &&& progress[h] is Holding
    &&& forall|i: int| 0 <= i < progress.len() && i != h ==> (#[trigger] progress[i]) is Arriving
}

/// Every request that has got anywhere was answered with the publication's
/// reply, and none holds the key.
pub open spec fn settled(progress: Seq<Progress>) -> bool {
    forall|i: int|
        0 <= i < progress.len() ==> (#[trigger] progress[i]) is Arriving || progress[i]
            == Progress::Answered(published(form_page()))
}

/// The store holds what request `h`, and it alone, has published.
pub open spec fn published_by(
    start: StoreView,
    user_id: u128,
    form: FormView,
    ids: Seq<u128>,
    store: StoreView,
    h: int,
) -> bool {
    0 <= h < ids.len() && store == after_request(start, user_id, form, ids[h])
}

/// What holds at every moment while requests with one valid form run at
/// once on a store that began as `start`: nothing has happened yet; or one
/// request holds the key, nothing is written yet and all others wait; or
/// one request has published, the store holds exactly its issue and its
/// tasks, and every request that was answered got the same reply.
pub open spec fn coherent(
    start: StoreView,
    user_id: u128,
    form: FormView,
    ids: Seq<u128>,
    store: StoreView,
    progress: Seq<Progress>,
) -> bool {
    &&& progress.len() == ids.len()
    &&& {
        ||| store == start && all_arriving(progress)
        ||| store == after_start(start, user_id, form.idempotency_key) && exists|h: int|
            holds_alone(progress, h)
        ||| settled(progress) && exists|h: int| published_by(start, user_id, form, ids, store, h)
    }
}

/// The requests are identical and valid, the key is free, and none of the
/// identifiers that they would use is taken.
pub open spec fn ready(start: StoreView, user_id: u128, form: FormView, ids: Seq<u128>) -> bool {
    &&& acceptable_key(form.idempotency_key)
    &&& record_row(start.idempotency, user_id, form.idempotency_key) is None
    &&& newsletter_check(form.title, form.html_content, form.text_content) is Ok
    &&& forall|i: int| 0 <= i < ids.len() ==> issue_of(start.issues, #[trigger] ids[i]) is None
}

/// One step of any request keeps the requests coherent.
pub proof fn lemma_step_keeps_coherence(
    start: StoreView,
    user_id: u128,
    form: FormView,
    ids: Seq<u128>,
    store: StoreView,
    progress: Seq<Progress>,
    i: int,
)
    requires
        ready(start, user_id, form, ids),
        coherent(start, user_id, form, ids, store, progress),
    ensures
        coherent(
            start,
            user_id,
            form,
            ids,
            after_step(store, user_id, form, ids, progress, i).0,
            after_step(store, user_id, form, ids, progress, i).1,
        ),
{
    let key = form.idempotency_key;
    let next = after_step(store, user_id, form, ids, progress, i);
    let begun = after_start(start, user_id, key);
    if 0 <= i < progress.len() {
        if store == start && all_arriving(progress) {
            assert(progress[i] is Arriving);
            assert(holds_alone(next.1, i));
        } else if store == begun && exists|h: int| holds_alone(progress, h) {
            let h = choose|h: int| holds_alone(progress, h);
            let work = staged_work(start, user_id, form, ids[h]);
            lemma_duplicate_waits_then_rejoins(start, work, form_page());
            if i == h {
                assert(issue_of(start.issues, ids[h]) is None);
                lemma_commit_completes(start, work, form_page());
                assert(staged_work(store, user_id, form, ids[h]) == work);
                assert(next.0 == after_request(start, user_id, form, ids[h]));
                assert(published_by(start, user_id, form, ids, next.0, h));
                assert forall|k: int| 0 <= k < next.1.len() implies (
                #[trigger] next.1[k]) is Arriving || next.1[k] == Progress::Answered(
                    published(form_page()),
                ) by {
                    if k != h {
                        assert(progress[k] is Arriving);
                    }
                }
            } else {
                assert(progress[i] is Arriving);
                assert(holds_alone(next.1, h));
            }
        } else {
            let h = choose|h: int| published_by(start, user_id, form, ids, store, h);
            let work = staged_work(start, user_id, form, ids[h]);
            assert(issue_of(start.issues, ids[h]) is None);
            lemma_duplicate_waits_then_rejoins(start, work, form_page());
            lemma_commit_completes(start, work, form_page());
            assert(store == committed(begun, work, form_page()));
            assert(published_by(start, user_id, form, ids, next.0, h));
            assert forall|k: int| 0 <= k < next.1.len() implies (#[trigger] next.1[k]) is Arriving
                || next.1[k] == Progress::Answered(published(form_page())) by {
                assert(progress[k] is Arriving || progress[k] == Progress::Answered(
                    published(form_page()),
                ));
            }
        }
    }
}

/// Idempotency of requests that run at once: however the steps of any
/// number of identical valid requests under one free key are interleaved,
/// the requests stay coherent. So at most one of them ever holds the key,
/// the others wait and never see a half-written answer, the store gains
/// exactly one issue and one task per confirmed subscriber, once, and every
/// request that is answered gets the same response and the same message.
pub proof fn lemma_concurrent_requests_publish_once(
    start: StoreView,
    user_id: u128,
    form: FormView,
    ids: Seq<u128>,
    schedule: Seq<int>,
)
    requires
        ready(start, user_id, form, ids),
    ensures
        ({
            let arriving = Seq::new(ids.len(), |i: int| Progress::Arriving);
            let end = after_schedule(start, user_id, form, ids, arriving, schedule);
            &&& coherent(start, user_id, form, ids, end.0, end.1)
            &&& forall|i: int|
                0 <= i < end.1.len() && (#[trigger] end.1[i]) is Answered ==> {
                    &&& end.1[i] == Progress::Answered(published(form_page()))
                    &&& exists|h: int| published_by(start, user_id, form, ids, end.0, h)
                }
            &&& end.0.issues.len() <= start.issues.len() + 1
        }),
    decreases schedule.len(),
{
    let arriving = Seq::new(ids.len(), |i: int| Progress::Arriving);
    let end = after_schedule(start, user_id, form, ids, arriving, schedule);
    if schedule.len() == 0 {
        assert(all_arriving(arriving));
    } else {
        lemma_concurrent_requests_publish_once(start, user_id, form, ids, schedule.drop_last());
        let earlier = after_schedule(start, user_id, form, ids, arriving, schedule.drop_last());
        lemma_step_keeps_coherence(
            start,
            user_id,
            form,
            ids,
            earlier.0,
            earlier.1,
            schedule.last(),
        );
    }
    assert forall|i: int| 0 <= i < end.1.len() && (#[trigger] end.1[i]) is Answered implies {
        &&& end.1[i] == Progress::Answered(published(form_page()))
        &&& exists|h: int| published_by(start, user_id, form, ids, end.0, h)
    } by {
        if end.0 == start && all_arriving(end.1) {
            assert(end.1[i] is Arriving);
        } else if end.0 == after_start(start, user_id, form.idempotency_key) && exists|h: int|
            holds_alone(end.1, h) {
            let h = choose|h: int| holds_alone(end.1, h);
            if i != h {
                assert(end.1[i] is Arriving);
            }
        }
    }
    if exists|h: int| published_by(start, user_id, form, ids, end.0, h) {
        let h = choose|h: int| published_by(start, user_id, form, ids, end.0, h);
        assert(end.0 == after_request(start, user_id, form, ids[h]));
    }
}

} // verus!
