//! Starting an action under an idempotency key, and committing or
//! abandoning it.

use crate::delivery_queue::is_for;
use crate::idempotency::key::IdempotencyKey;
use crate::idempotency::persistence::{
    completed, placeholder, saved_response, RecordError, RecordView, Response, ResponseView,
};
use crate::idempotency::table::{
    is_record_of, lemma_rewrite_keeps_keys, record_row, with_placeholder, with_response,
    without_record,
};
use crate::issue_delivery_worker::TaskView;
use crate::lookup::{lemma_first_where, lemma_first_where_push};
use crate::newsletter_issues::{issue_of, StoredIssueView};
use crate::store::{
    consistent, staged_ok, staged_rows, Store, StoreError, StoreView, UnitOfWork, UnitOfWorkView,
};
use vstd::prelude::*;

verus! {

/// What a request that arrives under an idempotency key does next.
#[derive(Debug)]
pub enum NextAction {
    /// The key was free: the caller is now the only one to carry the action
    /// out, inside the unit of work, and must end it with `save_response`.
    StartProcessing(UnitOfWork),
    /// The action was carried out before: this is the response it gave.
    ReturnSavedResponse(Response),
}

/// `NextAction`, as mathematical values.
pub enum NextActionView {
    StartProcessing(UnitOfWorkView),
    ReturnSavedResponse(ResponseView),
}

impl View for NextAction {
    type V = NextActionView;

    open spec fn view(&self) -> NextActionView {
        match *self {
            NextAction::StartProcessing(work) => NextActionView::StartProcessing(work@),
            NextAction::ReturnSavedResponse(response) => NextActionView::ReturnSavedResponse(
                response@,
            ),
        }
    }
}

/// A unit of work in which nothing is staged yet.
pub open spec fn fresh_work(user_id: u128, key: Seq<char>) -> UnitOfWorkView {
    UnitOfWorkView { user_id, key, issue: None, tasks: Seq::empty() }
}

/// The placeholder of `work` is in the store: its action runs.
pub open spec fn holds_placeholder(store: StoreView, work: UnitOfWorkView) -> bool {
    match record_row(store.idempotency, work.user_id, work.key) {
        Some(i) => store.idempotency[i] == placeholder(work.user_id, work.key),
        None => false,
    }
}

/// What a request under `key` by `user_id` is told: to start where the key
/// is free, the saved response where the action completed, and to wait
/// where another request holds the key.
pub open spec fn start_of(store: StoreView, user_id: u128, key: Seq<char>) -> Result<
    NextActionView,
    StoreError,
> {
    match record_row(store.idempotency, user_id, key) {
        None => Ok(NextActionView::StartProcessing(fresh_work(user_id, key))),
        Some(i) => match saved_response(store.idempotency[i]) {
            Ok(response) => Ok(NextActionView::ReturnSavedResponse(response)),
            Err(RecordError::Incomplete) => Err(StoreError::ContentionWait),
            Err(RecordError::InvalidStatusCode) => Err(StoreError::UnreadableRecord),
        },
    }
}

/// The store after a request under `key` by `user_id` was answered: a free
/// key is now held by a placeholder, and nothing else has changed.
pub open spec fn after_start(store: StoreView, user_id: u128, key: Seq<char>) -> StoreView {
    StoreView { idempotency: with_placeholder(store.idempotency, user_id, key), ..store }
}

/// Whether what `work` has staged can be written: its issue's identifier is
/// not taken.
pub open spec fn can_commit(store: StoreView, work: UnitOfWorkView) -> bool {
    match work.issue {
        Some(issue) => issue_of(store.issues, issue.id) is None,
        None => true,
    }
}

/// The store after `work` was committed with `response`: the response is in
/// the record, and the staged issue and its tasks are in their tables.
pub open spec fn committed(
    store: StoreView,
    work: UnitOfWorkView,
    response: ResponseView,
) -> StoreView {
    StoreView {
        idempotency: with_response(store.idempotency, work.user_id, work.key, response),
        issues: match work.issue {
            Some(issue) => store.issues.push(issue),
            None => store.issues,
        },
        queue: store.queue + staged_rows(work.tasks),
        subscriptions: store.subscriptions,
    }
}

/// The store after `work` was rolled back: its placeholder is gone, and
/// nothing of what it had staged is anywhere.
pub open spec fn rolled_back(store: StoreView, work: UnitOfWorkView) -> StoreView {
    StoreView {
        idempotency: without_record(store.idempotency, work.user_id, work.key),
        ..store
    }
}

/// Whether the insert of a placeholder claimed the key: it did where a row
/// was inserted, and found the key taken where none was.
pub fn claimed_key(n_inserted_rows: u64) -> (claimed: bool)
    ensures
        claimed == (n_inserted_rows > 0),
{
    n_inserted_rows > 0
}

/// What a request that found its key taken is answered with, given what the
/// key's record holds.
pub open spec fn rejoined(saved: Result<Option<ResponseView>, RecordError>) -> Result<
    ResponseView,
    StoreError,
> {
    match saved {
        Ok(Some(response)) => Ok(response),
        Ok(None) => Err(StoreError::UnreadableRecord),
        Err(RecordError::Incomplete) => Err(StoreError::ContentionWait),
        Err(RecordError::InvalidStatusCode) => Err(StoreError::UnreadableRecord),
    }
}

/// What was read for a key, as mathematical values.
pub open spec fn saved_view(saved: Result<Option<Response>, RecordError>) -> Result<
    Option<ResponseView>,
    RecordError,
> {
    match saved {
        Ok(Some(response)) => Ok(Some(response@)),
        Ok(None) => Ok(None),
        Err(error) => Err(error),
    }
}

/// Answers a request that found its key taken: with the saved response
/// where the record holds one, with a wait where the action still runs,
/// and with an error where the record is gone or cannot be read.
pub fn rejoin(saved: Result<Option<Response>, RecordError>) -> (r: Result<Response, StoreError>)
    ensures
        match r {
            Ok(response) => rejoined(saved_view(saved)) == Ok::<ResponseView, StoreError>(
                response@,
            ),
            Err(e) => rejoined(saved_view(saved)) == Err::<ResponseView, StoreError>(e),
        },
        r matches Ok(response) ==> saved matches Ok(Some(found)) && response.wf() == found.wf(),
{
    match saved {
        Ok(Some(response)) => Ok(response),
        Ok(None) => Err(StoreError::UnreadableRecord),
        Err(RecordError::Incomplete) => Err(StoreError::ContentionWait),
        Err(RecordError::InvalidStatusCode) => Err(StoreError::UnreadableRecord),
    }
}

/// Starts or rejoins the action under `idempotency_key`. A free key is
/// claimed with a placeholder and the caller gets the unit of work; a key
/// whose action completed gives the saved response back; a key that another
/// request still holds makes the caller wait.
pub fn try_processing(store: &mut Store, idempotency_key: &IdempotencyKey, user_id: u128) -> (r:
    Result<NextAction, StoreError>)
    ensures
        final(store)@ == after_start(old(store)@, user_id, idempotency_key@),
        match r {
            Ok(next) => start_of(old(store)@, user_id, idempotency_key@) == Ok::<
                NextActionView,
                StoreError,
            >(next@),
            Err(e) => start_of(old(store)@, user_id, idempotency_key@) == Err::<
                NextActionView,
                StoreError,
            >(e),
        },
        r matches Ok(NextAction::StartProcessing(work)) ==> work.wf() && holds_placeholder(
            final(store)@,
            work@,
        ),
        r matches Ok(NextAction::ReturnSavedResponse(response)) ==> response.wf(),
        old(store).wf() ==> final(store).wf(),
{
    let inserted = store.idempotency.insert_placeholder(user_id, idempotency_key);
    if claimed_key(inserted) {
        let work = UnitOfWork {
            user_id,
            idempotency_key: idempotency_key.duplicate(),
            issue: None,
            tasks: Vec::new(),
        };
        proof {
            assert(work@.tasks =~= Seq::<TaskView>::empty());
            lemma_start_holds(old(store)@, user_id, idempotency_key@);
        }
        return Ok(NextAction::StartProcessing(work));
    }
    match rejoin(store.idempotency.get_saved_response(idempotency_key, user_id)) {
        Ok(response) => Ok(NextAction::ReturnSavedResponse(response)),
        Err(e) => Err(e),
    }
}

/// Ends the action of `work`: writes `response` into its record and commits
/// everything that was staged, all at once, then hands the response back
/// unchanged. Where the staged issue's identifier is taken nothing is
/// written, and the unit of work is rolled back.
pub fn save_response(
    store: &mut Store,
    work: UnitOfWork,
    idempotency_key: &IdempotencyKey,
    user_id: u128,
    response: Response,
) -> (r: Result<Response, StoreError>)
    requires
        work@.user_id == user_id,
        work@.key == idempotency_key@,
        holds_placeholder(old(store)@, work@),
    ensures
        match r {
            Ok(saved) => {
                &&& can_commit(old(store)@, work@)
                &&& saved@ == response@
                &&& final(store)@ == committed(old(store)@, work@, response@)
            },
            Err(e) => {
                &&& !can_commit(old(store)@, work@)
                &&& e == StoreError::ConstraintViolation
                &&& final(store)@ == rolled_back(old(store)@, work@)
            },
        },
        old(store).wf() && work.wf() ==> final(store).wf(),
{
    let ghost staged = work@;
    let UnitOfWork { user_id: _, idempotency_key: _, issue, tasks } = work;
    if let Some(issue) = issue {
        if !store.newsletter_issues.insert(issue.newsletter_issue_id, issue.issue) {
            store.idempotency.remove(idempotency_key, user_id);
            return Err(StoreError::ConstraintViolation);
        }
    }
    store.idempotency.save_response(idempotency_key, user_id, &response);
    store.issue_delivery_queue.append(tasks);
    proof {
        assert(store@.queue =~= committed(old(store)@, staged, response@).queue);
        if old(store).wf() && staged_ok(staged) {
            lemma_commit_keeps_consistency(old(store)@, staged, response@);
        }
    }
    Ok(response)
}

/// Abandons the action of `work`: its placeholder is removed, so that the
/// next request under the key starts afresh, and nothing that was staged is
/// written.
pub fn rollback(store: &mut Store, work: UnitOfWork)
    requires
        holds_placeholder(old(store)@, work@),
    ensures
        final(store)@ == rolled_back(old(store)@, work@),
        old(store).wf() ==> final(store).wf(),
{
    store.idempotency.remove(&work.idempotency_key, work.user_id);
}

/// After a free key was claimed, its placeholder is found under the key.
pub proof fn lemma_start_holds(store: StoreView, user_id: u128, key: Seq<char>)
    requires
        record_row(store.idempotency, user_id, key) is None,
    ensures
        holds_placeholder(after_start(store, user_id, key), fresh_work(user_id, key)),
        record_row(after_start(store, user_id, key).idempotency, user_id, key) == Some(
            store.idempotency.len() as int,
        ),
{
    lemma_first_where_push(
        store.idempotency,
        |record: RecordView| is_record_of(record, user_id, key),
        placeholder(user_id, key),
    );
}

/// A commit leaves the store's constraints in force.
pub proof fn lemma_commit_keeps_consistency(
    store: StoreView,
    work: UnitOfWorkView,
    response: ResponseView,
)
    requires
        consistent(store),
        staged_ok(work),
        can_commit(store, work),
    ensures
        consistent(committed(store, work, response)),
{
    let after = committed(store, work, response);
    lemma_first_where(
        store.idempotency,
        |record: RecordView| is_record_of(record, work.user_id, work.key),
    );
    if let Some(i) = record_row(store.idempotency, work.user_id, work.key) {
        lemma_rewrite_keeps_keys(
            store.idempotency,
            i,
            completed(work.user_id, work.key, response),
        );
    }
    match work.issue {
        None => {
            assert(work.tasks.len() == 0) by {
                if work.tasks.len() > 0 {
                    let first = work.tasks[0];
                    assert(work.issue is Some);
                }
            }
            assert(after.queue =~= store.queue);
        },
        Some(issue) => {
            let wanted = |row: StoredIssueView| row.id == issue.id;
            lemma_first_where(store.issues, wanted);
            assert forall|i: int, j: int| 0 <= i < j < after.issues.len() implies (
            #[trigger] after.issues[i]).id != (#[trigger] after.issues[j]).id by {
                if j < store.issues.len() {
                    assert(after.issues[i] == store.issues[i] && after.issues[j]
                        == store.issues[j]);
                } else {
                    assert(after.issues[i] == store.issues[i]);
                    assert(!wanted(store.issues[i]));
                }
            }
            let old_len = store.queue.len() as int;
            assert forall|i: int| 0 <= i < after.queue.len() implies issue_of(
                after.issues,
                (#[trigger] after.queue[i]).task.issue_id,
            ) is Some by {
                let id = after.queue[i].task.issue_id;
                lemma_first_where_push(store.issues, |row: StoredIssueView| row.id == id, issue);
                if i < old_len {
                    assert(after.queue[i] == store.queue[i]);
                } else {
                    assert(after.queue[i] == staged_rows(work.tasks)[i - old_len]);
                    assert(work.tasks[i - old_len].issue_id == issue.id);
                }
            }
            assert forall|i: int, j: int| 0 <= i < j < after.queue.len() implies !is_for(
                #[trigger] after.queue[i],
                (#[trigger] after.queue[j]).task.issue_id,
                after.queue[j].task.email,
            ) by {
                if j < old_len {
                    assert(after.queue[i] == store.queue[i] && after.queue[j] == store.queue[j]);
                } else {
                    assert(after.queue[j] == staged_rows(work.tasks)[j - old_len]);
                    assert(work.tasks[j - old_len].issue_id == issue.id);
                    if i < old_len {
                        assert(after.queue[i] == store.queue[i]);
                        assert(issue_of(store.issues, store.queue[i].task.issue_id) is Some);
                    } else {
                        assert(after.queue[i] == staged_rows(work.tasks)[i - old_len]);
                        assert(work.tasks[i - old_len].email != work.tasks[j - old_len].email);
                    }
                }
            }
        },
    }
}

} // verus!
