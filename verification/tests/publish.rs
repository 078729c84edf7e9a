use zero2prod::idempotency::key::{IdempotencyKey, IdempotencyKeyError};
use zero2prod::idempotency::persistence::{HeaderPairRecord, Response};
use zero2prod::idempotency::persistence::RecordError;
use zero2prod::idempotency::processing::{
    claimed_key, rejoin, rollback, save_response, try_processing, NextAction,
};
use zero2prod::issue_delivery_worker::{
    run_iteration, try_execute_task, ExecutionOutcome, Removal, WorkerAction, WorkerEvent,
    WorkerFault, WorkerState,
};
use zero2prod::publication::run_request;
use zero2prod::routes::admin::newsletters::post::{
    publish_newsletter, publish_newsletter_with, success_message, validate_newsletter,
    FlashLevel, FormData, NewsletterError, PublishAction, PublishEvent, PublishFailure,
    PublishState, Reply,
};
use zero2prod::store::{Store, StoreError};
use zero2prod::subscriptions::{Subscription, SubscriptionStatus};

fn key(text: &str) -> IdempotencyKey {
    IdempotencyKey::try_from(text.to_string()).unwrap()
}

fn form(title: &str, key: &str) -> FormData {
    FormData {
        title: title.to_string(),
        html_content: "<p>html</p>".to_string(),
        text_content: "plain".to_string(),
        idempotency_key: key.to_string(),
    }
}

fn store_with(subscribers: &[(u128, &str, bool)]) -> Store {
    let mut store = Store::new();
    for (id, email, confirmed) in subscribers {
        let status = if *confirmed {
            SubscriptionStatus::Confirmed
        } else {
            SubscriptionStatus::PendingConfirmation
        };
        assert!(store.subscriptions.insert(Subscription {
            id: *id,
            email: email.to_string(),
            status,
        }));
    }
    store
}

fn rows(store: &Store) -> Vec<(u128, String, u16)> {
    store
        .issue_delivery_queue
        .tasks()
        .into_iter()
        .map(|t| (t.newsletter_issue_id, t.subscriber_email, t.n_retries))
        .collect()
}

fn pairs(headers: &[HeaderPairRecord]) -> Vec<(String, Vec<u8>)> {
    headers.iter().map(|h| (h.name.clone(), h.value.clone())).collect()
}

fn assert_redirects_to_the_form(response: &Response) {
    assert_eq!(response.status_code, 303);
    assert_eq!(
        pairs(&response.headers),
        vec![("location".to_string(), b"/admin/newsletters".to_vec())]
    );
    assert!(response.body.is_empty());
}

fn assert_published(reply: &Reply) {
    assert_redirects_to_the_form(&reply.response);
    assert_eq!(reply.flash.level, FlashLevel::Info);
    assert_eq!(reply.flash.content, "The newsletter issue has been published!");
}

#[test]
fn a_newsletter_needs_all_three_parts() {
    assert_eq!(validate_newsletter("t", "h", "x"), Ok(()));
    assert_eq!(validate_newsletter("", "h", "x"), Err(NewsletterError::EmptyTitle));
    assert_eq!(validate_newsletter("t", "", "x"), Err(NewsletterError::EmptyHtml));
    assert_eq!(validate_newsletter("t", "h", ""), Err(NewsletterError::EmptyText));
    // The first missing part is reported.
    assert_eq!(validate_newsletter("", "", ""), Err(NewsletterError::EmptyTitle));
    assert_eq!(validate_newsletter("t", "", ""), Err(NewsletterError::EmptyHtml));
}

#[test]
fn newsletter_errors_say_what_is_missing() {
    assert_eq!(NewsletterError::EmptyTitle.message(), "Title must not be empty");
    assert_eq!(NewsletterError::EmptyHtml.message(), "HTML content must not be empty");
    assert_eq!(NewsletterError::EmptyText.message(), "Text content must not be empty");
}

#[test]
fn the_success_message_is_informational() {
    let flash = success_message();
    assert_eq!(flash.level, FlashLevel::Info);
    assert_eq!(flash.content, "The newsletter issue has been published!");
}

#[test]
fn failures_map_to_400_and_500_and_a_wait_to_none() {
    assert_eq!(PublishFailure::Validation(IdempotencyKeyError::Empty).status_code(), Some(400));
    assert_eq!(PublishFailure::Validation(IdempotencyKeyError::TooLong).status_code(), Some(400));
    assert_eq!(PublishFailure::Unexpected.status_code(), Some(500));
    // A contention wait is no error.
    assert_eq!(PublishFailure::ContentionWait.status_code(), None);
}

#[test]
fn publishing_creates_one_task_per_confirmed_subscriber() {
    let mut store = store_with(&[
        (1, "a@x.com", true),
        (2, "pending@x.com", false),
        (3, "b@x.com", true),
        (4, "c@x.com", true),
    ]);
    let reply = run_request(&mut store, 10, form("Title", "key-1"), 100).unwrap();
    assert_published(&reply);
    assert_eq!(store.newsletter_issues.len(), 1);
    let issue = store.newsletter_issues.get_issue(100).unwrap();
    assert_eq!(issue.title, "Title");
    assert_eq!(issue.html_content, "<p>html</p>");
    assert_eq!(issue.text_content, "plain");
    assert_eq!(
        rows(&store),
        vec![
            (100, "a@x.com".to_string(), 0),
            (100, "b@x.com".to_string(), 0),
            (100, "c@x.com".to_string(), 0),
        ]
    );
    assert_eq!(store.idempotency.len(), 1);
    let saved = store.idempotency.get_saved_response(&key("key-1"), 10).unwrap().unwrap();
    assert_redirects_to_the_form(&saved);
}

#[test]
fn publishing_without_confirmed_subscribers_creates_no_task() {
    let mut store = store_with(&[(1, "pending@x.com", false)]);
    let reply = run_request(&mut store, 10, form("Title", "key-1"), 100).unwrap();
    assert_published(&reply);
    assert_eq!(store.newsletter_issues.len(), 1);
    assert_eq!(store.issue_delivery_queue.len(), 0);
}

#[test]
fn a_repeated_request_is_answered_alike_and_writes_nothing_more() {
    let mut store = store_with(&[(1, "a@x.com", true), (2, "b@x.com", true)]);
    let first = run_request(&mut store, 10, form("Title", "key-1"), 100).unwrap();
    for fresh_id in 101u128..105 {
        let again = run_request(&mut store, 10, form("Title", "key-1"), fresh_id).unwrap();
        assert_eq!(again.response.status_code, first.response.status_code);
        assert_eq!(pairs(&again.response.headers), pairs(&first.response.headers));
        assert_eq!(again.response.body, first.response.body);
        assert_eq!(again.flash.level, first.flash.level);
        assert_eq!(again.flash.content, first.flash.content);
        assert_eq!(store.newsletter_issues.len(), 1);
        assert!(!store.newsletter_issues.contains(fresh_id));
        assert_eq!(store.issue_delivery_queue.len(), 2);
        assert_eq!(store.idempotency.len(), 1);
    }
}

#[test]
fn a_repeated_request_gets_the_saved_response_whatever_it_carries_now() {
    let mut store = store_with(&[(1, "a@x.com", true)]);
    run_request(&mut store, 10, form("Title", "key-1"), 100).unwrap();
    // The key decides, not the payload.
    let again = run_request(&mut store, 10, form("", "key-1"), 101).unwrap();
    assert_published(&again);
    assert_eq!(store.newsletter_issues.len(), 1);
}

#[test]
fn another_key_or_another_caller_publishes_again() {
    let mut store = store_with(&[(1, "a@x.com", true)]);
    run_request(&mut store, 10, form("Title", "key-1"), 100).unwrap();
    run_request(&mut store, 10, form("Title", "key-2"), 101).unwrap();
    run_request(&mut store, 11, form("Title", "key-1"), 102).unwrap();
    assert_eq!(store.newsletter_issues.len(), 3);
    assert_eq!(store.issue_delivery_queue.len(), 3);
    assert_eq!(store.idempotency.len(), 3);
}

#[test]
fn a_malformed_key_is_rejected_before_anything_starts() {
    let mut store = store_with(&[(1, "a@x.com", true)]);
    let empty = run_request(&mut store, 10, form("Title", ""), 100).unwrap_err();
    assert_eq!(empty, PublishFailure::Validation(IdempotencyKeyError::Empty));
    let long = "k".repeat(51);
    let too_long = run_request(&mut store, 10, form("Title", &long), 100).unwrap_err();
    assert_eq!(too_long, PublishFailure::Validation(IdempotencyKeyError::TooLong));
    assert_eq!(store.idempotency.len(), 0);
    assert_eq!(store.newsletter_issues.len(), 0);
    assert_eq!(store.issue_delivery_queue.len(), 0);
}

#[test]
fn an_incomplete_form_is_sent_back_and_leaves_no_trace() {
    let mut store = store_with(&[(1, "a@x.com", true)]);
    let reply = run_request(&mut store, 10, form("", "key-1"), 100).unwrap();
    assert_redirects_to_the_form(&reply.response);
    assert_eq!(reply.flash.level, FlashLevel::Error);
    assert_eq!(reply.flash.content, "Title must not be empty");
    assert_eq!(store.idempotency.len(), 0);
    assert_eq!(store.newsletter_issues.len(), 0);
    assert_eq!(store.issue_delivery_queue.len(), 0);
    // The key is free again: the corrected form publishes under it.
    let reply = run_request(&mut store, 10, form("Title", "key-1"), 100).unwrap();
    assert_published(&reply);
    assert_eq!(store.newsletter_issues.len(), 1);
}

#[test]
fn a_taken_issue_identifier_fails_the_request_and_commits_nothing() {
    let mut store = store_with(&[(1, "a@x.com", true)]);
    run_request(&mut store, 10, form("Title", "key-1"), 100).unwrap();
    let failure = run_request(&mut store, 10, form("Other", "key-2"), 100).unwrap_err();
    assert_eq!(failure, PublishFailure::Unexpected);
    assert_eq!(store.newsletter_issues.len(), 1);
    assert_eq!(store.newsletter_issues.get_issue(100).unwrap().title, "Title");
    assert_eq!(store.issue_delivery_queue.len(), 1);
    assert_eq!(store.idempotency.len(), 1);
    // Nothing was saved under the key, so the retry is a first try.
    let reply = run_request(&mut store, 10, form("Other", "key-2"), 101).unwrap();
    assert_published(&reply);
    assert_eq!(store.newsletter_issues.len(), 2);
}

#[test]
fn a_free_key_starts_processing_and_a_held_key_waits() {
    let mut store = store_with(&[(1, "a@x.com", true)]);
    let work = match try_processing(&mut store, &key("key-1"), 10).unwrap() {
        NextAction::StartProcessing(work) => work,
        other => panic!("unexpected {:?}", other),
    };
    assert_eq!(work.user_id, 10);
    assert_eq!(work.idempotency_key.as_ref(), "key-1");
    assert!(work.issue.is_none());
    assert!(work.tasks.is_empty());
    assert_eq!(store.idempotency.len(), 1);
    // A duplicate that arrives now has to wait, and changes nothing.
    assert_eq!(
        try_processing(&mut store, &key("key-1"), 10).unwrap_err(),
        StoreError::ContentionWait
    );
    assert_eq!(
        run_request(&mut store, 10, form("Title", "key-1"), 100).unwrap_err(),
        PublishFailure::ContentionWait
    );
    assert_eq!(store.idempotency.len(), 1);
    assert_eq!(store.newsletter_issues.len(), 0);
    // Once the holder has committed, the duplicate gets its response.
    let response = Response::new(303, vec![], b"done".to_vec()).unwrap();
    let saved = save_response(&mut store, work, &key("key-1"), 10, response).unwrap();
    assert_eq!(saved.status_code, 303);
    assert_eq!(saved.body, b"done".to_vec());
    match try_processing(&mut store, &key("key-1"), 10).unwrap() {
        NextAction::ReturnSavedResponse(response) => {
            assert_eq!(response.status_code, 303);
            assert_eq!(response.body, b"done".to_vec());
        }
        other => panic!("unexpected {:?}", other),
    }
}

#[test]
fn nothing_staged_is_visible_before_the_commit() {
    let mut store = store_with(&[(1, "a@x.com", true), (2, "b@x.com", true)]);
    let mut work = match try_processing(&mut store, &key("key-1"), 10).unwrap() {
        NextAction::StartProcessing(work) => work,
        other => panic!("unexpected {:?}", other),
    };
    assert_eq!(
        work.insert_newsletter_issue(&store.newsletter_issues, 100, "Title", "plain", "<p>html</p>"),
        Ok(100)
    );
    assert_eq!(store.newsletter_issues.len(), 0);
    assert_eq!(store.issue_delivery_queue.len(), 0);
    assert_eq!(work.enqueue_delivery_tasks(&store.subscriptions, 100), Ok(()));
    assert_eq!(work.tasks.len(), 2);
    assert_eq!(store.newsletter_issues.len(), 0);
    assert_eq!(store.issue_delivery_queue.len(), 0);
    // A worker that runs now finds nothing.
    assert_eq!(
        run_iteration(&mut store.issue_delivery_queue, &store.newsletter_issues, true),
        Ok(ExecutionOutcome::EmptyQueue)
    );
    let response = Response::new(303, vec![], vec![]).unwrap();
    save_response(&mut store, work, &key("key-1"), 10, response).unwrap();
    assert_eq!(store.newsletter_issues.len(), 1);
    assert_eq!(
        rows(&store),
        vec![(100, "a@x.com".to_string(), 0), (100, "b@x.com".to_string(), 0)]
    );
}

#[test]
fn an_aborted_unit_of_work_leaves_no_issue_and_no_task() {
    let mut store = store_with(&[(1, "a@x.com", true), (2, "b@x.com", true)]);
    let mut work = match try_processing(&mut store, &key("key-1"), 10).unwrap() {
        NextAction::StartProcessing(work) => work,
        other => panic!("unexpected {:?}", other),
    };
    work.insert_newsletter_issue(&store.newsletter_issues, 100, "Title", "plain", "<p>html</p>")
        .unwrap();
    // The request dies here, after the issue and before the commit.
    rollback(&mut store, work);
    assert_eq!(store.newsletter_issues.len(), 0);
    assert!(!store.newsletter_issues.contains(100));
    assert_eq!(store.issue_delivery_queue.len(), 0);
    assert_eq!(store.idempotency.len(), 0);
    // The key is free for the next identical request.
    assert!(matches!(
        try_processing(&mut store, &key("key-1"), 10).unwrap(),
        NextAction::StartProcessing(_)
    ));
}

#[test]
fn a_unit_of_work_carries_one_issue_and_its_tasks() {
    let mut store = store_with(&[(1, "a@x.com", true)]);
    let mut work = match try_processing(&mut store, &key("key-1"), 10).unwrap() {
        NextAction::StartProcessing(work) => work,
        other => panic!("unexpected {:?}", other),
    };
    // Tasks need their issue in the same unit of work.
    assert_eq!(
        work.enqueue_delivery_tasks(&store.subscriptions, 100),
        Err(StoreError::ConstraintViolation)
    );
    assert_eq!(work.insert_newsletter_issue(&store.newsletter_issues, 100, "t", "x", "h"), Ok(100));
    assert_eq!(
        work.insert_newsletter_issue(&store.newsletter_issues, 101, "t", "x", "h"),
        Err(StoreError::ConstraintViolation)
    );
    assert_eq!(
        work.enqueue_delivery_tasks(&store.subscriptions, 999),
        Err(StoreError::ConstraintViolation)
    );
    assert_eq!(work.enqueue_delivery_tasks(&store.subscriptions, 100), Ok(()));
    assert_eq!(
        work.enqueue_delivery_tasks(&store.subscriptions, 100),
        Err(StoreError::ConstraintViolation)
    );
    assert_eq!(work.tasks.len(), 1);
    assert_eq!(work.tasks[0].newsletter_issue_id, 100);
    assert_eq!(work.tasks[0].subscriber_email, "a@x.com");
    assert_eq!(work.tasks[0].n_retries, 0);
    rollback(&mut store, work);
}

#[test]
fn the_handler_asks_for_each_step_in_turn() {
    let (state, action) = publish_newsletter_with(
        PublishState::Received,
        PublishEvent::Submitted { user_id: 10, form: form("Title", "key-1") },
        100,
    );
    match &action {
        PublishAction::TryProcessing { user_id, idempotency_key } => {
            assert_eq!(*user_id, 10);
            assert_eq!(idempotency_key.as_ref(), "key-1");
        }
        other => panic!("unexpected action {:?}", other),
    }
    let (state, action) = publish_newsletter_with(state, PublishEvent::Started, 100);
    match &action {
        PublishAction::InsertIssue { newsletter_issue_id, title, text_content, html_content } => {
            assert_eq!(*newsletter_issue_id, 100);
            assert_eq!(title, "Title");
            assert_eq!(text_content, "plain");
            assert_eq!(html_content, "<p>html</p>");
        }
        other => panic!("unexpected action {:?}", other),
    }
    let (state, action) = publish_newsletter_with(state, PublishEvent::IssueInserted, 555);
    assert!(matches!(action, PublishAction::EnqueueDeliveryTasks { newsletter_issue_id: 100 }));
    let (state, action) = publish_newsletter_with(state, PublishEvent::TasksEnqueued, 555);
    let response = match action {
        PublishAction::SaveResponse { user_id, idempotency_key, response } => {
            assert_eq!(user_id, 10);
            assert_eq!(idempotency_key.as_ref(), "key-1");
            assert_redirects_to_the_form(&response);
            response
        }
        other => panic!("unexpected action {:?}", other),
    };
    assert!(matches!(state, PublishState::Saving));
    let (state, action) = publish_newsletter_with(state, PublishEvent::ResponseSaved(response), 555);
    assert!(matches!(state, PublishState::Done));
    match action {
        PublishAction::Finish(Ok(reply)) => assert_published(&reply),
        other => panic!("unexpected action {:?}", other),
    }
}

#[test]
fn the_handler_hands_a_saved_response_on() {
    let (state, _) = publish_newsletter_with(
        PublishState::Received,
        PublishEvent::Submitted { user_id: 10, form: form("Title", "key-1") },
        100,
    );
    let saved = Response::new(201, vec![], b"earlier".to_vec()).unwrap();
    let (state, action) = publish_newsletter_with(state, PublishEvent::Rejoined(saved), 100);
    assert!(matches!(state, PublishState::Done));
    match action {
        PublishAction::Finish(Ok(reply)) => {
            assert_eq!(reply.response.status_code, 201);
            assert_eq!(reply.response.body, b"earlier".to_vec());
            assert_eq!(reply.flash.level, FlashLevel::Info);
            assert_eq!(reply.flash.content, "The newsletter issue has been published!");
        }
        other => panic!("unexpected action {:?}", other),
    }
}

#[test]
fn the_handler_fails_on_a_fault_and_on_an_event_out_of_turn() {
    let (state, action) = publish_newsletter_with(PublishState::Saving, PublishEvent::Fault, 1);
    assert!(matches!(state, PublishState::Done));
    assert!(matches!(action, PublishAction::Finish(Err(PublishFailure::Unexpected))));
    let (state, action) = publish_newsletter_with(PublishState::Received, PublishEvent::Started, 1);
    assert!(matches!(state, PublishState::Done));
    assert!(matches!(action, PublishAction::Finish(Err(PublishFailure::Unexpected))));
    let (state, action) =
        publish_newsletter_with(PublishState::Done, PublishEvent::TasksEnqueued, 1);
    assert!(matches!(state, PublishState::Done));
    assert!(matches!(action, PublishAction::Finish(Err(PublishFailure::Unexpected))));
}

#[test]
fn new_issues_get_different_random_identifiers() {
    let mut ids = Vec::new();
    for _ in 0..4 {
        let (state, _) = publish_newsletter(
            PublishState::Received,
            PublishEvent::Submitted { user_id: 10, form: form("Title", "key-1") },
        );
        let (_, action) = publish_newsletter(state, PublishEvent::Started);
        match action {
            PublishAction::InsertIssue { newsletter_issue_id, .. } => ids.push(newsletter_issue_id),
            other => panic!("unexpected action {:?}", other),
        }
    }
    for i in 0..ids.len() {
        for j in 0..i {
            assert_ne!(ids[i], ids[j]);
        }
    }
}

// Drives the worker as a caller with a real store and transport would: each
// action is performed, and what happened is reported back as the next event.
fn dequeue_cycle(
    store: &mut Store,
    failing: &str,
    dropped: &mut Vec<(String, Removal)>,
    sent: &mut Vec<String>,
) -> Result<ExecutionOutcome, WorkerFault> {
    let mut state = WorkerState::Idle;
    let mut event = WorkerEvent::Wake;
    let mut held: Option<(u128, String)> = None;
    loop {
        let (next, action) = try_execute_task(state, event);
        state = next;
        event = match action {
            WorkerAction::Claim => {
                let claimed = store.issue_delivery_queue.dequeue_task();
                held = claimed
                    .as_ref()
                    .map(|t| (t.newsletter_issue_id, t.subscriber_email.clone()));
                WorkerEvent::Claimed(claimed)
            }
            WorkerAction::FetchIssue { newsletter_issue_id } => {
                match store.newsletter_issues.get_issue(newsletter_issue_id) {
                    Some(issue) => WorkerEvent::IssueFetched(issue),
                    None => WorkerEvent::Fault,
                }
            }
            WorkerAction::SendEmail { recipient, .. } => {
                if recipient == failing {
                    WorkerEvent::DeliveryFailed
                } else {
                    sent.push(recipient);
                    WorkerEvent::Delivered
                }
            }
            WorkerAction::IncrementRetries { newsletter_issue_id, subscriber_email, n_retries } => {
                store.issue_delivery_queue.increment_retries(
                    newsletter_issue_id,
                    &subscriber_email,
                    n_retries,
                );
                held = None;
                WorkerEvent::Resolved
            }
            WorkerAction::DeleteTask { newsletter_issue_id, subscriber_email, reason } => {
                store.issue_delivery_queue.delete_task(newsletter_issue_id, &subscriber_email);
                dropped.push((subscriber_email, reason));
                held = None;
                WorkerEvent::Resolved
            }
            WorkerAction::Finish(result) => {
                if let Some((issue, email)) = held {
                    store.issue_delivery_queue.release(issue, &email);
                }
                return result;
            }
        };
    }
}

#[test]
fn an_issue_reaches_two_subscribers_and_gives_up_on_the_third() {
    let mut store = store_with(&[
        (1, "a@x.com", true),
        (2, "broken@x.com", true),
        (3, "c@x.com", true),
    ]);
    let reply = run_request(&mut store, 10, form("Title", "key-1"), 100).unwrap();
    assert_published(&reply);
    assert_eq!(store.issue_delivery_queue.len(), 3);

    let mut dropped = Vec::new();
    let mut sent = Vec::new();
    // One cycle for each of the two that succeed, six for the one that fails.
    for _ in 0..8 {
        assert_eq!(
            dequeue_cycle(&mut store, "broken@x.com", &mut dropped, &mut sent),
            Ok(ExecutionOutcome::TaskCompleted)
        );
    }
    assert_eq!(store.issue_delivery_queue.len(), 0);
    assert_eq!(
        dequeue_cycle(&mut store, "broken@x.com", &mut dropped, &mut sent),
        Ok(ExecutionOutcome::EmptyQueue)
    );
    sent.sort();
    assert_eq!(sent, vec!["a@x.com".to_string(), "c@x.com".to_string()]);
    let exhausted: Vec<&(String, Removal)> =
        dropped.iter().filter(|(_, reason)| *reason == Removal::RetriesExhausted).collect();
    assert_eq!(exhausted.len(), 1);
    assert_eq!(exhausted[0].0, "broken@x.com");
    assert_eq!(dropped.len(), 3);
    // The issue itself stays.
    assert_eq!(store.newsletter_issues.len(), 1);
}

#[test]
fn a_stored_address_that_does_not_parse_is_dropped_unsent() {
    let mut store = store_with(&[(1, "no-at-sign", true), (2, "b@x.com", true)]);
    run_request(&mut store, 10, form("Title", "key-1"), 100).unwrap();
    let mut dropped = Vec::new();
    let mut sent = Vec::new();
    assert_eq!(
        dequeue_cycle(&mut store, "", &mut dropped, &mut sent),
        Ok(ExecutionOutcome::TaskCompleted)
    );
    assert_eq!(dropped, vec![("no-at-sign".to_string(), Removal::InvalidAddress)]);
    assert!(sent.is_empty());
    assert_eq!(rows(&store), vec![(100, "b@x.com".to_string(), 0)]);
}

#[test]
fn a_key_is_claimed_where_a_row_was_inserted() {
    assert!(!claimed_key(0));
    assert!(claimed_key(1));
    assert!(claimed_key(2));
}

#[test]
fn a_duplicate_is_answered_with_what_the_record_holds() {
    let saved = Response::new(303, vec![], b"saved".to_vec()).unwrap();
    let answer = rejoin(Ok(Some(saved))).unwrap();
    assert_eq!(answer.status_code, 303);
    assert_eq!(answer.body, b"saved".to_vec());
    assert_eq!(rejoin(Ok(None)).unwrap_err(), StoreError::UnreadableRecord);
    assert_eq!(rejoin(Err(RecordError::Incomplete)).unwrap_err(), StoreError::ContentionWait);
    assert_eq!(
        rejoin(Err(RecordError::InvalidStatusCode)).unwrap_err(),
        StoreError::UnreadableRecord
    );
}

#[test]
fn a_record_that_cannot_be_read_fails_the_request() {
    let mut store = store_with(&[(1, "a@x.com", true)]);
    store.idempotency.insert_placeholder(10, &key("key-1"));
    // A status code that no response can carry.
    let unreadable = Response { status_code: 42, headers: vec![], body: vec![] };
    store.idempotency.save_response(&key("key-1"), 10, &unreadable);
    assert_eq!(
        try_processing(&mut store, &key("key-1"), 10).unwrap_err(),
        StoreError::UnreadableRecord
    );
    assert_eq!(
        run_request(&mut store, 10, form("Title", "key-1"), 100).unwrap_err(),
        PublishFailure::Unexpected
    );
    assert_eq!(store.newsletter_issues.len(), 0);
    assert_eq!(store.idempotency.len(), 1);
}

#[test]
fn an_issue_under_a_taken_identifier_is_refused_at_once() {
    let mut store = store_with(&[(1, "a@x.com", true)]);
    run_request(&mut store, 10, form("Title", "key-1"), 100).unwrap();
    let mut work = match try_processing(&mut store, &key("key-2"), 10).unwrap() {
        NextAction::StartProcessing(work) => work,
        other => panic!("unexpected {:?}", other),
    };
    assert_eq!(
        work.insert_newsletter_issue(&store.newsletter_issues, 100, "Other", "x", "h"),
        Err(StoreError::ConstraintViolation)
    );
    assert!(work.issue.is_none());
    // A free identifier is taken, with title, text and HTML kept apart.
    assert_eq!(
        work.insert_newsletter_issue(&store.newsletter_issues, 101, "Other", "x", "h"),
        Ok(101)
    );
    let staged = work.issue.as_ref().unwrap();
    assert_eq!(staged.newsletter_issue_id, 101);
    assert_eq!(staged.issue.title, "Other");
    assert_eq!(staged.issue.text_content, "x");
    assert_eq!(staged.issue.html_content, "h");
    assert!(work.tasks.is_empty());
    rollback(&mut store, work);
}

#[test]
fn requests_that_run_at_once_publish_once_and_are_answered_alike() {
    let mut store = store_with(&[(1, "a@x.com", true), (2, "b@x.com", true)]);
    // The first request claims the key and starts its work.
    let mut first = match try_processing(&mut store, &key("key-1"), 10).unwrap() {
        NextAction::StartProcessing(work) => work,
        other => panic!("unexpected {:?}", other),
    };
    // Two duplicates arrive while it runs: both wait, nothing is written.
    for fresh_id in [201u128, 202] {
        assert_eq!(
            run_request(&mut store, 10, form("Title", "key-1"), fresh_id).unwrap_err(),
            PublishFailure::ContentionWait
        );
    }
    first
        .insert_newsletter_issue(&store.newsletter_issues, 200, "Title", "plain", "<p>html</p>")
        .unwrap();
    // A duplicate in the middle of the first one's work still waits.
    assert_eq!(
        run_request(&mut store, 10, form("Title", "key-1"), 203).unwrap_err(),
        PublishFailure::ContentionWait
    );
    assert_eq!(store.newsletter_issues.len(), 0);
    assert_eq!(store.issue_delivery_queue.len(), 0);
    first.enqueue_delivery_tasks(&store.subscriptions, 200).unwrap();
    let response = zero2prod::idempotency::persistence::see_other("/admin/newsletters");
    let answer = save_response(&mut store, first, &key("key-1"), 10, response).unwrap();
    // Now the duplicates are answered, each with what the first one got.
    for fresh_id in [201u128, 202, 203] {
        let again = run_request(&mut store, 10, form("Title", "key-1"), fresh_id).unwrap();
        assert_eq!(again.response.status_code, answer.status_code);
        assert_eq!(pairs(&again.response.headers), pairs(&answer.headers));
        assert_eq!(again.response.body, answer.body);
        assert_eq!(again.flash.content, "The newsletter issue has been published!");
    }
    assert_eq!(store.newsletter_issues.len(), 1);
    assert!(store.newsletter_issues.contains(200));
    assert_eq!(
        rows(&store),
        vec![(200, "a@x.com".to_string(), 0), (200, "b@x.com".to_string(), 0)]
    );
    assert_eq!(store.idempotency.len(), 1);
}
