use zero2prod::delivery_queue::DeliveryQueue;
use zero2prod::issue_delivery_worker::{DeliveryTask, NewsletterIssue};
use zero2prod::newsletter_issues::IssueTable;
use zero2prod::subscriptions::{Subscription, SubscriptionStatus, SubscriptionTable};

fn task(issue: u128, email: &str, n_retries: u16) -> DeliveryTask {
    DeliveryTask { newsletter_issue_id: issue, subscriber_email: email.to_string(), n_retries }
}

fn rows(queue: &DeliveryQueue) -> Vec<(u128, String, u16)> {
    queue
        .tasks()
        .into_iter()
        .map(|t| (t.newsletter_issue_id, t.subscriber_email, t.n_retries))
        .collect()
}

#[test]
fn a_new_queue_is_empty() {
    let mut queue = DeliveryQueue::new();
    assert_eq!(queue.len(), 0);
    assert!(queue.tasks().is_empty());
    assert!(queue.dequeue_task().is_none());
}

#[test]
fn a_delivery_has_one_row() {
    let mut queue = DeliveryQueue::new();
    assert!(queue.insert(task(1, "a@x.com", 0)));
    assert!(!queue.insert(task(1, "a@x.com", 3)));
    assert!(queue.insert(task(1, "b@x.com", 0)));
    assert!(queue.insert(task(2, "a@x.com", 0)));
    assert_eq!(
        rows(&queue),
        vec![
            (1, "a@x.com".to_string(), 0),
            (1, "b@x.com".to_string(), 0),
            (2, "a@x.com".to_string(), 0),
        ]
    );
}

#[test]
fn of_many_claims_on_one_task_one_wins() {
    let mut queue = DeliveryQueue::new();
    queue.insert(task(1, "a@x.com", 0));
    let mut winners = 0;
    for _ in 0..5 {
        if let Some(claimed) = queue.dequeue_task() {
            assert_eq!(claimed.newsletter_issue_id, 1);
            assert_eq!(claimed.subscriber_email, "a@x.com");
            assert_eq!(claimed.n_retries, 0);
            winners += 1;
        }
    }
    assert_eq!(winners, 1);
    // The claimed task is still in the queue, only held.
    assert_eq!(queue.len(), 1);
}

#[test]
fn claims_pass_over_held_rows() {
    let mut queue = DeliveryQueue::new();
    queue.insert(task(1, "a@x.com", 0));
    queue.insert(task(1, "b@x.com", 0));
    queue.insert(task(1, "c@x.com", 0));
    assert_eq!(queue.dequeue_task().unwrap().subscriber_email, "a@x.com");
    assert_eq!(queue.dequeue_task().unwrap().subscriber_email, "b@x.com");
    assert_eq!(queue.dequeue_task().unwrap().subscriber_email, "c@x.com");
    assert!(queue.dequeue_task().is_none());
}

#[test]
fn a_released_task_can_be_claimed_again() {
    let mut queue = DeliveryQueue::new();
    queue.insert(task(1, "a@x.com", 2));
    assert!(queue.dequeue_task().is_some());
    assert!(queue.dequeue_task().is_none());
    queue.release(1, "a@x.com");
    let again = queue.dequeue_task().unwrap();
    assert_eq!(again.n_retries, 2);
}

#[test]
fn a_retry_raises_the_counter_and_frees_the_row() {
    let mut queue = DeliveryQueue::new();
    queue.insert(task(1, "a@x.com", 0));
    queue.insert(task(1, "b@x.com", 0));
    let claimed = queue.dequeue_task().unwrap();
    queue.increment_retries(1, "a@x.com", claimed.n_retries);
    assert_eq!(
        rows(&queue),
        vec![(1, "a@x.com".to_string(), 1), (1, "b@x.com".to_string(), 0)]
    );
    // The row keeps its place and is claimable again.
    assert_eq!(queue.dequeue_task().unwrap().subscriber_email, "a@x.com");
}

#[test]
fn a_deleted_task_is_gone() {
    let mut queue = DeliveryQueue::new();
    queue.insert(task(1, "a@x.com", 0));
    queue.insert(task(1, "b@x.com", 0));
    queue.insert(task(2, "a@x.com", 0));
    queue.delete_task(1, "a@x.com");
    assert_eq!(
        rows(&queue),
        vec![(1, "b@x.com".to_string(), 0), (2, "a@x.com".to_string(), 0)]
    );
    queue.delete_task(9, "nobody@x.com");
    assert_eq!(queue.len(), 2);
}

#[test]
fn changes_to_a_missing_delivery_change_nothing() {
    let mut queue = DeliveryQueue::new();
    queue.insert(task(1, "a@x.com", 4));
    queue.increment_retries(1, "b@x.com", 4);
    queue.increment_retries(2, "a@x.com", 4);
    queue.release(2, "a@x.com");
    assert_eq!(rows(&queue), vec![(1, "a@x.com".to_string(), 4)]);
}

#[test]
fn issues_are_stored_once_per_identifier() {
    let mut issues = IssueTable::new();
    assert_eq!(issues.len(), 0);
    assert!(!issues.contains(1));
    assert!(issues.get_issue(1).is_none());
    let first = NewsletterIssue {
        title: "t1".to_string(),
        text_content: "x1".to_string(),
        html_content: "h1".to_string(),
    };
    let second = NewsletterIssue {
        title: "t2".to_string(),
        text_content: "x2".to_string(),
        html_content: "h2".to_string(),
    };
    assert!(issues.insert(1, first));
    assert!(!issues.insert(1, second.duplicate()));
    assert!(issues.insert(2, second));
    assert_eq!(issues.len(), 2);
    assert!(issues.contains(1));
    let read = issues.get_issue(1).unwrap();
    assert_eq!(read.title, "t1");
    assert_eq!(read.text_content, "x1");
    assert_eq!(read.html_content, "h1");
    assert_eq!(issues.get_issue(2).unwrap().title, "t2");
    assert!(issues.get_issue(3).is_none());
}

#[test]
fn subscribers_are_stored_once_per_address_and_identifier() {
    let mut table = SubscriptionTable::new();
    let pending = |id: u128, email: &str| Subscription {
        id,
        email: email.to_string(),
        status: SubscriptionStatus::PendingConfirmation,
    };
    assert!(table.insert(pending(1, "a@x.com")));
    assert!(!table.insert(pending(2, "a@x.com")));
    assert!(!table.insert(pending(1, "b@x.com")));
    assert!(table.insert(pending(2, "b@x.com")));
    assert_eq!(table.len(), 2);
    assert_eq!(table.get(1).email, "b@x.com");
}

#[test]
fn confirming_marks_one_subscriber() {
    let mut table = SubscriptionTable::new();
    for (id, email) in [(1u128, "a@x.com"), (2, "b@x.com"), (3, "c@x.com")] {
        table.insert(Subscription {
            id,
            email: email.to_string(),
            status: SubscriptionStatus::PendingConfirmation,
        });
    }
    table.confirm_subscriber(2);
    table.confirm_subscriber(9);
    assert_eq!(table.get(0).status, SubscriptionStatus::PendingConfirmation);
    assert_eq!(table.get(1).status, SubscriptionStatus::Confirmed);
    assert_eq!(table.get(1).email, "b@x.com");
    assert_eq!(table.get(1).id, 2);
    assert_eq!(table.get(2).status, SubscriptionStatus::PendingConfirmation);
    assert_eq!(table.len(), 3);
}

#[test]
fn each_retry_adds_one_to_the_counter_it_was_claimed_with() {
    let mut queue = DeliveryQueue::new();
    queue.insert(task(1, "a@x.com", 0));
    for expected in 1u16..=5 {
        let claimed = queue.dequeue_task().unwrap();
        assert_eq!(claimed.n_retries, expected - 1);
        queue.increment_retries(1, "a@x.com", claimed.n_retries);
        assert_eq!(rows(&queue), vec![(1, "a@x.com".to_string(), expected)]);
    }
}
