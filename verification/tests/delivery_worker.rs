use zero2prod::delivery::DeliveryOrder;
use zero2prod::delivery::ExecutionOutcome;
use zero2prod::delivery::worker_backoff_seconds;
use zero2prod::store::Store;
use zero2prod::store::StoreError;
use zero2prod::store::UserId;

fn published_store(emails: Vec<String>) -> Store {
    let mut store = Store::new();
    store
        .publish(
            &"abc123".to_string(),
            UserId(1),
            &"Hello".to_string(),
            &"plain body".to_string(),
            &"<p>html body</p>".to_string(),
            &emails,
        )
        .unwrap();
    store
}

fn drain(store: &mut Store) -> Vec<Option<DeliveryOrder>> {
    let mut claims = Vec::new();
    loop {
        match store.try_execute_task() {
            (ExecutionOutcome::EmptyQueue, order) => {
                assert!(order.is_none());
                return claims;
            },
            (ExecutionOutcome::TaskCompleted, order) => claims.push(order),
        }
    }
}

#[test]
fn every_queued_task_is_claimed_exactly_once() {
    let emails = vec![
        "one@example.com".to_string(),
        "two@example.com".to_string(),
        "three@example.com".to_string(),
    ];
    let mut store = published_store(emails);
    assert_eq!(store.queue_len(), 3);
    let claims = drain(&mut store);
    // The claims across the whole drain number exactly the queued tasks.
    assert_eq!(claims.len(), 3);
    assert_eq!(store.queue_len(), 0);
    let mut recipients: Vec<String> = claims
        .into_iter()
        .map(|order| order.unwrap().recipient.as_ref().clone())
        .collect();
    recipients.sort();
    assert_eq!(
        recipients,
        vec![
            "one@example.com".to_string(),
            "three@example.com".to_string(),
            "two@example.com".to_string(),
        ]
    );
}

#[test]
fn a_claimed_task_carries_its_issues_content() {
    let mut store = published_store(vec!["one@example.com".to_string()]);
    let claims = drain(&mut store);
    assert_eq!(claims.len(), 1);
    let order = claims.into_iter().next().unwrap().unwrap();
    assert_eq!(order.recipient.as_ref(), "one@example.com");
    assert_eq!(order.title, "Hello");
    assert_eq!(order.html_content, "<p>html body</p>");
    assert_eq!(order.text_content, "plain body");
}

#[test]
fn a_task_with_an_invalid_stored_address_is_skipped_but_still_completed() {
    let mut store = published_store(vec![
        "good@example.com".to_string(),
        "not-an-email".to_string(),
    ]);
    let claims = drain(&mut store);
    assert_eq!(claims.len(), 2);
    let sent: Vec<&Option<DeliveryOrder>> =
        claims.iter().filter(|order| order.is_some()).collect();
    assert_eq!(sent.len(), 1);
    assert_eq!(sent[0].as_ref().unwrap().recipient.as_ref(), "good@example.com");
    // The unparsable task is gone from the queue all the same.
    assert_eq!(store.queue_len(), 0);
}

#[test]
fn an_empty_queue_reports_empty_and_changes_nothing() {
    let mut store = Store::new();
    let (outcome, order) = store.try_execute_task();
    assert!(matches!(outcome, ExecutionOutcome::EmptyQueue));
    assert!(order.is_none());
}

#[test]
fn tasks_of_an_issue_are_limited_to_its_enqueue_snapshot() {
    let mut store = published_store(vec![
        "one@example.com".to_string(),
        "two@example.com".to_string(),
    ]);
    // A subscriber confirmed after the enqueue: present in a later publish's
    // snapshot, but never in the first issue's fan-out.
    store
        .publish(
            &"def456".to_string(),
            UserId(1),
            &"Later".to_string(),
            &"later text".to_string(),
            &"<p>later html</p>".to_string(),
            &vec![
                "one@example.com".to_string(),
                "two@example.com".to_string(),
                "late@example.com".to_string(),
            ],
        )
        .unwrap();
    let claims = drain(&mut store);
    assert_eq!(claims.len(), 5);
    let late_deliveries: Vec<String> = claims
        .into_iter()
        .map(|order| order.unwrap())
        .filter(|order| order.recipient.as_ref() == "late@example.com")
        .map(|order| order.title)
        .collect();
    assert_eq!(late_deliveries, vec!["Later".to_string()]);
}

#[test]
fn dequeue_returns_a_queued_task() {
    let store = published_store(vec!["one@example.com".to_string()]);
    let task = store.dequeue_task().unwrap();
    assert_eq!(task.subscriber_email, "one@example.com");
    assert!(store.dequeue_task().is_some());
}

#[test]
fn worker_backs_off_ten_seconds_on_an_empty_queue() {
    let completed: Result<ExecutionOutcome, StoreError> = Ok(ExecutionOutcome::TaskCompleted);
    let empty: Result<ExecutionOutcome, StoreError> = Ok(ExecutionOutcome::EmptyQueue);
    let failed: Result<ExecutionOutcome, StoreError> = Err(StoreError::PersistenceError);
    assert_eq!(worker_backoff_seconds(&completed), 0);
    assert_eq!(worker_backoff_seconds(&empty), 10);
    assert_eq!(worker_backoff_seconds(&failed), 1);
}
