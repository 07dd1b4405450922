use zero2prod::idempotency::IdempotencyKey;
use zero2prod::publisher::PublishRequestError;
use zero2prod::store::Store;
use zero2prod::store::StoreError;
use zero2prod::store::UserId;

fn three_subscribers() -> Vec<String> {
    vec![
        "one@example.com".to_string(),
        "two@example.com".to_string(),
        "three@example.com".to_string(),
    ]
}

fn publish_hello(store: &mut Store, key: &str, user: UserId, emails: &Vec<String>) -> Result<
    zero2prod::response::HttpLikeResponse,
    PublishRequestError,
> {
    store.publish(
        &key.to_string(),
        user,
        &"Hello".to_string(),
        &"Newsletter body as plain text".to_string(),
        &"<p>Newsletter body as HTML</p>".to_string(),
        emails,
    )
}

#[test]
fn first_publish_returns_a_303_with_the_redirect_location() {
    let mut store = Store::new();
    let emails = three_subscribers();
    let response = publish_hello(&mut store, "abc123", UserId(1), &emails).unwrap();
    assert_eq!(response.status_code, 303);
    assert_eq!(response.headers.len(), 1);
    assert_eq!(response.headers[0].name, "location");
    assert_eq!(response.headers[0].value, b"/admin/newsletter".to_vec());
    assert!(response.body.is_empty());
}

#[test]
fn publish_enqueues_one_task_per_confirmed_subscriber() {
    let mut store = Store::new();
    let emails = three_subscribers();
    publish_hello(&mut store, "abc123", UserId(1), &emails).unwrap();
    assert_eq!(store.issues_len(), 1);
    assert_eq!(store.queue_len(), 3);
    assert_eq!(store.records_len(), 1);
}

#[test]
fn second_publish_with_same_key_replays_byte_identical_response() {
    let mut store = Store::new();
    let emails = three_subscribers();
    let first = publish_hello(&mut store, "abc123", UserId(1), &emails).unwrap();
    let second = publish_hello(&mut store, "abc123", UserId(1), &emails).unwrap();
    assert!(first.same_as(&second));
    assert_eq!(second.status_code, 303);
    // No additional issue and no additional delivery tasks: still 3, never 6.
    assert_eq!(store.issues_len(), 1);
    assert_eq!(store.queue_len(), 3);
}

#[test]
fn duplicate_request_with_different_payload_still_replays_the_original() {
    let mut store = Store::new();
    let emails = three_subscribers();
    let first = publish_hello(&mut store, "abc123", UserId(1), &emails).unwrap();
    let second = store
        .publish(
            &"abc123".to_string(),
            UserId(1),
            &"Another title".to_string(),
            &"other text".to_string(),
            &"<p>other html</p>".to_string(),
            &emails,
        )
        .unwrap();
    assert!(first.same_as(&second));
    assert_eq!(store.issues_len(), 1);
    assert_eq!(store.queue_len(), 3);
}

#[test]
fn publishes_under_different_keys_each_get_their_full_fanout() {
    let mut store = Store::new();
    let emails = three_subscribers();
    publish_hello(&mut store, "abc123", UserId(1), &emails).unwrap();
    publish_hello(&mut store, "def456", UserId(1), &emails).unwrap();
    assert_eq!(store.issues_len(), 2);
    assert_eq!(store.queue_len(), 6);
}

#[test]
fn publishes_by_different_users_with_the_same_key_are_independent() {
    let mut store = Store::new();
    let emails = three_subscribers();
    publish_hello(&mut store, "abc123", UserId(1), &emails).unwrap();
    publish_hello(&mut store, "abc123", UserId(2), &emails).unwrap();
    assert_eq!(store.issues_len(), 2);
    assert_eq!(store.queue_len(), 6);
}

#[test]
fn empty_idempotency_key_is_rejected_without_touching_the_store() {
    let mut store = Store::new();
    let emails = three_subscribers();
    let result = publish_hello(&mut store, "", UserId(1), &emails);
    assert!(matches!(result, Err(PublishRequestError::InvalidIdempotencyKey(_))));
    assert_eq!(store.records_len(), 0);
    assert_eq!(store.issues_len(), 0);
    assert_eq!(store.queue_len(), 0);
}

#[test]
fn overlong_idempotency_key_is_rejected() {
    let mut store = Store::new();
    let emails = three_subscribers();
    let long_key = "x".repeat(51);
    let result = publish_hello(&mut store, &long_key, UserId(1), &emails);
    assert!(matches!(result, Err(PublishRequestError::InvalidIdempotencyKey(_))));
}

#[test]
fn rollback_after_issue_insert_leaves_no_issue_and_no_tasks() {
    let mut store = Store::new();
    let key = IdempotencyKey::parse("abc123".to_string()).unwrap();
    let user = UserId(1);
    let mut transaction = match store.try_processing(&key, user).unwrap() {
        zero2prod::idempotency::NextAction::StartProcessing(tx) => tx,
        zero2prod::idempotency::NextAction::ReturnSavedResponse(_) => panic!("fresh key replayed"),
    };
    // The issue insert succeeds, and then the enqueue is forced to fail:
    // the whole transaction is rolled back before anything committed.
    store
        .insert_newsletter_issue(
            &mut transaction,
            &"Hello".to_string(),
            &"text".to_string(),
            &"<p>html</p>".to_string(),
        )
        .unwrap();
    transaction.rollback();
    assert_eq!(store.issues_len(), 0);
    assert_eq!(store.queue_len(), 0);
    // Only the pending idempotency row survives the rollback.
    assert_eq!(store.records_len(), 1);
}

#[test]
fn abandoned_pending_row_surfaces_as_a_stuck_record() {
    let mut store = Store::new();
    let key = IdempotencyKey::parse("abc123".to_string()).unwrap();
    let user = UserId(1);
    match store.try_processing(&key, user).unwrap() {
        zero2prod::idempotency::NextAction::StartProcessing(tx) => tx.rollback(),
        zero2prod::idempotency::NextAction::ReturnSavedResponse(_) => panic!("fresh key replayed"),
    }
    let retry = store.try_processing(&key, user);
    assert!(matches!(retry, Err(StoreError::StuckPendingRecord)));
}

#[test]
fn saved_response_can_be_read_back_for_the_pair() {
    let mut store = Store::new();
    let emails = three_subscribers();
    let published = publish_hello(&mut store, "abc123", UserId(1), &emails).unwrap();
    let key = IdempotencyKey::parse("abc123".to_string()).unwrap();
    let saved = store.get_saved_response(&key, UserId(1)).unwrap();
    assert!(saved.same_as(&published));
    assert!(store.get_saved_response(&key, UserId(2)).is_none());
}
