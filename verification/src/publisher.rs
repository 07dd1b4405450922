//! The transactional fan-out: one publish becomes a newsletter issue plus one
//! queued delivery task per confirmed subscriber, all inside the open
//! idempotency transaction, so a publish is either fully visible or not
//! visible at all.

use vstd::prelude::*;

use crate::idempotency::IdempotencyKey;
use crate::idempotency::NextAction;
use crate::idempotency::ValidationError;
use crate::idempotency::spec_key_valid;
use crate::response::HttpLikeResponse;
use crate::response::ResponseV;
use crate::response::see_other;
use crate::response::spec_see_other;
use crate::store::DeliveryTask;
use crate::store::IssueV;
use crate::store::NewsletterIssue;
use crate::store::PgTransaction;
use crate::store::Store;
use crate::store::StoreError;
use crate::store::StoreV;
use crate::store::TaskV;
use crate::store::TxV;
use crate::store::UserId;
use crate::store::generate_issue_id;
use crate::store::now_timestamp;

verus! {

/// Where a successful publish redirects its caller, and thus the `location`
/// of the cached response.
pub open spec fn spec_newsletter_redirect_path() -> Seq<char> {
    "/admin/newsletter"@
}

/// The redirect path as a string.
pub fn newsletter_redirect_path() -> (r: &'static str)
    ensures
        r@ == spec_newsletter_redirect_path(),
        r.is_ascii(),
{
    let r = "/admin/newsletter";
    proof {
        reveal_strlit("/admin/newsletter");
        assert(r.is_ascii());
    }
    r
}

/// No email address occurs twice in a snapshot of confirmed subscribers, as
/// the subscriber directory's unique email column guarantees.
pub open spec fn spec_distinct_emails(emails: Seq<Seq<char>>) -> bool {
    forall|i: int, j: int|
        #![trigger emails[i], emails[j]]
        0 <= i < j < emails.len() ==> emails[i] != emails[j]
}

/// The delivery tasks a publish of `newsletter_issue_id` fans out to: one per
/// confirmed subscriber in the snapshot, in snapshot order.
pub open spec fn spec_fanout(newsletter_issue_id: u128, emails: Seq<Seq<char>>) -> Seq<TaskV> {
    emails.map_values(
        |e: Seq<char>| TaskV { newsletter_issue_id, subscriber_email: e },
    )
}

/// View of a snapshot of subscriber email addresses.
pub open spec fn emails_view(emails: Seq<String>) -> Seq<Seq<char>> {
    emails.map_values(|e: String| e@)
}

/// A transaction after an issue row is staged in it.
pub open spec fn spec_with_staged_issue(
    tx: TxV,
    newsletter_issue_id: u128,
    title: Seq<char>,
    text_content: Seq<char>,
    html_content: Seq<char>,
    published_at: i64,
) -> TxV {
    TxV {
        staged_issue: Some(
            IssueV { newsletter_issue_id, title, text_content, html_content, published_at },
        ),
        ..tx
    }
}

/// How one publish request ends.
pub ghost enum PublishOutcomeV {
    /// The idempotency key was malformed; nothing happened.
    BadKey,
    /// A completed request with this `(user, key)` exists; its response is
    /// replayed and nothing else happens.
    Replayed(ResponseV),
    /// A pending row with this `(user, key)` exists and nobody owns it.
    Stuck,
    /// A staged write could not commit; the transaction was rolled back and
    /// only the pending idempotency row remains.
    Failed,
    /// The issue, its fan-out and the completed idempotency row all became
    /// visible together.
    Published(ResponseV),
}

/// One publish request against the store, as a whole: insert the pending
/// idempotency row, stage the issue and its fan-out, save the redirect
/// response and commit — or stop at the step that refuses.
pub open spec fn spec_publish(
    s: StoreV,
    key: Seq<char>,
    user_id: u128,
    title: Seq<char>,
    text_content: Seq<char>,
    html_content: Seq<char>,
    emails: Seq<Seq<char>>,
    newsletter_issue_id: u128,
    created_at: i64,
    published_at: i64,
) -> (StoreV, PublishOutcomeV) {
    if !spec_key_valid(key) {
        (s, PublishOutcomeV::BadKey)
    } else if s.has_record(user_id, key) {
        match s.record_for(user_id, key).response {
            Some(resp) => (s, PublishOutcomeV::Replayed(resp)),
            None => (s, PublishOutcomeV::Stuck),
        }
    } else {
        let pending = s.with_pending_record(user_id, key, created_at);
        if s.has_issue(newsletter_issue_id) || !spec_distinct_emails(emails) {
            (pending, PublishOutcomeV::Failed)
        } else {
            let issue = IssueV {
                newsletter_issue_id,
                title,
                text_content,
                html_content,
                published_at,
            };
            let tx = TxV {
                user_id,
                idempotency_key: key,
                staged_issue: Some(issue),
                staged_tasks: spec_fanout(newsletter_issue_id, emails),
            };
            let response = spec_see_other(spec_newsletter_redirect_path());
            (
                pending.with_committed(tx, user_id, key, response),
                PublishOutcomeV::Published(response),
            )
        }
    }
}

/// Why a publish request returned no response.
#[derive(Debug)]
pub enum PublishRequestError {
    /// The idempotency key was rejected; a client error.
    InvalidIdempotencyKey(ValidationError),
    /// The store refused; an internal error, never detailed to the client.
    Internal(StoreError),
}

/// How an executable publish result corresponds to the outcome of
/// `spec_publish`.
pub open spec fn publish_result_matches(
    r: Result<HttpLikeResponse, PublishRequestError>,
    outcome: PublishOutcomeV,
) -> bool {
    match (r, outcome) {
        (Ok(resp), PublishOutcomeV::Replayed(v)) => resp@ == v,
        (Ok(resp), PublishOutcomeV::Published(v)) => resp@ == v,
        (Err(PublishRequestError::InvalidIdempotencyKey(_)), PublishOutcomeV::BadKey) => true,
        (
            Err(PublishRequestError::Internal(StoreError::StuckPendingRecord)),
            PublishOutcomeV::Stuck,
        ) => true,
        (
            Err(PublishRequestError::Internal(StoreError::PersistenceError)),
            PublishOutcomeV::Failed,
        ) => true,
        _ => false,
    }
}

/// Decides whether all addresses in a snapshot are distinct.
fn emails_distinct(emails: &Vec<String>) -> (r: bool)
    ensures
        r == spec_distinct_emails(emails_view(emails@)),
{
    let n = emails.len();
    let mut i: usize = 0;
    while i < n
        invariant
            i <= n,
            n == emails@.len(),
            forall|a: int, b: int|
                #![trigger emails_view(emails@)[a], emails_view(emails@)[b]]
                0 <= a < b < i ==> emails_view(emails@)[a] != emails_view(emails@)[b],
            forall|a: int, b: int|
                #![trigger emails_view(emails@)[a], emails_view(emails@)[b]]
                0 <= a < i && a < b < n ==> emails_view(emails@)[a] != emails_view(emails@)[b],
        decreases n - i,
    {
        let mut j: usize = i + 1;
        while j < n
            invariant
                i < j <= n,
                n == emails@.len(),
                forall|b: int|
                    #![trigger emails_view(emails@)[b]]
                    i < b < j ==> emails_view(emails@)[i as int] != emails_view(emails@)[b],
            decreases n - j,
        {
            if emails[i].eq(&emails[j]) {
                proof {
                    assert(emails_view(emails@)[i as int] == emails_view(emails@)[j as int]);
                }
                return false;
            }
            j = j + 1;
        }
        i = i + 1;
    }
    true
}

impl Store {
    /// Stages the issue row with a caller-chosen identifier inside the open
    /// transaction. Refuses exactly when the transaction already staged an
    /// issue or the identifier already exists: the insert would violate the
    /// primary key and abort the transaction.
    pub fn insert_newsletter_issue_with_id(
        &self,
        transaction: &mut PgTransaction,
        newsletter_issue_id: u128,
        title: &String,
        text_content: &String,
        html_content: &String,
        published_at: i64,
    ) -> (r: Result<(), StoreError>)
        requires
            old(transaction)@.wf(),
        ensures
            final(transaction)@.wf(),
            match r {
                Ok(()) => {
                    &&& old(transaction)@.staged_issue is None
                    &&& !self@.has_issue(newsletter_issue_id)
                    &&& final(transaction)@ == spec_with_staged_issue(
                        old(transaction)@,
                        newsletter_issue_id,
                        title@,
                        text_content@,
                        html_content@,
                        published_at,
                    )
                },
                Err(StoreError::PersistenceError) => {
                    &&& old(transaction)@.staged_issue is Some || self@.has_issue(
                        newsletter_issue_id,
                    )
                    &&& final(transaction)@ == old(transaction)@
                },
                Err(_) => false,
            },
    {
        if transaction.staged_issue_id().is_some() {
            return Err(StoreError::PersistenceError);
        }
        match self.find_issue(newsletter_issue_id) {
            Some(w) => {
                proof {
                    assert(self@.issues[w as int].newsletter_issue_id == newsletter_issue_id);
                    assert(self@.has_issue(newsletter_issue_id));
                }
                Err(StoreError::PersistenceError)
            },
            None => {
                transaction.stage_issue(
                    NewsletterIssue {
                        newsletter_issue_id,
                        title: title.clone(),
                        text_content: text_content.clone(),
                        html_content: html_content.clone(),
                        published_at,
                    },
                );
                Ok(())
            },
        }
    }

    /// Stages the issue row for a fresh random identifier, stamped with the
    /// current time, inside the open transaction; returns the identifier.
    /// Fails when the transaction already staged an issue, or when the drawn
    /// identifier collides with an existing issue.
    pub fn insert_newsletter_issue(
        &self,
        transaction: &mut PgTransaction,
        title: &String,
        text_content: &String,
        html_content: &String,
    ) -> (r: Result<u128, StoreError>)
        requires
            old(transaction)@.wf(),
        ensures
            final(transaction)@.wf(),
            match r {
                Ok(id) => {
                    &&& old(transaction)@.staged_issue is None
                    &&& !self@.has_issue(id)
                    &&& exists|ts: i64|
                        final(transaction)@ == spec_with_staged_issue(
                            old(transaction)@,
                            id,
                            title@,
                            text_content@,
                            html_content@,
                            ts,
                        )
                },
                Err(StoreError::PersistenceError) => final(transaction)@ == old(transaction)@,
                Err(_) => false,
            },
            old(transaction)@.staged_issue is Some ==> r is Err,
    {
        let newsletter_issue_id = generate_issue_id();
        let published_at = now_timestamp();
        match self.insert_newsletter_issue_with_id(
            transaction,
            newsletter_issue_id,
            title,
            text_content,
            html_content,
            published_at,
        ) {
            Ok(()) => {
                proof {
                    assert(transaction@ == spec_with_staged_issue(
                        old(transaction)@,
                        newsletter_issue_id,
                        title@,
                        text_content@,
                        html_content@,
                        published_at,
                    ));
                }
                Ok(newsletter_issue_id)
            },
            Err(e) => Err(e),
        }
    }

    /// Stages one delivery task per confirmed subscriber in the snapshot, for
    /// the staged issue, inside the open transaction. Refuses when the
    /// transaction has not staged exactly this issue, when tasks were already
    /// staged, or when the snapshot repeats an address: the insert would
    /// violate the queue's uniqueness and abort the transaction.
    pub fn enqueue_delivery_tasks(
        &self,
        transaction: &mut PgTransaction,
        newsletter_issue_id: u128,
        confirmed_emails: &Vec<String>,
    ) -> (r: Result<(), StoreError>)
        requires
            old(transaction)@.wf(),
        ensures
            final(transaction)@.wf(),
            match r {
                Ok(()) => {
                    &&& match old(transaction)@.staged_issue {
                        Some(issue) => issue.newsletter_issue_id == newsletter_issue_id,
                        None => false,
                    }
                    &&& old(transaction)@.staged_tasks.len() == 0
                    &&& spec_distinct_emails(emails_view(confirmed_emails@))
                    &&& final(transaction)@ == (TxV {
                        staged_tasks: spec_fanout(
                            newsletter_issue_id,
                            emails_view(confirmed_emails@),
                        ),
                        ..old(transaction)@
                    })
                },
                Err(StoreError::PersistenceError) => {
                    &&& final(transaction)@ == old(transaction)@
                    &&& !((match old(transaction)@.staged_issue {
                        Some(issue) => issue.newsletter_issue_id == newsletter_issue_id,
                        None => false,
                    }) && old(transaction)@.staged_tasks.len() == 0 && spec_distinct_emails(
                        emails_view(confirmed_emails@),
                    ))
                },
                Err(_) => false,
            },
    {
        let staged_ok = match transaction.staged_issue_id() {
            Some(id) => id == newsletter_issue_id,
            None => false,
        };
        if !staged_ok || transaction.has_staged_tasks() {
            return Err(StoreError::PersistenceError);
        }
        if !emails_distinct(confirmed_emails) {
            return Err(StoreError::PersistenceError);
        }
        let n = confirmed_emails.len();
        let mut tasks: Vec<DeliveryTask> = Vec::new();
        let mut i: usize = 0;
        while i < n
            invariant
                i <= n,
                n == confirmed_emails@.len(),
                tasks@.len() == i,
                forall|j: int|
                    0 <= j < i ==> (#[trigger] tasks@[j])@ == (TaskV {
                        newsletter_issue_id,
                        subscriber_email: confirmed_emails@[j]@,
                    }),
            decreases n - i,
        {
            tasks.push(
                DeliveryTask {
                    newsletter_issue_id,
                    subscriber_email: confirmed_emails[i].clone(),
                },
            );
            i = i + 1;
        }
        proof {
            assert(tasks@.map_values(|t: DeliveryTask| t@) =~= spec_fanout(
                newsletter_issue_id,
                emails_view(confirmed_emails@),
            ));
        }
        transaction.stage_tasks(tasks);
        Ok(())
    }

    /// One whole publish request with a caller-chosen issue identifier and
    /// timestamp: deduplicate by `(user, key)`, stage the issue and its
    /// fan-out for every confirmed subscriber in the snapshot, save the
    /// redirect response, commit. Success is owed whenever the key is valid,
    /// the pair is new, the identifier is fresh and the snapshot repeats no
    /// address; `spec_publish` states each other case.
    pub fn publish_with_issue_id(
        &mut self,
        idempotency_key: &String,
        user_id: UserId,
        title: &String,
        text_content: &String,
        html_content: &String,
        confirmed_emails: &Vec<String>,
        newsletter_issue_id: u128,
        published_at: i64,
    ) -> (r: Result<HttpLikeResponse, PublishRequestError>)
        requires
            old(self)@.wf(),
        ensures
            final(self)@.wf(),
            exists|created_at: i64|
                {
                    final(self)@ == spec_publish(
                        old(self)@,
                        idempotency_key@,
                        user_id@,
                        title@,
                        text_content@,
                        html_content@,
                        emails_view(confirmed_emails@),
                        newsletter_issue_id,
                        created_at,
                        published_at,
                    ).0 && publish_result_matches(
                        r,
                        spec_publish(
                            old(self)@,
                            idempotency_key@,
                            user_id@,
                            title@,
                            text_content@,
                            html_content@,
                            emails_view(confirmed_emails@),
                            newsletter_issue_id,
                            created_at,
                            published_at,
                        ).1,
                    )
                },
            match r {
                Err(PublishRequestError::InvalidIdempotencyKey(e)) => match e {
                    ValidationError::EmptyIdempotencyKey => idempotency_key@.len() == 0,
                    ValidationError::OverlongIdempotencyKey => idempotency_key@.len()
                        > crate::idempotency::IDEMPOTENCY_KEY_MAX_LENGTH,
                },
                _ => true,
            },
    {
        let key = match IdempotencyKey::parse(idempotency_key.clone()) {
            Ok(k) => k,
            Err(e) => {
                proof {
                    let so = spec_publish(
                        self@,
                        idempotency_key@,
                        user_id@,
                        title@,
                        text_content@,
                        html_content@,
                        emails_view(confirmed_emails@),
                        newsletter_issue_id,
                        0,
                        published_at,
                    );
                    assert(self@ == so.0);
                }
                return Err(PublishRequestError::InvalidIdempotencyKey(e));
            },
        };
        let ghost s0 = self@;
        let transaction = match self.try_processing(&key, user_id) {
            Ok(NextAction::StartProcessing(tx)) => tx,
            Ok(NextAction::ReturnSavedResponse(resp)) => {
                proof {
                    let so = spec_publish(
                        s0,
                        idempotency_key@,
                        user_id@,
                        title@,
                        text_content@,
                        html_content@,
                        emails_view(confirmed_emails@),
                        newsletter_issue_id,
                        0,
                        published_at,
                    );
                    assert(self@ == so.0);
                }
                return Ok(resp);
            },
            Err(e) => {
                return Err(PublishRequestError::Internal(e));
            },
        };
        let ghost created_at = choose|ts: i64|
            self@ == s0.with_pending_record(user_id@, key@, ts);
        let ghost pending = self@;
        let mut transaction = transaction;
        match self.insert_newsletter_issue_with_id(
            &mut transaction,
            newsletter_issue_id,
            title,
            text_content,
            html_content,
            published_at,
        ) {
            Ok(()) => {},
            Err(e) => {
                proof {
                    crate::store::lemma_same_issues_has_issue(pending, s0, newsletter_issue_id);
                }
                transaction.rollback();
                return Err(PublishRequestError::Internal(e));
            },
        }
        proof {
            crate::store::lemma_same_issues_has_issue(pending, s0, newsletter_issue_id);
        }
        match self.enqueue_delivery_tasks(&mut transaction, newsletter_issue_id, confirmed_emails) {
            Ok(()) => {},
            Err(e) => {
                transaction.rollback();
                return Err(PublishRequestError::Internal(e));
            },
        }
        let response = see_other(newsletter_redirect_path());
        let ghost txv = transaction@;
        proof {
            assert(txv =~= TxV {
                user_id: user_id@,
                idempotency_key: idempotency_key@,
                staged_issue: Some(
                    IssueV {
                        newsletter_issue_id,
                        title: title@,
                        text_content: text_content@,
                        html_content: html_content@,
                        published_at,
                    },
                ),
                staged_tasks: spec_fanout(newsletter_issue_id, emails_view(confirmed_emails@)),
            });
        }
        match self.save_response(transaction, &key, user_id, response) {
            Ok(resp) => {
                proof {
                    let so = spec_publish(
                        s0,
                        idempotency_key@,
                        user_id@,
                        title@,
                        text_content@,
                        html_content@,
                        emails_view(confirmed_emails@),
                        newsletter_issue_id,
                        created_at,
                        published_at,
                    );
                    assert(self@ == so.0);
                }
                Ok(resp)
            },
            Err(e) => Err(PublishRequestError::Internal(e)),
        }
    }

    /// One whole publish request, as the publish endpoint performs it: a
    /// fresh random issue identifier and the current time are drawn, and the
    /// request then runs exactly as `publish_with_issue_id` states.
    pub fn publish(
        &mut self,
        idempotency_key: &String,
        user_id: UserId,
        title: &String,
        text_content: &String,
        html_content: &String,
        confirmed_emails: &Vec<String>,
    ) -> (r: Result<HttpLikeResponse, PublishRequestError>)
        requires
            old(self)@.wf(),
        ensures
            final(self)@.wf(),
            exists|newsletter_issue_id: u128, created_at: i64, published_at: i64|
                {
                    final(self)@ == spec_publish(
                        old(self)@,
                        idempotency_key@,
                        user_id@,
                        title@,
                        text_content@,
                        html_content@,
                        emails_view(confirmed_emails@),
                        newsletter_issue_id,
                        created_at,
                        published_at,
                    ).0 && publish_result_matches(
                        r,
                        spec_publish(
                            old(self)@,
                            idempotency_key@,
                            user_id@,
                            title@,
                            text_content@,
                            html_content@,
                            emails_view(confirmed_emails@),
                            newsletter_issue_id,
                            created_at,
                            published_at,
                        ).1,
                    )
                },
            match r {
                Err(PublishRequestError::InvalidIdempotencyKey(e)) => match e {
                    ValidationError::EmptyIdempotencyKey => idempotency_key@.len() == 0,
                    ValidationError::OverlongIdempotencyKey => idempotency_key@.len()
                        > crate::idempotency::IDEMPOTENCY_KEY_MAX_LENGTH,
                },
                _ => true,
            },
    {
        let newsletter_issue_id = generate_issue_id();
        let published_at = now_timestamp();
        self.publish_with_issue_id(
            idempotency_key,
            user_id,
            title,
            text_content,
            html_content,
            confirmed_emails,
            newsletter_issue_id,
            published_at,
        )
    }
}

} // verus!
