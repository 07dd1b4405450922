//! The verified model of the relational state that coordinates publishing.
//!
//! [`Store`] holds the three tables the core owns: `idempotency` (one row per
//! `(user, key)` publish attempt, pending until its response is saved),
//! `newsletter_issues`, and `issue_delivery_queue` (one ephemeral row per
//! outstanding delivery). [`PgTransaction`] models an open transaction:
//! writes staged inside it touch the store only when it commits, so a
//! rollback can never leave a partial fan-out behind. The one deliberate
//! exception, taken from the store's documented behaviour, is the pending
//! idempotency row itself: it is written when processing begins and survives
//! an abort, which is what makes an abandoned `(user, key)` pair surface as a
//! stuck pending record later.

use vstd::prelude::*;
use vstd::pervasive::VecAdditionalExecFns;

use crate::response::HttpLikeResponse;
use crate::response::ResponseV;

verus! {

/// Identifier of an authenticated user, carried as its 128-bit value.
#[derive(Clone, Copy, Debug, PartialEq, Eq, Structural)]
pub struct UserId(pub u128);

impl View for UserId {
    type V = u128;

    open spec fn view(&self) -> u128 {
        self.0
    }
}

/// One row of the `idempotency` table. `response` is `None` while the row is
/// pending (its owner is still inside the transaction that inserted it) and
/// `Some` once the response has been saved.
pub struct IdempotencyRecord {
    pub user_id: UserId,
    pub idempotency_key: String,
    pub created_at: i64,
    pub response: Option<HttpLikeResponse>,
}

/// Mathematical image of an idempotency row.
#[verifier::ext_equal]
pub ghost struct RecordV {
    pub user_id: u128,
    pub idempotency_key: Seq<char>,
    pub created_at: i64,
    pub response: Option<ResponseV>,
}

impl View for IdempotencyRecord {
    type V = RecordV;

    open spec fn view(&self) -> RecordV {
        RecordV {
            user_id: self.user_id@,
            idempotency_key: self.idempotency_key@,
            created_at: self.created_at,
            response: match self.response {
                Some(r) => Some(r@),
                None => None,
            },
        }
    }
}

/// One row of the `newsletter_issues` table; immutable once inserted.
pub struct NewsletterIssue {
    pub newsletter_issue_id: u128,
    pub title: String,
    pub text_content: String,
    pub html_content: String,
    pub published_at: i64,
}

/// Mathematical image of a newsletter issue.
#[verifier::ext_equal]
pub ghost struct IssueV {
    pub newsletter_issue_id: u128,
    pub title: Seq<char>,
    pub text_content: Seq<char>,
    pub html_content: Seq<char>,
    pub published_at: i64,
}

impl View for NewsletterIssue {
    type V = IssueV;

    open spec fn view(&self) -> IssueV {
        IssueV {
            newsletter_issue_id: self.newsletter_issue_id,
            title: self.title@,
            text_content: self.text_content@,
            html_content: self.html_content@,
            published_at: self.published_at,
        }
    }
}

impl NewsletterIssue {
    /// Copies an issue row.
    pub fn duplicate(&self) -> (r: NewsletterIssue)
        ensures
            r@ == self@,
    {
        NewsletterIssue {
            newsletter_issue_id: self.newsletter_issue_id,
            title: self.title.clone(),
            text_content: self.text_content.clone(),
            html_content: self.html_content.clone(),
            published_at: self.published_at,
        }
    }
}

/// One row of the `issue_delivery_queue` table: "send issue X to subscriber
/// Y". Its identity is the pair of its fields.
pub struct DeliveryTask {
    pub newsletter_issue_id: u128,
    pub subscriber_email: String,
}

/// Mathematical image of a delivery task.
#[verifier::ext_equal]
pub ghost struct TaskV {
    pub newsletter_issue_id: u128,
    pub subscriber_email: Seq<char>,
}

impl View for DeliveryTask {
    type V = TaskV;

    open spec fn view(&self) -> TaskV {
        TaskV {
            newsletter_issue_id: self.newsletter_issue_id,
            subscriber_email: self.subscriber_email@,
        }
    }
}

impl DeliveryTask {
    /// Copies a task.
    pub fn duplicate(&self) -> (r: DeliveryTask)
        ensures
            r@ == self@,
    {
        DeliveryTask {
            newsletter_issue_id: self.newsletter_issue_id,
            subscriber_email: self.subscriber_email.clone(),
        }
    }
}

/// Two idempotency rows collide exactly when they share user and key.
pub open spec fn record_matches(r: RecordV, user_id: u128, key: Seq<char>) -> bool {
    r.user_id == user_id && r.idempotency_key == key
}

/// The durable state the core coordinates through.
pub struct Store {
    records: Vec<IdempotencyRecord>,
    issues: Vec<NewsletterIssue>,
    queue: Vec<DeliveryTask>,
}

/// Mathematical image of the whole store.
#[verifier::ext_equal]
pub ghost struct StoreV {
    pub records: Seq<RecordV>,
    pub issues: Seq<IssueV>,
    pub queue: Seq<TaskV>,
}

impl View for Store {
    type V = StoreV;

    closed spec fn view(&self) -> StoreV {
        StoreV {
            records: self.records@.map_values(|r: IdempotencyRecord| r@),
            issues: self.issues@.map_values(|r: NewsletterIssue| r@),
            queue: self.queue@.map_values(|r: DeliveryTask| r@),
        }
    }
}

impl StoreV {
    /// The invariants the relational schema enforces: the `(user, key)` pairs
    /// of idempotency rows are unique, issue identifiers are unique, queue
    /// rows are unique as pairs, and every queue row refers to an issue that
    /// exists.
    pub open spec fn wf(self) -> bool {
        &&& forall|i: int, j: int|
            #![trigger self.records[i], self.records[j]]
            0 <= i < j < self.records.len() ==> !(self.records[i].user_id == self.records[j].user_id
                && self.records[i].idempotency_key == self.records[j].idempotency_key)
        &&& forall|i: int, j: int|
            #![trigger self.issues[i], self.issues[j]]
            0 <= i < j < self.issues.len() ==> self.issues[i].newsletter_issue_id
                != self.issues[j].newsletter_issue_id
        &&& forall|i: int, j: int|
            #![trigger self.queue[i], self.queue[j]]
            0 <= i < j < self.queue.len() ==> self.queue[i] != self.queue[j]
        &&& forall|i: int|
            #![trigger self.queue[i]]
            0 <= i < self.queue.len() ==> self.has_issue(self.queue[i].newsletter_issue_id)
    }

    /// Whether an idempotency row for `(user_id, key)` exists.
    pub open spec fn has_record(self, user_id: u128, key: Seq<char>) -> bool {
        exists|i: int|
            0 <= i < self.records.len() && record_matches(#[trigger] self.records[i], user_id, key)
    }

    /// Index of the idempotency row for `(user_id, key)`; meaningful only
    /// when `has_record` holds (and then unique, by `wf`).
    pub open spec fn record_index(self, user_id: u128, key: Seq<char>) -> int {
        choose|i: int|
            0 <= i < self.records.len() && record_matches(#[trigger] self.records[i], user_id, key)
    }

    /// The idempotency row for `(user_id, key)`.
    pub open spec fn record_for(self, user_id: u128, key: Seq<char>) -> RecordV {
        self.records[self.record_index(user_id, key)]
    }

    /// Whether an issue with this identifier exists.
    pub open spec fn has_issue(self, newsletter_issue_id: u128) -> bool {
        exists|i: int|
            0 <= i < self.issues.len() && (#[trigger] self.issues[i]).newsletter_issue_id
                == newsletter_issue_id
    }

    /// Index of the issue with this identifier; meaningful only when
    /// `has_issue` holds (and then unique, by `wf`).
    pub open spec fn issue_index(self, newsletter_issue_id: u128) -> int {
        choose|i: int|
            0 <= i < self.issues.len() && (#[trigger] self.issues[i]).newsletter_issue_id
                == newsletter_issue_id
    }

    /// The issue with this identifier.
    pub open spec fn issue_for(self, newsletter_issue_id: u128) -> IssueV {
        self.issues[self.issue_index(newsletter_issue_id)]
    }

    /// The store after a new pending idempotency row is inserted.
    pub open spec fn with_pending_record(self, user_id: u128, key: Seq<char>, created_at: i64) -> StoreV {
        StoreV {
            records: self.records.push(
                RecordV { user_id, idempotency_key: key, created_at, response: None },
            ),
            ..self
        }
    }

    /// The store after the response columns of the `(user_id, key)` row are
    /// overwritten; a store without such a row is unchanged (the update
    /// matches no row).
    pub open spec fn with_response_saved(self, user_id: u128, key: Seq<char>, response: ResponseV) -> StoreV {
        if self.has_record(user_id, key) {
            let i = self.record_index(user_id, key);
            StoreV {
                records: self.records.update(
                    i,
                    RecordV { response: Some(response), ..self.records[i] },
                ),
                ..self
            }
        } else {
            self
        }
    }

    /// Whether a transaction's staged writes can commit: a staged issue must
    /// not collide with an issue that already exists.
    pub open spec fn commit_allowed(self, tx: TxV) -> bool {
        match tx.staged_issue {
            Some(issue) => !self.has_issue(issue.newsletter_issue_id),
            None => true,
        }
    }

    /// The store after a transaction commits: the `(user_id, key)` row gets
    /// its response, the staged issue row is appended, and the staged queue
    /// rows are appended, all at once.
    pub open spec fn with_committed(
        self,
        tx: TxV,
        user_id: u128,
        key: Seq<char>,
        response: ResponseV,
    ) -> StoreV {
        let saved = self.with_response_saved(user_id, key, response);
        match tx.staged_issue {
            Some(issue) => StoreV {
                records: saved.records,
                issues: saved.issues.push(issue),
                queue: saved.queue + tx.staged_tasks,
            },
            None => saved,
        }
    }

    /// The store after the queue row at index `i` is claimed and deleted.
    pub open spec fn with_task_removed(self, i: int) -> StoreV {
        StoreV { queue: self.queue.remove(i), ..self }
    }

    /// Whether this queue row is outstanding.
    pub open spec fn has_task(self, t: TaskV) -> bool {
        exists|i: int| 0 <= i < self.queue.len() && #[trigger] self.queue[i] == t
    }

    /// Index of this queue row; meaningful only when `has_task` holds (and
    /// then unique, by `wf`).
    pub open spec fn task_index(self, t: TaskV) -> int {
        choose|i: int| 0 <= i < self.queue.len() && #[trigger] self.queue[i] == t
    }
}

/// An open transaction: the writes staged in it become visible only when the
/// store commits it. Only processing that began with a fresh idempotency row
/// hands one out.
pub struct PgTransaction {
    user_id: UserId,
    idempotency_key: String,
    staged_issue: Option<NewsletterIssue>,
    staged_tasks: Vec<DeliveryTask>,
}

/// Mathematical image of an open transaction.
#[verifier::ext_equal]
pub ghost struct TxV {
    pub user_id: u128,
    pub idempotency_key: Seq<char>,
    pub staged_issue: Option<IssueV>,
    pub staged_tasks: Seq<TaskV>,
}

impl View for PgTransaction {
    type V = TxV;

    closed spec fn view(&self) -> TxV {
        TxV {
            user_id: self.user_id@,
            idempotency_key: self.idempotency_key@,
            staged_issue: match self.staged_issue {
                Some(i) => Some(i@),
                None => None,
            },
            staged_tasks: self.staged_tasks@.map_values(|t: DeliveryTask| t@),
        }
    }
}

impl TxV {
    /// Validity of staged writes: queue rows are staged only for the staged
    /// issue, and no queue row is staged twice.
    pub open spec fn wf(self) -> bool {
        &&& match self.staged_issue {
            Some(issue) => forall|i: int|
                #![trigger self.staged_tasks[i]]
                0 <= i < self.staged_tasks.len() ==> self.staged_tasks[i].newsletter_issue_id
                    == issue.newsletter_issue_id,
            None => self.staged_tasks.len() == 0,
        }
        &&& forall|i: int, j: int|
            #![trigger self.staged_tasks[i], self.staged_tasks[j]]
            0 <= i < j < self.staged_tasks.len() ==> self.staged_tasks[i] != self.staged_tasks[j]
    }
}

impl PgTransaction {
    /// Begins a transaction for the `(user_id, key)` row; nothing is staged.
    pub(crate) fn begin(user_id: UserId, idempotency_key: String) -> (r: PgTransaction)
        ensures
            r@ == (TxV {
                user_id: user_id@,
                idempotency_key: idempotency_key@,
                staged_issue: None,
                staged_tasks: Seq::empty(),
            }),
            r@.wf(),
    {
        let r = PgTransaction { user_id, idempotency_key, staged_issue: None, staged_tasks: Vec::new() };
        proof {
            assert(r@ =~= TxV {
                user_id: user_id@,
                idempotency_key: idempotency_key@,
                staged_issue: None,
                staged_tasks: Seq::empty(),
            });
        }
        r
    }

    /// Rolls the transaction back: every staged write is discarded. The
    /// pending idempotency row inserted when processing began is not part of
    /// the staged writes and survives, which is the documented hazard of
    /// abandoning a publish midway.
    pub fn rollback(self) {
    }

    /// Stages the issue row this transaction will commit.
    pub(crate) fn stage_issue(&mut self, issue: NewsletterIssue)
        ensures
            final(self)@ == (TxV { staged_issue: Some(issue@), ..old(self)@ }),
    {
        self.staged_issue = Some(issue);
        proof {
            assert(self@ =~= TxV { staged_issue: Some(issue@), ..old(self)@ });
        }
    }

    /// Stages the queue rows this transaction will commit.
    pub(crate) fn stage_tasks(&mut self, tasks: Vec<DeliveryTask>)
        ensures
            final(self)@ == (TxV {
                staged_tasks: tasks@.map_values(|t: DeliveryTask| t@),
                ..old(self)@
            }),
    {
        let ghost staged = tasks@.map_values(|t: DeliveryTask| t@);
        self.staged_tasks = tasks;
        proof {
            assert(self@ =~= TxV { staged_tasks: staged, ..old(self)@ });
        }
    }

    /// The identifier of the staged issue, if one is staged.
    pub(crate) fn staged_issue_id(&self) -> (r: Option<u128>)
        ensures
            match (r, self@.staged_issue) {
                (Some(id), Some(issue)) => id == issue.newsletter_issue_id,
                (None, None) => true,
                _ => false,
            },
    {
        match &self.staged_issue {
            Some(issue) => Some(issue.newsletter_issue_id),
            None => None,
        }
    }

    /// Whether any queue rows are staged.
    pub(crate) fn has_staged_tasks(&self) -> (r: bool)
        ensures
            r == (self@.staged_tasks.len() > 0),
    {
        self.staged_tasks.len() > 0
    }

    /// Takes the transaction apart for committing.
    pub(crate) fn into_parts(self) -> (r: (
        UserId,
        String,
        Option<NewsletterIssue>,
        Vec<DeliveryTask>,
    ))
        ensures
            r.0@ == self@.user_id,
            r.1@ == self@.idempotency_key,
            match (r.2, self@.staged_issue) {
                (Some(a), Some(b)) => a@ == b,
                (None, None) => true,
                _ => false,
            },
            r.3@.map_values(|t: DeliveryTask| t@) == self@.staged_tasks,
    {
        let PgTransaction { user_id, idempotency_key, staged_issue, staged_tasks } = self;
        (user_id, idempotency_key, staged_issue, staged_tasks)
    }
}

/// An index that holds an idempotency row matching `(user, key)` is the one
/// `record_index` names: the unique constraint makes the row unique.
pub proof fn lemma_record_index_unique(s: StoreV, user_id: u128, key: Seq<char>, i: int)
    requires
        s.wf(),
        0 <= i < s.records.len(),
        record_matches(s.records[i], user_id, key),
    ensures
        s.has_record(user_id, key),
        s.record_index(user_id, key) == i,
{
    assert(s.has_record(user_id, key));
    let j = s.record_index(user_id, key);
    assert(record_matches(s.records[j], user_id, key));
    if i < j {
        assert(!(s.records[i].user_id == s.records[j].user_id && s.records[i].idempotency_key
            == s.records[j].idempotency_key));
    } else if j < i {
        assert(!(s.records[j].user_id == s.records[i].user_id && s.records[j].idempotency_key
            == s.records[i].idempotency_key));
    }
}

/// An index that holds an issue row with a given identifier is the one
/// `issue_index` names: issue identifiers are unique.
pub proof fn lemma_issue_index_unique(s: StoreV, newsletter_issue_id: u128, i: int)
    requires
        s.wf(),
        0 <= i < s.issues.len(),
        s.issues[i].newsletter_issue_id == newsletter_issue_id,
    ensures
        s.has_issue(newsletter_issue_id),
        s.issue_index(newsletter_issue_id) == i,
{
    assert(s.has_issue(newsletter_issue_id));
    let j = s.issue_index(newsletter_issue_id);
    if i < j {
        assert(s.issues[i].newsletter_issue_id != s.issues[j].newsletter_issue_id);
    } else if j < i {
        assert(s.issues[j].newsletter_issue_id != s.issues[i].newsletter_issue_id);
    }
}

/// Inserting a pending row for a `(user, key)` pair that has none preserves
/// the store's invariants.
pub proof fn lemma_wf_with_pending(s: StoreV, user_id: u128, key: Seq<char>, created_at: i64)
    requires
        s.wf(),
        !s.has_record(user_id, key),
    ensures
        s.with_pending_record(user_id, key, created_at).wf(),
{
    let t = s.with_pending_record(user_id, key, created_at);
    assert forall|i: int, j: int|
        0 <= i < j < t.records.len() implies !((#[trigger] t.records[i]).user_id
        == (#[trigger] t.records[j]).user_id && t.records[i].idempotency_key
        == t.records[j].idempotency_key) by {
        if j == t.records.len() - 1 {
            assert(t.records[i] == s.records[i]);
            if record_matches(s.records[i], user_id, key) {
                assert(s.has_record(user_id, key));
            }
        } else {
            assert(t.records[i] == s.records[i]);
            assert(t.records[j] == s.records[j]);
        }
    }
    assert(t.issues == s.issues);
    assert(t.queue == s.queue);
    assert forall|i: int| 0 <= i < t.queue.len() implies t.has_issue(
        (#[trigger] t.queue[i]).newsletter_issue_id,
    ) by {
        assert(s.has_issue(s.queue[i].newsletter_issue_id));
        let w = choose|w: int|
            0 <= w < s.issues.len() && (#[trigger] s.issues[w]).newsletter_issue_id
                == s.queue[i].newsletter_issue_id;
        assert(t.issues[w] == s.issues[w]);
    }
}

/// Overwriting the response columns of one row preserves the store's
/// invariants: the row keeps its user and key.
pub proof fn lemma_wf_with_response_saved(s: StoreV, user_id: u128, key: Seq<char>, response: ResponseV)
    requires
        s.wf(),
    ensures
        s.with_response_saved(user_id, key, response).wf(),
{
    let t = s.with_response_saved(user_id, key, response);
    if s.has_record(user_id, key) {
        let k = s.record_index(user_id, key);
        assert(0 <= k < s.records.len());
        assert forall|i: int, j: int|
            0 <= i < j < t.records.len() implies !((#[trigger] t.records[i]).user_id
            == (#[trigger] t.records[j]).user_id && t.records[i].idempotency_key
            == t.records[j].idempotency_key) by {
            assert(t.records[i].user_id == s.records[i].user_id && t.records[i].idempotency_key
                == s.records[i].idempotency_key);
            assert(t.records[j].user_id == s.records[j].user_id && t.records[j].idempotency_key
                == s.records[j].idempotency_key);
            assert(!(s.records[i].user_id == s.records[j].user_id && s.records[i].idempotency_key
                == s.records[j].idempotency_key));
        }
        assert forall|i: int| 0 <= i < t.queue.len() implies t.has_issue(
            (#[trigger] t.queue[i]).newsletter_issue_id,
        ) by {
            assert(s.has_issue(s.queue[i].newsletter_issue_id));
            let w = choose|w: int|
                0 <= w < s.issues.len() && (#[trigger] s.issues[w]).newsletter_issue_id
                    == s.queue[i].newsletter_issue_id;
            assert(t.issues[w] == s.issues[w]);
        }
    }
}

/// Committing a well-formed transaction whose staged issue is fresh preserves
/// the store's invariants.
pub proof fn lemma_wf_with_committed(
    s: StoreV,
    tx: TxV,
    user_id: u128,
    key: Seq<char>,
    response: ResponseV,
)
    requires
        s.wf(),
        tx.wf(),
        s.commit_allowed(tx),
    ensures
        s.with_committed(tx, user_id, key, response).wf(),
{
    lemma_wf_with_response_saved(s, user_id, key, response);
    let base = s.with_response_saved(user_id, key, response);
    assert(base.issues == s.issues);
    assert(base.queue == s.queue);
    let t = s.with_committed(tx, user_id, key, response);
    match tx.staged_issue {
        None => {},
        Some(issue) => {
            let fresh = issue.newsletter_issue_id;
            // Fresh identifier: no existing issue carries it.
            assert forall|i: int| 0 <= i < s.issues.len() implies (#[trigger] s.issues[i]).newsletter_issue_id
                != fresh by {
                if s.issues[i].newsletter_issue_id == fresh {
                    assert(s.has_issue(fresh));
                }
            }
            // Existing queue rows refer to existing issues, so not to `fresh`.
            assert forall|i: int| 0 <= i < s.queue.len() implies (#[trigger] s.queue[i]).newsletter_issue_id
                != fresh by {
                assert(s.has_issue(s.queue[i].newsletter_issue_id));
                let w = choose|w: int|
                    0 <= w < s.issues.len() && (#[trigger] s.issues[w]).newsletter_issue_id
                        == s.queue[i].newsletter_issue_id;
                assert(s.issues[w].newsletter_issue_id != fresh);
            }
            assert forall|i: int, j: int|
                0 <= i < j < t.issues.len() implies (#[trigger] t.issues[i]).newsletter_issue_id
                != (#[trigger] t.issues[j]).newsletter_issue_id by {
                if j < t.issues.len() - 1 {
                    assert(t.issues[i] == s.issues[i]);
                    assert(t.issues[j] == s.issues[j]);
                } else {
                    assert(t.issues[i] == s.issues[i]);
                    assert(t.issues[j] == issue);
                }
            }
            assert forall|i: int, j: int|
                0 <= i < j < t.queue.len() implies (#[trigger] t.queue[i]) != (
            #[trigger] t.queue[j]) by {
                let n = s.queue.len() as int;
                if j < n {
                    assert(t.queue[i] == s.queue[i]);
                    assert(t.queue[j] == s.queue[j]);
                } else if i >= n {
                    assert(t.queue[i] == tx.staged_tasks[i - n]);
                    assert(t.queue[j] == tx.staged_tasks[j - n]);
                } else {
                    assert(t.queue[i] == s.queue[i]);
                    assert(t.queue[j] == tx.staged_tasks[j - n]);
                    assert(s.queue[i].newsletter_issue_id != fresh);
                    assert(tx.staged_tasks[j - n].newsletter_issue_id == fresh);
                }
            }
            assert forall|i: int| 0 <= i < t.queue.len() implies t.has_issue(
                (#[trigger] t.queue[i]).newsletter_issue_id,
            ) by {
                let n = s.queue.len() as int;
                let m = s.issues.len() as int;
                if i < n {
                    assert(t.queue[i] == s.queue[i]);
                    let w = choose|w: int|
                        0 <= w < s.issues.len() && (#[trigger] s.issues[w]).newsletter_issue_id
                            == s.queue[i].newsletter_issue_id;
                    assert(t.issues[w] == s.issues[w]);
                    assert(t.issues[w].newsletter_issue_id == t.queue[i].newsletter_issue_id);
                } else {
                    assert(t.queue[i] == tx.staged_tasks[i - n]);
                    assert(t.issues[m] == issue);
                    assert(t.issues[m].newsletter_issue_id == t.queue[i].newsletter_issue_id);
                }
            }
        },
    }
}

/// An index that holds a given queue row is the one `task_index` names: queue
/// rows are unique as pairs.
pub proof fn lemma_task_index_unique(s: StoreV, t: TaskV, i: int)
    requires
        s.wf(),
        0 <= i < s.queue.len(),
        s.queue[i] == t,
    ensures
        s.has_task(t),
        s.task_index(t) == i,
{
    assert(s.has_task(t));
    let j = s.task_index(t);
    if i < j {
        assert(s.queue[i] != s.queue[j]);
    } else if j < i {
        assert(s.queue[j] != s.queue[i]);
    }
}

/// Stores with the same issue rows agree on the issue a given identifier
/// names; `a` must be well-formed so the identifier is unique.
pub proof fn lemma_same_issues_issue_for(a: StoreV, b: StoreV, newsletter_issue_id: u128)
    requires
        a.wf(),
        a.issues == b.issues,
        a.has_issue(newsletter_issue_id),
    ensures
        b.has_issue(newsletter_issue_id),
        a.issue_for(newsletter_issue_id) == b.issue_for(newsletter_issue_id),
{
    lemma_same_issues_has_issue(a, b, newsletter_issue_id);
    let ia = a.issue_index(newsletter_issue_id);
    assert(0 <= ia < a.issues.len() && a.issues[ia].newsletter_issue_id == newsletter_issue_id);
    let ib = b.issue_index(newsletter_issue_id);
    assert(0 <= ib < b.issues.len() && b.issues[ib].newsletter_issue_id == newsletter_issue_id);
    assert(a.issues[ib] == b.issues[ib]);
    lemma_issue_index_unique(a, newsletter_issue_id, ib);
}

/// Stores with the same issue rows agree on which issues exist.
pub proof fn lemma_same_issues_has_issue(a: StoreV, b: StoreV, newsletter_issue_id: u128)
    requires
        a.issues == b.issues,
    ensures
        a.has_issue(newsletter_issue_id) == b.has_issue(newsletter_issue_id),
{
    if a.has_issue(newsletter_issue_id) {
        let w = choose|w: int|
            0 <= w < a.issues.len() && (#[trigger] a.issues[w]).newsletter_issue_id
                == newsletter_issue_id;
        assert(b.issues[w] == a.issues[w]);
    }
    if b.has_issue(newsletter_issue_id) {
        let w = choose|w: int|
            0 <= w < b.issues.len() && (#[trigger] b.issues[w]).newsletter_issue_id
                == newsletter_issue_id;
        assert(a.issues[w] == b.issues[w]);
    }
}

/// Claiming and deleting one queue row preserves the store's invariants.
pub proof fn lemma_wf_with_task_removed(s: StoreV, i: int)
    requires
        s.wf(),
        0 <= i < s.queue.len(),
    ensures
        s.with_task_removed(i).wf(),
{
    let t = s.with_task_removed(i);
    assert forall|a: int, b: int|
        0 <= a < b < t.queue.len() implies (#[trigger] t.queue[a]) != (#[trigger] t.queue[b]) by {
        let a0 = if a < i { a } else { a + 1 };
        let b0 = if b < i { b } else { b + 1 };
        assert(t.queue[a] == s.queue[a0]);
        assert(t.queue[b] == s.queue[b0]);
        assert(s.queue[a0] != s.queue[b0]);
    }
    assert forall|a: int| 0 <= a < t.queue.len() implies t.has_issue(
        (#[trigger] t.queue[a]).newsletter_issue_id,
    ) by {
        let a0 = if a < i { a } else { a + 1 };
        assert(t.queue[a] == s.queue[a0]);
        assert(s.has_issue(s.queue[a0].newsletter_issue_id));
        let w = choose|w: int|
            0 <= w < s.issues.len() && (#[trigger] s.issues[w]).newsletter_issue_id
                == s.queue[a0].newsletter_issue_id;
        assert(t.issues[w] == s.issues[w]);
    }
}

/// Errors of store operations, mirroring how the database surfaces them.
#[derive(Clone, Copy, Debug, PartialEq, Eq, Structural)]
pub enum StoreError {
    /// A row for this `(user, key)` exists with no saved response and nobody
    /// processing it: its owner aborted after inserting it. Unrecoverable by
    /// retrying.
    StuckPendingRecord,
    /// A write violated a uniqueness constraint; the transaction it belonged
    /// to is aborted.
    PersistenceError,
    /// The issue a task refers to was not found.
    IssueNotFound,
}

impl Store {
    /// An empty store.
    pub fn new() -> (r: Store)
        ensures
            r@ == (StoreV { records: Seq::empty(), issues: Seq::empty(), queue: Seq::empty() }),
            r@.wf(),
    {
        let r = Store { records: Vec::new(), issues: Vec::new(), queue: Vec::new() };
        proof {
            assert(r@ =~= StoreV {
                records: Seq::empty(),
                issues: Seq::empty(),
                queue: Seq::empty(),
            });
        }
        r
    }

    /// Number of idempotency rows.
    pub fn records_len(&self) -> (r: usize)
        ensures
            r == self@.records.len(),
    {
        self.records.len()
    }

    /// Number of newsletter issues.
    pub fn issues_len(&self) -> (r: usize)
        ensures
            r == self@.issues.len(),
    {
        self.issues.len()
    }

    /// Number of outstanding delivery tasks.
    pub fn queue_len(&self) -> (r: usize)
        ensures
            r == self@.queue.len(),
    {
        self.queue.len()
    }

    /// Number of outstanding delivery tasks for one issue.
    pub fn tasks_for_issue(&self, newsletter_issue_id: u128) -> (r: usize)
        ensures
            r == count_tasks(self@.queue, newsletter_issue_id),
    {
        let n = self.queue.len();
        let mut count: usize = 0;
        let mut i: usize = 0;
        while i < n
            invariant
                i <= n,
                n == self.queue@.len(),
                count == count_tasks(self@.queue.subrange(0, i as int), newsletter_issue_id),
                count <= i,
            decreases n - i,
        {
            proof {
                assert(self@.queue.subrange(0, i + 1 as int).drop_last() =~= self@.queue.subrange(
                    0,
                    i as int,
                ));
                assert(self@.queue.subrange(0, i + 1 as int).last() == self@.queue[i as int]);
            }
            if self.queue[i].newsletter_issue_id == newsletter_issue_id {
                count = count + 1;
            }
            i = i + 1;
        }
        proof {
            assert(self@.queue.subrange(0, n as int) =~= self@.queue);
        }
        count
    }

    /// Looks an idempotency row up by `(user, key)`; `None` means no row.
    pub(crate) fn find_record(&self, user_id: UserId, key: &String) -> (r: Option<usize>)
        ensures
            match r {
                Some(i) => i < self@.records.len() && record_matches(
                    self@.records[i as int],
                    user_id@,
                    key@,
                ),
                None => !self@.has_record(user_id@, key@),
            },
    {
        let n = self.records.len();
        let mut i: usize = 0;
        while i < n
            invariant
                i <= n,
                n == self.records@.len(),
                forall|j: int| 0 <= j < i ==> !record_matches(
                    #[trigger] self@.records[j],
                    user_id@,
                    key@,
                ),
            decreases n - i,
        {
            let rec = &self.records[i];
            if rec.user_id == user_id && rec.idempotency_key.eq(key) {
                return Some(i);
            }
            i = i + 1;
        }
        None
    }

    /// Looks an issue up by identifier.
    pub(crate) fn find_issue(&self, newsletter_issue_id: u128) -> (r: Option<usize>)
        ensures
            match r {
                Some(i) => i < self@.issues.len() && self@.issues[i as int].newsletter_issue_id
                    == newsletter_issue_id,
                None => !self@.has_issue(newsletter_issue_id),
            },
    {
        let n = self.issues.len();
        let mut i: usize = 0;
        while i < n
            invariant
                i <= n,
                n == self.issues@.len(),
                forall|j: int| 0 <= j < i ==> (#[trigger] self@.issues[j]).newsletter_issue_id
                    != newsletter_issue_id,
            decreases n - i,
        {
            if self.issues[i].newsletter_issue_id == newsletter_issue_id {
                return Some(i);
            }
            i = i + 1;
        }
        None
    }

    /// Read access for the idempotency operations in this crate.
    pub(crate) fn record_at(&self, i: usize) -> (r: &IdempotencyRecord)
        requires
            i < self@.records.len(),
        ensures
            r@ == self@.records[i as int],
    {
        &self.records[i]
    }

    /// Appends a pending idempotency row; the caller has checked uniqueness.
    pub(crate) fn push_pending_record(&mut self, user_id: UserId, key: String, created_at: i64)
        ensures
            final(self)@ == old(self)@.with_pending_record(user_id@, key@, created_at),
    {
        self.records.push(
            IdempotencyRecord { user_id, idempotency_key: key, created_at, response: None },
        );
        proof {
            assert(self@ =~= old(self)@.with_pending_record(user_id@, key@, created_at));
        }
    }

    /// Overwrites the response columns of the row at `i`.
    pub(crate) fn set_record_response(&mut self, i: usize, response: HttpLikeResponse)
        requires
            i < old(self)@.records.len(),
        ensures
            final(self)@ == (StoreV {
                records: old(self)@.records.update(
                    i as int,
                    RecordV { response: Some(response@), ..old(self)@.records[i as int] },
                ),
                ..old(self)@
            }),
    {
        let created_at = self.records[i].created_at;
        let user_id = self.records[i].user_id;
        let idempotency_key = self.records[i].idempotency_key.clone();
        let updated = IdempotencyRecord {
            user_id,
            idempotency_key,
            created_at,
            response: Some(response),
        };
        self.records.set(i, updated);
        proof {
            assert(self@ =~= StoreV {
                records: old(self)@.records.update(
                    i as int,
                    RecordV { response: Some(response@), ..old(self)@.records[i as int] },
                ),
                ..old(self)@
            });
        }
    }

    /// Appends a committed issue row.
    pub(crate) fn push_issue(&mut self, issue: NewsletterIssue)
        ensures
            final(self)@ == (StoreV { issues: old(self)@.issues.push(issue@), ..old(self)@ }),
    {
        self.issues.push(issue);
        proof {
            assert(self@ =~= StoreV { issues: old(self)@.issues.push(issue@), ..old(self)@ });
        }
    }

    /// Appends committed queue rows.
    pub(crate) fn append_tasks(&mut self, tasks: Vec<DeliveryTask>)
        ensures
            final(self)@ == (StoreV {
                queue: old(self)@.queue + tasks@.map_values(|t: DeliveryTask| t@),
                ..old(self)@
            }),
    {
        let ghost staged = tasks@.map_values(|t: DeliveryTask| t@);
        let mut tasks = tasks;
        self.queue.append(&mut tasks);
        proof {
            assert(self@ =~= StoreV { queue: old(self)@.queue + staged, ..old(self)@ });
        }
    }

    /// Read access to one queue row.
    pub(crate) fn task_at(&self, i: usize) -> (r: &DeliveryTask)
        requires
            i < self@.queue.len(),
        ensures
            r@ == self@.queue[i as int],
    {
        &self.queue[i]
    }

    /// Read access to one issue row.
    pub(crate) fn issue_at(&self, i: usize) -> (r: &NewsletterIssue)
        requires
            i < self@.issues.len(),
        ensures
            r@ == self@.issues[i as int],
    {
        &self.issues[i]
    }

    /// Deletes the queue row at `i`.
    pub(crate) fn remove_task(&mut self, i: usize)
        requires
            i < old(self)@.queue.len(),
        ensures
            final(self)@ == old(self)@.with_task_removed(i as int),
    {
        self.queue.remove(i);
        proof {
            assert(self@ =~= old(self)@.with_task_removed(i as int));
        }
    }
}

/// How many queue rows belong to one issue.
pub open spec fn count_tasks(queue: Seq<TaskV>, newsletter_issue_id: u128) -> nat
    decreases queue.len(),
{
    if queue.len() == 0 {
        0
    } else {
        count_tasks(queue.drop_last(), newsletter_issue_id) + if queue.last().newsletter_issue_id
            == newsletter_issue_id {
            1 as nat
        } else {
            0 as nat
        }
    }
}

/// Relies on `uuid::Uuid::new_v4` and `Uuid::as_u128` to draw a fresh random
/// issue identifier; the result is random, so nothing is promised of it.
#[verifier::external_body]
pub(crate) fn generate_issue_id() -> u128 {
    uuid::Uuid::new_v4().as_u128()
}

/// Relies on `chrono::Utc::now` and `DateTime::timestamp` for the current
/// wall-clock time in seconds; the result depends on the clock, so nothing is
/// promised of it.
#[verifier::external_body]
pub(crate) fn now_timestamp() -> i64 {
    chrono::Utc::now().timestamp()
}

} // verus!
