//! The crate-level guarantees of the publish and delivery core, proved over
//! the store's transition functions: idempotent replay, isolation across
//! keys, all-or-nothing fan-out, at-most-once claiming, snapshot fan-out, and
//! the serialized behaviour of duplicate requests.

use vstd::prelude::*;
use vstd::multiset::Multiset;

use crate::publisher::PublishOutcomeV;
use crate::publisher::spec_distinct_emails;
use crate::publisher::spec_fanout;
use crate::publisher::spec_newsletter_redirect_path;
use crate::publisher::spec_publish;
use crate::idempotency::spec_key_valid;
use crate::response::ResponseV;
use crate::response::spec_see_other;
use crate::store::RecordV;
use crate::store::StoreV;
use crate::store::TaskV;
use crate::store::TxV;
use crate::store::lemma_record_index_unique;
use crate::store::lemma_wf_with_committed;
use crate::store::lemma_wf_with_pending;
use crate::store::lemma_wf_with_task_removed;

verus! {

/// After a successful publish of `(user_id, key)`, the store holds a complete
/// idempotency row for the pair whose saved response is the redirect, and the
/// published store is well-formed.
proof fn lemma_published_record(
    s: StoreV,
    key: Seq<char>,
    user_id: u128,
    title: Seq<char>,
    text_content: Seq<char>,
    html_content: Seq<char>,
    emails: Seq<Seq<char>>,
    newsletter_issue_id: u128,
    created_at: i64,
    published_at: i64,
)
    requires
        s.wf(),
        spec_key_valid(key),
        !s.has_record(user_id, key),
        !s.has_issue(newsletter_issue_id),
        spec_distinct_emails(emails),
    ensures
        ({
            let response = spec_see_other(spec_newsletter_redirect_path());
            let (s1, o1) = spec_publish(
                s,
                key,
                user_id,
                title,
                text_content,
                html_content,
                emails,
                newsletter_issue_id,
                created_at,
                published_at,
            );
            &&& o1 == PublishOutcomeV::Published(response)
            &&& s1.wf()
            &&& s1.has_record(user_id, key)
            &&& s1.record_for(user_id, key).response == Some(response)
            &&& s1.records.len() == s.records.len() + 1
            &&& forall|w: int| 0 <= w < s.records.len() ==> #[trigger] s1.records[w]
                == s.records[w]
            &&& s1.records[s.records.len() as int] == (RecordV {
                user_id,
                idempotency_key: key,
                created_at,
                response: Some(response),
            })
            &&& s1.issues == s.issues.push(
                crate::store::IssueV {
                    newsletter_issue_id,
                    title,
                    text_content,
                    html_content,
                    published_at,
                },
            )
            &&& s1.queue == s.queue + spec_fanout(newsletter_issue_id, emails)
        }),
{
    let response = spec_see_other(spec_newsletter_redirect_path());
    let pending = s.with_pending_record(user_id, key, created_at);
    let issue = crate::store::IssueV {
        newsletter_issue_id,
        title,
        text_content,
        html_content,
        published_at,
    };
    let tx = TxV {
        user_id,
        idempotency_key: key,
        staged_issue: Some(issue),
        staged_tasks: spec_fanout(newsletter_issue_id, emails),
    };
    lemma_wf_with_pending(s, user_id, key, created_at);
    assert(tx.wf());
    crate::store::lemma_same_issues_has_issue(pending, s, newsletter_issue_id);
    lemma_wf_with_committed(pending, tx, user_id, key, response);
    let n = s.records.len() as int;
    assert(crate::store::record_matches(pending.records[n], user_id, key));
    lemma_record_index_unique(pending, user_id, key, n);
    let s1 = pending.with_committed(tx, user_id, key, response);
    assert(s1.records[n] == (RecordV {
        user_id,
        idempotency_key: key,
        created_at,
        response: Some(response),
    }));
    lemma_record_index_unique(s1, user_id, key, n);
}

/// Idempotency: from any well-formed store, once a publish for `(user, key)`
/// has succeeded, a second publish with the same user and key — whatever its
/// payload, identifier or timestamps — replays the byte-identical response
/// and changes nothing: no new issue row, no new delivery task, no change at
/// all.
pub proof fn lemma_publish_idempotent(
    s: StoreV,
    key: Seq<char>,
    user_id: u128,
    title1: Seq<char>,
    text1: Seq<char>,
    html1: Seq<char>,
    emails1: Seq<Seq<char>>,
    id1: u128,
    created_at1: i64,
    published_at1: i64,
    title2: Seq<char>,
    text2: Seq<char>,
    html2: Seq<char>,
    emails2: Seq<Seq<char>>,
    id2: u128,
    created_at2: i64,
    published_at2: i64,
)
    requires
        s.wf(),
    ensures
        ({
            let (s1, o1) = spec_publish(
                s,
                key,
                user_id,
                title1,
                text1,
                html1,
                emails1,
                id1,
                created_at1,
                published_at1,
            );
            let (s2, o2) = spec_publish(
                s1,
                key,
                user_id,
                title2,
                text2,
                html2,
                emails2,
                id2,
                created_at2,
                published_at2,
            );
            match o1 {
                PublishOutcomeV::Published(resp) => s2 == s1 && o2
                    == PublishOutcomeV::Replayed(resp),
                _ => true,
            }
        }),
{
    let (s1, o1) = spec_publish(
        s,
        key,
        user_id,
        title1,
        text1,
        html1,
        emails1,
        id1,
        created_at1,
        published_at1,
    );
    if o1 is Published {
        lemma_published_record(
            s,
            key,
            user_id,
            title1,
            text1,
            html1,
            emails1,
            id1,
            created_at1,
            published_at1,
        );
    }
}

/// Isolation across keys: two publishes under different `(user, key)` pairs,
/// with fresh distinct issue identifiers and duplicate-free snapshots, both
/// succeed, and the queue afterwards holds the first publish's full fan-out
/// followed by the second's.
pub proof fn lemma_publish_isolated_keys(
    s: StoreV,
    key1: Seq<char>,
    user1: u128,
    title1: Seq<char>,
    text1: Seq<char>,
    html1: Seq<char>,
    emails1: Seq<Seq<char>>,
    id1: u128,
    created_at1: i64,
    published_at1: i64,
    key2: Seq<char>,
    user2: u128,
    title2: Seq<char>,
    text2: Seq<char>,
    html2: Seq<char>,
    emails2: Seq<Seq<char>>,
    id2: u128,
    created_at2: i64,
    published_at2: i64,
)
    requires
        s.wf(),
        spec_key_valid(key1),
        spec_key_valid(key2),
        !s.has_record(user1, key1),
        !s.has_record(user2, key2),
        !(user1 == user2 && key1 == key2),
        !s.has_issue(id1),
        !s.has_issue(id2),
        id1 != id2,
        spec_distinct_emails(emails1),
        spec_distinct_emails(emails2),
    ensures
        ({
            let (s1, o1) = spec_publish(
                s,
                key1,
                user1,
                title1,
                text1,
                html1,
                emails1,
                id1,
                created_at1,
                published_at1,
            );
            let (s2, o2) = spec_publish(
                s1,
                key2,
                user2,
                title2,
                text2,
                html2,
                emails2,
                id2,
                created_at2,
                published_at2,
            );
            &&& o1 == PublishOutcomeV::Published(spec_see_other(spec_newsletter_redirect_path()))
            &&& o2 == PublishOutcomeV::Published(spec_see_other(spec_newsletter_redirect_path()))
            &&& s2.queue == s.queue + spec_fanout(id1, emails1) + spec_fanout(id2, emails2)
        }),
{
    lemma_published_record(
        s,
        key1,
        user1,
        title1,
        text1,
        html1,
        emails1,
        id1,
        created_at1,
        published_at1,
    );
    let (s1, o1) = spec_publish(
        s,
        key1,
        user1,
        title1,
        text1,
        html1,
        emails1,
        id1,
        created_at1,
        published_at1,
    );
    // The second pair still has no row in `s1`.
    assert(!s1.has_record(user2, key2)) by {
        if s1.has_record(user2, key2) {
            let w = s1.record_index(user2, key2);
            assert(crate::store::record_matches(s1.records[w], user2, key2));
            let n = s.records.len() as int;
            if w < n {
                assert(s1.records[w].user_id == s.records[w].user_id
                    && s1.records[w].idempotency_key == s.records[w].idempotency_key);
                assert(s.has_record(user2, key2));
            }
        }
    }
    // The second identifier is still fresh in `s1`.
    assert(!s1.has_issue(id2)) by {
        if s1.has_issue(id2) {
            let w = s1.issue_index(id2);
            let m = s.issues.len() as int;
            assert(0 <= w < s1.issues.len() && s1.issues[w].newsletter_issue_id == id2);
            if w < m {
                assert(s1.issues[w] == s.issues[w]);
                assert(s.has_issue(id2));
            }
        }
    }
    lemma_published_record(
        s1,
        key2,
        user2,
        title2,
        text2,
        html2,
        emails2,
        id2,
        created_at2,
        published_at2,
    );
    let (s2, o2) = spec_publish(
        s1,
        key2,
        user2,
        title2,
        text2,
        html2,
        emails2,
        id2,
        created_at2,
        published_at2,
    );
    assert(s2.queue =~= s.queue + spec_fanout(id1, emails1) + spec_fanout(id2, emails2));
}

/// Atomic fan-out: until `save_response` commits a publish's transaction, the
/// only store mutation the publish flow has made is the pending idempotency
/// row that `try_processing` inserted. The issue insert and the queue insert
/// stage rows in the transaction alone, so when the transaction is rolled
/// back — for instance because the queue insert failed right after the issue
/// insert — the store holds no issue row and no delivery task of the aborted
/// publish: exactly what it held before, plus the pending row.
pub proof fn lemma_atomic_fanout(s: StoreV, user_id: u128, key: Seq<char>, created_at: i64)
    ensures
        s.with_pending_record(user_id, key, created_at).issues == s.issues,
        s.with_pending_record(user_id, key, created_at).queue == s.queue,
{
}

/// A drain trace: each step claims the queue row at the recorded index of the
/// store as it then stands, and deletes it. Workers interleave freely; the
/// database's row locks make each claim see the queue its predecessors left.
pub open spec fn spec_drain(s: StoreV, picks: Seq<int>) -> (StoreV, Seq<TaskV>)
    decreases picks.len(),
{
    if picks.len() == 0 {
        (s, Seq::empty())
    } else {
        let rest = spec_drain(s.with_task_removed(picks[0]), picks.drop_first());
        (rest.0, seq![s.queue[picks[0]]] + rest.1)
    }
}

/// Whether every pick of a drain trace names an outstanding row.
pub open spec fn valid_picks(s: StoreV, picks: Seq<int>) -> bool
    decreases picks.len(),
{
    picks.len() == 0 || (0 <= picks[0] < s.queue.len() && valid_picks(
        s.with_task_removed(picks[0]),
        picks.drop_first(),
    ))
}

/// At-most-once claim: however concurrent workers interleave their claims,
/// the claimed tasks are pairwise distinct rows, and together with the rows
/// still outstanding they are exactly the initial queue. In particular, once
/// the queue is drained, the claims across all workers number exactly the M
/// tasks that were queued, none claimed twice.
pub proof fn lemma_at_most_once_claim(s: StoreV, picks: Seq<int>)
    requires
        s.wf(),
        valid_picks(s, picks),
    ensures
        ({
            let (t, claimed) = spec_drain(s, picks);
            &&& t.wf()
            &&& claimed.to_multiset().add(t.queue.to_multiset()) == s.queue.to_multiset()
            &&& claimed.no_duplicates()
            &&& (t.queue.len() == 0 ==> claimed.to_multiset() == s.queue.to_multiset()
                && claimed.len() == s.queue.len())
        }),
    decreases picks.len(),
{
    broadcast use vstd::seq_lib::group_to_multiset_ensures;
    broadcast use vstd::multiset::group_multiset_axioms;

    let (t, claimed) = spec_drain(s, picks);
    if picks.len() == 0 {
        assert(claimed.to_multiset().add(t.queue.to_multiset()) =~= s.queue.to_multiset());
    } else {
        let i = picks[0];
        let head = s.queue[i];
        let s_next = s.with_task_removed(i);
        lemma_wf_with_task_removed(s, i);
        lemma_at_most_once_claim(s_next, picks.drop_first());
        let rest = spec_drain(s_next, picks.drop_first());
        // The queue had no duplicates, so the claimed head is absent afterwards.
        assert(s.queue.no_duplicates());
        s.queue.lemma_multiset_has_no_duplicates();
        assert(s.queue.contains(head));
        assert(s.queue.to_multiset().count(head) == 1);
        assert(s_next.queue.to_multiset() =~= s.queue.to_multiset().remove(head));
        assert(s_next.queue.to_multiset().count(head) == 0);
        assert(rest.1.to_multiset().add(rest.0.queue.to_multiset()).count(head) == 0);
        assert(!rest.1.contains(head));
        // The whole claim sequence is the head followed by the rest's claims.
        assert(claimed =~= seq![head] + rest.1);
        assert(claimed.to_multiset() =~= rest.1.to_multiset().insert(head)) by {
            vstd::seq_lib::lemma_multiset_commutative(seq![head], rest.1);
            assert(seq![head] =~= Seq::empty().push(head));
            assert(Seq::<TaskV>::empty().to_multiset().len() == 0);
            vstd::multiset::lemma_multiset_empty_len(Seq::<TaskV>::empty().to_multiset());
            assert(Seq::<TaskV>::empty().push(head).to_multiset() =~= Seq::<
                TaskV,
            >::empty().to_multiset().insert(head));
            assert(seq![head].to_multiset() =~= Multiset::<TaskV>::empty().insert(head));
        }
        assert forall|x: TaskV|
            #[trigger] claimed.to_multiset().count(x) + t.queue.to_multiset().count(x)
                == s.queue.to_multiset().count(x) by {
            assert(claimed.to_multiset().count(x) == rest.1.to_multiset().insert(head).count(x));
            assert(rest.1.to_multiset().count(x) + rest.0.queue.to_multiset().count(x)
                == s_next.queue.to_multiset().count(x));
            assert(s_next.queue.to_multiset().count(x) == s.queue.to_multiset().remove(
                head,
            ).count(x));
            if x == head {
                assert(s.queue.to_multiset().count(head) == 1);
            }
        }
        assert(claimed.to_multiset().add(t.queue.to_multiset()) =~= s.queue.to_multiset());
        assert forall|a: int, b: int|
            0 <= a < b < claimed.len() implies claimed[a] != claimed[b] by {
            if a == 0 {
                assert(claimed[b] == rest.1[b - 1]);
                assert(rest.1.contains(rest.1[b - 1]));
            } else {
                assert(claimed[a] == rest.1[a - 1]);
                assert(claimed[b] == rest.1[b - 1]);
            }
        }
        if t.queue.len() == 0 {
            assert(claimed.to_multiset() =~= s.queue.to_multiset());
            assert(claimed.len() == claimed.to_multiset().len());
            assert(s.queue.len() == s.queue.to_multiset().len());
        }
    }
}

/// The operations that ever mutate the store: beginning idempotent
/// processing (inserts a pending row unless the pair exists), committing a
/// transaction (save_response: response saved, staged issue and fan-out
/// appended, refused if the staged issue collides), and claiming a delivery
/// task. Each mirrors the corresponding store method's contract; an operation
/// whose guard fails leaves the store unchanged, as the method does.
pub ghost enum StoreOp {
    TryBegin { user_id: u128, key: Seq<char>, created_at: i64 },
    Commit { tx: TxV, user_id: u128, key: Seq<char>, response: ResponseV },
    Claim { index: int },
}

/// One operation applied to the store.
pub open spec fn spec_apply(s: StoreV, op: StoreOp) -> StoreV {
    match op {
        StoreOp::TryBegin { user_id, key, created_at } => if s.has_record(user_id, key) {
            s
        } else {
            s.with_pending_record(user_id, key, created_at)
        },
        StoreOp::Commit { tx, user_id, key, response } => if tx.wf() && s.commit_allowed(tx) {
            s.with_committed(tx, user_id, key, response)
        } else {
            s
        },
        StoreOp::Claim { index } => if 0 <= index < s.queue.len() {
            s.with_task_removed(index)
        } else {
            s
        },
    }
}

/// A whole history of operations applied in order.
pub open spec fn spec_apply_all(s: StoreV, ops: Seq<StoreOp>) -> StoreV
    decreases ops.len(),
{
    if ops.len() == 0 {
        s
    } else {
        spec_apply_all(spec_apply(s, ops[0]), ops.drop_first())
    }
}

/// One operation preserves well-formedness, keeps every existing issue, and
/// never adds a delivery task for an issue that already exists.
proof fn lemma_apply_step(s: StoreV, op: StoreOp, x: u128, email: Seq<char>)
    requires
        s.wf(),
        s.has_issue(x),
        !s.has_task(TaskV { newsletter_issue_id: x, subscriber_email: email }),
    ensures
        ({
            let t = spec_apply(s, op);
            &&& t.wf()
            &&& t.has_issue(x)
            &&& !t.has_task(TaskV { newsletter_issue_id: x, subscriber_email: email })
        }),
{
    let task = TaskV { newsletter_issue_id: x, subscriber_email: email };
    let t = spec_apply(s, op);
    match op {
        StoreOp::TryBegin { user_id, key, created_at } => {
            if !s.has_record(user_id, key) {
                lemma_wf_with_pending(s, user_id, key, created_at);
                crate::store::lemma_same_issues_has_issue(s, t, x);
                assert forall|i: int| 0 <= i < t.queue.len() implies #[trigger] t.queue[i]
                    != task by {
                    assert(t.queue[i] == s.queue[i]);
                    if s.queue[i] == task {
                        assert(s.has_task(task));
                    }
                }
            }
        },
        StoreOp::Commit { tx, user_id, key, response } => {
            if tx.wf() && s.commit_allowed(tx) {
                lemma_wf_with_committed(s, tx, user_id, key, response);
                let saved = s.with_response_saved(user_id, key, response);
                assert(saved.issues == s.issues);
                let w = s.issue_index(x);
                assert(0 <= w < s.issues.len() && s.issues[w].newsletter_issue_id == x);
                assert(t.issues[w] == s.issues[w]);
                assert(t.has_issue(x));
                let n = s.queue.len() as int;
                assert forall|i: int| 0 <= i < t.queue.len() implies #[trigger] t.queue[i]
                    != task by {
                    if i < n {
                        assert(t.queue[i] == s.queue[i]);
                        if s.queue[i] == task {
                            assert(s.has_task(task));
                        }
                    } else {
                        match tx.staged_issue {
                            Some(issue) => {
                                assert(t.queue[i] == tx.staged_tasks[i - n]);
                                assert(tx.staged_tasks[i - n].newsletter_issue_id
                                    == issue.newsletter_issue_id);
                                assert(issue.newsletter_issue_id != x);
                            },
                            None => {},
                        }
                    }
                }
            }
        },
        StoreOp::Claim { index } => {
            if 0 <= index < s.queue.len() {
                lemma_wf_with_task_removed(s, index);
                crate::store::lemma_same_issues_has_issue(s, t, x);
                assert forall|i: int| 0 <= i < t.queue.len() implies #[trigger] t.queue[i]
                    != task by {
                    let i0 = if i < index {
                        i
                    } else {
                        i + 1
                    };
                    assert(t.queue[i] == s.queue[i0]);
                    if s.queue[i0] == task {
                        assert(s.has_task(task));
                    }
                }
            }
        },
    }
}

/// Snapshot fan-out: the fan-out of an issue is fixed the moment it is
/// enqueued. Once issue X exists, no later history of operations — further
/// publishes, commits, claims — ever creates a delivery task of X, so an
/// address that was outside the snapshot taken at X's enqueue (no task
/// `(X, email)` outstanding) never has one and is never claimed for X.
pub proof fn lemma_snapshot_fanout(s: StoreV, ops: Seq<StoreOp>, x: u128, email: Seq<char>)
    requires
        s.wf(),
        s.has_issue(x),
        !s.has_task(TaskV { newsletter_issue_id: x, subscriber_email: email }),
    ensures
        ({
            let t = spec_apply_all(s, ops);
            &&& t.wf()
            &&& t.has_issue(x)
            &&& !t.has_task(TaskV { newsletter_issue_id: x, subscriber_email: email })
        }),
    decreases ops.len(),
{
    if ops.len() > 0 {
        lemma_apply_step(s, ops[0], x, email);
        lemma_snapshot_fanout(spec_apply(s, ops[0]), ops.drop_first(), x, email);
    }
}

/// Concurrent duplicate requests: the row lock on the `(user, key)` pair
/// serializes two simultaneous publishes, so one runs to completion first and
/// the other after it. In either serialization the first call publishes, the
/// second replays the byte-identical redirect response, and exactly one
/// fan-out is enqueued.
pub proof fn lemma_concurrent_duplicates(
    s: StoreV,
    key: Seq<char>,
    user_id: u128,
    title: Seq<char>,
    text_content: Seq<char>,
    html_content: Seq<char>,
    emails: Seq<Seq<char>>,
    id_a: u128,
    created_at_a: i64,
    published_at_a: i64,
    id_b: u128,
    created_at_b: i64,
    published_at_b: i64,
)
    requires
        s.wf(),
        spec_key_valid(key),
        !s.has_record(user_id, key),
        !s.has_issue(id_a),
        !s.has_issue(id_b),
        spec_distinct_emails(emails),
    ensures
        ({
            let response = spec_see_other(spec_newsletter_redirect_path());
            let (sa, oa) = spec_publish(
                s,
                key,
                user_id,
                title,
                text_content,
                html_content,
                emails,
                id_a,
                created_at_a,
                published_at_a,
            );
            let (sa2, oa2) = spec_publish(
                sa,
                key,
                user_id,
                title,
                text_content,
                html_content,
                emails,
                id_b,
                created_at_b,
                published_at_b,
            );
            let (sb, ob) = spec_publish(
                s,
                key,
                user_id,
                title,
                text_content,
                html_content,
                emails,
                id_b,
                created_at_b,
                published_at_b,
            );
            let (sb2, ob2) = spec_publish(
                sb,
                key,
                user_id,
                title,
                text_content,
                html_content,
                emails,
                id_a,
                created_at_a,
                published_at_a,
            );
            &&& oa == PublishOutcomeV::Published(response)
            &&& ob == PublishOutcomeV::Published(response)
            &&& oa2 == PublishOutcomeV::Replayed(response)
            &&& ob2 == PublishOutcomeV::Replayed(response)
            &&& sa2 == sa
            &&& sb2 == sb
            &&& sa.queue == s.queue + spec_fanout(id_a, emails)
            &&& sb.queue == s.queue + spec_fanout(id_b, emails)
        }),
{
    lemma_published_record(
        s,
        key,
        user_id,
        title,
        text_content,
        html_content,
        emails,
        id_a,
        created_at_a,
        published_at_a,
    );
    lemma_publish_idempotent(
        s,
        key,
        user_id,
        title,
        text_content,
        html_content,
        emails,
        id_a,
        created_at_a,
        published_at_a,
        title,
        text_content,
        html_content,
        emails,
        id_b,
        created_at_b,
        published_at_b,
    );
    lemma_published_record(
        s,
        key,
        user_id,
        title,
        text_content,
        html_content,
        emails,
        id_b,
        created_at_b,
        published_at_b,
    );
    lemma_publish_idempotent(
        s,
        key,
        user_id,
        title,
        text_content,
        html_content,
        emails,
        id_b,
        created_at_b,
        published_at_b,
        title,
        text_content,
        html_content,
        emails,
        id_a,
        created_at_a,
        published_at_a,
    );
}

} // verus!
