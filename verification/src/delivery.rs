//! The delivery worker's view of the queue: claim one task, delete it at
//! once, and only then try to deliver. A claimed task is gone before the send
//! is attempted — at-most-once delivery — so a failed send is logged and
//! never retried, and its outcome is still `TaskCompleted`.

use vstd::prelude::*;

use crate::domain::SubscriberEmail;
use crate::domain::is_valid_email;
use crate::store::DeliveryTask;
use crate::store::NewsletterIssue;
use crate::store::Store;
use crate::store::StoreError;
use crate::store::StoreV;
use crate::store::TaskV;
use crate::store::lemma_issue_index_unique;
use crate::store::lemma_same_issues_issue_for;
use crate::store::lemma_task_index_unique;
use crate::store::lemma_wf_with_task_removed;

verus! {

/// Whether a worker iteration found a task in the queue.
pub enum ExecutionOutcome {
    TaskCompleted,
    EmptyQueue,
}

/// What a claimed task asks the email gateway to do: send this issue's
/// content to this parsed recipient. The worker loop around the store
/// performs the send; a failed send changes nothing here.
pub struct DeliveryOrder {
    pub recipient: SubscriberEmail,
    pub title: String,
    pub html_content: String,
    pub text_content: String,
}

/// How a claimed task relates to the order handed back: a task whose stored
/// address parses is delivered with its issue's content; one whose address
/// does not parse is skipped.
pub open spec fn claimed_order_matches(s: StoreV, t: TaskV, order: Option<DeliveryOrder>) -> bool {
    match order {
        Some(o) => {
            &&& is_valid_email(t.subscriber_email)
            &&& o.recipient@ == t.subscriber_email
            &&& o.title@ == s.issue_for(t.newsletter_issue_id).title
            &&& o.html_content@ == s.issue_for(t.newsletter_issue_id).html_content
            &&& o.text_content@ == s.issue_for(t.newsletter_issue_id).text_content
        },
        None => !is_valid_email(t.subscriber_email),
    }
}

impl Store {
    /// Claims one queue row, as `SELECT ... FOR UPDATE SKIP LOCKED LIMIT 1`
    /// does: some outstanding row if any exists — no order among rows is
    /// promised — and none exactly when the queue is empty.
    pub fn dequeue_task(&self) -> (r: Option<DeliveryTask>)
        ensures
            match r {
                Some(t) => self@.has_task(t@),
                None => self@.queue.len() == 0,
            },
    {
        if self.queue_len() == 0 {
            None
        } else {
            let t = self.task_at(0).duplicate();
            proof {
                assert(self@.queue[0] == t@);
            }
            Some(t)
        }
    }

    /// Deletes the claimed row — every row with this issue and address, which
    /// the queue's uniqueness makes at most one — and commits at once, before
    /// any delivery attempt.
    pub fn delete_task(&mut self, newsletter_issue_id: u128, subscriber_email: &String)
        requires
            old(self)@.wf(),
        ensures
            final(self)@.wf(),
            ({
                let t = TaskV { newsletter_issue_id, subscriber_email: subscriber_email@ };
                if old(self)@.has_task(t) {
                    final(self)@ == old(self)@.with_task_removed(old(self)@.task_index(t))
                } else {
                    final(self)@ == old(self)@
                }
            }),
    {
        let ghost t = TaskV { newsletter_issue_id, subscriber_email: subscriber_email@ };
        let n = self.queue_len();
        let mut i: usize = 0;
        while i < n
            invariant
                i <= n,
                n == self@.queue.len(),
                old(self)@ == self@,
                old(self)@.wf(),
                t == (TaskV { newsletter_issue_id, subscriber_email: subscriber_email@ }),
                forall|j: int| 0 <= j < i ==> #[trigger] self@.queue[j] != t,
            decreases n - i,
        {
            let row = self.task_at(i);
            let id_matches = row.newsletter_issue_id == newsletter_issue_id;
            let email_matches = row.subscriber_email.eq(subscriber_email);
            proof {
                assert(row@ == self@.queue[i as int]);
                assert(id_matches == (self@.queue[i as int].newsletter_issue_id
                    == newsletter_issue_id));
                assert(email_matches == (self@.queue[i as int].subscriber_email
                    == subscriber_email@));
                if id_matches && email_matches {
                    assert(self@.queue[i as int] =~= t);
                } else {
                    assert(self@.queue[i as int] != t);
                }
            }
            if id_matches && email_matches {
                proof {
                    lemma_task_index_unique(self@, t, i as int);
                    lemma_wf_with_task_removed(self@, i as int);
                }
                self.remove_task(i);
                return ;
            }
            i = i + 1;
        }
        proof {
            if old(self)@.has_task(t) {
                let w = old(self)@.task_index(t);
                assert(old(self)@.queue[w] == t);
                assert(false);
            }
        }
    }

    /// Looks up the issue a claimed task refers to.
    pub fn get_issue(&self, newsletter_issue_id: u128) -> (r: Result<NewsletterIssue, StoreError>)
        requires
            self@.wf(),
        ensures
            match r {
                Ok(issue) => self@.has_issue(newsletter_issue_id) && issue@ == self@.issue_for(
                    newsletter_issue_id,
                ),
                Err(StoreError::IssueNotFound) => !self@.has_issue(newsletter_issue_id),
                Err(_) => false,
            },
    {
        match self.find_issue(newsletter_issue_id) {
            Some(i) => {
                proof {
                    lemma_issue_index_unique(self@, newsletter_issue_id, i as int);
                }
                Ok(self.issue_at(i).duplicate())
            },
            None => Err(StoreError::IssueNotFound),
        }
    }

    /// One worker iteration: claim a task, delete it from the queue, then
    /// parse its stored address and look its issue up. The task is gone
    /// before any delivery is attempted, whatever the address or the send
    /// turn out to be; an unparsable address yields no order and is skipped.
    pub fn try_execute_task(&mut self) -> (r: (ExecutionOutcome, Option<DeliveryOrder>))
        requires
            old(self)@.wf(),
        ensures
            final(self)@.wf(),
            final(self)@.records == old(self)@.records,
            final(self)@.issues == old(self)@.issues,
            match r.0 {
                ExecutionOutcome::EmptyQueue => {
                    &&& final(self)@ == old(self)@
                    &&& old(self)@.queue.len() == 0
                    &&& r.1 is None
                },
                ExecutionOutcome::TaskCompleted => {
                    &&& old(self)@.queue.len() > 0
                    &&& exists|i: int|
                        0 <= i < old(self)@.queue.len() && final(self)@ == old(
                            self,
                        )@.with_task_removed(i) && claimed_order_matches(
                            old(self)@,
                            old(self)@.queue[i],
                            r.1,
                        )
                },
            },
    {
        let task = match self.dequeue_task() {
            None => {
                return (ExecutionOutcome::EmptyQueue, None);
            },
            Some(t) => t,
        };
        let ghost s0 = self@;
        let ghost tv = task@;
        let ghost w = s0.task_index(tv);
        proof {
            assert(s0.queue[w] == tv);
            assert(s0.has_issue(s0.queue[w].newsletter_issue_id));
        }
        self.delete_task(task.newsletter_issue_id, &task.subscriber_email);
        proof {
            lemma_same_issues_issue_for(s0, self@, tv.newsletter_issue_id);
        }
        match SubscriberEmail::parse(task.subscriber_email.clone()) {
            Ok(recipient) => {
                match self.get_issue(task.newsletter_issue_id) {
                    Ok(issue) => {
                        let order = DeliveryOrder {
                            recipient,
                            title: issue.title,
                            html_content: issue.html_content,
                            text_content: issue.text_content,
                        };
                        (ExecutionOutcome::TaskCompleted, Some(order))
                    },
                    Err(_) => {
                        proof {
                            assert(false);
                        }
                        (ExecutionOutcome::TaskCompleted, None)
                    },
                }
            },
            Err(_) => (ExecutionOutcome::TaskCompleted, None),
        }
    }
}

/// How many seconds the worker loop pauses before its next iteration: none
/// after a completed task, ten when the queue was empty, one after an
/// unexpected store failure.
pub open spec fn spec_worker_backoff_seconds<E>(outcome: Result<ExecutionOutcome, E>) -> u64 {
    match outcome {
        Ok(ExecutionOutcome::TaskCompleted) => 0,
        Ok(ExecutionOutcome::EmptyQueue) => 10,
        Err(_) => 1,
    }
}

/// The worker loop's backoff decision after one iteration.
pub fn worker_backoff_seconds<E>(outcome: &Result<ExecutionOutcome, E>) -> (r: u64)
    ensures
        r == spec_worker_backoff_seconds(*outcome),
{
    match outcome {
        Ok(ExecutionOutcome::TaskCompleted) => 0,
        Ok(ExecutionOutcome::EmptyQueue) => 10,
        Err(_) => 1,
    }
}

} // verus!
