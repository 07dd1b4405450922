//! Deduplication of publish requests keyed by `(user, idempotency key)`.
//!
//! `try_processing` decides whether a request is new (the caller receives an
//! open transaction and owes a `save_response`) or a duplicate (the cached
//! response is replayed verbatim). A duplicate whose original owner aborted
//! after inserting its row surfaces as [`StoreError::StuckPendingRecord`].

use vstd::prelude::*;

use crate::response::HttpLikeResponse;
use crate::store::PgTransaction;
use crate::store::Store;
use crate::store::StoreError;
use crate::store::TxV;
use crate::store::UserId;
use crate::store::lemma_record_index_unique;
use crate::store::lemma_wf_with_committed;
use crate::store::lemma_wf_with_pending;
use crate::store::now_timestamp;

verus! {

/// Longest accepted idempotency key, in characters.
pub const IDEMPOTENCY_KEY_MAX_LENGTH: usize = 50;

/// A client-supplied deduplication token: non-empty and of bounded length.
pub struct IdempotencyKey(String);

impl View for IdempotencyKey {
    type V = Seq<char>;

    closed spec fn view(&self) -> Seq<char> {
        self.0@
    }
}

/// The strings accepted as idempotency keys.
pub open spec fn spec_key_valid(s: Seq<char>) -> bool {
    1 <= s.len() <= IDEMPOTENCY_KEY_MAX_LENGTH
}

/// Rejection of a malformed idempotency key; surfaced to the caller as a
/// client error.
#[derive(Clone, Copy, Debug, PartialEq, Eq, Structural)]
pub enum ValidationError {
    EmptyIdempotencyKey,
    OverlongIdempotencyKey,
}

impl IdempotencyKey {
    /// Accepts exactly the non-empty strings of at most
    /// [`IDEMPOTENCY_KEY_MAX_LENGTH`] characters, with no other
    /// normalization.
    pub fn parse(raw: String) -> (r: Result<IdempotencyKey, ValidationError>)
        ensures
            match r {
                Ok(k) => spec_key_valid(raw@) && k@ == raw@,
                Err(ValidationError::EmptyIdempotencyKey) => raw@.len() == 0,
                Err(ValidationError::OverlongIdempotencyKey) => raw@.len()
                    > IDEMPOTENCY_KEY_MAX_LENGTH,
            },
    {
        let n = raw.as_str().unicode_len();
        if n == 0 {
            Err(ValidationError::EmptyIdempotencyKey)
        } else if n > IDEMPOTENCY_KEY_MAX_LENGTH {
            Err(ValidationError::OverlongIdempotencyKey)
        } else {
            Ok(IdempotencyKey(raw))
        }
    }

    /// The raw key, for storage and lookup only.
    pub fn as_ref(&self) -> (r: &String)
        ensures
            r@ == self@,
    {
        &self.0
    }
}

/// What a publish request should do next: it either owns the open transaction
/// and must process, or it replays the saved response of an earlier identical
/// request.
pub enum NextAction {
    StartProcessing(PgTransaction),
    ReturnSavedResponse(HttpLikeResponse),
}

impl Store {
    /// The response saved for `(user_id, key)`, if that row exists and is
    /// complete; `None` both when no row exists and when the row is still
    /// pending ("no response found").
    pub fn get_saved_response(&self, idempotency_key: &IdempotencyKey, user_id: UserId) -> (r:
        Option<HttpLikeResponse>)
        requires
            self@.wf(),
        ensures
            match r {
                Some(resp) => self@.has_record(user_id@, idempotency_key@) && self@.record_for(
                    user_id@,
                    idempotency_key@,
                ).response == Some(resp@),
                None => !self@.has_record(user_id@, idempotency_key@) || self@.record_for(
                    user_id@,
                    idempotency_key@,
                ).response is None,
            },
    {
        match self.find_record(user_id, idempotency_key.as_ref()) {
            None => None,
            Some(i) => {
                proof {
                    lemma_record_index_unique(self@, user_id@, idempotency_key@, i as int);
                }
                match &self.record_at(i).response {
                    Some(resp) => Some(resp.duplicate()),
                    None => None,
                }
            },
        }
    }

    /// Tries to insert the `(user_id, key)` row and begin processing.
    ///
    /// A fresh pair gets a pending row and an open transaction: the caller
    /// now owes a `save_response` (commit) or a rollback. A pair whose row is
    /// complete replays the saved response unchanged. A pair whose row is
    /// still pending, with nobody processing it, is unrecoverable:
    /// [`StoreError::StuckPendingRecord`].
    pub fn try_processing(&mut self, idempotency_key: &IdempotencyKey, user_id: UserId) -> (r:
        Result<NextAction, StoreError>)
        requires
            old(self)@.wf(),
        ensures
            final(self)@.wf(),
            final(self)@.issues == old(self)@.issues,
            final(self)@.queue == old(self)@.queue,
            match r {
                Ok(NextAction::StartProcessing(tx)) => {
                    &&& !old(self)@.has_record(user_id@, idempotency_key@)
                    &&& exists|ts: i64|
                        final(self)@ == old(self)@.with_pending_record(
                            user_id@,
                            idempotency_key@,
                            ts,
                        )
                    &&& tx@ == (TxV {
                        user_id: user_id@,
                        idempotency_key: idempotency_key@,
                        staged_issue: None,
                        staged_tasks: Seq::empty(),
                    })
                    &&& tx@.wf()
                },
                Ok(NextAction::ReturnSavedResponse(resp)) => {
                    &&& final(self)@ == old(self)@
                    &&& old(self)@.has_record(user_id@, idempotency_key@)
                    &&& old(self)@.record_for(user_id@, idempotency_key@).response == Some(resp@)
                },
                Err(StoreError::StuckPendingRecord) => {
                    &&& final(self)@ == old(self)@
                    &&& old(self)@.has_record(user_id@, idempotency_key@)
                    &&& old(self)@.record_for(user_id@, idempotency_key@).response is None
                },
                Err(_) => false,
            },
    {
        let key = idempotency_key.as_ref();
        match self.find_record(user_id, key) {
            None => {
                let created_at = now_timestamp();
                self.push_pending_record(user_id, key.clone(), created_at);
                proof {
                    lemma_wf_with_pending(old(self)@, user_id@, idempotency_key@, created_at);
                }
                Ok(NextAction::StartProcessing(PgTransaction::begin(user_id, key.clone())))
            },
            Some(i) => {
                proof {
                    lemma_record_index_unique(self@, user_id@, idempotency_key@, i as int);
                }
                match &self.record_at(i).response {
                    Some(resp) => Ok(NextAction::ReturnSavedResponse(resp.duplicate())),
                    None => Err(StoreError::StuckPendingRecord),
                }
            },
        }
    }

    /// Saves the response into the `(user_id, key)` row and commits the
    /// transaction: the response columns, the staged issue and the staged
    /// queue rows all become visible together. A staged issue whose
    /// identifier meanwhile exists aborts the whole transaction instead, and
    /// nothing of it becomes visible. Returns the response unchanged so the
    /// caller can send it on.
    pub fn save_response(
        &mut self,
        transaction: PgTransaction,
        idempotency_key: &IdempotencyKey,
        user_id: UserId,
        http_response: HttpLikeResponse,
    ) -> (r: Result<HttpLikeResponse, StoreError>)
        requires
            old(self)@.wf(),
            transaction@.wf(),
        ensures
            final(self)@.wf(),
            match r {
                Ok(resp) => {
                    &&& resp@ == http_response@
                    &&& old(self)@.commit_allowed(transaction@)
                    &&& final(self)@ == old(self)@.with_committed(
                        transaction@,
                        user_id@,
                        idempotency_key@,
                        http_response@,
                    )
                },
                Err(StoreError::PersistenceError) => {
                    &&& !old(self)@.commit_allowed(transaction@)
                    &&& final(self)@ == old(self)@
                },
                Err(_) => false,
            },
    {
        let ghost txv = transaction@;
        let (_tx_user, _tx_key, staged_issue, staged_tasks) = transaction.into_parts();
        if let Some(issue) = &staged_issue {
            match self.find_issue(issue.newsletter_issue_id) {
                Some(w) => {
                    proof {
                        assert(self@.issues[w as int].newsletter_issue_id
                            == txv.staged_issue->Some_0.newsletter_issue_id);
                        assert(self@.has_issue(txv.staged_issue->Some_0.newsletter_issue_id));
                    }
                    return Err(StoreError::PersistenceError);
                },
                None => {},
            }
        }
        proof {
            lemma_wf_with_committed(old(self)@, txv, user_id@, idempotency_key@, http_response@);
        }
        let saved_copy = http_response.duplicate();
        match self.find_record(user_id, idempotency_key.as_ref()) {
            Some(i) => {
                proof {
                    lemma_record_index_unique(self@, user_id@, idempotency_key@, i as int);
                }
                self.set_record_response(i, saved_copy);
            },
            None => {},
        }
        match staged_issue {
            Some(issue) => {
                self.push_issue(issue);
                self.append_tasks(staged_tasks);
            },
            None => {},
        }
        proof {
            assert(self@ =~= old(self)@.with_committed(
                txv,
                user_id@,
                idempotency_key@,
                http_response@,
            ));
        }
        Ok(http_response)
    }
}

} // verus!
