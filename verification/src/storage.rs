//! Pending access requests.

use vstd::prelude::*;

verus! {

/// A request that waits for a decision.
#[derive(Debug)]
pub struct PendingRequest {
    pub id: u64,
    pub chat_id: i64,
    pub user_id: u64,
    pub login: String,
    pub created_at_unix: i64,
}

/// What a request is.
pub struct PendingModel {
    pub id: u64,
    pub chat_id: i64,
    pub user_id: u64,
    pub login: Seq<char>,
    pub created_at_unix: i64,
}

impl View for PendingRequest {
    type V = PendingModel;

    open spec fn view(&self) -> PendingModel {
        PendingModel {
            id: self.id,
            chat_id: self.chat_id,
            user_id: self.user_id,
            login: self.login@,
            created_at_unix: self.created_at_unix,
        }
    }
}

/// Requests as models.
pub open spec fn pending_models(requests: Seq<PendingRequest>) -> Seq<PendingModel> {
    Seq::new(requests.len(), |i: int| requests[i]@)
}

/// What becomes of a request that is filed.
#[derive(Debug, Clone, Copy, PartialEq, Eq, Structural)]
pub enum InsertResult {
    Created(u64),
    AlreadyPending(u64),
}

impl InsertResult {
    /// What becomes of a request: where a row was added, its identifier is the number of that row.
    /// Otherwise the user's request was there already and is to be looked up.
    pub fn of_insert(inserted: usize, last_row: i64) -> (r: Option<InsertResult>)
        ensures
            r == if inserted > 0 {
                Some(InsertResult::Created(last_row as u64))
            } else {
                None
            },
    {
        if inserted > 0 {
            Some(InsertResult::Created(last_row as u64))
        } else {
            None
        }
    }

    /// What becomes of a request of a user whose request is in the row `existing`.
    pub fn of_existing(existing: i64) -> (r: InsertResult)
        ensures
            r == InsertResult::AlreadyPending(existing as u64),
    {
        InsertResult::AlreadyPending(existing as u64)
    }
}

impl PendingRequest {
    /// The request in a row of the table.
    pub fn from_row(id: i64, chat_id: i64, user_id: i64, login: String, created_at_unix: i64) -> (r:
        PendingRequest)
        ensures
            r@ == (PendingModel {
                id: id as u64,
                chat_id,
                user_id: user_id as u64,
                login: login@,
                created_at_unix,
            }),
    {
        PendingRequest { id: id as u64, chat_id, user_id: user_id as u64, login, created_at_unix }
    }
}

/// An identifier as it stands in the table.
pub fn stored_id(id: u64) -> (r: i64)
    ensures
        r == id as i64,
        r as u64 == id,
{
    assert((id as i64) as u64 == id) by (bit_vector);
    id as i64
}

} // verus!
