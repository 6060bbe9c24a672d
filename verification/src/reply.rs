//! How outcomes are reported to the client that asked: as status codes.

use crate::lease::{LeaseError, LeaseOutcome};
use crate::registry::{PutReply, WorkerStatsError};
use vstd::prelude::*;

verus! {

/// The request was carried out, and nothing was created by it.
pub const STATUS_OK: u16 = 200;

/// The request created what it asked for.
pub const STATUS_CREATED: u16 = 201;

/// The request was refused.
pub const STATUS_BAD_REQUEST: u16 = 400;

/// The status that reports the outcome of a request for a lease: created
/// for a lease newly acquired, ok for one already held, bad request for a
/// refusal.
pub open spec fn lease_status(outcome: Result<LeaseOutcome, LeaseError>) -> u16 {
    match outcome {
        Ok(LeaseOutcome::Acquired) => STATUS_CREATED,
        Ok(LeaseOutcome::AlreadyHeld) => STATUS_OK,
        Err(_) => STATUS_BAD_REQUEST,
    }
}

/// Computes [`lease_status`].
pub fn lease_status_code(outcome: &Result<LeaseOutcome, LeaseError>) -> (code: u16)
    ensures
        code == lease_status(*outcome),
{
    match outcome {
        Ok(LeaseOutcome::Acquired) => STATUS_CREATED,
        Ok(LeaseOutcome::AlreadyHeld) => STATUS_OK,
        Err(_) => STATUS_BAD_REQUEST,
    }
}

/// The status that reports the outcome of a worker's report: ok where it was
/// entered, bad request where it was refused.
pub fn put_status_code(outcome: &Result<PutReply, WorkerStatsError>) -> (code: u16)
    ensures
        code == if outcome is Ok {
            STATUS_OK
        } else {
            STATUS_BAD_REQUEST
        },
{
    match outcome {
        Ok(_) => STATUS_OK,
        Err(_) => STATUS_BAD_REQUEST,
    }
}

/// The body that answers an accepted report: the identifier for a
/// registration, nothing for an event.
pub fn put_reply_body(reply: PutReply) -> (body: String)
    ensures
        body@ == match reply {
            PutReply::Registered { id } => id@,
            PutReply::Applied => Seq::<char>::empty(),
        },
{
    match reply {
        PutReply::Registered { id } => id,
        PutReply::Applied => String::new(),
    }
}

} // verus!
