//! Replies: what a handler answers with when it refuses a request.

use crate::dto::common::ErrorResponse;
use crate::error::{prefix_of, shown_message, AppError, ErrorKind};
use vstd::prelude::*;

verus! {

/// The answer of a handler: a value, or a status with an error object.
pub type Reply<T> = Result<T, (u16, ErrorResponse)>;

/// A failure written out: what its kind is called, then its detail.
pub open spec fn written(e: (ErrorKind, Seq<char>)) -> Seq<char> {
    prefix_of(e.0) + e.1
}

/// Whether a status and an error object are these.
pub open spec fn reads_as(
    reply: (u16, ErrorResponse),
    status: u16,
    code: Seq<char>,
    message: Seq<char>,
) -> bool {
    reply.0 == status && reply.1.reads(code, message)
}

/// The message under which a handler reports a failure: the failure
/// written out, except for a store or internal failure, of which only a
/// fixed sentence is shown.
pub open spec fn reported(e: (ErrorKind, Seq<char>)) -> Seq<char> {
    match e.0 {
        ErrorKind::DatabaseError => shown_message(e),
        ErrorKind::InternalError => shown_message(e),
        _ => written(e),
    }
}

/// Whether a status and an error object report some failure under this
/// status and code, with the message under which that failure is
/// reported.
pub open spec fn reports_failure(reply: (u16, ErrorResponse), status: u16, code: Seq<char>) -> bool {
    exists|e: (ErrorKind, Seq<char>)| reads_as(reply, status, code, #[trigger] reported(e))
}

/// Whether an answer is the refusal with this status, code and message.
pub open spec fn refusal<T>(r: Reply<T>, status: u16, code: Seq<char>, message: Seq<char>) -> bool {
    match r {
        Ok(_) => false,
        Err(reply) => reads_as(reply, status, code, message),
    }
}

/// A refusal with this status, code and message.
pub fn refuse(status: u16, code: &str, message: &str) -> (r: (u16, ErrorResponse))
    ensures
        reads_as(r, status, code@, message@),
{
    (status, ErrorResponse::new(code, message))
}

/// A refusal with this status and code for the failure `e`.  The detail
/// of a store or internal failure is not shown.
pub fn refuse_with(status: u16, code: &str, e: &AppError) -> (r: (u16, ErrorResponse))
    ensures
        reads_as(r, status, code@, reported(e@)),
{
    let message = match e {
        AppError::DatabaseError(_) => e.shown(),
        AppError::InternalError(_) => e.shown(),
        _ => e.to_string(),
    };
    (status, ErrorResponse::new(code, message.as_str()))
}

/// A refusal with this status and code, whose message is the one shown
/// to the caller.
pub fn refuse_shown(status: u16, code: &str, e: &AppError) -> (r: (u16, ErrorResponse))
    ensures
        reads_as(r, status, code@, shown_message(e@)),
{
    let message = e.shown();
    (status, ErrorResponse::new(code, message.as_str()))
}

} // verus!
