//! The bridged transport: what this crate decides when the transfer is done
//! by a host callback.
//!
//! The caller hands the callback the request in its wire form (see
//! `Request::to_wire`) and waits. Whatever then happens is one [`Event`];
//! [`conclude`] turns it into the response or into the error of the fetch.
//! Redirects are the callback's business: nothing here follows one.

use crate::error::FetcherError;
use crate::headers::HeaderFault;
use crate::http_types::ASSURED_ENTRIES;
use crate::model::{read_response, Response};
use crate::wire;
use vstd::prelude::*;

verus! {

/// The value with which the host callback failed.
#[derive(Debug)]
pub enum Rejection {
    /// A plain text.
    Text(String),
    /// A structured value, described by the text that it converts to.
    Object(String),
}

impl Rejection {
    /// The text that the rejection carries, which may be empty.
    pub open spec fn carried(self) -> Seq<char> {
        match self {
            Rejection::Text(text) => text@,
            Rejection::Object(description) => description@,
        }
    }
}

/// The message used where a rejection carries no text.
pub open spec fn generic_failure() -> Seq<char> {
    "bridge invocation failed"@
}

/// The message for a rejection: the text it carries, or the generic message
/// where it carries none.
pub open spec fn rejection_text(rejection: Rejection) -> Seq<char> {
    if rejection.carried().len() > 0 {
        rejection.carried()
    } else {
        generic_failure()
    }
}

/// Whatever the host rejects with, plain text or structured value, the
/// message for it is not empty.
pub proof fn lemma_rejection_text(rejection: Rejection)
    ensures
        rejection_text(rejection).len() > 0,
{
    reveal_strlit("bridge invocation failed");
}

/// The error for a rejected or failed call of the host callback. Its
/// message is never empty: it is the text of the rejection, or the generic
/// message where the rejection has no text.
pub fn rejection_error(rejection: Rejection) -> (error: FetcherError)
    ensures
        error@ == rejection_text(rejection),
        error@.len() > 0,
{
    proof {
        lemma_rejection_text(rejection);
    }
    let carried = match rejection {
        Rejection::Text(text) => text,
        Rejection::Object(description) => description,
    };
    if carried.as_str().is_empty() {
        FetcherError::new("bridge invocation failed".to_owned())
    } else {
        FetcherError::new(carried)
    }
}

/// How a call through the bridge ended.
#[derive(Debug)]
pub enum Event {
    /// The request could not be put into its boundary form; the text says
    /// why.
    Unsendable(String),
    /// The callback failed as it was called.
    Threw(Rejection),
    /// The callback's pending result was rejected.
    Rejected(Rejection),
    /// The callback's result is no wire response; the text says why.
    Malformed(String),
    /// The callback's result.
    Resolved(wire::Response),
}

/// What [`conclude`] returns for an event that carries no response, and
/// `None` for one that does.
pub open spec fn failure_text(event: Event) -> Option<Seq<char>> {
    match event {
        Event::Unsendable(reason) => Some(reason@),
        Event::Threw(rejection) => Some(rejection_text(rejection)),
        Event::Rejected(rejection) => Some(rejection_text(rejection)),
        Event::Malformed(reason) => Some(reason@),
        Event::Resolved(_) => None,
    }
}

/// The outcome of a bridged fetch, given how the call ended.
///
/// Every failure becomes the one error type: a rejection by
/// [`rejection_error`], a value that could not cross the boundary with the
/// reason given. A resolved call yields the response that the wire response
/// stands for, or the error of its headers.
pub fn conclude(event: Event) -> (outcome: Result<Response, FetcherError>)
    ensures
        match event {
            Event::Resolved(wire) => match read_response(wire@) {
                Err(fault) => outcome matches Err(error) && error@ == fault.text(),
                Ok(response) => match outcome {
                    Ok(built) => built@ == response,
                    Err(error) => error@ == HeaderFault::TooMany.text() && wire.headers.len()
                        > ASSURED_ENTRIES,
                },
            },
            _ => outcome matches Err(error) && Some(error@) == failure_text(event),
        },
{
    match event {
        Event::Unsendable(reason) => Err(FetcherError::new(reason)),
        Event::Threw(rejection) => Err(rejection_error(rejection)),
        Event::Rejected(rejection) => Err(rejection_error(rejection)),
        Event::Malformed(reason) => Err(FetcherError::new(reason)),
        Event::Resolved(wire) => Response::from_wire(wire),
    }
}

} // verus!
