//! The single failure type shared by both transports.

use vstd::prelude::*;

verus! {

/// A failed fetch: one human-readable message, whatever produced it.
///
/// The message is fixed when the error is built and never changes afterwards.
#[derive(Debug)]
pub struct FetcherError {
    message: String,
}

impl View for FetcherError {
    type V = Seq<char>;

    closed spec fn view(&self) -> Seq<char> {
        self.message@
    }
}

impl FetcherError {
    /// Wraps `message` as an error.
    pub fn new(message: String) -> (error: FetcherError)
        ensures
            error@ == message@,
    {
        FetcherError { message }
    }

    /// The message carried by this error, suitable for display or logging.
    pub fn message(&self) -> (text: String)
        ensures
            text@ == self@,
    {
        self.message.clone()
    }
}

} // verus!
