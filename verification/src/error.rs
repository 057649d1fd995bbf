//! The error of a request that cannot be served.

use vstd::prelude::*;

verus! {

/// An error with a message for the log.
#[derive(Debug)]
pub struct Error {
    pub message: String,
}

impl View for Error {
    type V = Seq<char>;

    /// The message.
    open spec fn view(&self) -> Seq<char> {
        self.message@
    }
}

impl Error {
    pub fn new(message: &str) -> (error: Error)
        ensures
            error@ == message@,
    {
        Error { message: message.to_owned() }
    }

    pub fn message(&self) -> (message: &str)
        ensures
            message@ == self@,
    {
        self.message.as_str()
    }
}

}
