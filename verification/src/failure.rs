//! What went wrong, in words.

use vstd::prelude::*;

verus! {

/// The words of a failure: what it is, and what brought it about where that is
/// known.
pub struct Fault {
    pub message: Seq<char>,
    pub cause: Option<Seq<char>>,
}

/// A failure without a known cause.
pub open spec fn fault(message: Seq<char>) -> Fault {
    Fault { message, cause: None }
}

/// A failure with the words of what brought it about.
pub open spec fn fault_by(message: Seq<char>, cause: Seq<char>) -> Fault {
    Fault { message, cause: Some(cause) }
}

/// Why an input was refused.
#[derive(Debug)]
pub struct Failure {
    pub message: String,
    pub cause: Option<String>,
}

impl View for Failure {
    type V = Fault;

    open spec fn view(&self) -> Fault {
        Fault {
            message: self.message@,
            cause: match self.cause {
                Some(c) => Some(c@),
                None => None,
            },
        }
    }
}

impl Failure {
    /// A failure without a known cause.
    pub fn new(message: &str) -> (res: Failure)
        ensures
            res@ == fault(message@),
    {
        Failure { message: message.to_owned(), cause: None }
    }

    /// A failure with the words of what brought it about.
    pub fn caused_by(message: &str, cause: &str) -> (res: Failure)
        ensures
            res@ == fault_by(message@, cause@),
    {
        Failure { message: message.to_owned(), cause: Some(cause.to_owned()) }
    }
}

} // verus!
