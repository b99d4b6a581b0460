//! The ways in which a poller operation fails.

use vstd::prelude::*;

verus! {

/// Why an operation on a poller failed.
#[derive(Clone, Copy, Debug, PartialEq, Eq, Structural)]
pub enum Error {
    /// The waitable object is already registered for a requested direction.
    AlreadyExists,
    /// The operation cannot go through now.
    WouldBlock,
    /// The requested delivery mode is not supported.
    Unsupported,
}

impl Error {
    /// The text that explains an unsupported request.
    /// The other errors need no explanation.
    pub fn message(&self) -> (text: Option<&'static str>)
        ensures
            (text is Some) == (*self == Error::Unsupported),
            text is Some ==> text.unwrap()@
                == "edge-triggered I/O events are not supported in poll()"@,
    {
        match self {
            Error::Unsupported => Some("edge-triggered I/O events are not supported in poll()"),
            _ => None,
        }
    }
}

} // verus!
