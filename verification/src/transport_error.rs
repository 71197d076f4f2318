//! Errors of transports.

use vstd::prelude::*;

verus! {

#[derive(Clone, Copy, Debug, Eq, PartialEq, Structural)]
pub enum TransportErrorKind {
    WouldBlock,
    TimedOut,
    Cancelled,
    Closed,
    Aborted,
    MessageTooLarge,
    Unsupported,
    AddressInUse,
    Other,
}

/// Why a transport refused or failed.
#[derive(Clone, Debug, Eq, PartialEq)]
pub struct TransportError {
    pub kind: TransportErrorKind,
    pub public_message: &'static str,
}

impl TransportError {
    #[verifier::allow_in_spec]
    pub fn new(kind: TransportErrorKind, public_message: &'static str) -> Self
        returns
            (TransportError { kind, public_message }),
    {
        TransportError { kind, public_message }
    }

    /// The text that may be shown to a user.
    pub fn display_text(&self) -> (text: String)
        ensures
            text@ == self.public_message@,
    {
        self.public_message.to_owned()
    }

    /// A copy of the error.
    pub fn duplicate(&self) -> (copy: Self)
        ensures
            copy == *self,
    {
        TransportError { kind: self.kind, public_message: self.public_message }
    }
}

} // verus!
