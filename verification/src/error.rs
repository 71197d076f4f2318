//! What can go wrong on a link.

use vstd::prelude::*;
use vstd::string::StringExecFns;
use crate::text::{decimal_text, push_decimal};

verus! {

/// Which limit was exceeded.
#[derive(Clone, Copy, Debug, Eq, PartialEq, Structural)]
pub enum LimitKind {
    FrameBytes,
    NestingDepth,
    Channels,
    PendingFrames,
    ProtocolOffers,
    IdentityProofBytes,
    EventSubscribers,
}

impl LimitKind {
    /// The name of the limit.
    #[verifier::allow_in_spec]
    pub fn name(self) -> &'static str
        returns
            (match self {
                LimitKind::FrameBytes => "FrameBytes",
                LimitKind::NestingDepth => "NestingDepth",
                LimitKind::Channels => "Channels",
                LimitKind::PendingFrames => "PendingFrames",
                LimitKind::ProtocolOffers => "ProtocolOffers",
                LimitKind::IdentityProofBytes => "IdentityProofBytes",
                LimitKind::EventSubscribers => "EventSubscribers",
            }),
    {
        match self {
            LimitKind::FrameBytes => "FrameBytes",
            LimitKind::NestingDepth => "NestingDepth",
            LimitKind::Channels => "Channels",
            LimitKind::PendingFrames => "PendingFrames",
            LimitKind::ProtocolOffers => "ProtocolOffers",
            LimitKind::IdentityProofBytes => "IdentityProofBytes",
            LimitKind::EventSubscribers => "EventSubscribers",
        }
    }
}

/// What the standard library shows of a text for debugging: the text in quotation marks,
/// with some of its characters escaped.
pub uninterp spec fn quoted(text: Seq<char>) -> Seq<char>;

/// `std::fmt::Debug` of `str`, through `format`: what comes out is a function of the text
/// alone. Which characters are escaped, and how, is left unsaid.
#[verifier::external_body]
fn quote(text: &str) -> (shown: String)
    ensures
        shown@ == quoted(text@),
{
    format!("{:?}", text)
}

/// Why an operation on a link was refused.
#[derive(Clone, Debug, Eq, PartialEq)]
pub enum LinkError {
    InvalidInput(&'static str),
    InvalidState(&'static str),
    LimitExceeded { kind: LimitKind, limit: usize },
    Backpressure { channel: u32, capacity: usize },
    UnknownChannel(u32),
    ChannelCancelled(u32),
    NamespaceConflict,
    Closed,
}

impl LinkError {
    /// The message of the error, if it has one.
    #[verifier::allow_in_spec]
    pub fn message(&self) -> Option<&'static str>
        returns
            (match self {
                LinkError::InvalidInput(message) => Some(*message),
                LinkError::InvalidState(message) => Some(*message),
                _ => None,
            }),
    {
        match self {
            LinkError::InvalidInput(message) => Some(*message),
            LinkError::InvalidState(message) => Some(*message),
            _ => None,
        }
    }

    /// What is shown of the error, with its message in quotation marks.
    pub open spec fn shown(self, message: Seq<char>) -> Seq<char> {
        match self {
            LinkError::InvalidInput(_) => "InvalidInput("@ + message + ")"@,
            LinkError::InvalidState(_) => "InvalidState("@ + message + ")"@,
            LinkError::LimitExceeded { kind, limit } => "LimitExceeded { kind: "@ + kind.name()@
                + ", limit: "@ + decimal_text(limit as nat) + " }"@,
            LinkError::Backpressure { channel, capacity } => "Backpressure { channel: "@ + decimal_text(
                channel as nat,
            ) + ", capacity: "@ + decimal_text(capacity as nat) + " }"@,
            LinkError::UnknownChannel(channel) => "UnknownChannel("@ + decimal_text(channel as nat)
                + ")"@,
            LinkError::ChannelCancelled(channel) => "ChannelCancelled("@ + decimal_text(
                channel as nat,
            ) + ")"@,
            LinkError::NamespaceConflict => "NamespaceConflict"@,
            LinkError::Closed => "Closed"@,
        }
    }

    /// The text of the error, around its message in quotation marks.
    pub fn text_around(&self, message: &str) -> (text: String)
        ensures
            text@ == self.shown(message@),
    {
        let mut text = String::new();
        match self {
            LinkError::InvalidInput(_) => {
                text.append("InvalidInput(");
                text.append(message);
                text.append(")");
            },
            LinkError::InvalidState(_) => {
                text.append("InvalidState(");
                text.append(message);
                text.append(")");
            },
            LinkError::LimitExceeded { kind, limit } => {
                text.append("LimitExceeded { kind: ");
                text.append(kind.name());
                text.append(", limit: ");
                push_decimal(&mut text, *limit as u64);
                text.append(" }");
            },
            LinkError::Backpressure { channel, capacity } => {
                text.append("Backpressure { channel: ");
                push_decimal(&mut text, *channel as u64);
                text.append(", capacity: ");
                push_decimal(&mut text, *capacity as u64);
                text.append(" }");
            },
            LinkError::UnknownChannel(channel) => {
                text.append("UnknownChannel(");
                push_decimal(&mut text, *channel as u64);
                text.append(")");
            },
            LinkError::ChannelCancelled(channel) => {
                text.append("ChannelCancelled(");
                push_decimal(&mut text, *channel as u64);
                text.append(")");
            },
            LinkError::NamespaceConflict => {
                text.append("NamespaceConflict");
            },
            LinkError::Closed => {
                text.append("Closed");
            },
        }
        assert(text@ =~= self.shown(message@));
        text
    }

    /// The text that may be shown to a user.
    pub fn display_text(&self) -> (text: String)
        ensures
            text@ == self.shown(
                match self.message() {
                    Some(message) => quoted(message@),
                    None => Seq::empty(),
                },
            ),
    {
        match self.message() {
            Some(message) => self.text_around(quote(message).as_str()),
            None => {
                let text = self.text_around("");
                assert(text@ == self.shown(Seq::empty()));
                text
            },
        }
    }
}

/// Why a handshake was refused.
#[derive(Clone, Copy, Debug, Eq, PartialEq, Structural)]
pub enum HandshakeErrorKind {
    UnexpectedMessage,
    IncompatibleVersion,
    NoSharedProtocol,
    ProtocolConflict,
    PairingDisabled,
    PeerNotTrusted,
    IdentityRejected,
    LimitExceeded,
    InvalidConfirmation,
}

/// A deliberately sanitized handshake error. Secret material and backend
/// details never enter this type.
#[derive(Clone, Debug, Eq, PartialEq)]
pub struct HandshakeError {
    pub kind: HandshakeErrorKind,
    pub public_message: &'static str,
}

impl HandshakeError {
    #[verifier::allow_in_spec]
    pub fn new(kind: HandshakeErrorKind, public_message: &'static str) -> Self
        returns
            (HandshakeError { kind, public_message }),
    {
        HandshakeError { kind, public_message }
    }

    /// The text that may be shown to a user.
    pub fn display_text(&self) -> (text: String)
        ensures
            text@ == self.public_message@,
    {
        self.public_message.to_owned()
    }
}

} // verus!
