//! Identifiers, protocol versions and version ranges.

use vstd::prelude::*;
use crate::bytes::bytes_equal;
use crate::ordering::{MapKey, Position, byte_position, byte_rank, byte_rank_injective};
use crate::text::{hex_text, push_hex};

verus! {

/// The first four of `bytes` in hexadecimal, and an ellipsis.
pub fn short_identifier(bytes: &[u8]) -> (text: String)
    requires
        bytes@.len() >= 4,
    ensures
        text@ == hex_text(bytes@.subrange(0, 4)).push('\u{2026}'),
{
    let mut text = String::new();
    push_hex(&mut text, vstd::slice::slice_subrange(bytes, 0, 4));
    text.append("\u{2026}");
    proof {
        reveal_strlit("\u{2026}");
        assert("\u{2026}"@ =~= seq!['\u{2026}']);
        assert(text@ =~= hex_text(bytes@.subrange(0, 4)).push('\u{2026}'));
    }
    text
}

/// A long-lived cryptographic identity of a device.
#[derive(Clone, Copy, Debug, Eq, Hash, Ord, PartialEq, PartialOrd)]
pub struct PeerId(pub [u8; 32]);

impl View for PeerId {
    type V = Seq<u8>;

    open spec fn view(&self) -> Seq<u8> {
        self.0@
    }
}

impl PeerId {
    #[verifier::allow_in_spec]
    pub fn from_bytes(bytes: [u8; 32]) -> Self
        returns
            PeerId(bytes),
    {
        PeerId(bytes)
    }

    pub fn as_bytes(&self) -> (bytes: &[u8; 32])
        ensures
            *bytes == self.0,
            bytes@ == self@,
    {
        &self.0
    }

    /// Whether both identifiers hold the same bytes.
    pub fn same(&self, other: &Self) -> (same: bool)
        ensures
            same == (*self == *other),
            same == (self@ == other@),
    {
        let same = bytes_equal(&self.0, &other.0);
        proof {
            if same {
                assert(self.0 =~= other.0);
            }
        }
        same
    }

    /// The first four bytes in hexadecimal, and an ellipsis.
    pub fn display_text(&self) -> (text: String)
        ensures
            text@ == hex_text(self@.subrange(0, 4)).push('\u{2026}'),
    {
        short_identifier(&self.0)
    }
}

/// Ordered by its bytes.
impl MapKey for PeerId {
    open spec fn rank(v: Seq<u8>) -> Seq<int> {
        byte_rank(v)
    }

    proof fn rank_injective(a: Seq<u8>, b: Seq<u8>) {
        byte_rank_injective(a, b);
    }

    fn position(&self, other: &Self) -> (p: Position) {
        byte_position(&self.0, &other.0)
    }
}

/// One address at which a peer can be reached.
#[derive(Clone, Copy, Debug, Eq, Hash, Ord, PartialEq, PartialOrd)]
pub struct EndpointId(pub [u8; 16]);

impl View for EndpointId {
    type V = Seq<u8>;

    open spec fn view(&self) -> Seq<u8> {
        self.0@
    }
}

impl EndpointId {
    #[verifier::allow_in_spec]
    pub fn from_bytes(bytes: [u8; 16]) -> Self
        returns
            EndpointId(bytes),
    {
        EndpointId(bytes)
    }

    pub fn as_bytes(&self) -> (bytes: &[u8; 16])
        ensures
            *bytes == self.0,
            bytes@ == self@,
    {
        &self.0
    }

    /// Whether both identifiers hold the same bytes.
    pub fn same(&self, other: &Self) -> (same: bool)
        ensures
            same == (*self == *other),
            same == (self@ == other@),
    {
        let same = bytes_equal(&self.0, &other.0);
        proof {
            if same {
                assert(self.0 =~= other.0);
            }
        }
        same
    }

    /// The first four bytes in hexadecimal, and an ellipsis.
    pub fn display_text(&self) -> (text: String)
        ensures
            text@ == hex_text(self@.subrange(0, 4)).push('\u{2026}'),
    {
        short_identifier(&self.0)
    }
}

/// One connection between two endpoints.
#[derive(Clone, Copy, Debug, Eq, Hash, Ord, PartialEq, PartialOrd)]
pub struct ConnectionId(pub [u8; 16]);

impl View for ConnectionId {
    type V = Seq<u8>;

    open spec fn view(&self) -> Seq<u8> {
        self.0@
    }
}

impl ConnectionId {
    #[verifier::allow_in_spec]
    pub fn from_bytes(bytes: [u8; 16]) -> Self
        returns
            ConnectionId(bytes),
    {
        ConnectionId(bytes)
    }

    pub fn as_bytes(&self) -> (bytes: &[u8; 16])
        ensures
            *bytes == self.0,
            bytes@ == self@,
    {
        &self.0
    }

    /// Whether both identifiers hold the same bytes.
    pub fn same(&self, other: &Self) -> (same: bool)
        ensures
            same == (*self == *other),
            same == (self@ == other@),
    {
        let same = bytes_equal(&self.0, &other.0);
        proof {
            if same {
                assert(self.0 =~= other.0);
            }
        }
        same
    }

    /// The first four bytes in hexadecimal, and an ellipsis.
    pub fn display_text(&self) -> (text: String)
        ensures
            text@ == hex_text(self@.subrange(0, 4)).push('\u{2026}'),
    {
        short_identifier(&self.0)
    }
}

/// One negotiated session.
#[derive(Clone, Copy, Debug, Eq, Hash, Ord, PartialEq, PartialOrd)]
pub struct SessionId(pub [u8; 16]);

impl View for SessionId {
    type V = Seq<u8>;

    open spec fn view(&self) -> Seq<u8> {
        self.0@
    }
}

impl SessionId {
    #[verifier::allow_in_spec]
    pub fn from_bytes(bytes: [u8; 16]) -> Self
        returns
            SessionId(bytes),
    {
        SessionId(bytes)
    }

    pub fn as_bytes(&self) -> (bytes: &[u8; 16])
        ensures
            *bytes == self.0,
            bytes@ == self@,
    {
        &self.0
    }

    /// Whether both identifiers hold the same bytes.
    pub fn same(&self, other: &Self) -> (same: bool)
        ensures
            same == (*self == *other),
            same == (self@ == other@),
    {
        let same = bytes_equal(&self.0, &other.0);
        proof {
            if same {
                assert(self.0 =~= other.0);
            }
        }
        same
    }

    /// The first four bytes in hexadecimal, and an ellipsis.
    pub fn display_text(&self) -> (text: String)
        ensures
            text@ == hex_text(self@.subrange(0, 4)).push('\u{2026}'),
    {
        short_identifier(&self.0)
    }
}

/// A protocol version: the minor version counts compatible additions.
#[derive(Clone, Copy, Debug, Eq, Hash, Ord, PartialEq, PartialOrd, Structural)]
pub struct ProtocolVersion {
    pub major: u16,
    pub minor: u16,
}

impl ProtocolVersion {
    #[verifier::allow_in_spec]
    pub fn new(major: u16, minor: u16) -> Self
        returns
            (ProtocolVersion { major, minor }),
    {
        ProtocolVersion { major, minor }
    }
}

/// The versions from `minimum` up to `maximum`.
#[derive(Clone, Copy, Debug, Eq, PartialEq, Structural)]
pub struct VersionRange {
    pub minimum: ProtocolVersion,
    pub maximum: ProtocolVersion,
}

impl VersionRange {
    #[verifier::allow_in_spec]
    pub fn new(minimum: ProtocolVersion, maximum: ProtocolVersion) -> Self
        returns
            (VersionRange { minimum, maximum }),
    {
        VersionRange { minimum, maximum }
    }

    /// A range lies within one major version and is not empty.
    #[verifier::allow_in_spec]
    pub fn is_valid(self) -> bool
        returns
            self.minimum.major == self.maximum.major && self.minimum.minor <= self.maximum.minor,
    {
        self.minimum.major == self.maximum.major && self.minimum.minor <= self.maximum.minor
    }

    /// Whether `version` lies in this range, which has to be a valid one.
    pub open spec fn admits(self, version: ProtocolVersion) -> bool {
        &&& self.is_valid()
        &&& version.major == self.minimum.major
        &&& self.minimum.minor <= version.minor <= self.maximum.minor
    }

    /// The highest version that both ranges admit.
    pub open spec fn shared(self, other: VersionRange) -> Option<ProtocolVersion> {
        let top = if self.maximum.minor <= other.maximum.minor {
            self.maximum
        } else {
            other.maximum
        };
        if self.admits(top) && other.admits(top) {
            Some(top)
        } else {
            None
        }
    }

    /// Picks the highest version that both ranges admit, if there is one.
    pub fn negotiate(self, other: Self) -> (version: Option<ProtocolVersion>)
        ensures
            version == self.shared(other),
            match version {
                Some(v) => {
                    &&& self.admits(v)
                    &&& other.admits(v)
                    &&& forall|w: ProtocolVersion|
                        #[trigger] self.admits(w) && other.admits(w) ==> w.minor <= v.minor
                },
                None => forall|w: ProtocolVersion| !(#[trigger] self.admits(w) && other.admits(w)),
            },
    {
        if !self.is_valid() || !other.is_valid() || self.minimum.major != other.minimum.major {
            return None;
        }
        let minimum: u16 = if self.minimum.minor >= other.minimum.minor {
            self.minimum.minor
        } else {
            other.minimum.minor
        };
        let maximum: u16 = if self.maximum.minor <= other.maximum.minor {
            self.maximum.minor
        } else {
            other.maximum.minor
        };
        if minimum <= maximum {
            Some(ProtocolVersion::new(self.minimum.major, maximum))
        } else {
            None
        }
    }
}

/// Both sides of a negotiation arrive at the same version.
pub proof fn negotiation_is_symmetric(a: VersionRange, b: VersionRange)
    ensures
        a.shared(b) == b.shared(a),
{
}

/// Who a session is with, and over which endpoint and connection.
#[derive(Clone, Copy, Debug, Eq, PartialEq)]
pub struct Identity {
    pub peer_id: PeerId,
    pub endpoint_id: EndpointId,
    pub connection_id: ConnectionId,
}

/// Two ranges share the greatest minor version that lies in both, of the same major version,
/// and share none where none lies in both.
pub proof fn the_greatest_shared_version(a: VersionRange, b: VersionRange, other: ProtocolVersion)
    ensures
        ({
            let within = other.major == a.minimum.major && other.major == a.maximum.major && other.major
                == b.minimum.major && other.major == b.maximum.major && a.minimum.minor <= other.minor
                <= a.maximum.minor && b.minimum.minor <= other.minor <= b.maximum.minor;
            &&& within ==> (a.shared(b) matches Some(v) && v.major == other.major && other.minor
                <= v.minor)
            &&& a.shared(b) == Some(other) ==> within
            &&& a.shared(b) is Some == b.shared(a) is Some
        }),
{
}

/// What is shown of an identifier are the eight digits of its first four bytes and a mark
/// that something was left out.
pub proof fn identifiers_are_shown_by_their_beginning(bytes: &[u8])
    requires
        bytes@.len() >= 4,
    ensures
        forall|text: String| #[trigger]
            call_ensures(short_identifier, (bytes,), text) ==> {
                &&& text@.len() == 9
                &&& text@[8] == '\u{2026}'
                &&& forall|i: int|
                    0 <= i < 4 ==> {
                        &&& text@[2 * i] == crate::text::hex_digit(
                            (#[trigger] bytes@[i]) as int / 16,
                        )
                        &&& text@[2 * i + 1] == crate::text::hex_digit(bytes@[i] as int % 16)
                    }
            },
{
}

} // verus!
