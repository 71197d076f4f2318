//! Typed control frames: what their bytes mean.
//!
//! A frame is the magic number, the wire version, the opcode, the flags and the
//! request as big-endian integers, whether there is a session and which, the
//! length of the payload, and the payload.

use vstd::prelude::*;
use vstd::utf8::{decode_utf8, encode_utf8, valid_utf8};
use crate::bytes::{be16, be32, be64, value16, value32, value64};
use crate::channel::ChannelId;
use crate::control::{
    AcceptChannel, BeginDrain, CloseChannel, CloseSession, ControlEnvelopeView, ControlIdentityMode,
    ErrorCode, ErrorDomain, HelloControl, LinkControlError, LinkControlOpcode, OpenChannel, PayloadView,
    Ping, Pong, RequestId, Retryability, TYPED_CONTROL_WIRE_VERSION, known_flag_bits, opcode_of,
};
use crate::identity::{
    ConnectionId, EndpointId, Identity, PeerId, ProtocolVersion, SessionId, VersionRange,
};
use crate::negotiation::{AuthPath, OfferView, SelectionView};
use crate::protocol_ids::{
    CapabilityView, DebugIdentityView, LinkCapabilities, MAX_PROTOCOL_CAPABILITY_WORDS, ProtocolChannelId,
    ProtocolStableId, SchemaFingerprint, SchemaId, SchemaRef, SchemaRevision,
};

verus! {

pub const MAX_CONTROL_PAYLOAD_BYTES: usize = 65536;

pub const MAX_CONTROL_PROTOCOLS: usize = 32;

pub const MAX_CONTROL_DEBUG_COMPONENT_BYTES: usize = 128;

/// The bytes `MLCT`.
pub const CONTROL_MAGIC: u32 = 0x4d4c4354;

pub const CONTROL_HEADER_BYTES: usize = 39;

/// The message of an error that came over the wire.
pub const REMOTE_ERROR_MESSAGE: &'static str = "remote returned a structured control error";

/// What a parser makes of some bytes: a value and the bytes behind it, or an error.
pub type Parsed<T> = Result<(T, Seq<u8>), LinkControlError>;

// ---------------------------------------------------------------------------
// Parsers: what bytes mean.

/// The array with these elements.
pub open spec fn array16(s: Seq<u8>) -> [u8; 16] {
    choose|a: [u8; 16]| a@ == s
}

/// The array with these elements.
pub open spec fn array32(s: Seq<u8>) -> [u8; 32] {
    choose|a: [u8; 32]| a@ == s
}

pub proof fn lemma_array16(a: [u8; 16])
    ensures
        array16(a@) == a,
{
    let b = array16(a@);
    assert(b@ == a@);
    assert(b =~= a);
}

pub proof fn lemma_array32(a: [u8; 32])
    ensures
        array32(a@) == a,
{
    let b = array32(a@);
    assert(b@ == a@);
    assert(b =~= a);
}

/// The first `n` bytes.
pub open spec fn parse_bytes(s: Seq<u8>, n: int) -> Parsed<Seq<u8>> {
    if s.len() < n {
        Err(LinkControlError::truncated())
    } else {
        Ok((s.subrange(0, n), s.subrange(n, s.len() as int)))
    }
}

pub open spec fn parse_u8(s: Seq<u8>) -> Parsed<u8> {
    match parse_bytes(s, 1) {
        Ok((b, t)) => Ok((b[0], t)),
        Err(e) => Err(e),
    }
}

pub open spec fn parse_u16(s: Seq<u8>) -> Parsed<u16> {
    match parse_bytes(s, 2) {
        Ok((b, t)) => Ok((value16(b), t)),
        Err(e) => Err(e),
    }
}

pub open spec fn parse_u32(s: Seq<u8>) -> Parsed<u32> {
    match parse_bytes(s, 4) {
        Ok((b, t)) => Ok((value32(b), t)),
        Err(e) => Err(e),
    }
}

pub open spec fn parse_u64(s: Seq<u8>) -> Parsed<u64> {
    match parse_bytes(s, 8) {
        Ok((b, t)) => Ok((value64(b), t)),
        Err(e) => Err(e),
    }
}

pub open spec fn parse_16(s: Seq<u8>) -> Parsed<[u8; 16]> {
    match parse_bytes(s, 16) {
        Ok((b, t)) => Ok((array16(b), t)),
        Err(e) => Err(e),
    }
}

pub open spec fn parse_32(s: Seq<u8>) -> Parsed<[u8; 32]> {
    match parse_bytes(s, 32) {
        Ok((b, t)) => Ok((array32(b), t)),
        Err(e) => Err(e),
    }
}

/// A number in one byte that must not exceed `maximum`.
pub open spec fn parse_count(s: Seq<u8>, maximum: int) -> Parsed<u8> {
    match parse_u8(s) {
        Ok((n, t)) => if n > maximum {
            Err(LinkControlError::limit_exceeded())
        } else {
            Ok((n, t))
        },
        Err(e) => Err(e),
    }
}

pub open spec fn parse_version(s: Seq<u8>) -> Parsed<ProtocolVersion> {
    match parse_u16(s) {
        Ok((major, s1)) => match parse_u16(s1) {
            Ok((minor, t)) => Ok((ProtocolVersion { major, minor }, t)),
            Err(e) => Err(e),
        },
        Err(e) => Err(e),
    }
}

/// Two versions that make a valid range.
pub open spec fn parse_version_range(s: Seq<u8>) -> Parsed<VersionRange> {
    match parse_version(s) {
        Ok((minimum, s1)) => match parse_version(s1) {
            Ok((maximum, t)) => if VersionRange::new(minimum, maximum).is_valid() {
                Ok((VersionRange { minimum, maximum }, t))
            } else {
                Err(LinkControlError::invalid_payload())
            },
            Err(e) => Err(e),
        },
        Err(e) => Err(e),
    }
}

pub open spec fn parse_protocol_id(s: Seq<u8>) -> Parsed<ProtocolStableId> {
    match parse_16(s) {
        Ok((b, t)) => Ok((ProtocolStableId(b), t)),
        Err(e) => Err(e),
    }
}

/// A schema, whose revision is not zero.
pub open spec fn parse_schema(s: Seq<u8>) -> Parsed<SchemaRef> {
    match parse_16(s) {
        Ok((id, s1)) => match parse_u32(s1) {
            Ok((revision, s2)) => match parse_32(s2) {
                Ok((fingerprint, t)) => if revision == 0 {
                    Err(LinkControlError::invalid_payload())
                } else {
                    Ok(
                        (
                            SchemaRef {
                                id: SchemaId(id),
                                revision: SchemaRevision(revision),
                                fingerprint: SchemaFingerprint(fingerprint),
                            },
                            t,
                        ),
                    )
                },
                Err(e) => Err(e),
            },
            Err(e) => Err(e),
        },
        Err(e) => Err(e),
    }
}

/// `n` words.
pub open spec fn parse_words(s: Seq<u8>, n: nat) -> Parsed<Seq<u64>>
    decreases n,
{
    if n == 0 {
        Ok((Seq::empty(), s))
    } else {
        match parse_words(s, (n - 1) as nat) {
            Ok((words, s1)) => match parse_u64(s1) {
                Ok((word, t)) => Ok((words.push(word), t)),
                Err(e) => Err(e),
            },
            Err(e) => Err(e),
        }
    }
}

/// A protocol, a number of words, and that many words.
pub open spec fn parse_capabilities(s: Seq<u8>) -> Parsed<CapabilityView> {
    match parse_protocol_id(s) {
        Ok((protocol_id, s1)) => match parse_count(s1, MAX_PROTOCOL_CAPABILITY_WORDS as int) {
            Ok((n, s2)) => match parse_words(s2, n as nat) {
                Ok((words, t)) => Ok((CapabilityView { protocol_id, words }, t)),
                Err(e) => Err(e),
            },
            Err(e) => Err(e),
        },
        Err(e) => Err(e),
    }
}

/// Text of 1 to 128 bytes behind its length.
pub open spec fn parse_text(s: Seq<u8>) -> Parsed<Seq<char>> {
    match parse_u16(s) {
        Ok((n, s1)) => if n == 0 || n > MAX_CONTROL_DEBUG_COMPONENT_BYTES {
            Err(LinkControlError::limit_exceeded())
        } else {
            match parse_bytes(s1, n as int) {
                Ok((b, t)) => if valid_utf8(b) {
                    Ok((decode_utf8(b), t))
                } else {
                    Err(LinkControlError::invalid_payload())
                },
                Err(e) => Err(e),
            }
        },
        Err(e) => Err(e),
    }
}

/// Nothing, or an authority and a name.
pub open spec fn parse_debug_identity(s: Seq<u8>) -> Parsed<Option<DebugIdentityView>> {
    match parse_u8(s) {
        Ok((present, s1)) => if present == 0 {
            Ok((None, s1))
        } else if present == 1 {
            match parse_text(s1) {
                Ok((authority, s2)) => match parse_text(s2) {
                    Ok((name, t)) => Ok((Some(DebugIdentityView { authority, name }), t)),
                    Err(e) => Err(e),
                },
                Err(e) => Err(e),
            }
        } else {
            Err(LinkControlError::invalid_payload())
        },
        Err(e) => Err(e),
    }
}

/// Whether a spelling is canonical and stands for the identity it comes with.
pub open spec fn spelling_agrees(identity: Option<DebugIdentityView>, id: ProtocolStableId) -> bool {
    identity matches Some(i) ==> i.canonical() && i.identity() == id@
}

/// Whether an offer of this row is of the protocol.
pub open spec fn offered(offers: Seq<OfferView>, id: ProtocolStableId) -> bool {
    exists|i: int| 0 <= i < offers.len() && (#[trigger] offers[i]).stable_id == id
}

/// Whether a selection of this row is of the protocol.
pub open spec fn selected(selections: Seq<SelectionView>, id: ProtocolStableId) -> bool {
    exists|i: int| 0 <= i < selections.len() && (#[trigger] selections[i]).stable_id == id
}

/// The next offer of a row that starts with `earlier`.
pub open spec fn parse_offer(earlier: Seq<OfferView>, s: Seq<u8>) -> Parsed<OfferView> {
    match parse_protocol_id(s) {
        Ok((stable_id, s1)) => match parse_debug_identity(s1) {
            Ok((debug_identity, s2)) => match parse_version_range(s2) {
                Ok((versions, s3)) => match parse_schema(s3) {
                    Ok((schema, s4)) => match parse_capabilities(s4) {
                        Ok((capabilities, t)) => if offered(earlier, stable_id)
                            || capabilities.protocol_id != stable_id || !spelling_agrees(
                            debug_identity,
                            stable_id,
                        ) {
                            Err(LinkControlError::invalid_payload())
                        } else {
                            Ok(
                                (
                                    OfferView {
                                        stable_id,
                                        debug_identity,
                                        versions,
                                        schema,
                                        capabilities,
                                    },
                                    t,
                                ),
                            )
                        },
                        Err(e) => Err(e),
                    },
                    Err(e) => Err(e),
                },
                Err(e) => Err(e),
            },
            Err(e) => Err(e),
        },
        Err(e) => Err(e),
    }
}

/// `n` offers of different protocols.
pub open spec fn parse_offers(s: Seq<u8>, n: nat) -> Parsed<Seq<OfferView>>
    decreases n,
{
    if n == 0 {
        Ok((Seq::empty(), s))
    } else {
        match parse_offers(s, (n - 1) as nat) {
            Ok((offers, s1)) => match parse_offer(offers, s1) {
                Ok((offer, t)) => Ok((offers.push(offer), t)),
                Err(e) => Err(e),
            },
            Err(e) => Err(e),
        }
    }
}

/// The next selection of a row that starts with `earlier`.
pub open spec fn parse_selection(earlier: Seq<SelectionView>, s: Seq<u8>) -> Parsed<SelectionView> {
    match parse_protocol_id(s) {
        Ok((stable_id, s1)) => match parse_version(s1) {
            Ok((version, s2)) => match parse_schema(s2) {
                Ok((schema, s3)) => match parse_capabilities(s3) {
                    Ok((capabilities, t)) => if selected(earlier, stable_id)
                        || capabilities.protocol_id != stable_id {
                        Err(LinkControlError::invalid_payload())
                    } else {
                        Ok((SelectionView { stable_id, version, schema, capabilities }, t))
                    },
                    Err(e) => Err(e),
                },
                Err(e) => Err(e),
            },
            Err(e) => Err(e),
        },
        Err(e) => Err(e),
    }
}

/// `n` selections of different protocols.
pub open spec fn parse_selections(s: Seq<u8>, n: nat) -> Parsed<Seq<SelectionView>>
    decreases n,
{
    if n == 0 {
        Ok((Seq::empty(), s))
    } else {
        match parse_selections(s, (n - 1) as nat) {
            Ok((selections, s1)) => match parse_selection(selections, s1) {
                Ok((selection, t)) => Ok((selections.push(selection), t)),
                Err(e) => Err(e),
            },
            Err(e) => Err(e),
        }
    }
}

pub open spec fn parse_identity(s: Seq<u8>) -> Parsed<Identity> {
    match parse_32(s) {
        Ok((peer, s1)) => match parse_16(s1) {
            Ok((endpoint, s2)) => match parse_16(s2) {
                Ok((connection, t)) => Ok(
                    (
                        Identity {
                            peer_id: PeerId(peer),
                            endpoint_id: EndpointId(endpoint),
                            connection_id: ConnectionId(connection),
                        },
                        t,
                    ),
                ),
                Err(e) => Err(e),
            },
            Err(e) => Err(e),
        },
        Err(e) => Err(e),
    }
}

pub open spec fn auth_of(code: u8) -> Result<AuthPath, LinkControlError> {
    if code == 0 {
        Ok(AuthPath::FirstPairing)
    } else if code == 1 {
        Ok(AuthPath::TrustedReconnect)
    } else {
        Err(LinkControlError::invalid_payload())
    }
}

pub open spec fn parse_hello(s: Seq<u8>) -> Parsed<HelloControl> {
    match parse_identity(s) {
        Ok((identity, s1)) => match parse_version_range(s1) {
            Ok((link_versions, s2)) => match parse_u64(s2) {
                Ok((bits, s3)) => match parse_u8(s3) {
                    Ok((code, t)) => match auth_of(code) {
                        Ok(requested_auth) => Ok(
                            (
                                HelloControl {
                                    identity,
                                    link_versions,
                                    link_capabilities: LinkCapabilities(bits),
                                    requested_auth,
                                },
                                t,
                            ),
                        ),
                        Err(e) => Err(e),
                    },
                    Err(e) => Err(e),
                },
                Err(e) => Err(e),
            },
            Err(e) => Err(e),
        },
        Err(e) => Err(e),
    }
}

/// A request for a channel; no number in it is zero.
pub open spec fn parse_open(s: Seq<u8>) -> Parsed<OpenChannel> {
    match parse_protocol_id(s) {
        Ok((protocol_id, s1)) => match parse_u16(s1) {
            Ok((channel, s2)) => match parse_u32(s2) {
                Ok((session_channel, s3)) => match parse_u32(s3) {
                    Ok((capacity, t)) => if channel == 0 || session_channel == 0 || capacity == 0 {
                        Err(LinkControlError::invalid_payload())
                    } else {
                        Ok(
                            (
                                OpenChannel {
                                    protocol_id,
                                    protocol_channel_id: ProtocolChannelId(channel),
                                    requested_session_channel_id: ChannelId(session_channel),
                                    capacity,
                                },
                                t,
                            ),
                        )
                    },
                    Err(e) => Err(e),
                },
                Err(e) => Err(e),
            },
            Err(e) => Err(e),
        },
        Err(e) => Err(e),
    }
}

/// A grant of a channel; no number in it is zero.
pub open spec fn parse_accept(s: Seq<u8>) -> Parsed<AcceptChannel> {
    match parse_protocol_id(s) {
        Ok((protocol_id, s1)) => match parse_u16(s1) {
            Ok((channel, s2)) => match parse_u32(s2) {
                Ok((session_channel, t)) => if channel == 0 || session_channel == 0 {
                    Err(LinkControlError::invalid_payload())
                } else {
                    Ok(
                        (
                            AcceptChannel {
                                protocol_id,
                                protocol_channel_id: ProtocolChannelId(channel),
                                session_channel_id: ChannelId(session_channel),
                            },
                            t,
                        ),
                    )
                },
                Err(e) => Err(e),
            },
            Err(e) => Err(e),
        },
        Err(e) => Err(e),
    }
}

pub open spec fn domain_code(domain: ErrorDomain) -> u8 {
    match domain {
        ErrorDomain::Control => 0,
        ErrorDomain::Protocol => 1,
        ErrorDomain::Channel => 2,
        ErrorDomain::Security => 3,
        ErrorDomain::Resource => 4,
    }
}

pub open spec fn domain_of(code: u8) -> Result<ErrorDomain, LinkControlError> {
    if code == 0 {
        Ok(ErrorDomain::Control)
    } else if code == 1 {
        Ok(ErrorDomain::Protocol)
    } else if code == 2 {
        Ok(ErrorDomain::Channel)
    } else if code == 3 {
        Ok(ErrorDomain::Security)
    } else if code == 4 {
        Ok(ErrorDomain::Resource)
    } else {
        Err(LinkControlError::invalid_payload())
    }
}

pub open spec fn retry_code(retryability: Retryability) -> u8 {
    match retryability {
        Retryability::Never => 0,
        Retryability::RetryAfterBackoff => 1,
        Retryability::Reconnect => 2,
    }
}

pub open spec fn retry_of(code: u8) -> Result<Retryability, LinkControlError> {
    if code == 0 {
        Ok(Retryability::Never)
    } else if code == 1 {
        Ok(Retryability::RetryAfterBackoff)
    } else if code == 2 {
        Ok(Retryability::Reconnect)
    } else {
        Err(LinkControlError::invalid_payload())
    }
}

/// The operation that an error is about: all ones stand for none.
pub open spec fn operation_of(code: u16) -> Result<Option<LinkControlOpcode>, LinkControlError> {
    if code == 0xffff {
        Ok(None)
    } else {
        match opcode_of(code) {
            Ok(opcode) => Ok(Some(opcode)),
            Err(e) => Err(e),
        }
    }
}

pub open spec fn operation_code(operation: Option<LinkControlOpcode>) -> u16 {
    match operation {
        Some(opcode) => opcode.code(),
        None => 0xffff,
    }
}

/// An error; the wire does not carry its message.
pub open spec fn parse_error(s: Seq<u8>) -> Parsed<LinkControlError> {
    match parse_u8(s) {
        Ok((d, s1)) => match domain_of(d) {
            Ok(domain) => match parse_u16(s1) {
                Ok((code, s2)) => match parse_u16(s2) {
                    Ok((o, s3)) => match operation_of(o) {
                        Ok(operation) => match parse_u8(s3) {
                            Ok((r, t)) => match retry_of(r) {
                                Ok(retryability) => Ok(
                                    (
                                        LinkControlError {
                                            domain,
                                            code: ErrorCode(code),
                                            operation,
                                            retryability,
                                            public_message: REMOTE_ERROR_MESSAGE,
                                        },
                                        t,
                                    ),
                                ),
                                Err(e) => Err(e),
                            },
                            Err(e) => Err(e),
                        },
                        Err(e) => Err(e),
                    },
                    Err(e) => Err(e),
                },
                Err(e) => Err(e),
            },
            Err(e) => Err(e),
        },
        Err(e) => Err(e),
    }
}

pub open spec fn parse_close_channel(s: Seq<u8>) -> Parsed<CloseChannel> {
    match parse_u32(s) {
        Ok((channel, t)) => if channel == 0 {
            Err(LinkControlError::invalid_payload())
        } else {
            Ok((CloseChannel { session_channel_id: ChannelId(channel) }, t))
        },
        Err(e) => Err(e),
    }
}

/// A number of offers, and that many offers.
pub open spec fn parse_offer_row(s: Seq<u8>) -> Parsed<Seq<OfferView>> {
    match parse_count(s, MAX_CONTROL_PROTOCOLS as int) {
        Ok((n, s1)) => parse_offers(s1, n as nat),
        Err(e) => Err(e),
    }
}

/// A number of selections, and that many selections.
pub open spec fn parse_selection_row(s: Seq<u8>) -> Parsed<Seq<SelectionView>> {
    match parse_count(s, MAX_CONTROL_PROTOCOLS as int) {
        Ok((n, s1)) => parse_selections(s1, n as nat),
        Err(e) => Err(e),
    }
}

/// The payload that goes with an opcode.
pub open spec fn parse_payload(opcode: LinkControlOpcode, s: Seq<u8>) -> Parsed<PayloadView> {
    match opcode {
        LinkControlOpcode::Hello => match parse_hello(s) {
            Ok((v, t)) => Ok((PayloadView::Hello(v), t)),
            Err(e) => Err(e),
        },
        LinkControlOpcode::ProtocolOffer => match parse_offer_row(s) {
            Ok((v, t)) => Ok((PayloadView::OfferProtocols(v), t)),
            Err(e) => Err(e),
        },
        LinkControlOpcode::ProtocolSelect => match parse_selection_row(s) {
            Ok((v, t)) => Ok((PayloadView::SelectProtocols(v), t)),
            Err(e) => Err(e),
        },
        LinkControlOpcode::OpenChannel => match parse_open(s) {
            Ok((v, t)) => Ok((PayloadView::OpenChannel(v), t)),
            Err(e) => Err(e),
        },
        LinkControlOpcode::ChannelAccepted => match parse_accept(s) {
            Ok((v, t)) => Ok((PayloadView::AcceptChannel(v), t)),
            Err(e) => Err(e),
        },
        LinkControlOpcode::CloseChannel => match parse_close_channel(s) {
            Ok((v, t)) => Ok((PayloadView::CloseChannel(v), t)),
            Err(e) => Err(e),
        },
        LinkControlOpcode::Ping => match parse_u64(s) {
            Ok((nonce, t)) => Ok((PayloadView::Ping(Ping { nonce }), t)),
            Err(e) => Err(e),
        },
        LinkControlOpcode::Pong => match parse_u64(s) {
            Ok((nonce, t)) => Ok((PayloadView::Pong(Pong { nonce }), t)),
            Err(e) => Err(e),
        },
        LinkControlOpcode::BeginDrain => match parse_u32(s) {
            Ok((deadline_millis, t)) => Ok((PayloadView::BeginDrain(BeginDrain { deadline_millis }), t)),
            Err(e) => Err(e),
        },
        LinkControlOpcode::CloseSession => match parse_u16(s) {
            Ok((reason_code, t)) => Ok((PayloadView::CloseSession(CloseSession { reason_code }), t)),
            Err(e) => Err(e),
        },
        LinkControlOpcode::Error => match parse_error(s) {
            Ok((v, t)) => Ok((PayloadView::Error(v), t)),
            Err(e) => Err(e),
        },
    }
}

/// Whether there is a session, and which.
pub open spec fn parse_session(s: Seq<u8>) -> Parsed<Option<SessionId>> {
    match parse_u8(s) {
        Ok((present, s1)) => match parse_16(s1) {
            Ok((id, t)) => if present == 0 && id@ == zeros() {
                Ok((None, t))
            } else if present == 1 {
                Ok((Some(SessionId(id)), t))
            } else {
                Err(LinkControlError::invalid_payload())
            },
            Err(e) => Err(e),
        },
        Err(e) => Err(e),
    }
}

/// Sixteen zero bytes.
pub open spec fn zeros() -> Seq<u8> {
    Seq::new(16, |i: int| 0u8)
}

/// The payload behind its length; nothing may follow it.
pub open spec fn parse_body(opcode: LinkControlOpcode, s: Seq<u8>) -> Result<PayloadView, LinkControlError> {
    match parse_u32(s) {
        Ok((n, body)) => if n > MAX_CONTROL_PAYLOAD_BYTES {
            Err(LinkControlError::limit_exceeded())
        } else if body.len() < n {
            Err(LinkControlError::truncated())
        } else if body.len() != n {
            Err(LinkControlError::trailing_bytes())
        } else {
            match parse_payload(opcode, body) {
                Ok((payload, rest)) => if rest.len() != 0 {
                    Err(LinkControlError::trailing_bytes())
                } else {
                    Ok(payload)
                },
                Err(e) => Err(e),
            }
        },
        Err(e) => Err(e),
    }
}

/// The frame behind its magic number, version and opcode.
pub open spec fn parse_tail(opcode: LinkControlOpcode, s: Seq<u8>) -> Result<
    ControlEnvelopeView,
    LinkControlError,
> {
    match parse_u16(s) {
        Ok((flags, s1)) => if !known_flag_bits(flags) {
            Err(LinkControlError::invalid_payload())
        } else {
            match parse_u64(s1) {
                Ok((request, s2)) => match parse_session(s2) {
                    Ok((session_id, s3)) => match parse_body(opcode, s3) {
                        Ok(payload) => Ok(
                            ControlEnvelopeView {
                                wire_version: TYPED_CONTROL_WIRE_VERSION,
                                opcode,
                                request_id: RequestId(request),
                                session_id,
                                flags,
                                payload,
                            },
                        ),
                        Err(e) => Err(e),
                    },
                    Err(e) => Err(e),
                },
                Err(e) => Err(e),
            }
        },
        Err(e) => Err(e),
    }
}

/// What a typed control frame means.
pub open spec fn parse_envelope(wire: Seq<u8>) -> Result<ControlEnvelopeView, LinkControlError> {
    if wire.len() < CONTROL_HEADER_BYTES {
        Err(LinkControlError::truncated())
    } else {
        match parse_u32(wire) {
            Ok((magic, s1)) => if magic != CONTROL_MAGIC {
                Err(LinkControlError::invalid_payload())
            } else {
                match parse_u16(s1) {
                    Ok((version, s2)) => if version != TYPED_CONTROL_WIRE_VERSION {
                        Err(LinkControlError::unsupported_version())
                    } else {
                        match parse_u16(s2) {
                            Ok((code, s3)) => match opcode_of(code) {
                                Ok(opcode) => parse_tail(opcode, s3),
                                Err(e) => Err(e),
                            },
                            Err(e) => Err(e),
                        }
                    },
                    Err(e) => Err(e),
                }
            },
            Err(e) => Err(e),
        }
    }
}

// ---------------------------------------------------------------------------
// What a frame is on the wire.

pub open spec fn version_bytes(v: ProtocolVersion) -> Seq<u8> {
    be16(v.major) + be16(v.minor)
}

pub open spec fn range_bytes(v: VersionRange) -> Seq<u8> {
    version_bytes(v.minimum) + version_bytes(v.maximum)
}

pub open spec fn schema_bytes(v: SchemaRef) -> Seq<u8> {
    v.id@ + be32(v.revision.0) + v.fingerprint@
}

pub open spec fn words_bytes(words: Seq<u64>) -> Seq<u8>
    decreases words.len(),
{
    if words.len() == 0 {
        Seq::empty()
    } else {
        words_bytes(words.drop_last()) + be64(words.last())
    }
}

pub open spec fn capability_bytes(v: CapabilityView) -> Seq<u8> {
    v.protocol_id@ + seq![v.words.len() as u8] + words_bytes(v.words)
}

pub open spec fn text_bytes(text: Seq<char>) -> Seq<u8> {
    be16(encode_utf8(text).len() as u16) + encode_utf8(text)
}

pub open spec fn debug_identity_bytes(v: Option<DebugIdentityView>) -> Seq<u8> {
    match v {
        Some(i) => seq![1u8] + text_bytes(i.authority) + text_bytes(i.name),
        None => seq![0u8],
    }
}

pub open spec fn offer_bytes(v: OfferView) -> Seq<u8> {
    v.stable_id@ + debug_identity_bytes(v.debug_identity) + range_bytes(v.versions) + schema_bytes(v.schema)
        + capability_bytes(v.capabilities)
}

pub open spec fn offers_bytes(offers: Seq<OfferView>) -> Seq<u8>
    decreases offers.len(),
{
    if offers.len() == 0 {
        Seq::empty()
    } else {
        offers_bytes(offers.drop_last()) + offer_bytes(offers.last())
    }
}

pub open spec fn selection_bytes(v: SelectionView) -> Seq<u8> {
    v.stable_id@ + version_bytes(v.version) + schema_bytes(v.schema) + capability_bytes(v.capabilities)
}

pub open spec fn selections_bytes(selections: Seq<SelectionView>) -> Seq<u8>
    decreases selections.len(),
{
    if selections.len() == 0 {
        Seq::empty()
    } else {
        selections_bytes(selections.drop_last()) + selection_bytes(selections.last())
    }
}

pub open spec fn auth_code(path: AuthPath) -> u8 {
    match path {
        AuthPath::FirstPairing => 0,
        AuthPath::TrustedReconnect => 1,
    }
}

pub open spec fn identity_bytes(v: Identity) -> Seq<u8> {
    v.peer_id@ + v.endpoint_id@ + v.connection_id@
}

pub open spec fn hello_bytes(v: HelloControl) -> Seq<u8> {
    identity_bytes(v.identity) + range_bytes(v.link_versions) + be64(v.link_capabilities.0) + seq![
        auth_code(v.requested_auth),
    ]
}

pub open spec fn open_bytes(v: OpenChannel) -> Seq<u8> {
    v.protocol_id@ + be16(v.protocol_channel_id.0) + be32(v.requested_session_channel_id.0) + be32(
        v.capacity,
    )
}

pub open spec fn accept_bytes(v: AcceptChannel) -> Seq<u8> {
    v.protocol_id@ + be16(v.protocol_channel_id.0) + be32(v.session_channel_id.0)
}

pub open spec fn error_bytes(v: LinkControlError) -> Seq<u8> {
    seq![domain_code(v.domain)] + be16(v.code.0) + be16(operation_code(v.operation)) + seq![
        retry_code(v.retryability),
    ]
}

/// The payload on the wire.
pub open spec fn payload_bytes(payload: PayloadView) -> Seq<u8> {
    match payload {
        PayloadView::Hello(v) => hello_bytes(v),
        PayloadView::OfferProtocols(v) => seq![v.len() as u8] + offers_bytes(v),
        PayloadView::SelectProtocols(v) => seq![v.len() as u8] + selections_bytes(v),
        PayloadView::OpenChannel(v) => open_bytes(v),
        PayloadView::AcceptChannel(v) => accept_bytes(v),
        PayloadView::CloseChannel(v) => be32(v.session_channel_id.0),
        PayloadView::Ping(v) => be64(v.nonce),
        PayloadView::Pong(v) => be64(v.nonce),
        PayloadView::BeginDrain(v) => be32(v.deadline_millis),
        PayloadView::CloseSession(v) => be16(v.reason_code),
        PayloadView::Error(v) => error_bytes(v),
    }
}

pub open spec fn session_bytes(v: Option<SessionId>) -> Seq<u8> {
    match v {
        Some(id) => seq![1u8] + id@,
        None => seq![0u8] + zeros(),
    }
}

/// The header before the length of the payload.
pub open spec fn header_bytes(v: ControlEnvelopeView) -> Seq<u8> {
    be32(CONTROL_MAGIC) + be16(v.wire_version) + be16(v.opcode.code()) + be16(v.flags) + be64(
        v.request_id.0,
    ) + session_bytes(v.session_id)
}

/// The frame on the wire.
pub open spec fn envelope_bytes(v: ControlEnvelopeView) -> Seq<u8> {
    header_bytes(v) + be32(payload_bytes(v.payload).len() as u32) + payload_bytes(v.payload)
}

/// Whether a text can be written: it has 1 to 128 bytes.
pub open spec fn text_fits(text: Seq<char>) -> bool {
    0 < encode_utf8(text).len() <= MAX_CONTROL_DEBUG_COMPONENT_BYTES
}

pub open spec fn debug_identity_fits(v: Option<DebugIdentityView>) -> bool {
    v matches Some(i) ==> text_fits(i.authority) && text_fits(i.name)
}

/// Why an offer behind `earlier` cannot be written.
pub open spec fn offer_fault(earlier: Seq<OfferView>, v: OfferView) -> Option<LinkControlError> {
    if offered(earlier, v.stable_id) || !v.versions.is_valid() || v.schema.revision.0 == 0
        || v.capabilities.protocol_id != v.stable_id || !spelling_agrees(v.debug_identity, v.stable_id) {
        Some(LinkControlError::invalid_payload())
    } else if !debug_identity_fits(v.debug_identity) || v.capabilities.words.len()
        > MAX_PROTOCOL_CAPABILITY_WORDS {
        Some(LinkControlError::limit_exceeded())
    } else {
        None
    }
}

/// Why a row of offers cannot be written: the fault of the first that has one.
pub open spec fn offers_fault(offers: Seq<OfferView>) -> Option<LinkControlError>
    decreases offers.len(),
{
    if offers.len() == 0 {
        None
    } else {
        match offers_fault(offers.drop_last()) {
            Some(e) => Some(e),
            None => offer_fault(offers.drop_last(), offers.last()),
        }
    }
}

/// Why a selection behind `earlier` cannot be written.
pub open spec fn selection_fault(earlier: Seq<SelectionView>, v: SelectionView) -> Option<LinkControlError> {
    if selected(earlier, v.stable_id) || v.schema.revision.0 == 0 || v.capabilities.protocol_id
        != v.stable_id {
        Some(LinkControlError::invalid_payload())
    } else if v.capabilities.words.len() > MAX_PROTOCOL_CAPABILITY_WORDS {
        Some(LinkControlError::limit_exceeded())
    } else {
        None
    }
}

/// Why a row of selections cannot be written: the fault of the first that has one.
pub open spec fn selections_fault(selections: Seq<SelectionView>) -> Option<LinkControlError>
    decreases selections.len(),
{
    if selections.len() == 0 {
        None
    } else {
        match selections_fault(selections.drop_last()) {
            Some(e) => Some(e),
            None => selection_fault(selections.drop_last(), selections.last()),
        }
    }
}

pub open spec fn invalid_if(fault: bool) -> Option<LinkControlError> {
    if fault {
        Some(LinkControlError::invalid_payload())
    } else {
        None
    }
}

/// Why a payload cannot be written.
pub open spec fn payload_fault(payload: PayloadView) -> Option<LinkControlError> {
    match payload {
        PayloadView::Hello(v) => invalid_if(!v.link_versions.is_valid()),
        PayloadView::OfferProtocols(v) => if v.len() > MAX_CONTROL_PROTOCOLS {
            Some(LinkControlError::limit_exceeded())
        } else {
            offers_fault(v)
        },
        PayloadView::SelectProtocols(v) => if v.len() > MAX_CONTROL_PROTOCOLS {
            Some(LinkControlError::limit_exceeded())
        } else {
            selections_fault(v)
        },
        PayloadView::OpenChannel(v) => invalid_if(
            v.protocol_channel_id.0 == 0 || v.requested_session_channel_id.0 == 0 || v.capacity == 0,
        ),
        PayloadView::AcceptChannel(v) => invalid_if(
            v.protocol_channel_id.0 == 0 || v.session_channel_id.0 == 0,
        ),
        PayloadView::CloseChannel(v) => invalid_if(v.session_channel_id.0 == 0),
        PayloadView::Ping(_) => None,
        PayloadView::Pong(_) => None,
        PayloadView::BeginDrain(_) => None,
        PayloadView::CloseSession(_) => None,
        PayloadView::Error(_) => None,
    }
}

/// Why a frame cannot be written.
pub open spec fn envelope_fault(mode: ControlIdentityMode, v: ControlEnvelopeView) -> Option<
    LinkControlError,
> {
    if mode != ControlIdentityMode::TypedV1 {
        Some(LinkControlError::mode_mismatch())
    } else if v.wire_version != TYPED_CONTROL_WIRE_VERSION {
        Some(LinkControlError::unsupported_version())
    } else if v.opcode != v.payload.opcode() {
        Some(LinkControlError::opcode_mismatch())
    } else {
        match payload_fault(v.payload) {
            Some(e) => Some(e),
            None => if payload_bytes(v.payload).len() > MAX_CONTROL_PAYLOAD_BYTES {
                Some(LinkControlError::limit_exceeded())
            } else {
                None
            },
        }
    }
}

} // verus!
