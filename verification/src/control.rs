//! Link control messages and their errors.

use vstd::prelude::*;
use vstd::std_specs::convert::TryFromSpecImpl;
use crate::channel::ChannelId;
use crate::identity::{Identity, SessionId, VersionRange};
use crate::negotiation::{
    AuthPath, OfferView, ProtocolOffer, ProtocolSelection, SelectionView, offer_views, selection_views,
};
use crate::protocol_ids::{LinkCapabilities, ProtocolChannelId, ProtocolStableId};

verus! {

pub const TYPED_CONTROL_WIRE_VERSION: u16 = 1;

/// How control frames name protocols.
#[derive(Clone, Copy, Debug, Eq, PartialEq, Structural)]
pub enum ControlIdentityMode {
    /// Compatibility mode for peers that predate typed-control capability.
    LegacyStringV1,
    TypedV1,
}

impl ControlIdentityMode {
    /// Typed control needs the capability for it.
    #[verifier::allow_in_spec]
    pub fn negotiate(capabilities: LinkCapabilities) -> Self
        returns
            (if capabilities.contains(LinkCapabilities::typed_control()) {
                ControlIdentityMode::TypedV1
            } else {
                ControlIdentityMode::LegacyStringV1
            }),
    {
        if capabilities.contains(LinkCapabilities::typed_control()) {
            ControlIdentityMode::TypedV1
        } else {
            ControlIdentityMode::LegacyStringV1
        }
    }
}

/// Keeps the two ways of naming protocols apart within a session.
#[derive(Clone, Copy, Debug, Eq, PartialEq, Structural)]
pub struct ControlModeGuard {
    pub mode: ControlIdentityMode,
}

impl ControlModeGuard {
    #[verifier::allow_in_spec]
    pub fn new(mode: ControlIdentityMode) -> Self
        returns
            (ControlModeGuard { mode }),
    {
        ControlModeGuard { mode }
    }

    #[verifier::allow_in_spec]
    pub fn mode(self) -> ControlIdentityMode
        returns
            self.mode,
    {
        self.mode
    }

    /// Admits typed control frames.
    pub fn validate_typed(&self) -> (verdict: Result<(), LinkControlError>)
        ensures
            verdict == (if self.mode == ControlIdentityMode::TypedV1 {
                Ok(())
            } else {
                Err::<(), LinkControlError>(LinkControlError::mode_mismatch())
            }),
    {
        if self.mode == ControlIdentityMode::TypedV1 {
            Ok(())
        } else {
            Err(LinkControlError::mode_mismatch())
        }
    }

    /// Admits control frames that spell protocols out.
    pub fn validate_legacy(&self) -> (verdict: Result<(), LinkControlError>)
        ensures
            verdict == (if self.mode == ControlIdentityMode::LegacyStringV1 {
                Ok(())
            } else {
                Err::<(), LinkControlError>(LinkControlError::mode_mismatch())
            }),
    {
        if self.mode == ControlIdentityMode::LegacyStringV1 {
            Ok(())
        } else {
            Err(LinkControlError::mode_mismatch())
        }
    }
}

/// What a control frame is about.
#[derive(Clone, Copy, Debug, Eq, PartialEq, Structural)]
pub enum LinkControlOpcode {
    Hello,
    ProtocolOffer,
    ProtocolSelect,
    OpenChannel,
    ChannelAccepted,
    CloseChannel,
    Ping,
    Pong,
    BeginDrain,
    CloseSession,
    Error,
}

/// The opcode with this number on the wire.
pub open spec fn opcode_of(code: u16) -> Result<LinkControlOpcode, LinkControlError> {
        if code == 0x0001 {
            Ok(LinkControlOpcode::Hello)
        } else if code == 0x0002 {
            Ok(LinkControlOpcode::ProtocolOffer)
        } else if code == 0x0003 {
            Ok(LinkControlOpcode::ProtocolSelect)
        } else if code == 0x0010 {
            Ok(LinkControlOpcode::OpenChannel)
        } else if code == 0x0011 {
            Ok(LinkControlOpcode::ChannelAccepted)
        } else if code == 0x0012 {
            Ok(LinkControlOpcode::CloseChannel)
        } else if code == 0x0020 {
            Ok(LinkControlOpcode::Ping)
        } else if code == 0x0021 {
            Ok(LinkControlOpcode::Pong)
        } else if code == 0x0022 {
            Ok(LinkControlOpcode::BeginDrain)
        } else if code == 0x0023 {
            Ok(LinkControlOpcode::CloseSession)
        } else if code == 0x00ff {
            Ok(LinkControlOpcode::Error)
        } else {
            Err(LinkControlError::unknown_opcode())
        }
}

impl LinkControlOpcode {
    /// The number of the opcode on the wire.
    #[verifier::allow_in_spec]
    pub fn code(self) -> u16
        returns
            (match self {
                LinkControlOpcode::Hello => 0x0001u16,
                LinkControlOpcode::ProtocolOffer => 0x0002u16,
                LinkControlOpcode::ProtocolSelect => 0x0003u16,
                LinkControlOpcode::OpenChannel => 0x0010u16,
                LinkControlOpcode::ChannelAccepted => 0x0011u16,
                LinkControlOpcode::CloseChannel => 0x0012u16,
                LinkControlOpcode::Ping => 0x0020u16,
                LinkControlOpcode::Pong => 0x0021u16,
                LinkControlOpcode::BeginDrain => 0x0022u16,
                LinkControlOpcode::CloseSession => 0x0023u16,
                LinkControlOpcode::Error => 0x00ffu16,
            }),
    {
        match self {
            LinkControlOpcode::Hello => 0x0001,
            LinkControlOpcode::ProtocolOffer => 0x0002,
            LinkControlOpcode::ProtocolSelect => 0x0003,
            LinkControlOpcode::OpenChannel => 0x0010,
            LinkControlOpcode::ChannelAccepted => 0x0011,
            LinkControlOpcode::CloseChannel => 0x0012,
            LinkControlOpcode::Ping => 0x0020,
            LinkControlOpcode::Pong => 0x0021,
            LinkControlOpcode::BeginDrain => 0x0022,
            LinkControlOpcode::CloseSession => 0x0023,
            LinkControlOpcode::Error => 0x00ff,
        }
    }
}

impl core::convert::TryFrom<u16> for LinkControlOpcode {
    type Error = LinkControlError;

    fn try_from(value: u16) -> (opcode: Result<LinkControlOpcode, LinkControlError>) {
        match value {
            0x0001 => Ok(LinkControlOpcode::Hello),
            0x0002 => Ok(LinkControlOpcode::ProtocolOffer),
            0x0003 => Ok(LinkControlOpcode::ProtocolSelect),
            0x0010 => Ok(LinkControlOpcode::OpenChannel),
            0x0011 => Ok(LinkControlOpcode::ChannelAccepted),
            0x0012 => Ok(LinkControlOpcode::CloseChannel),
            0x0020 => Ok(LinkControlOpcode::Ping),
            0x0021 => Ok(LinkControlOpcode::Pong),
            0x0022 => Ok(LinkControlOpcode::BeginDrain),
            0x0023 => Ok(LinkControlOpcode::CloseSession),
            0x00ff => Ok(LinkControlOpcode::Error),
            _ => Err(LinkControlError::unknown_opcode()),
        }
    }
}

impl TryFromSpecImpl<u16> for LinkControlOpcode {
    open spec fn obeys_try_from_spec() -> bool {
        true
    }

    open spec fn try_from_spec(value: u16) -> Result<LinkControlOpcode, LinkControlError> {
        opcode_of(value)
    }
}

/// Opcodes and the numbers that stand for them correspond one to one.
pub proof fn opcode_numbers_correspond(opcode: LinkControlOpcode, code: u16)
    ensures
        opcode_of(opcode.code()) == Ok::<LinkControlOpcode, LinkControlError>(opcode),
        opcode_of(code) is Ok ==> opcode_of(code)->Ok_0.code() == code,
        opcode.code() != 0xffff,
{
}

/// Marks on a control frame.
#[derive(Clone, Copy, Debug, Eq, PartialEq, Structural)]
pub struct ControlFlags(u16);

impl Default for ControlFlags {
    fn default() -> (none: Self)
        ensures
            none@ == 0,
    {
        ControlFlags(0)
    }
}

impl View for ControlFlags {
    type V = u16;

    closed spec fn view(&self) -> u16 {
        self.0
    }
}

impl ControlFlags {
    /// No bit is set but the one that marks a response.
    #[verifier::type_invariant]
    spec fn known(self) -> bool {
        self.0 == 0 || self.0 == 1
    }

    /// The frame answers a request.
    pub fn response() -> (flags: Self)
        ensures
            flags@ == 1,
    {
        ControlFlags(1)
    }

    /// The flags with these bits, if none is unknown.
    pub fn from_bits(bits: u16) -> (flags: Option<Self>)
        ensures
            match flags {
                Some(f) => known_flag_bits(bits) && f@ == bits,
                None => !known_flag_bits(bits),
            },
    {
        if bits <= 1 {
            Some(ControlFlags(bits))
        } else {
            None
        }
    }

    pub fn bits(self) -> (bits: u16)
        ensures
            bits == self@,
            known_flag_bits(bits),
    {
        proof {
            use_type_invariant(&self);
        }
        self.0
    }
}

/// Whether no bit is set but the lowest.
pub open spec fn known_flag_bits(bits: u16) -> bool {
    bits <= 1
}

/// Pairs a request with its response.
#[derive(Clone, Copy, Debug, Eq, Hash, Ord, PartialEq, PartialOrd, Structural)]
pub struct RequestId(pub u64);

/// Asks for a channel.
#[derive(Clone, Copy, Debug, Eq, PartialEq)]
pub struct OpenChannel {
    pub protocol_id: ProtocolStableId,
    pub protocol_channel_id: ProtocolChannelId,
    pub requested_session_channel_id: ChannelId,
    pub capacity: u32,
}

/// Grants a channel.
#[derive(Clone, Copy, Debug, Eq, PartialEq)]
pub struct AcceptChannel {
    pub protocol_id: ProtocolStableId,
    pub protocol_channel_id: ProtocolChannelId,
    pub session_channel_id: ChannelId,
}

/// Opens a handshake.
#[derive(Clone, Copy, Debug, Eq, PartialEq)]
pub struct HelloControl {
    pub identity: Identity,
    pub link_versions: VersionRange,
    pub link_capabilities: LinkCapabilities,
    pub requested_auth: AuthPath,
}

#[derive(Clone, Copy, Debug, Eq, PartialEq, Structural)]
pub struct CloseChannel {
    pub session_channel_id: ChannelId,
}

#[derive(Clone, Copy, Debug, Eq, PartialEq, Structural)]
pub struct Ping {
    pub nonce: u64,
}

#[derive(Clone, Copy, Debug, Eq, PartialEq, Structural)]
pub struct Pong {
    pub nonce: u64,
}

#[derive(Clone, Copy, Debug, Eq, PartialEq, Structural)]
pub struct BeginDrain {
    pub deadline_millis: u32,
}

#[derive(Clone, Copy, Debug, Eq, PartialEq, Structural)]
pub struct CloseSession {
    pub reason_code: u16,
}

/// What a control frame carries.
#[derive(Clone, Debug, Eq, PartialEq)]
pub enum ControlPayload {
    Hello(HelloControl),
    OfferProtocols(Vec<ProtocolOffer>),
    SelectProtocols(Vec<ProtocolSelection>),
    OpenChannel(OpenChannel),
    AcceptChannel(AcceptChannel),
    CloseChannel(CloseChannel),
    Ping(Ping),
    Pong(Pong),
    BeginDrain(BeginDrain),
    CloseSession(CloseSession),
    Error(LinkControlError),
}

/// What a control frame says.
#[verifier::ext_equal]
pub enum PayloadView {
    Hello(HelloControl),
    OfferProtocols(Seq<OfferView>),
    SelectProtocols(Seq<SelectionView>),
    OpenChannel(OpenChannel),
    AcceptChannel(AcceptChannel),
    CloseChannel(CloseChannel),
    Ping(Ping),
    Pong(Pong),
    BeginDrain(BeginDrain),
    CloseSession(CloseSession),
    Error(LinkControlError),
}

impl View for ControlPayload {
    type V = PayloadView;

    open spec fn view(&self) -> PayloadView {
        match *self {
            ControlPayload::Hello(v) => PayloadView::Hello(v),
            ControlPayload::OfferProtocols(v) => PayloadView::OfferProtocols(offer_views(v@)),
            ControlPayload::SelectProtocols(v) => PayloadView::SelectProtocols(selection_views(v@)),
            ControlPayload::OpenChannel(v) => PayloadView::OpenChannel(v),
            ControlPayload::AcceptChannel(v) => PayloadView::AcceptChannel(v),
            ControlPayload::CloseChannel(v) => PayloadView::CloseChannel(v),
            ControlPayload::Ping(v) => PayloadView::Ping(v),
            ControlPayload::Pong(v) => PayloadView::Pong(v),
            ControlPayload::BeginDrain(v) => PayloadView::BeginDrain(v),
            ControlPayload::CloseSession(v) => PayloadView::CloseSession(v),
            ControlPayload::Error(v) => PayloadView::Error(v),
        }
    }
}

impl PayloadView {
    /// The opcode that goes with the payload.
    pub open spec fn opcode(self) -> LinkControlOpcode {
        match self {
            PayloadView::Hello(_) => LinkControlOpcode::Hello,
            PayloadView::OfferProtocols(_) => LinkControlOpcode::ProtocolOffer,
            PayloadView::SelectProtocols(_) => LinkControlOpcode::ProtocolSelect,
            PayloadView::OpenChannel(_) => LinkControlOpcode::OpenChannel,
            PayloadView::AcceptChannel(_) => LinkControlOpcode::ChannelAccepted,
            PayloadView::CloseChannel(_) => LinkControlOpcode::CloseChannel,
            PayloadView::Ping(_) => LinkControlOpcode::Ping,
            PayloadView::Pong(_) => LinkControlOpcode::Pong,
            PayloadView::BeginDrain(_) => LinkControlOpcode::BeginDrain,
            PayloadView::CloseSession(_) => LinkControlOpcode::CloseSession,
            PayloadView::Error(_) => LinkControlOpcode::Error,
        }
    }
}

impl ControlPayload {
    /// The opcode that goes with the payload.
    pub fn opcode(&self) -> (opcode: LinkControlOpcode)
        ensures
            opcode == self@.opcode(),
    {
        match self {
            ControlPayload::Hello(_) => LinkControlOpcode::Hello,
            ControlPayload::OfferProtocols(_) => LinkControlOpcode::ProtocolOffer,
            ControlPayload::SelectProtocols(_) => LinkControlOpcode::ProtocolSelect,
            ControlPayload::OpenChannel(_) => LinkControlOpcode::OpenChannel,
            ControlPayload::AcceptChannel(_) => LinkControlOpcode::ChannelAccepted,
            ControlPayload::CloseChannel(_) => LinkControlOpcode::CloseChannel,
            ControlPayload::Ping(_) => LinkControlOpcode::Ping,
            ControlPayload::Pong(_) => LinkControlOpcode::Pong,
            ControlPayload::BeginDrain(_) => LinkControlOpcode::BeginDrain,
            ControlPayload::CloseSession(_) => LinkControlOpcode::CloseSession,
            ControlPayload::Error(_) => LinkControlOpcode::Error,
        }
    }
}

/// A control frame.
#[derive(Clone, Debug, Eq, PartialEq)]
pub struct ControlEnvelope {
    pub wire_version: u16,
    pub opcode: LinkControlOpcode,
    pub request_id: RequestId,
    pub session_id: Option<SessionId>,
    pub flags: ControlFlags,
    pub payload: ControlPayload,
}

/// What a control frame says, header and payload.
#[verifier::ext_equal]
pub struct ControlEnvelopeView {
    pub wire_version: u16,
    pub opcode: LinkControlOpcode,
    pub request_id: RequestId,
    pub session_id: Option<SessionId>,
    pub flags: u16,
    pub payload: PayloadView,
}

impl View for ControlEnvelope {
    type V = ControlEnvelopeView;

    open spec fn view(&self) -> ControlEnvelopeView {
        ControlEnvelopeView {
            wire_version: self.wire_version,
            opcode: self.opcode,
            request_id: self.request_id,
            session_id: self.session_id,
            flags: self.flags@,
            payload: self.payload@,
        }
    }
}

impl ControlEnvelope {
    /// A frame of the current wire version, with the opcode of its payload.
    pub fn typed(
        request_id: RequestId,
        session_id: Option<SessionId>,
        flags: ControlFlags,
        payload: ControlPayload,
    ) -> (envelope: Self)
        ensures
            envelope@ == (ControlEnvelopeView {
                wire_version: TYPED_CONTROL_WIRE_VERSION,
                opcode: payload@.opcode(),
                request_id,
                session_id,
                flags: flags@,
                payload: payload@,
            }),
            envelope.payload == payload,
    {
        let opcode = payload.opcode();
        ControlEnvelope {
            wire_version: TYPED_CONTROL_WIRE_VERSION,
            opcode,
            request_id,
            session_id,
            flags,
            payload,
        }
    }
}

/// The part of the link that an error belongs to.
#[derive(Clone, Copy, Debug, Eq, PartialEq, Structural)]
pub enum ErrorDomain {
    Control,
    Protocol,
    Channel,
    Security,
    Resource,
}

/// The number of an error within its domain.
#[derive(Clone, Copy, Debug, Eq, PartialEq, Structural)]
pub struct ErrorCode(pub u16);

/// What a peer may do after an error.
#[derive(Clone, Copy, Debug, Eq, PartialEq, Structural)]
pub enum Retryability {
    Never,
    RetryAfterBackoff,
    Reconnect,
}

/// A control error. The message stays on this side of the link.
#[derive(Clone, Debug, Eq, PartialEq)]
pub struct LinkControlError {
    pub domain: ErrorDomain,
    pub code: ErrorCode,
    pub operation: Option<LinkControlOpcode>,
    pub retryability: Retryability,
    pub public_message: &'static str,
}

impl LinkControlError {
    #[verifier::allow_in_spec]
    pub fn unknown_opcode() -> Self
        returns
            (LinkControlError {
                domain: ErrorDomain::Control,
                code: ErrorCode(1),
                operation: None,
                retryability: Retryability::Never,
                public_message: "unknown Link control opcode",
            }),
    {
        LinkControlError {
            domain: ErrorDomain::Control,
            code: ErrorCode(1),
            operation: None,
            retryability: Retryability::Never,
            public_message: "unknown Link control opcode",
        }
    }

    #[verifier::allow_in_spec]
    pub fn mode_mismatch() -> Self
        returns
            (LinkControlError {
                domain: ErrorDomain::Control,
                code: ErrorCode(2),
                operation: None,
                retryability: Retryability::Never,
                public_message: "control identity mode does not match negotiated session",
            }),
    {
        LinkControlError {
            domain: ErrorDomain::Control,
            code: ErrorCode(2),
            operation: None,
            retryability: Retryability::Never,
            public_message: "control identity mode does not match negotiated session",
        }
    }

    #[verifier::allow_in_spec]
    pub fn unsupported_version() -> Self
        returns
            (LinkControlError {
                domain: ErrorDomain::Control,
                code: ErrorCode(3),
                operation: None,
                retryability: Retryability::Never,
                public_message: "unsupported typed control wire version",
            }),
    {
        LinkControlError {
            domain: ErrorDomain::Control,
            code: ErrorCode(3),
            operation: None,
            retryability: Retryability::Never,
            public_message: "unsupported typed control wire version",
        }
    }

    #[verifier::allow_in_spec]
    pub fn truncated() -> Self
        returns
            (LinkControlError {
                domain: ErrorDomain::Control,
                code: ErrorCode(4),
                operation: None,
                retryability: Retryability::Never,
                public_message: "truncated typed control frame",
            }),
    {
        LinkControlError {
            domain: ErrorDomain::Control,
            code: ErrorCode(4),
            operation: None,
            retryability: Retryability::Never,
            public_message: "truncated typed control frame",
        }
    }

    #[verifier::allow_in_spec]
    pub fn limit_exceeded() -> Self
        returns
            (LinkControlError {
                domain: ErrorDomain::Control,
                code: ErrorCode(5),
                operation: None,
                retryability: Retryability::Never,
                public_message: "typed control frame exceeds a resource limit",
            }),
    {
        LinkControlError {
            domain: ErrorDomain::Control,
            code: ErrorCode(5),
            operation: None,
            retryability: Retryability::Never,
            public_message: "typed control frame exceeds a resource limit",
        }
    }

    #[verifier::allow_in_spec]
    pub fn invalid_payload() -> Self
        returns
            (LinkControlError {
                domain: ErrorDomain::Control,
                code: ErrorCode(6),
                operation: None,
                retryability: Retryability::Never,
                public_message: "invalid typed control payload",
            }),
    {
        LinkControlError {
            domain: ErrorDomain::Control,
            code: ErrorCode(6),
            operation: None,
            retryability: Retryability::Never,
            public_message: "invalid typed control payload",
        }
    }

    #[verifier::allow_in_spec]
    pub fn opcode_mismatch() -> Self
        returns
            (LinkControlError {
                domain: ErrorDomain::Control,
                code: ErrorCode(7),
                operation: None,
                retryability: Retryability::Never,
                public_message: "typed control opcode does not match payload",
            }),
    {
        LinkControlError {
            domain: ErrorDomain::Control,
            code: ErrorCode(7),
            operation: None,
            retryability: Retryability::Never,
            public_message: "typed control opcode does not match payload",
        }
    }

    #[verifier::allow_in_spec]
    pub fn trailing_bytes() -> Self
        returns
            (LinkControlError {
                domain: ErrorDomain::Control,
                code: ErrorCode(8),
                operation: None,
                retryability: Retryability::Never,
                public_message: "typed control frame contains trailing bytes",
            }),
    {
        LinkControlError {
            domain: ErrorDomain::Control,
            code: ErrorCode(8),
            operation: None,
            retryability: Retryability::Never,
            public_message: "typed control frame contains trailing bytes",
        }
    }

    #[verifier::allow_in_spec]
    pub fn invalid_channel_mapping() -> Self
        returns
            (LinkControlError {
                domain: ErrorDomain::Channel,
                code: ErrorCode(1),
                operation: Some(LinkControlOpcode::ChannelAccepted),
                retryability: Retryability::Never,
                public_message: "session channel mapping is invalid",
            }),
    {
        LinkControlError {
            domain: ErrorDomain::Channel,
            code: ErrorCode(1),
            operation: Some(LinkControlOpcode::ChannelAccepted),
            retryability: Retryability::Never,
            public_message: "session channel mapping is invalid",
        }
    }

    #[verifier::allow_in_spec]
    pub fn duplicate_channel_mapping() -> Self
        returns
            (LinkControlError {
                domain: ErrorDomain::Channel,
                code: ErrorCode(2),
                operation: Some(LinkControlOpcode::ChannelAccepted),
                retryability: Retryability::Never,
                public_message: "session channel mapping conflicts with an existing binding",
            }),
    {
        LinkControlError {
            domain: ErrorDomain::Channel,
            code: ErrorCode(2),
            operation: Some(LinkControlOpcode::ChannelAccepted),
            retryability: Retryability::Never,
            public_message: "session channel mapping conflicts with an existing binding",
        }
    }

    #[verifier::allow_in_spec]
    pub fn channel_mapping_limit() -> Self
        returns
            (LinkControlError {
                domain: ErrorDomain::Resource,
                code: ErrorCode(1),
                operation: Some(LinkControlOpcode::ChannelAccepted),
                retryability: Retryability::Never,
                public_message: "session channel mapping limit exceeded",
            }),
    {
        LinkControlError {
            domain: ErrorDomain::Resource,
            code: ErrorCode(1),
            operation: Some(LinkControlOpcode::ChannelAccepted),
            retryability: Retryability::Never,
            public_message: "session channel mapping limit exceeded",
        }
    }

    #[verifier::allow_in_spec]
    pub fn unnegotiated_protocol() -> Self
        returns
            (LinkControlError {
                domain: ErrorDomain::Security,
                code: ErrorCode(1),
                operation: Some(LinkControlOpcode::ChannelAccepted),
                retryability: Retryability::Never,
                public_message: "channel mapping references an unnegotiated protocol",
            }),
    {
        LinkControlError {
            domain: ErrorDomain::Security,
            code: ErrorCode(1),
            operation: Some(LinkControlOpcode::ChannelAccepted),
            retryability: Retryability::Never,
            public_message: "channel mapping references an unnegotiated protocol",
        }
    }

    #[verifier::allow_in_spec]
    pub fn session_not_active(operation: LinkControlOpcode) -> Self
        returns
            (LinkControlError {
                domain: ErrorDomain::Control,
                code: ErrorCode(9),
                operation: Some(operation),
                retryability: Retryability::Reconnect,
                public_message: "control operation requires an active session",
            }),
    {
        LinkControlError {
            domain: ErrorDomain::Control,
            code: ErrorCode(9),
            operation: Some(operation),
            retryability: Retryability::Reconnect,
            public_message: "control operation requires an active session",
        }
    }

    /// The text that may be shown to a user.
    pub fn display_text(&self) -> (text: String)
        ensures
            text@ == self.public_message@,
    {
        self.public_message.to_owned()
    }
}

/// In each mode the frames of that mode pass, and those of the other do not.
pub proof fn control_modes_exclude_each_other(guard: ControlModeGuard)
    ensures
        forall|typed: Result<(), LinkControlError>, legacy: Result<(), LinkControlError>|
            {
                &&& #[trigger] call_ensures(ControlModeGuard::validate_typed, (&guard,), typed)
                &&& #[trigger] call_ensures(ControlModeGuard::validate_legacy, (&guard,), legacy)
            } ==> {
                &&& typed is Ok <==> legacy is Err
                &&& typed is Ok <==> guard.mode is TypedV1
            },
{
}

/// Flags have one bit, the lowest, which marks a response; any other bit is refused.
pub proof fn flags_have_one_bit(bits: u16)
    ensures
        forall|flags: Option<ControlFlags>| #[trigger]
            call_ensures(ControlFlags::from_bits, (bits,), flags) ==> {
                &&& flags is Some <==> bits == 0 || bits == 1
                &&& flags matches Some(f) ==> f@ == bits
            },
        forall|flags: ControlFlags| #[trigger]
            call_ensures(ControlFlags::response, (), flags) ==> flags@ == 1,
        forall|flags: ControlFlags| #[trigger]
            call_ensures(ControlFlags::default, (), flags) ==> flags@ == 0,
{
}

/// The faults of the control plane are numbered one to nine, those of a channel mapping one
/// and two, and those of resources and security one each. Only a session that is not active
/// is worth another connection; nothing else is worth trying again.
pub proof fn faults_are_numbered(operation: LinkControlOpcode)
    ensures
        LinkControlError::unknown_opcode().code.0 == 1,
        LinkControlError::mode_mismatch().code.0 == 2,
        LinkControlError::unsupported_version().code.0 == 3,
        LinkControlError::truncated().code.0 == 4,
        LinkControlError::limit_exceeded().code.0 == 5,
        LinkControlError::invalid_payload().code.0 == 6,
        LinkControlError::opcode_mismatch().code.0 == 7,
        LinkControlError::trailing_bytes().code.0 == 8,
        LinkControlError::session_not_active(operation).code.0 == 9,
        LinkControlError::unknown_opcode().domain is Control,
        LinkControlError::mode_mismatch().domain is Control,
        LinkControlError::unsupported_version().domain is Control,
        LinkControlError::truncated().domain is Control,
        LinkControlError::limit_exceeded().domain is Control,
        LinkControlError::invalid_payload().domain is Control,
        LinkControlError::opcode_mismatch().domain is Control,
        LinkControlError::trailing_bytes().domain is Control,
        LinkControlError::session_not_active(operation).domain is Control,
        LinkControlError::session_not_active(operation).operation == Some(operation),
        LinkControlError::session_not_active(operation).retryability is Reconnect,
        LinkControlError::invalid_channel_mapping().domain is Channel,
        LinkControlError::invalid_channel_mapping().code.0 == 1,
        LinkControlError::duplicate_channel_mapping().domain is Channel,
        LinkControlError::duplicate_channel_mapping().code.0 == 2,
        LinkControlError::channel_mapping_limit().domain is Resource,
        LinkControlError::channel_mapping_limit().code.0 == 1,
        LinkControlError::unnegotiated_protocol().domain is Security,
        LinkControlError::unnegotiated_protocol().code.0 == 1,
        LinkControlError::unknown_opcode().retryability is Never,
        LinkControlError::mode_mismatch().retryability is Never,
        LinkControlError::unsupported_version().retryability is Never,
        LinkControlError::truncated().retryability is Never,
        LinkControlError::limit_exceeded().retryability is Never,
        LinkControlError::invalid_payload().retryability is Never,
        LinkControlError::opcode_mismatch().retryability is Never,
        LinkControlError::trailing_bytes().retryability is Never,
        LinkControlError::invalid_channel_mapping().retryability is Never,
        LinkControlError::duplicate_channel_mapping().retryability is Never,
        LinkControlError::channel_mapping_limit().retryability is Never,
        LinkControlError::unnegotiated_protocol().retryability is Never,
{
}

} // verus!
