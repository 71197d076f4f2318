//! The protocols that an application registers, and what becomes of them in a
//! session.

use vstd::prelude::*;
use vstd::string::StrSliceExecFns;
use vstd::utf8::encode_utf8;
use crate::channel::{ChannelId, ChannelMode};
use crate::control::AcceptChannel;
use crate::identity::{ProtocolVersion, VersionRange};
use crate::mux::{ChannelConfig, ChannelKey};
use crate::mux_model::{ConfigView, KeyView};
use crate::negotiation::{
    OfferView, ProtocolOffer, ProtocolSelection, SelectionView, offer_views, selection_views, spelled,
};
use crate::protocol_ids::{
    CapabilityView, DebugIdentityView, ProtocolCapabilitySet, ProtocolChannelId, ProtocolDebugIdentity,
    ProtocolStableId, SchemaRef, protocol_identity, shared_is_subset, wire_namespace_text,
};
use crate::sorted_map::{SortedMap, ascending_keys};
use crate::text::{
    is_dotted, is_dotted_text, is_name, is_name_text, lemma_ascii_char, lemma_dotted_is_ascii,
};

verus! {

pub const MAX_PROTOCOL_ID_BYTES: usize = 128;

pub const MAX_CHANNEL_NAME_BYTES: usize = 64;

#[derive(Clone, Copy, Debug, Eq, PartialEq, Structural)]
pub enum ProtocolRegistryErrorKind {
    InvalidLimits,
    InvalidProtocolId,
    InvalidVersionRange,
    InvalidChannel,
    InvalidCapabilities,
    IdentityConflict,
    SchemaConflict,
    DuplicateProtocol,
    DuplicateChannel,
    RegistryLimitExceeded,
    UnknownProtocol,
    ProtocolNotNegotiated,
    VersionNotSupported,
    ChannelNotDefined,
    ChannelCapacityExceeded,
    FrameLimitExceeded,
    StreamLimitExceeded,
}

/// Why a registry refused.
#[derive(Clone, Debug, Eq, PartialEq)]
pub struct ProtocolRegistryError {
    pub kind: ProtocolRegistryErrorKind,
    pub public_message: &'static str,
}

impl ProtocolRegistryErrorKind {
    /// The text that may be shown to a user.
    #[verifier::allow_in_spec]
    pub fn message(self) -> &'static str
        returns
            (match self {
                ProtocolRegistryErrorKind::InvalidLimits => "protocol registry limits must be positive",
                ProtocolRegistryErrorKind::InvalidProtocolId => "protocol id is not a valid namespace",
                ProtocolRegistryErrorKind::InvalidVersionRange => "protocol version range is invalid",
                ProtocolRegistryErrorKind::InvalidChannel => "protocol channel definition is invalid",
                ProtocolRegistryErrorKind::InvalidCapabilities => "protocol capabilities are not available",
                ProtocolRegistryErrorKind::IdentityConflict => "protocol identity does not match its spelling",
                ProtocolRegistryErrorKind::SchemaConflict => "protocol schema conflicts with the registered one",
                ProtocolRegistryErrorKind::DuplicateProtocol => "protocol id is already registered",
                ProtocolRegistryErrorKind::DuplicateChannel => "protocol channel is already defined",
                ProtocolRegistryErrorKind::RegistryLimitExceeded => "protocol registry limit exceeded",
                ProtocolRegistryErrorKind::UnknownProtocol => "protocol is not registered",
                ProtocolRegistryErrorKind::ProtocolNotNegotiated => "protocol was not negotiated",
                ProtocolRegistryErrorKind::VersionNotSupported => "protocol version is not supported",
                ProtocolRegistryErrorKind::ChannelNotDefined => "protocol channel is not defined",
                ProtocolRegistryErrorKind::ChannelCapacityExceeded => "channel capacity exceeds protocol limit",
                ProtocolRegistryErrorKind::FrameLimitExceeded => "frame exceeds protocol limit",
                ProtocolRegistryErrorKind::StreamLimitExceeded => "stream exceeds protocol limit",
            }),
    {
        match self {
            ProtocolRegistryErrorKind::InvalidLimits => "protocol registry limits must be positive",
            ProtocolRegistryErrorKind::InvalidProtocolId => "protocol id is not a valid namespace",
            ProtocolRegistryErrorKind::InvalidVersionRange => "protocol version range is invalid",
            ProtocolRegistryErrorKind::InvalidChannel => "protocol channel definition is invalid",
            ProtocolRegistryErrorKind::InvalidCapabilities => "protocol capabilities are not available",
            ProtocolRegistryErrorKind::IdentityConflict => "protocol identity does not match its spelling",
            ProtocolRegistryErrorKind::SchemaConflict => "protocol schema conflicts with the registered one",
            ProtocolRegistryErrorKind::DuplicateProtocol => "protocol id is already registered",
            ProtocolRegistryErrorKind::DuplicateChannel => "protocol channel is already defined",
            ProtocolRegistryErrorKind::RegistryLimitExceeded => "protocol registry limit exceeded",
            ProtocolRegistryErrorKind::UnknownProtocol => "protocol is not registered",
            ProtocolRegistryErrorKind::ProtocolNotNegotiated => "protocol was not negotiated",
            ProtocolRegistryErrorKind::VersionNotSupported => "protocol version is not supported",
            ProtocolRegistryErrorKind::ChannelNotDefined => "protocol channel is not defined",
            ProtocolRegistryErrorKind::ChannelCapacityExceeded => "channel capacity exceeds protocol limit",
            ProtocolRegistryErrorKind::FrameLimitExceeded => "frame exceeds protocol limit",
            ProtocolRegistryErrorKind::StreamLimitExceeded => "stream exceeds protocol limit",
        }
    }
}

impl ProtocolRegistryError {
    #[verifier::allow_in_spec]
    pub fn of(kind: ProtocolRegistryErrorKind) -> Self
        returns
            (ProtocolRegistryError { kind, public_message: kind.message() }),
    {
        ProtocolRegistryError { kind, public_message: kind.message() }
    }

    /// The text that may be shown to a user.
    pub fn display_text(&self) -> (text: String)
        ensures
            text@ == self.public_message@,
    {
        self.public_message.to_owned()
    }
}

/// A protocol as people spell it: names with dots between them.
#[derive(Debug, Eq, Hash, Ord, PartialEq, PartialOrd)]
pub struct ProtocolId(String);

/// Whether a text names a protocol.
pub open spec fn is_protocol_text(text: Seq<char>) -> bool {
    &&& is_dotted_text(text)
    &&& text.contains('.')
    &&& encode_utf8(text).len() <= MAX_PROTOCOL_ID_BYTES
}

/// Whether the last dot of a text stands at place `i`.
pub open spec fn is_last_dot(text: Seq<char>, i: int) -> bool {
    &&& 0 <= i < text.len()
    &&& text[i] == '.'
    &&& forall|j: int| i < j < text.len() ==> #[trigger] text[j] != '.'
}

/// The place of the last dot of a text.
pub open spec fn last_dot(text: Seq<char>) -> int {
    choose|i: int| is_last_dot(text, i)
}

/// The bytes of the identity of the protocol with this spelling: what stands before
/// the last dot is the authority.
pub open spec fn spelled_identity(text: Seq<char>) -> Seq<u8> {
    protocol_identity(
        text.subrange(0, last_dot(text)),
        text.subrange(last_dot(text) + 1, text.len() as int),
    )
}

impl View for ProtocolId {
    type V = Seq<char>;

    closed spec fn view(&self) -> Seq<char> {
        self.0@
    }
}

fn find_last_dot(text: &str) -> (found: Option<usize>)
    requires
        vstd::utf8::is_ascii_chars(text@),
    ensures
        match found {
            Some(i) => i < text@.len() && text@.contains('.') && i == last_dot(text@),
            None => !text@.contains('.'),
        },
{
    let bytes = text.as_bytes();
    proof {
        vstd::string::is_ascii_spec_bytes(text);
    }
    let mut i: usize = bytes.len();
    while i > 0
        invariant
            i <= bytes@.len(),
            bytes@.len() == text@.len(),
            vstd::utf8::is_ascii_chars(text@),
            forall|j: int| 0 <= j < text@.len() ==> bytes@[j] == text@[j] as u8,
            forall|j: int| i <= j < text@.len() ==> #[trigger] text@[j] != '.',
        decreases i,
    {
        proof {
            lemma_ascii_char(text@, i as int - 1);
        }
        if bytes[i - 1] == 0x2e {
            proof {
                assert(is_last_dot(text@, i as int - 1));
                let found = last_dot(text@);
                assert(is_last_dot(text@, found));
                assert(text@[found] == '.' && text@[i as int - 1] == '.');
            }
            return Some(i - 1);
        }
        i = i - 1;
    }
    None
}

impl Clone for ProtocolId {
    fn clone(&self) -> (copy: Self)
        ensures
            copy@ == self@,
    {
        proof {
            use_type_invariant(self);
        }
        ProtocolId(self.0.clone())
    }
}

impl ProtocolId {
    /// Whether the text names a protocol, as it always does.
    #[verifier::type_invariant]
    spec fn inv(self) -> bool {
        is_protocol_text(self.0@)
    }

    /// A protocol from its spelling.
    pub fn new(value: &str) -> (id: Result<Self, ProtocolRegistryError>)
        ensures
            match id {
                Ok(id) => is_protocol_text(value@) && id@ == value@,
                Err(e) => !is_protocol_text(value@) && e == ProtocolRegistryError::of(
                    ProtocolRegistryErrorKind::InvalidProtocolId,
                ),
            },
    {
        let named = is_dotted(value) && has_dot(value);
        if value.as_bytes().len() > MAX_PROTOCOL_ID_BYTES || !named {
            return Err(ProtocolRegistryError::of(ProtocolRegistryErrorKind::InvalidProtocolId));
        }
        Ok(ProtocolId(value.to_owned()))
    }

    /// The spelling.
    pub fn as_str(&self) -> (text: &str)
        ensures
            text@ == self@,
            is_protocol_text(text@),
    {
        proof {
            use_type_invariant(self);
        }
        self.0.as_str()
    }

    /// The spelling.
    pub fn display_text(&self) -> (text: String)
        ensures
            text@ == self@,
    {
        self.0.clone()
    }

    /// The identity of the protocol.
    pub fn stable_id(&self) -> (id: ProtocolStableId)
        ensures
            id@ == spelled_identity(self@),
    {
        proof {
            use_type_invariant(self);
            lemma_dotted_is_ascii(self.0@);
        }
        let text = self.0.as_str();
        proof {
            vstd::string::is_ascii_spec_bytes(text);
        }
        match find_last_dot(text) {
            Some(dot) => {
                let len: usize = text.as_bytes().len();
                let authority = text.substring_ascii(0, dot);
                let name = text.substring_ascii(dot + 1, len);
                ProtocolStableId::derive(authority, name)
            },
            None => {
                assert(false);
                ProtocolStableId::derive(text, text)
            },
        }
    }
}

fn has_dot(value: &str) -> (has: bool)
    ensures
        is_dotted_text(value@) ==> has == value@.contains('.'),
{
    if !value.is_ascii() {
        proof {
            lemma_dotted_is_ascii(value@);
        }
        return false;
    }
    find_last_dot(value).is_some()
}

/// A channel that a protocol defines. Lower priorities are more important.
#[derive(Clone, Debug, Eq, PartialEq)]
pub struct ProtocolChannel {
    pub id: ProtocolChannelId,
    pub debug_name: Option<String>,
    pub mode: ChannelMode,
    pub priority: u8,
    pub max_frame_bytes: usize,
    pub max_stream_bytes: Option<u64>,
    pub max_in_flight_frames: usize,
    pub discardable: bool,
}

#[verifier::ext_equal]
pub struct ChannelDefView {
    pub id: ProtocolChannelId,
    pub debug_name: Option<Seq<char>>,
    pub mode: ChannelMode,
    pub priority: u8,
    pub max_frame_bytes: usize,
    pub max_stream_bytes: Option<u64>,
    pub max_in_flight_frames: usize,
    pub discardable: bool,
}

impl View for ProtocolChannel {
    type V = ChannelDefView;

    open spec fn view(&self) -> ChannelDefView {
        ChannelDefView {
            id: self.id,
            debug_name: match self.debug_name {
                Some(name) => Some(name@),
                None => None,
            },
            mode: self.mode,
            priority: self.priority,
            max_frame_bytes: self.max_frame_bytes,
            max_stream_bytes: self.max_stream_bytes,
            max_in_flight_frames: self.max_in_flight_frames,
            discardable: self.discardable,
        }
    }
}

impl ProtocolChannel {
    /// A copy of the definition.
    pub fn duplicate(&self) -> (copy: Self)
        ensures
            copy@ == self@,
    {
        ProtocolChannel {
            id: self.id,
            debug_name: match &self.debug_name {
                Some(name) => Some(name.clone()),
                None => None,
            },
            mode: self.mode,
            priority: self.priority,
            max_frame_bytes: self.max_frame_bytes,
            max_stream_bytes: self.max_stream_bytes,
            max_in_flight_frames: self.max_in_flight_frames,
            discardable: self.discardable,
        }
    }
}

/// What an application registers.
#[derive(Clone, Debug, Eq, PartialEq)]
pub struct ProtocolDescriptor {
    pub stable_id: ProtocolStableId,
    pub debug_identity: Option<ProtocolDebugIdentity>,
    pub versions: VersionRange,
    pub schema: SchemaRef,
    pub capabilities: ProtocolCapabilitySet,
    pub channels: Vec<ProtocolChannel>,
}

#[verifier::ext_equal]
pub struct DescriptorView {
    pub stable_id: ProtocolStableId,
    pub debug_identity: Option<DebugIdentityView>,
    pub versions: VersionRange,
    pub schema: SchemaRef,
    pub capabilities: CapabilityView,
    pub channels: Seq<ChannelDefView>,
}

/// What each definition of a row says.
pub open spec fn channel_defs(channels: Seq<ProtocolChannel>) -> Seq<ChannelDefView> {
    channels.map_values(|c: ProtocolChannel| c@)
}

impl View for ProtocolDescriptor {
    type V = DescriptorView;

    open spec fn view(&self) -> DescriptorView {
        DescriptorView {
            stable_id: self.stable_id,
            debug_identity: spelled(self.debug_identity),
            versions: self.versions,
            schema: self.schema,
            capabilities: self.capabilities@,
            channels: channel_defs(self.channels@),
        }
    }
}

/// How much a registry may hold.
#[derive(Clone, Copy, Debug, Eq, PartialEq, Structural)]
pub struct ProtocolRegistryLimits {
    pub max_protocols: usize,
    pub max_channels_per_protocol: usize,
    pub max_total_channels: usize,
    pub max_protocol_id_bytes: usize,
    pub max_channel_name_bytes: usize,
}

impl Default for ProtocolRegistryLimits {
    fn default() -> (limits: Self)
        ensures
            limits == (ProtocolRegistryLimits {
                max_protocols: 16,
                max_channels_per_protocol: 32,
                max_total_channels: 128,
                max_protocol_id_bytes: MAX_PROTOCOL_ID_BYTES,
                max_channel_name_bytes: MAX_CHANNEL_NAME_BYTES,
            }),
    {
        ProtocolRegistryLimits {
            max_protocols: 16,
            max_channels_per_protocol: 32,
            max_total_channels: 128,
            max_protocol_id_bytes: MAX_PROTOCOL_ID_BYTES,
            max_channel_name_bytes: MAX_CHANNEL_NAME_BYTES,
        }
    }
}

impl ProtocolRegistryLimits {
    #[verifier::allow_in_spec]
    pub fn is_valid(self) -> bool
        returns
            self.max_protocols > 0 && self.max_channels_per_protocol > 0 && self.max_total_channels > 0
                && self.max_protocol_id_bytes > 0 && self.max_protocol_id_bytes <= MAX_PROTOCOL_ID_BYTES
                && self.max_channel_name_bytes > 0 && self.max_channel_name_bytes
                <= MAX_CHANNEL_NAME_BYTES,
    {
        self.max_protocols > 0 && self.max_channels_per_protocol > 0 && self.max_total_channels > 0
            && self.max_protocol_id_bytes > 0 && self.max_protocol_id_bytes <= MAX_PROTOCOL_ID_BYTES
            && self.max_channel_name_bytes > 0 && self.max_channel_name_bytes <= MAX_CHANNEL_NAME_BYTES
    }

    /// Whether a channel may be defined so.
    pub open spec fn admits_channel(self, channel: ChannelDefView) -> bool {
        &&& match channel.debug_name {
            Some(name) => is_name_text(name) && encode_utf8(name).len() <= self.max_channel_name_bytes,
            None => true,
        }
        &&& channel.max_frame_bytes > 0
        &&& channel.max_in_flight_frames > 0
        &&& channel.max_stream_bytes != Some(0u64)
        &&& (channel.mode == ChannelMode::Stream) == (channel.max_stream_bytes is Some)
        &&& channel.discardable ==> channel.mode == ChannelMode::Event
    }

    /// Why channels cannot be defined so: the first that is not admitted, or that has
    /// the number of an earlier one.
    pub open spec fn channels_fault(self, channels: Seq<ChannelDefView>) -> Option<
        ProtocolRegistryErrorKind,
    >
        decreases channels.len(),
    {
        if channels.len() == 0 {
            None
        } else {
            let front = channels.drop_last();
            let last = channels.last();
            match self.channels_fault(front) {
                Some(fault) => Some(fault),
                None => if !self.admits_channel(last) {
                    Some(ProtocolRegistryErrorKind::InvalidChannel)
                } else if exists|i: int| 0 <= i < front.len() && (#[trigger] front[i]).id == last.id {
                    Some(ProtocolRegistryErrorKind::DuplicateChannel)
                } else {
                    None
                },
            }
        }
    }

    /// Why a descriptor is not valid.
    pub open spec fn descriptor_fault(self, d: DescriptorView) -> Option<ProtocolRegistryErrorKind> {
        if d.debug_identity is Some && !self.admits_spelling(d.debug_identity->0) {
            Some(ProtocolRegistryErrorKind::InvalidProtocolId)
        } else if d.debug_identity is Some && d.debug_identity->0.identity() != d.stable_id@ {
            Some(ProtocolRegistryErrorKind::IdentityConflict)
        } else if !d.versions.is_valid() {
            Some(ProtocolRegistryErrorKind::InvalidVersionRange)
        } else if d.channels.len() == 0 || d.channels.len() > self.max_channels_per_protocol {
            Some(ProtocolRegistryErrorKind::RegistryLimitExceeded)
        } else {
            self.channels_fault(d.channels)
        }
    }

    /// Whether a protocol may be spelled so.
    pub open spec fn admits_spelling(self, identity: DebugIdentityView) -> bool {
        &&& identity.canonical()
        &&& encode_utf8(identity.authority).len() + 1 + encode_utf8(identity.name).len()
            <= self.max_protocol_id_bytes
    }
}

/// The protocols that an application registers before it has sessions.
#[derive(Debug)]
pub struct ProtocolRegistry {
    limits: ProtocolRegistryLimits,
    descriptors: SortedMap<ProtocolStableId, ProtocolDescriptor>,
    total_channels: usize,
}

#[verifier::ext_equal]
pub struct RegistryView {
    pub limits: ProtocolRegistryLimits,
    pub descriptors: Map<Seq<u8>, DescriptorView>,
    /// How many channels the descriptors define.
    pub total_channels: usize,
}

/// The descriptors by the bytes of their identity.
pub open spec fn descriptor_views(descriptors: Map<Seq<u8>, ProtocolDescriptor>) -> Map<
    Seq<u8>,
    DescriptorView,
> {
    descriptors.map_values(|d: ProtocolDescriptor| d@)
}

impl View for ProtocolRegistry {
    type V = RegistryView;

    closed spec fn view(&self) -> RegistryView {
        RegistryView {
            limits: self.limits,
            descriptors: descriptor_views(self.descriptors@),
            total_channels: self.total_channels,
        }
    }
}

impl RegistryView {
    /// Why a descriptor is not registered.
    pub open spec fn register_fault(self, d: DescriptorView) -> Option<ProtocolRegistryErrorKind> {
        let known = self.descriptors.contains_key(d.stable_id@);
        match self.limits.descriptor_fault(d) {
            Some(fault) => Some(fault),
            None => if known && self.descriptors[d.stable_id@].schema != d.schema {
                Some(ProtocolRegistryErrorKind::SchemaConflict)
            } else if known {
                Some(ProtocolRegistryErrorKind::DuplicateProtocol)
            } else if self.descriptors.dom().len() >= self.limits.max_protocols || self.total_channels
                + d.channels.len() > self.limits.max_total_channels {
                Some(ProtocolRegistryErrorKind::RegistryLimitExceeded)
            } else {
                None
            },
        }
    }

    /// With one more descriptor.
    pub open spec fn with_descriptor(self, d: DescriptorView) -> RegistryView {
        RegistryView {
            descriptors: self.descriptors.insert(d.stable_id@, d),
            total_channels: (self.total_channels + d.channels.len()) as usize,
            ..self
        }
    }

    /// Whether the registry keeps to its limits.
    pub open spec fn wf(self) -> bool {
        &&& self.limits.is_valid()
        &&& self.descriptors.dom().finite()
        &&& self.descriptors.dom().len() <= self.limits.max_protocols
        &&& self.total_channels <= self.limits.max_total_channels
        &&& descriptors_wf(self.descriptors)
    }
}

/// Whether every descriptor stands under its identity and has valid channels.
pub open spec fn descriptors_wf(descriptors: Map<Seq<u8>, DescriptorView>) -> bool {
    forall|id: Seq<u8>| #[trigger]
        descriptors.contains_key(id) ==> descriptors[id].stable_id@ == id
            && descriptors[id].versions.is_valid() && distinct_ids(descriptors[id].channels)
}

/// Whether no two channels have the same number.
pub open spec fn distinct_ids(channels: Seq<ChannelDefView>) -> bool {
    forall|i: int, j: int|
        0 <= i < j < channels.len() ==> (#[trigger] channels[i]).id != (#[trigger] channels[j]).id
}

proof fn lemma_channels_distinct(limits: ProtocolRegistryLimits, channels: Seq<ChannelDefView>)
    requires
        limits.channels_fault(channels) is None,
    ensures
        distinct_ids(channels),
    decreases channels.len(),
{
    if channels.len() > 0 {
        let front = channels.drop_last();
        lemma_channels_distinct(limits, front);
        assert forall|i: int, j: int| 0 <= i < j < channels.len() implies (#[trigger] channels[i]).id != (
        #[trigger] channels[j]).id by {
            assert(front[i] == channels[i]);
            if j < front.len() {
                assert(front[j] == channels[j]);
            }
        }
    }
}

impl ProtocolRegistry {
    /// Whether the registry is valid.
    pub closed spec fn wf(&self) -> bool {
        self.descriptors.wf() && self@.wf()
    }

    /// A valid registry keeps to its limits.
    pub proof fn lemma_wf(&self)
        requires
            self.wf(),
        ensures
            self@.wf(),
    {
    }

    proof fn lemma_descriptors(&self)
        requires
            self.descriptors.wf(),
        ensures
            self@.descriptors.dom() == self.descriptors@.dom(),
            self.descriptors.keys().len() == self@.descriptors.dom().len(),
    {
        self.descriptors.lemma_entries();
        assert(self@.descriptors.dom() =~= self.descriptors@.dom());
    }

    /// A registry without protocols.
    pub fn new(limits: ProtocolRegistryLimits) -> (registry: Result<Self, ProtocolRegistryError>)
        ensures
            match registry {
                Ok(r) => limits.is_valid() && r.wf() && r@ == (RegistryView {
                    limits,
                    descriptors: Map::empty(),
                    total_channels: 0,
                }),
                Err(e) => !limits.is_valid() && e == ProtocolRegistryError::of(
                    ProtocolRegistryErrorKind::InvalidLimits,
                ),
            },
    {
        if !limits.is_valid() {
            return Err(ProtocolRegistryError::of(ProtocolRegistryErrorKind::InvalidLimits));
        }
        let registry = ProtocolRegistry { limits, descriptors: SortedMap::new(), total_channels: 0 };
        assert(registry@.descriptors =~= Map::empty());
        Ok(registry)
    }

    /// Registers a protocol.
    pub fn register(&mut self, descriptor: ProtocolDescriptor) -> (registered: Result<
        (),
        ProtocolRegistryError,
    >)
        requires
            old(self).wf(),
        ensures
            final(self).wf(),
            match old(self)@.register_fault(descriptor@) {
                None => registered is Ok && final(self)@ == old(self)@.with_descriptor(descriptor@),
                Some(kind) => registered == Err::<(), ProtocolRegistryError>(
                    ProtocolRegistryError::of(kind),
                ) && final(self)@ == old(self)@,
            },
    {
        let ghost before = self@;
        proof {
            self.lemma_descriptors();
        }
        self.validate_descriptor(&descriptor)?;
        match self.descriptors.get(&descriptor.stable_id) {
            Some(known) => {
                assert(known@ == before.descriptors[descriptor@.stable_id@]);
                if !known.schema.same(&descriptor.schema) {
                    return Err(ProtocolRegistryError::of(ProtocolRegistryErrorKind::SchemaConflict));
                }
                return Err(ProtocolRegistryError::of(ProtocolRegistryErrorKind::DuplicateProtocol));
            },
            None => {},
        }
        let more: usize = descriptor.channels.len();
        assert(descriptor@.channels.len() == more);
        if self.descriptors.len() >= self.limits.max_protocols || self.total_channels.saturating_add(more)
            > self.limits.max_total_channels {
            return Err(ProtocolRegistryError::of(ProtocolRegistryErrorKind::RegistryLimitExceeded));
        }
        // A sum that reaches the top of the range is over every limit but that one.
        match self.total_channels.checked_add(more) {
            Some(total) => {
                self.total_channels = total;
            },
            None => {
                return Err(
                    ProtocolRegistryError::of(ProtocolRegistryErrorKind::RegistryLimitExceeded),
                );
            },
        }
        let id = descriptor.stable_id;
        self.descriptors.insert(id, descriptor);
        proof {
            lemma_channels_distinct(before.limits, descriptor@.channels);
            assert(self@.descriptors =~= before.with_descriptor(descriptor@).descriptors);
            assert(self@ =~= before.with_descriptor(descriptor@));
            assert forall|k: Seq<u8>| #[trigger] self@.descriptors.contains_key(k) implies
                self@.descriptors[k].stable_id@ == k && self@.descriptors[k].versions.is_valid()
                && distinct_ids(self@.descriptors[k].channels) by {
                if k != id@ {
                    assert(before.descriptors.contains_key(k));
                }
            }
        }
        Ok(())
    }

    /// Ends the registration.
    pub fn freeze(self) -> (frozen: FrozenProtocolRegistry)
        requires
            self.wf(),
        ensures
            frozen.wf(),
            frozen@ == (FrozenView {
                descriptors: self@.descriptors,
                max_remote_offers: self@.limits.max_protocols,
            }),
    {
        FrozenProtocolRegistry {
            descriptors: self.descriptors,
            max_remote_offers: self.limits.max_protocols,
        }
    }

    fn validate_descriptor(&self, descriptor: &ProtocolDescriptor) -> (valid: Result<
        (),
        ProtocolRegistryError,
    >)
        ensures
            match self@.limits.descriptor_fault(descriptor@) {
                None => valid is Ok,
                Some(kind) => valid == Err::<(), ProtocolRegistryError>(ProtocolRegistryError::of(kind)),
            },
    {
        match &descriptor.debug_identity {
            Some(identity) => {
                let authority: usize = identity.authority.as_str().as_bytes().len();
                let name: usize = identity.name.as_str().as_bytes().len();
                let length = match authority.checked_add(name) {
                    Some(n) => n.checked_add(1),
                    None => None,
                };
                let fits = match length {
                    Some(n) => n <= self.limits.max_protocol_id_bytes,
                    None => false,
                };
                if !identity.is_canonical() || !fits {
                    return Err(
                        ProtocolRegistryError::of(ProtocolRegistryErrorKind::InvalidProtocolId),
                    );
                }
                if !identity.stable_id().same(&descriptor.stable_id) {
                    return Err(
                        ProtocolRegistryError::of(ProtocolRegistryErrorKind::IdentityConflict),
                    );
                }
            },
            None => {},
        }
        if !descriptor.versions.is_valid() {
            return Err(ProtocolRegistryError::of(ProtocolRegistryErrorKind::InvalidVersionRange));
        }
        if descriptor.channels.len() == 0 || descriptor.channels.len()
            > self.limits.max_channels_per_protocol {
            return Err(ProtocolRegistryError::of(ProtocolRegistryErrorKind::RegistryLimitExceeded));
        }
        self.validate_channels(&descriptor.channels)
    }

    fn validate_channels(&self, channels: &Vec<ProtocolChannel>) -> (valid: Result<
        (),
        ProtocolRegistryError,
    >)
        ensures
            match self@.limits.channels_fault(channel_defs(channels@)) {
                None => valid is Ok,
                Some(kind) => valid == Err::<(), ProtocolRegistryError>(ProtocolRegistryError::of(kind)),
            },
    {
        let ghost defs = channel_defs(channels@);
        let ghost limits = self@.limits;
        let mut i: usize = 0;
        while i < channels.len()
            invariant
                defs == channel_defs(channels@),
                limits == self@.limits,
                limits == self.limits,
                i <= channels@.len(),
                limits.channels_fault(defs.subrange(0, i as int)) is None,
            decreases channels@.len() - i,
        {
            let channel = &channels[i];
            let ghost upto = defs.subrange(0, i + 1);
            proof {
                assert(upto.drop_last() =~= defs.subrange(0, i as int));
                assert(upto.last() == channel@);
            }
            let named = match &channel.debug_name {
                Some(name) => is_name(name.as_str()) && name.as_str().as_bytes().len()
                    <= self.limits.max_channel_name_bytes,
                None => true,
            };
            let stream_limited = match channel.max_stream_bytes {
                Some(n) => n > 0 && channel.mode == ChannelMode::Stream,
                None => channel.mode != ChannelMode::Stream,
            };
            if !named || channel.max_frame_bytes == 0 || channel.max_in_flight_frames == 0
                || !stream_limited || (channel.mode != ChannelMode::Event && channel.discardable) {
                proof {
                    assert(!limits.admits_channel(channel@));
                    lemma_fault_stays(limits, defs, i + 1);
                }
                return Err(ProtocolRegistryError::of(ProtocolRegistryErrorKind::InvalidChannel));
            }
            assert(limits.admits_channel(channel@));
            let mut j: usize = 0;
            while j < i
                invariant
                    defs == channel_defs(channels@),
                    limits == self@.limits,
                    i < channels@.len(),
                    j <= i,
                    *channel == channels@[i as int],
                    limits.admits_channel(channel@),
                    limits.channels_fault(defs.subrange(0, i as int)) is None,
                    upto == defs.subrange(0, i + 1),
                    upto.drop_last() == defs.subrange(0, i as int),
                    upto.last() == channel@,
                    forall|k: int| 0 <= k < j ==> (#[trigger] defs[k]).id != channel.id,
                decreases i - j,
            {
                assert(defs[j as int] == channels@[j as int]@);
                if channels[j].id == channel.id {
                    proof {
                        assert(upto.drop_last()[j as int] == defs[j as int]);
                        lemma_fault_stays(limits, defs, i + 1);
                    }
                    return Err(ProtocolRegistryError::of(ProtocolRegistryErrorKind::DuplicateChannel));
                }
                j = j + 1;
            }
            proof {
                assert forall|k: int| 0 <= k < upto.drop_last().len() implies (
                #[trigger] upto.drop_last()[k]).id != channel.id by {
                    assert(upto.drop_last()[k] == defs[k]);
                }
            }
            i = i + 1;
        }
        assert(defs.subrange(0, i as int) =~= defs);
        Ok(())
    }
}

/// What is wrong with the first channels is wrong with all of them.
proof fn lemma_fault_stays(limits: ProtocolRegistryLimits, channels: Seq<ChannelDefView>, n: int)
    requires
        0 <= n <= channels.len(),
        limits.channels_fault(channels.subrange(0, n)) is Some,
    ensures
        limits.channels_fault(channels) == limits.channels_fault(channels.subrange(0, n)),
    decreases channels.len(),
{
    if n == channels.len() {
        assert(channels.subrange(0, n) =~= channels);
    } else {
        let front = channels.drop_last();
        assert(front.subrange(0, n) =~= channels.subrange(0, n));
        lemma_fault_stays(limits, front, n);
    }
}

/// The registered protocols, to be offered and negotiated.
#[derive(Clone, Debug)]
pub struct FrozenProtocolRegistry {
    descriptors: SortedMap<ProtocolStableId, ProtocolDescriptor>,
    max_remote_offers: usize,
}

#[verifier::ext_equal]
pub struct FrozenView {
    pub descriptors: Map<Seq<u8>, DescriptorView>,
    pub max_remote_offers: usize,
}

impl View for FrozenProtocolRegistry {
    type V = FrozenView;

    closed spec fn view(&self) -> FrozenView {
        FrozenView {
            descriptors: descriptor_views(self.descriptors@),
            max_remote_offers: self.max_remote_offers,
        }
    }
}

/// The offer that a descriptor makes.
pub open spec fn offer_of(d: DescriptorView) -> OfferView {
    OfferView {
        stable_id: d.stable_id,
        debug_identity: d.debug_identity,
        versions: d.versions,
        schema: d.schema,
        capabilities: d.capabilities,
    }
}

/// What a descriptor and an offer settle on: the same protocol with the same schema,
/// a version that both admit, and the capabilities that both have.
pub open spec fn settled(d: DescriptorView, offer: OfferView) -> Option<SelectionView> {
    if offer.stable_id != d.stable_id || offer.schema != d.schema || d.capabilities.protocol_id
        != offer.capabilities.protocol_id {
        None
    } else {
        match d.versions.shared(offer.versions) {
            None => None,
            Some(version) => Some(
                SelectionView {
                    stable_id: d.stable_id,
                    version,
                    schema: d.schema,
                    capabilities: d.capabilities.shared(offer.capabilities),
                },
            ),
        }
    }
}

/// What a descriptor settles on with the first offer that it can settle with.
pub open spec fn first_settled(d: DescriptorView, remote: Seq<OfferView>) -> Option<SelectionView>
    decreases remote.len(),
{
    if remote.len() == 0 {
        None
    } else {
        match settled(d, remote[0]) {
            Some(selection) => Some(selection),
            None => first_settled(d, remote.drop_first()),
        }
    }
}

impl FrozenView {
    /// The identities of the protocols in ascending order.
    pub open spec fn ids(self) -> Seq<Seq<u8>> {
        ascending_keys::<ProtocolStableId>(self.descriptors.dom())
    }

    /// What the protocols of a row settle on, one by one; those that do not are left
    /// out.
    pub open spec fn negotiated(self, ids: Seq<Seq<u8>>, remote: Seq<OfferView>) -> Seq<SelectionView>
        decreases ids.len(),
    {
        if ids.len() == 0 {
            Seq::empty()
        } else {
            let front = self.negotiated(ids.drop_last(), remote);
            match first_settled(self.descriptors[ids.last()], remote) {
                Some(selection) => front.push(selection),
                None => front,
            }
        }
    }

    /// Why a selection is not activated.
    pub open spec fn selection_fault(self, selection: SelectionView) -> Option<
        ProtocolRegistryErrorKind,
    > {
        let d = self.descriptors[selection.stable_id@];
        if !self.descriptors.contains_key(selection.stable_id@) {
            Some(ProtocolRegistryErrorKind::UnknownProtocol)
        } else if d.schema != selection.schema {
            Some(ProtocolRegistryErrorKind::SchemaConflict)
        } else if !d.versions.admits(selection.version) {
            Some(ProtocolRegistryErrorKind::VersionNotSupported)
        } else if !selection.capabilities.subset_of(d.capabilities) {
            Some(ProtocolRegistryErrorKind::InvalidCapabilities)
        } else {
            None
        }
    }

    /// Why selections are not activated: the fault of the first that has one.
    pub open spec fn selections_fault(self, selections: Seq<SelectionView>) -> Option<
        ProtocolRegistryErrorKind,
    >
        decreases selections.len(),
    {
        if selections.len() == 0 {
            None
        } else {
            match self.selections_fault(selections.drop_last()) {
                Some(fault) => Some(fault),
                None => self.selection_fault(selections.last()),
            }
        }
    }

    /// The protocols of some selections, with the version of the last that names them.
    pub open spec fn activated(self, selections: Seq<SelectionView>) -> Map<Seq<u8>, ActiveView>
        decreases selections.len(),
    {
        if selections.len() == 0 {
            Map::empty()
        } else {
            let last = selections.last();
            self.activated(selections.drop_last()).insert(
                last.stable_id@,
                ActiveView {
                    version: last.version,
                    channels: self.descriptors[last.stable_id@].channels,
                },
            )
        }
    }
}

impl FrozenProtocolRegistry {
    /// Whether the registry is valid.
    pub closed spec fn wf(&self) -> bool {
        self.descriptors.wf() && descriptors_wf(self@.descriptors)
    }

    /// What is known of a valid registry.
    pub proof fn lemma_wf(&self)
        requires
            self.wf(),
        ensures
            descriptors_wf(self@.descriptors),
            self@.descriptors.dom().finite(),
    {
        self.lemma_descriptors();
    }

    proof fn lemma_descriptors(&self)
        requires
            self.descriptors.wf(),
        ensures
            self@.descriptors.dom() == self.descriptors@.dom(),
            self@.descriptors.dom().finite(),
            self.descriptors.keys().len() == self@.descriptors.dom().len(),
            self.descriptors.keys() == self@.ids(),
    {
        self.descriptors.lemma_entries();
        self.descriptors.lemma_ascending_keys();
        assert(self@.descriptors.dom() =~= self.descriptors@.dom());
    }

    /// The offers of the protocols, in the order of their identities.
    pub fn offers(&self) -> (offers: Vec<ProtocolOffer>)
        requires
            self.wf(),
        ensures
            offer_views(offers@) == Seq::new(
                self@.ids().len(),
                |i: int| offer_of(self@.descriptors[self@.ids()[i]]),
            ),
    {
        let mut offers: Vec<ProtocolOffer> = Vec::new();
        let len: usize = self.descriptors.len();
        let mut i: usize = 0;
        proof {
            self.lemma_descriptors();
        }
        while i < len
            invariant
                self.wf(),
                self.descriptors.keys() == self@.ids(),
                len == self@.ids().len(),
                i <= len,
                offers@.len() == i,
                forall|j: int|
                    0 <= j < i ==> (#[trigger] offers@[j])@ == offer_of(
                        self@.descriptors[self@.ids()[j]],
                    ),
            decreases len - i,
        {
            let d = self.descriptors.value_at(i);
            proof {
                self.descriptors.lemma_entries();
                assert(self.descriptors@.contains_key(self.descriptors.keys()[i as int]));
                assert(d@ == self@.descriptors[self@.ids()[i as int]]);
            }
            offers.push(
                ProtocolOffer {
                    stable_id: d.stable_id,
                    debug_identity: match &d.debug_identity {
                        Some(identity) => Some(identity.duplicate()),
                        None => None,
                    },
                    versions: d.versions,
                    schema: d.schema,
                    capabilities: d.capabilities.duplicate(),
                },
            );
            i = i + 1;
        }
        assert(offer_views(offers@) =~= Seq::new(
            self@.ids().len(),
            |i: int| offer_of(self@.descriptors[self@.ids()[i]]),
        ));
        offers
    }

    /// Settles each protocol on its own. One that does not fit is left out and does
    /// not stand in the way of the others.
    pub fn negotiate(&self, remote: &[ProtocolOffer]) -> (selections: Result<
        Vec<ProtocolSelection>,
        ProtocolRegistryError,
    >)
        requires
            self.wf(),
        ensures
            match selections {
                Ok(s) => {
                    &&& remote@.len() <= self@.max_remote_offers
                    &&& selection_views(s@) == self@.negotiated(self@.ids(), offer_views(remote@))
                },
                Err(e) => {
                    &&& remote@.len() > self@.max_remote_offers
                    &&& e == ProtocolRegistryError::of(ProtocolRegistryErrorKind::RegistryLimitExceeded)
                },
            },
    {
        if remote.len() > self.max_remote_offers {
            return Err(ProtocolRegistryError::of(ProtocolRegistryErrorKind::RegistryLimitExceeded));
        }
        let mut selections: Vec<ProtocolSelection> = Vec::new();
        let len: usize = self.descriptors.len();
        let mut i: usize = 0;
        let ghost ids = self@.ids();
        let ghost offers = offer_views(remote@);
        proof {
            self.lemma_descriptors();
            assert(selection_views(selections@) =~= self@.negotiated(ids.subrange(0, 0), offers));
        }
        while i < len
            invariant
                self.wf(),
                ids == self@.ids(),
                ids == self.descriptors.keys(),
                offers == offer_views(remote@),
                len == ids.len(),
                i <= len,
                selection_views(selections@) == self@.negotiated(ids.subrange(0, i as int), offers),
            decreases len - i,
        {
            let d = self.descriptors.value_at(i);
            proof {
                self.descriptors.lemma_entries();
                assert(self.descriptors@.contains_key(ids[i as int]));
                assert(d@ == self@.descriptors[ids[i as int]]);
                assert(ids.subrange(0, i + 1).drop_last() =~= ids.subrange(0, i as int));
            }
            match settle_first(d, remote) {
                Some(selection) => {
                    let ghost was = selections@;
                    selections.push(selection);
                    assert(selection_views(selections@) =~= selection_views(was).push(selection@));
                },
                None => {},
            }
            i = i + 1;
        }
        assert(ids.subrange(0, i as int) =~= ids);
        Ok(selections)
    }

    /// Takes what was negotiated into use.
    pub fn activate(&self, negotiated: &[ProtocolSelection]) -> (active: Result<
        ActiveProtocolSet,
        ProtocolRegistryError,
    >)
        requires
            self.wf(),
        ensures
            ({
                let views = selection_views(negotiated@);
                if negotiated@.len() > self@.descriptors.dom().len() {
                    active matches Err(e) && e == ProtocolRegistryError::of(
                        ProtocolRegistryErrorKind::RegistryLimitExceeded,
                    )
                } else {
                    match self@.selections_fault(views) {
                        Some(kind) => active matches Err(e) && e == ProtocolRegistryError::of(kind),
                        None => active matches Ok(set) && set.wf() && set@ == self@.activated(views),
                    }
                }
            }),
    {
        proof {
            self.lemma_descriptors();
        }
        if negotiated.len() > self.descriptors.len() {
            return Err(ProtocolRegistryError::of(ProtocolRegistryErrorKind::RegistryLimitExceeded));
        }
        let ghost views = selection_views(negotiated@);
        let mut active: SortedMap<ProtocolStableId, ActiveProtocol> = SortedMap::new();
        let mut i: usize = 0;
        proof {
            assert(active_views(active@) =~= self@.activated(views.subrange(0, 0)));
        }
        while i < negotiated.len()
            invariant
                self.wf(),
                views == selection_views(negotiated@),
                negotiated@.len() <= self@.descriptors.dom().len(),
                i <= negotiated@.len(),
                active.wf(),
                self@.selections_fault(views.subrange(0, i as int)) is None,
                active_views(active@) == self@.activated(views.subrange(0, i as int)),
            decreases negotiated@.len() - i,
        {
            let selection = &negotiated[i];
            let ghost upto = views.subrange(0, i + 1);
            proof {
                self.lemma_descriptors();
                assert(upto.drop_last() =~= views.subrange(0, i as int));
                assert(upto.last() == selection@);
                if self@.selection_fault(selection@) is Some {
                    lemma_selection_fault_stays(self@, views, i + 1);
                }
            }
            let d = match self.descriptors.get(&selection.stable_id) {
                Some(d) => d,
                None => {
                    return Err(ProtocolRegistryError::of(ProtocolRegistryErrorKind::UnknownProtocol));
                },
            };
            assert(d@ == self@.descriptors[selection@.stable_id@]);
            if !d.schema.same(&selection.schema) {
                return Err(ProtocolRegistryError::of(ProtocolRegistryErrorKind::SchemaConflict));
            }
            let exact = VersionRange::new(selection.version, selection.version);
            let supported = d.versions.negotiate(exact);
            proof {
                assert(exact.admits(selection.version));
                if supported is Some {
                    let v = supported->0;
                    assert(exact.admits(v));
                    assert(v == selection.version);
                } else if d.versions.admits(selection.version) {
                    assert(d.versions.admits(selection.version) && exact.admits(selection.version));
                }
            }
            if supported.is_none() {
                return Err(ProtocolRegistryError::of(ProtocolRegistryErrorKind::VersionNotSupported));
            }
            if !selection.capabilities.is_subset_of(&d.capabilities) {
                return Err(ProtocolRegistryError::of(ProtocolRegistryErrorKind::InvalidCapabilities));
            }
            let ghost before = active_views(active@);
            let channels = copy_channels(&d.channels);
            let entry = ActiveProtocol { version: selection.version, channels };
            active.insert(selection.stable_id, entry);
            proof {
                assert(active_views(active@) =~= before.insert(selection@.stable_id@, entry@));
                assert(active_views(active@) =~= self@.activated(upto));
            }
            i = i + 1;
        }
        assert(views.subrange(0, i as int) =~= views);
        Ok(ActiveProtocolSet { active })
    }
}

/// What is wrong with the first selections is wrong with all of them.
proof fn lemma_selection_fault_stays(registry: FrozenView, selections: Seq<SelectionView>, n: int)
    requires
        0 <= n <= selections.len(),
        registry.selections_fault(selections.subrange(0, n)) is Some,
    ensures
        registry.selections_fault(selections) == registry.selections_fault(selections.subrange(0, n)),
    decreases selections.len(),
{
    if n == selections.len() {
        assert(selections.subrange(0, n) =~= selections);
    } else {
        let front = selections.drop_last();
        assert(front.subrange(0, n) =~= selections.subrange(0, n));
        lemma_selection_fault_stays(registry, front, n);
    }
}

fn copy_channels(channels: &Vec<ProtocolChannel>) -> (copy: Vec<ProtocolChannel>)
    ensures
        channel_defs(copy@) == channel_defs(channels@),
{
    let mut copy: Vec<ProtocolChannel> = Vec::new();
    let mut i: usize = 0;
    while i < channels.len()
        invariant
            i <= channels@.len(),
            copy@.len() == i,
            forall|j: int| 0 <= j < i ==> (#[trigger] copy@[j])@ == channels@[j]@,
        decreases channels@.len() - i,
    {
        copy.push(channels[i].duplicate());
        i = i + 1;
    }
    assert(channel_defs(copy@) =~= channel_defs(channels@));
    copy
}

/// Settles a protocol with the first offer that it can settle with.
fn settle_first(d: &ProtocolDescriptor, remote: &[ProtocolOffer]) -> (selection: Option<
    ProtocolSelection,
>)
    ensures
        match selection {
            Some(s) => first_settled(d@, offer_views(remote@)) == Some(s@),
            None => first_settled(d@, offer_views(remote@)) is None,
        },
{
    let ghost offers = offer_views(remote@);
    let mut i: usize = 0;
    assert(offers.subrange(0, offers.len() as int) =~= offers);
    while i < remote.len()
        invariant
            offers == offer_views(remote@),
            i <= remote@.len(),
            first_settled(d@, offers) == first_settled(d@, offers.subrange(i as int, offers.len() as int)),
        decreases remote@.len() - i,
    {
        let offer = &remote[i];
        proof {
            let rest = offers.subrange(i as int, offers.len() as int);
            assert(rest[0] == offer@);
            assert(rest.drop_first() =~= offers.subrange(i + 1, offers.len() as int));
        }
        if offer.stable_id.same(&d.stable_id) && offer.schema.same(&d.schema) {
            match d.versions.negotiate(offer.versions) {
                Some(version) => {
                    match d.capabilities.intersect(&offer.capabilities) {
                        Some(capabilities) => {
                            return Some(
                                ProtocolSelection {
                                    stable_id: d.stable_id,
                                    version,
                                    schema: d.schema,
                                    capabilities,
                                },
                            );
                        },
                        None => {},
                    }
                },
                None => {},
            }
        }
        i = i + 1;
    }
    assert(offers.subrange(i as int, offers.len() as int) =~= Seq::empty());
    None
}

/// A protocol in use.
#[derive(Clone, Debug)]
struct ActiveProtocol {
    version: ProtocolVersion,
    channels: Vec<ProtocolChannel>,
}

#[verifier::ext_equal]
pub struct ActiveView {
    pub version: ProtocolVersion,
    pub channels: Seq<ChannelDefView>,
}

impl View for ActiveProtocol {
    type V = ActiveView;

    closed spec fn view(&self) -> ActiveView {
        ActiveView { version: self.version, channels: channel_defs(self.channels@) }
    }
}

spec fn active_views(active: Map<Seq<u8>, ActiveProtocol>) -> Map<Seq<u8>, ActiveView> {
    active.map_values(|p: ActiveProtocol| p@)
}

/// The protocols that a session uses.
#[derive(Clone, Debug)]
pub struct ActiveProtocolSet {
    active: SortedMap<ProtocolStableId, ActiveProtocol>,
}

impl View for ActiveProtocolSet {
    type V = Map<Seq<u8>, ActiveView>;

    closed spec fn view(&self) -> Map<Seq<u8>, ActiveView> {
        active_views(self.active@)
    }
}

/// What a channel is to be opened as.
#[derive(Clone, Copy, Debug, Eq, PartialEq)]
pub struct ChannelOpenRequest {
    pub protocol_id: ProtocolStableId,
    pub protocol_channel_id: ProtocolChannelId,
    pub channel_id: ChannelId,
    pub capacity: usize,
}

/// The first channel with a number.
pub open spec fn channel_with_id(channels: Seq<ChannelDefView>, id: ProtocolChannelId) -> Option<
    ChannelDefView,
>
    decreases channels.len(),
{
    if channels.len() == 0 {
        None
    } else if channels[0].id == id {
        Some(channels[0])
    } else {
        channel_with_id(channels.drop_first(), id)
    }
}

/// Why a channel is not opened.
pub open spec fn request_fault(active: Map<Seq<u8>, ActiveView>, request: ChannelOpenRequest) -> Option<
    ProtocolRegistryErrorKind,
> {
    if !active.contains_key(request.protocol_id@) {
        Some(ProtocolRegistryErrorKind::ProtocolNotNegotiated)
    } else {
        match channel_with_id(active[request.protocol_id@].channels, request.protocol_channel_id) {
            None => Some(ProtocolRegistryErrorKind::ChannelNotDefined),
            Some(channel) => if request.capacity == 0 || request.capacity > channel.max_in_flight_frames {
                Some(ProtocolRegistryErrorKind::ChannelCapacityExceeded)
            } else {
                None
            },
        }
    }
}

impl ActiveProtocolSet {
    /// Whether the set is valid.
    pub closed spec fn wf(&self) -> bool {
        self.active.wf()
    }

    proof fn lemma_active(&self)
        requires
            self.wf(),
        ensures
            self@.dom() == self.active@.dom(),
            self.active.keys().len() == self@.dom().len(),
    {
        self.active.lemma_entries();
        assert(self@.dom() =~= self.active@.dom());
    }

    /// Whether a protocol is in use.
    pub fn contains(&self, protocol: &ProtocolId) -> (used: bool)
        requires
            self.wf(),
        ensures
            used == self@.contains_key(spelled_identity(protocol@)),
    {
        proof {
            self.lemma_active();
        }
        self.active.contains_key(&protocol.stable_id())
    }

    /// How many protocols are in use.
    pub fn len(&self) -> (n: usize)
        requires
            self.wf(),
        ensures
            n == self@.dom().len(),
    {
        proof {
            self.lemma_active();
        }
        self.active.len()
    }

    /// Whether no protocol is in use.
    pub fn is_empty(&self) -> (empty: bool)
        requires
            self.wf(),
        ensures
            empty == (self@.dom().len() == 0),
    {
        self.len() == 0
    }

    /// Checks a channel against its definition.
    pub fn open_channel(&self, request: ChannelOpenRequest) -> (opened: Result<
        ValidatedChannel,
        ProtocolRegistryError,
    >)
        requires
            self.wf(),
        ensures
            match request_fault(self@, request) {
                Some(kind) => opened matches Err(e) && e == ProtocolRegistryError::of(kind),
                None => {
                    let protocol = self@[request.protocol_id@];
                    let channel = channel_with_id(protocol.channels, request.protocol_channel_id)->0;
                    &&& opened matches Ok(c)
                    &&& c.config@ == (ConfigView {
                        key: KeyView {
                            namespace: wire_namespace_text(request.protocol_id@),
                            version: protocol.version,
                            id: request.channel_id.0,
                        },
                        mode: channel.mode,
                        priority_hint: channel.priority,
                        capacity: request.capacity,
                    })
                    &&& c.protocol_id == request.protocol_id
                    &&& c.protocol_channel_id == request.protocol_channel_id
                    &&& c.max_frame_bytes == channel.max_frame_bytes
                    &&& c.max_stream_bytes == channel.max_stream_bytes
                    &&& c.discardable == channel.discardable
                },
            },
    {
        proof {
            self.lemma_active();
        }
        let protocol = match self.active.get(&request.protocol_id) {
            Some(protocol) => protocol,
            None => {
                return Err(
                    ProtocolRegistryError::of(ProtocolRegistryErrorKind::ProtocolNotNegotiated),
                );
            },
        };
        assert(protocol@ == self@[request.protocol_id@]);
        let channel = match find_channel(&protocol.channels, request.protocol_channel_id) {
            Some(channel) => channel,
            None => {
                return Err(ProtocolRegistryError::of(ProtocolRegistryErrorKind::ChannelNotDefined));
            },
        };
        if request.capacity == 0 || request.capacity > channel.max_in_flight_frames {
            return Err(ProtocolRegistryError::of(ProtocolRegistryErrorKind::ChannelCapacityExceeded));
        }
        Ok(
            ValidatedChannel {
                config: ChannelConfig {
                    key: ChannelKey {
                        namespace: request.protocol_id.wire_namespace(),
                        version: protocol.version,
                        id: request.channel_id,
                    },
                    mode: channel.mode,
                    priority_hint: channel.priority,
                    capacity: request.capacity,
                },
                protocol_id: request.protocol_id,
                protocol_channel_id: request.protocol_channel_id,
                max_frame_bytes: channel.max_frame_bytes,
                max_stream_bytes: channel.max_stream_bytes,
                discardable: channel.discardable,
            },
        )
    }
}

fn find_channel(channels: &Vec<ProtocolChannel>, id: ProtocolChannelId) -> (found: Option<
    &ProtocolChannel,
>)
    ensures
        match found {
            Some(channel) => channel_with_id(channel_defs(channels@), id) == Some(channel@),
            None => channel_with_id(channel_defs(channels@), id) is None,
        },
{
    let ghost defs = channel_defs(channels@);
    let mut i: usize = 0;
    assert(defs.subrange(0, defs.len() as int) =~= defs);
    while i < channels.len()
        invariant
            defs == channel_defs(channels@),
            i <= channels@.len(),
            channel_with_id(defs, id) == channel_with_id(defs.subrange(i as int, defs.len() as int), id),
        decreases channels@.len() - i,
    {
        proof {
            let rest = defs.subrange(i as int, defs.len() as int);
            assert(rest[0] == channels@[i as int]@);
            assert(rest.drop_first() =~= defs.subrange(i + 1, defs.len() as int));
        }
        if channels[i].id == id {
            return Some(&channels[i]);
        }
        i = i + 1;
    }
    assert(defs.subrange(i as int, defs.len() as int) =~= Seq::empty());
    None
}

/// A channel that keeps to its definition.
#[derive(Clone, Debug, Eq, PartialEq)]
pub struct ValidatedChannel {
    pub config: ChannelConfig,
    pub protocol_id: ProtocolStableId,
    pub protocol_channel_id: ProtocolChannelId,
    pub max_frame_bytes: usize,
    pub max_stream_bytes: Option<u64>,
    pub discardable: bool,
}

/// Why a frame of a channel is not sent.
pub open spec fn frame_fault(
    max_frame_bytes: usize,
    max_stream_bytes: Option<u64>,
    frame_bytes: usize,
    stream_bytes: Option<u64>,
) -> Option<ProtocolRegistryErrorKind> {
    if frame_bytes > max_frame_bytes {
        Some(ProtocolRegistryErrorKind::FrameLimitExceeded)
    } else {
        match (stream_bytes, max_stream_bytes) {
            (None, _) => None,
            (Some(_), None) => Some(ProtocolRegistryErrorKind::StreamLimitExceeded),
            (Some(n), Some(maximum)) => if n > maximum {
                Some(ProtocolRegistryErrorKind::StreamLimitExceeded)
            } else {
                None
            },
        }
    }
}

impl ValidatedChannel {
    /// How the channel is opened in a multiplexer.
    pub fn config(&self) -> (config: &ChannelConfig)
        ensures
            *config == self.config,
    {
        &self.config
    }

    /// The protocol of the channel.
    pub fn protocol_id(&self) -> (id: ProtocolStableId)
        ensures
            id == self.protocol_id,
    {
        self.protocol_id
    }

    /// The mapping that is told to the other side.
    pub fn accepted_mapping(&self) -> (mapping: AcceptChannel)
        ensures
            mapping.protocol_id == self.protocol_id,
            mapping.protocol_channel_id == self.protocol_channel_id,
            mapping.session_channel_id == self.config.key.id,
    {
        AcceptChannel {
            protocol_id: self.protocol_id,
            protocol_channel_id: self.protocol_channel_id,
            session_channel_id: self.config.key.id,
        }
    }

    /// Whether a frame keeps to the limits of the channel.
    pub fn validate_payload(&self, frame_bytes: usize, stream_bytes: Option<u64>) -> (valid: Result<
        (),
        ProtocolRegistryError,
    >)
        ensures
            match frame_fault(self.max_frame_bytes, self.max_stream_bytes, frame_bytes, stream_bytes) {
                None => valid is Ok,
                Some(kind) => valid == Err::<(), ProtocolRegistryError>(ProtocolRegistryError::of(kind)),
            },
    {
        if frame_bytes > self.max_frame_bytes {
            return Err(ProtocolRegistryError::of(ProtocolRegistryErrorKind::FrameLimitExceeded));
        }
        match stream_bytes {
            None => {},
            Some(n) => {
                match self.max_stream_bytes {
                    None => {
                        return Err(
                            ProtocolRegistryError::of(ProtocolRegistryErrorKind::StreamLimitExceeded),
                        );
                    },
                    Some(maximum) => {
                        if n > maximum {
                            return Err(
                                ProtocolRegistryError::of(
                                    ProtocolRegistryErrorKind::StreamLimitExceeded,
                                ),
                            );
                        }
                    },
                }
            },
        }
        Ok(())
    }
}

/// A protocol that cannot be settled changes nothing of what the others settle on,
/// wherever it stands among them.
pub proof fn incompatible_protocols_leave_the_others(
    registry: FrozenView,
    ids: Seq<Seq<u8>>,
    remote: Seq<OfferView>,
    k: int,
)
    requires
        0 <= k < ids.len(),
        first_settled(registry.descriptors[ids[k]], remote) is None,
    ensures
        registry.negotiated(ids, remote) == registry.negotiated(ids.remove(k), remote),
    decreases ids.len(),
{
    if k == ids.len() - 1 {
        assert(ids.remove(k) =~= ids.drop_last());
    } else {
        incompatible_protocols_leave_the_others(registry, ids.drop_last(), remote, k);
        assert(ids.remove(k).drop_last() =~= ids.drop_last().remove(k));
        assert(ids.remove(k).last() == ids.last());
    }
}

/// A protocol that can be settled is among those that are.
pub proof fn compatible_protocols_are_settled(
    registry: FrozenView,
    ids: Seq<Seq<u8>>,
    remote: Seq<OfferView>,
    k: int,
)
    requires
        0 <= k < ids.len(),
        first_settled(registry.descriptors[ids[k]], remote) is Some,
    ensures
        registry.negotiated(ids, remote).contains(
            first_settled(registry.descriptors[ids[k]], remote)->0,
        ),
    decreases ids.len(),
{
    let selection = first_settled(registry.descriptors[ids[k]], remote)->0;
    let all = registry.negotiated(ids, remote);
    let front = registry.negotiated(ids.drop_last(), remote);
    if k == ids.len() - 1 {
        assert(all.last() == selection);
    } else {
        compatible_protocols_are_settled(registry, ids.drop_last(), remote, k);
        let i = front.index_of(selection);
        assert(all[i] == selection);
    }
}

proof fn lemma_settled(d: DescriptorView, remote: Seq<OfferView>)
    requires
        first_settled(d, remote) is Some,
    ensures
        ({
            let s = first_settled(d, remote)->0;
            &&& s.stable_id == d.stable_id
            &&& s.schema == d.schema
            &&& d.versions.admits(s.version)
            &&& s.capabilities.subset_of(d.capabilities)
        }),
    decreases remote.len(),
{
    match settled(d, remote[0]) {
        Some(s) => {
            shared_is_subset(d.capabilities, remote[0].capabilities);
        },
        None => {
            lemma_settled(d, remote.drop_first());
        },
    }
}

/// What is negotiated can be activated.
pub proof fn negotiated_protocols_can_be_activated(
    registry: FrozenView,
    ids: Seq<Seq<u8>>,
    remote: Seq<OfferView>,
)
    requires
        descriptors_wf(registry.descriptors),
        forall|i: int| 0 <= i < ids.len() ==> registry.descriptors.contains_key(#[trigger] ids[i]),
    ensures
        registry.selections_fault(registry.negotiated(ids, remote)) is None,
        registry.negotiated(ids, remote).len() <= ids.len(),
    decreases ids.len(),
{
    if ids.len() > 0 {
        let front = ids.drop_last();
        assert forall|i: int| 0 <= i < front.len() implies registry.descriptors.contains_key(
            #[trigger] front[i],
        ) by {
            assert(front[i] == ids[i]);
        }
        negotiated_protocols_can_be_activated(registry, front, remote);
        let d = registry.descriptors[ids.last()];
        assert(registry.descriptors.contains_key(ids[ids.len() - 1]));
        match first_settled(d, remote) {
            Some(s) => {
                lemma_settled(d, remote);
                let before = registry.negotiated(front, remote);
                assert(before.push(s).drop_last() =~= before);
            },
            None => {},
        }
    }
}

/// A selection that names a capability which its protocol does not have, be it in a word
/// beyond those of the protocol, is refused.
pub proof fn foreign_capabilities_are_refused(registry: FrozenView, selection: SelectionView, i: int)
    requires
        ({
            let d = registry.descriptors[selection.stable_id@];
            let word = selection.capabilities.words[i];
            &&& registry.descriptors.contains_key(selection.stable_id@)
            &&& selection.schema == d.schema
            &&& d.versions.admits(selection.version)
            &&& 0 <= i < selection.capabilities.words.len()
            &&& word & !d.capabilities.word(i) != 0 || i >= d.capabilities.words.len() && word != 0
        }),
    ensures
        registry.selection_fault(selection) == Some(ProtocolRegistryErrorKind::InvalidCapabilities),
        registry.selections_fault(seq![selection]) == Some(
            ProtocolRegistryErrorKind::InvalidCapabilities,
        ),
{
    let d = registry.descriptors[selection.stable_id@];
    let word = selection.capabilities.words[i];
    assert(word & !0u64 == word) by (bit_vector);
    assert(selection.capabilities.words[i] & !d.capabilities.word(i) != 0);
    assert(seq![selection].drop_last() =~= Seq::<SelectionView>::empty());
    assert(registry.selections_fault(seq![selection].drop_last()) is None);
}

/// What a registry took is there when it is frozen, and nothing else; what it refused leaves
/// it as it was. As many offers are heard of the peer as protocols may be registered.
pub proof fn frozen_registries_hold_what_was_registered(
    before: ProtocolRegistry,
    descriptor: ProtocolDescriptor,
)
    ensures
        forall|
            lent: &mut ProtocolRegistry,
            registered: Result<(), ProtocolRegistryError>,
            frozen: FrozenProtocolRegistry,
        |
            {
                &&& *lent == before
                &&& #[trigger] call_ensures(ProtocolRegistry::register, (lent, descriptor), registered)
                &&& #[trigger] call_ensures(ProtocolRegistry::freeze, (*final(lent),), frozen)
            } ==> {
                let id = descriptor@.stable_id@;
                &&& registered is Ok ==> {
                    &&& frozen@.descriptors.contains_key(id)
                    &&& frozen@.descriptors[id] == descriptor@
                    &&& frozen@.descriptors.remove(id) =~= before@.descriptors.remove(id)
                }
                &&& registered is Err ==> frozen@.descriptors == before@.descriptors
                &&& frozen@.max_remote_offers == before@.limits.max_protocols
            },
{
}

/// A channel that was opened is mapped to the number that was asked for, and takes its mode,
/// its priority and its limits from its protocol.
pub proof fn opened_channels_keep_what_was_asked_for(
    set: ActiveProtocolSet,
    request: ChannelOpenRequest,
)
    ensures
        forall|opened: Result<ValidatedChannel, ProtocolRegistryError>, mapping: AcceptChannel|
            {
                &&& #[trigger] call_ensures(ActiveProtocolSet::open_channel, (&set, request), opened)
                &&& opened is Ok
                &&& #[trigger] call_ensures(
                    ValidatedChannel::accepted_mapping,
                    (&opened->Ok_0,),
                    mapping,
                )
            } ==> {
                &&& mapping.protocol_id == request.protocol_id
                &&& mapping.protocol_channel_id == request.protocol_channel_id
                &&& mapping.session_channel_id.0 == request.channel_id.0
                &&& opened->Ok_0.config@.capacity == request.capacity
                &&& opened->Ok_0.config@.key.version == set@[request.protocol_id@].version
            },
{
}

} // verus!
