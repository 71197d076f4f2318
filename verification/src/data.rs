//! Compact data frames.
//!
//! A frame is the bytes `MLDT`, the wire version, the kind of the frame, the
//! session, the channel and its generation, the sequence number, the nesting
//! depth, the flags, the length of the payload, and the payload.

use vstd::prelude::*;
use vstd::slice::{slice_subrange, slice_to_vec};
use crate::bytes::{
    be16, be16_of_value, be32, be32_of_value, be64, be64_of_value, push_bytes, push_u16, push_u32, push_u64,
    read_16, read_u16, read_u32, read_u64, value16, value32, value64, value_of_be16, value_of_be32,
    value_of_be64,
};
use crate::channel::{CONTROL_CHANNEL_ID, ChannelGeneration, ChannelId, EnvelopeFlags};
use crate::control::ControlIdentityMode;
use crate::identity::SessionId;
use crate::protocol_ids::LinkCapabilities;

verus! {

pub const COMPACT_DATA_WIRE_VERSION: u16 = 1;

pub const COMPACT_DATA_HEADER_BYTES: usize = 47;

/// The bytes `MLDT`.
pub const DATA_MAGIC: u32 = 0x4d4c4454;

pub const DATA_FRAME_KIND: u8 = 1;

/// How data frames name channels.
#[derive(Clone, Copy, Debug, Eq, PartialEq, Structural)]
pub enum DataIdentityMode {
    LegacyFullChannelKey,
    CompactV1,
}

impl DataIdentityMode {
    /// Compact frames need typed control and the capability for them.
    #[verifier::allow_in_spec]
    pub fn negotiate(control_mode: ControlIdentityMode, capabilities: LinkCapabilities) -> Self
        returns
            (if control_mode == ControlIdentityMode::TypedV1 && capabilities.contains(
                LinkCapabilities::compact_channel_id(),
            ) {
                DataIdentityMode::CompactV1
            } else {
                DataIdentityMode::LegacyFullChannelKey
            }),
    {
        if control_mode == ControlIdentityMode::TypedV1 && capabilities.contains(
            LinkCapabilities::compact_channel_id(),
        ) {
            DataIdentityMode::CompactV1
        } else {
            DataIdentityMode::LegacyFullChannelKey
        }
    }
}

/// Keeps the two ways of naming channels apart within a session.
#[derive(Clone, Copy, Debug, Eq, PartialEq, Structural)]
pub struct DataModeGuard {
    pub mode: DataIdentityMode,
}

impl DataModeGuard {
    #[verifier::allow_in_spec]
    pub fn new(mode: DataIdentityMode) -> Self
        returns
            (DataModeGuard { mode }),
    {
        DataModeGuard { mode }
    }

    #[verifier::allow_in_spec]
    pub fn mode(self) -> DataIdentityMode
        returns
            self.mode,
    {
        self.mode
    }

    /// Admits compact frames.
    pub fn validate_compact(self) -> (verdict: Result<(), DataCodecError>)
        ensures
            verdict == (if self.mode == DataIdentityMode::CompactV1 {
                Ok(())
            } else {
                Err::<(), DataCodecError>(DataCodecError::of(DataCodecErrorKind::ModeMismatch))
            }),
    {
        if self.mode == DataIdentityMode::CompactV1 {
            Ok(())
        } else {
            Err(DataCodecError::of(DataCodecErrorKind::ModeMismatch))
        }
    }

    /// Admits frames that spell the channel out.
    pub fn validate_legacy(self) -> (verdict: Result<(), DataCodecError>)
        ensures
            verdict == (if self.mode == DataIdentityMode::LegacyFullChannelKey {
                Ok(())
            } else {
                Err::<(), DataCodecError>(DataCodecError::of(DataCodecErrorKind::ModeMismatch))
            }),
    {
        if self.mode == DataIdentityMode::LegacyFullChannelKey {
            Ok(())
        } else {
            Err(DataCodecError::of(DataCodecErrorKind::ModeMismatch))
        }
    }
}

/// What a frame may hold.
#[derive(Clone, Copy, Debug, Eq, PartialEq, Structural)]
pub struct DataCodecLimits {
    pub max_payload_bytes: usize,
    pub max_nesting_depth: u16,
}

impl Default for DataCodecLimits {
    fn default() -> (limits: Self)
        ensures
            limits == (DataCodecLimits { max_payload_bytes: 1048576, max_nesting_depth: 32 }),
    {
        DataCodecLimits { max_payload_bytes: 1048576, max_nesting_depth: 32 }
    }
}

#[derive(Clone, Copy, Debug, Eq, PartialEq, Structural)]
pub enum DataCodecErrorKind {
    ModeMismatch,
    UnsupportedVersion,
    UnknownFrameKind,
    InvalidHeader,
    InvalidFlags,
    InvalidChannel,
    LimitExceeded,
    Truncated,
    TrailingBytes,
}

/// Why a data frame was refused.
#[derive(Clone, Debug, Eq, PartialEq)]
pub struct DataCodecError {
    pub kind: DataCodecErrorKind,
    pub public_message: &'static str,
}

impl DataCodecError {
    #[verifier::allow_in_spec]
    pub fn of(kind: DataCodecErrorKind) -> Self
        returns
            (DataCodecError { kind, public_message: match kind {
                DataCodecErrorKind::ModeMismatch => "data identity mode does not match negotiated session",
                DataCodecErrorKind::UnsupportedVersion => "unsupported compact data wire version",
                DataCodecErrorKind::UnknownFrameKind => "unknown Link frame kind",
                DataCodecErrorKind::InvalidHeader => "invalid compact data header",
                DataCodecErrorKind::InvalidFlags => "invalid compact data flags",
                DataCodecErrorKind::InvalidChannel => "compact data channel identity is invalid",
                DataCodecErrorKind::LimitExceeded => "compact data frame exceeds a resource limit",
                DataCodecErrorKind::Truncated => "truncated compact data frame",
                DataCodecErrorKind::TrailingBytes => "compact data frame contains trailing bytes",
            } }),
    {
        let public_message = match kind {
            DataCodecErrorKind::ModeMismatch => "data identity mode does not match negotiated session",
            DataCodecErrorKind::UnsupportedVersion => "unsupported compact data wire version",
            DataCodecErrorKind::UnknownFrameKind => "unknown Link frame kind",
            DataCodecErrorKind::InvalidHeader => "invalid compact data header",
            DataCodecErrorKind::InvalidFlags => "invalid compact data flags",
            DataCodecErrorKind::InvalidChannel => "compact data channel identity is invalid",
            DataCodecErrorKind::LimitExceeded => "compact data frame exceeds a resource limit",
            DataCodecErrorKind::Truncated => "truncated compact data frame",
            DataCodecErrorKind::TrailingBytes => "compact data frame contains trailing bytes",
        };
        DataCodecError { kind, public_message }
    }

    /// The text that may be shown to a user.
    pub fn display_text(&self) -> (text: String)
        ensures
            text@ == self.public_message@,
    {
        self.public_message.to_owned()
    }
}

/// A data frame.
#[derive(Clone, Debug, Eq, PartialEq)]
pub struct DataEnvelope {
    pub session_id: SessionId,
    pub channel_id: ChannelId,
    pub generation: ChannelGeneration,
    pub sequence: u64,
    pub nesting_depth: u16,
    pub flags: EnvelopeFlags,
    pub payload: Vec<u8>,
}

/// A data frame whose payload lies in the buffer that it was read from.
#[derive(Clone, Copy, Debug, Eq, PartialEq)]
pub struct BorrowedDataEnvelope<'a> {
    pub session_id: SessionId,
    pub channel_id: ChannelId,
    pub generation: ChannelGeneration,
    pub sequence: u64,
    pub nesting_depth: u16,
    pub flags: EnvelopeFlags,
    pub payload: &'a [u8],
}

/// What a data frame says.
#[verifier::ext_equal]
pub struct DataView {
    pub session_id: SessionId,
    pub channel_id: ChannelId,
    pub generation: ChannelGeneration,
    pub sequence: u64,
    pub nesting_depth: u16,
    pub flags: EnvelopeFlags,
    pub payload: Seq<u8>,
}

impl View for DataEnvelope {
    type V = DataView;

    open spec fn view(&self) -> DataView {
        DataView {
            session_id: self.session_id,
            channel_id: self.channel_id,
            generation: self.generation,
            sequence: self.sequence,
            nesting_depth: self.nesting_depth,
            flags: self.flags,
            payload: self.payload@,
        }
    }
}

impl<'a> View for BorrowedDataEnvelope<'a> {
    type V = DataView;

    open spec fn view(&self) -> DataView {
        DataView {
            session_id: self.session_id,
            channel_id: self.channel_id,
            generation: self.generation,
            sequence: self.sequence,
            nesting_depth: self.nesting_depth,
            flags: self.flags,
            payload: self.payload@,
        }
    }
}

impl<'a> BorrowedDataEnvelope<'a> {
    /// A frame that owns a copy of the payload.
    pub fn into_owned(self) -> (owned: DataEnvelope)
        ensures
            owned@ == self@,
    {
        DataEnvelope {
            session_id: self.session_id,
            channel_id: self.channel_id,
            generation: self.generation,
            sequence: self.sequence,
            nesting_depth: self.nesting_depth,
            flags: self.flags,
            payload: slice_to_vec(self.payload),
        }
    }
}

/// The flags as bits: the lowest marks the end of a stream, the next a cancelled one.
pub open spec fn flag_bits(flags: EnvelopeFlags) -> u16 {
    match (flags.end_of_stream, flags.cancelled) {
        (false, false) => 0,
        (true, false) => 1,
        (false, true) => 2,
        (true, true) => 3,
    }
}

/// The flags with these bits.
pub open spec fn flags_with(bits: u16) -> EnvelopeFlags {
    EnvelopeFlags { end_of_stream: bits == 1 || bits == 3, cancelled: bits == 2 || bits == 3 }
}

/// The frame before its payload.
pub open spec fn data_header(v: DataView) -> Seq<u8> {
    be32(DATA_MAGIC) + be16(COMPACT_DATA_WIRE_VERSION) + seq![DATA_FRAME_KIND] + v.session_id@ + be32(
        v.channel_id.0,
    ) + be32(v.generation.0) + be64(v.sequence) + be16(v.nesting_depth) + be16(flag_bits(v.flags)) + be32(
        v.payload.len() as u32,
    )
}

/// The frame on the wire.
pub open spec fn data_bytes(v: DataView) -> Seq<u8> {
    data_header(v) + v.payload
}

/// Why a frame cannot be written.
pub open spec fn data_fault(mode: DataIdentityMode, v: DataView, limits: DataCodecLimits) -> Option<
    DataCodecErrorKind,
> {
    if mode != DataIdentityMode::CompactV1 {
        Some(DataCodecErrorKind::ModeMismatch)
    } else if v.channel_id.0 == CONTROL_CHANNEL_ID || v.generation.0 == 0 {
        Some(DataCodecErrorKind::InvalidChannel)
    } else if v.payload.len() > limits.max_payload_bytes || v.nesting_depth > limits.max_nesting_depth
        || v.payload.len() > u32::MAX {
        Some(DataCodecErrorKind::LimitExceeded)
    } else {
        None
    }
}

/// The two bytes of the wire at `at`, as a number.
pub open spec fn u16_at(wire: Seq<u8>, at: int) -> u16 {
    value16(wire.subrange(at, at + 2))
}

/// The four bytes of the wire at `at`, as a number.
pub open spec fn u32_at(wire: Seq<u8>, at: int) -> u32 {
    value32(wire.subrange(at, at + 4))
}

/// The eight bytes of the wire at `at`, as a number.
pub open spec fn u64_at(wire: Seq<u8>, at: int) -> u64 {
    value64(wire.subrange(at, at + 8))
}

/// Why some bytes are no frame: the first of these that holds.
pub open spec fn wire_fault(mode: DataIdentityMode, wire: Seq<u8>, limits: DataCodecLimits) -> Option<
    DataCodecErrorKind,
> {
    if mode != DataIdentityMode::CompactV1 {
        Some(DataCodecErrorKind::ModeMismatch)
    } else if wire.len() < COMPACT_DATA_HEADER_BYTES {
        Some(DataCodecErrorKind::Truncated)
    } else if u32_at(wire, 0) != DATA_MAGIC {
        Some(DataCodecErrorKind::InvalidHeader)
    } else if u16_at(wire, 4) != COMPACT_DATA_WIRE_VERSION {
        Some(DataCodecErrorKind::UnsupportedVersion)
    } else if wire[6] != DATA_FRAME_KIND {
        Some(DataCodecErrorKind::UnknownFrameKind)
    } else if u32_at(wire, 23) == CONTROL_CHANNEL_ID || u32_at(wire, 27) == 0 {
        Some(DataCodecErrorKind::InvalidChannel)
    } else if u16_at(wire, 39) > limits.max_nesting_depth {
        Some(DataCodecErrorKind::LimitExceeded)
    } else if u16_at(wire, 41) > 3 {
        Some(DataCodecErrorKind::InvalidFlags)
    } else if u32_at(wire, 43) > limits.max_payload_bytes || COMPACT_DATA_HEADER_BYTES + u32_at(wire, 43)
        > usize::MAX {
        Some(DataCodecErrorKind::LimitExceeded)
    } else if wire.len() < COMPACT_DATA_HEADER_BYTES + u32_at(wire, 43) {
        Some(DataCodecErrorKind::Truncated)
    } else if wire.len() > COMPACT_DATA_HEADER_BYTES + u32_at(wire, 43) {
        Some(DataCodecErrorKind::TrailingBytes)
    } else {
        None
    }
}

/// Whether a frame says what stands at the places of the header and behind it.
pub open spec fn says(wire: Seq<u8>, v: DataView) -> bool {
    &&& v.session_id@ == wire.subrange(7, 23)
    &&& v.channel_id == ChannelId(u32_at(wire, 23))
    &&& v.generation == ChannelGeneration(u32_at(wire, 27))
    &&& v.sequence == u64_at(wire, 31)
    &&& v.nesting_depth == u16_at(wire, 39)
    &&& v.flags == flags_with(u16_at(wire, 41))
    &&& v.payload == wire.subrange(COMPACT_DATA_HEADER_BYTES as int, wire.len() as int)
}

fn validate_limits(envelope: &DataEnvelope, limits: DataCodecLimits) -> (verdict: Result<
    (),
    DataCodecError,
>)
    ensures
        match data_fault(DataIdentityMode::CompactV1, envelope@, limits) {
            Some(kind) => verdict == Err::<(), DataCodecError>(DataCodecError::of(kind)),
            None => verdict is Ok,
        },
{
    if envelope.channel_id.0 == CONTROL_CHANNEL_ID || envelope.generation.0 == 0 {
        return Err(DataCodecError::of(DataCodecErrorKind::InvalidChannel));
    }
    if envelope.payload.len() > limits.max_payload_bytes || envelope.nesting_depth
        > limits.max_nesting_depth || envelope.payload.len() as u64 > u32::MAX as u64 {
        return Err(DataCodecError::of(DataCodecErrorKind::LimitExceeded));
    }
    Ok(())
}

fn flags_to_bits(flags: EnvelopeFlags) -> (bits: u16)
    ensures
        bits == flag_bits(flags),
{
    let end: u16 = if flags.end_of_stream {
        1
    } else {
        0
    };
    if flags.cancelled {
        end + 2
    } else {
        end
    }
}

fn flags_from_bits(bits: u16) -> (flags: Result<EnvelopeFlags, DataCodecError>)
    ensures
        match flags {
            Ok(f) => bits <= 3 && f == flags_with(bits),
            Err(e) => bits > 3 && e == DataCodecError::of(DataCodecErrorKind::InvalidFlags),
        },
{
    if bits > 3 {
        return Err(DataCodecError::of(DataCodecErrorKind::InvalidFlags));
    }
    Ok(EnvelopeFlags { end_of_stream: bits == 1 || bits == 3, cancelled: bits == 2 || bits == 3 })
}

/// Writes a frame.
pub fn encode_data_envelope(guard: DataModeGuard, envelope: &DataEnvelope, limits: DataCodecLimits) -> (wire:
    Result<Vec<u8>, DataCodecError>)
    ensures
        match wire {
            Ok(bytes) => {
                &&& data_fault(guard.mode, envelope@, limits) is None
                &&& bytes@ == data_bytes(envelope@)
            },
            Err(e) => {
                &&& data_fault(guard.mode, envelope@, limits) is Some
                &&& e == DataCodecError::of(data_fault(guard.mode, envelope@, limits)->Some_0)
            },
        },
{
    let mut output: Vec<u8> = Vec::new();
    encode_data_envelope_into(guard, envelope, limits, &mut output)?;
    Ok(output)
}

/// Writes a frame into storage that the caller owns. After one adequate reserve,
/// repeated calls do not grow the buffer and therefore need no allocation per
/// frame. A refused frame leaves the buffer as it was.
pub fn encode_data_envelope_into(
    guard: DataModeGuard,
    envelope: &DataEnvelope,
    limits: DataCodecLimits,
    output: &mut Vec<u8>,
) -> (written: Result<(), DataCodecError>)
    ensures
        match written {
            Ok(()) => {
                &&& data_fault(guard.mode, envelope@, limits) is None
                &&& final(output)@ == data_bytes(envelope@)
            },
            Err(e) => {
                &&& data_fault(guard.mode, envelope@, limits) is Some
                &&& e == DataCodecError::of(data_fault(guard.mode, envelope@, limits)->Some_0)
                &&& final(output)@ == old(output)@
            },
        },
{
    guard.validate_compact()?;
    validate_limits(envelope, limits)?;
    output.clear();
    output.reserve(envelope.payload.len());
    push_u32(output, DATA_MAGIC);
    push_u16(output, COMPACT_DATA_WIRE_VERSION);
    output.push(DATA_FRAME_KIND);
    assert(output@ =~= be32(DATA_MAGIC) + be16(COMPACT_DATA_WIRE_VERSION) + seq![DATA_FRAME_KIND]);
    push_bytes(output, envelope.session_id.as_bytes());
    push_u32(output, envelope.channel_id.0);
    push_u32(output, envelope.generation.0);
    push_u64(output, envelope.sequence);
    push_u16(output, envelope.nesting_depth);
    push_u16(output, flags_to_bits(envelope.flags));
    push_u32(output, envelope.payload.len() as u32);
    push_bytes(output, envelope.payload.as_slice());
    Ok(())
}

/// Reads a frame without copying its payload.
pub fn decode_data_envelope<'a>(guard: DataModeGuard, wire: &'a [u8], limits: DataCodecLimits) -> (envelope:
    Result<BorrowedDataEnvelope<'a>, DataCodecError>)
    ensures
        match envelope {
            Ok(v) => wire_fault(guard.mode, wire@, limits) is None && says(wire@, v@),
            Err(e) => {
                &&& wire_fault(guard.mode, wire@, limits) is Some
                &&& e == DataCodecError::of(wire_fault(guard.mode, wire@, limits)->Some_0)
            },
        },
{
    guard.validate_compact()?;
    if wire.len() < COMPACT_DATA_HEADER_BYTES {
        return Err(DataCodecError::of(DataCodecErrorKind::Truncated));
    }
    if read_u32(wire, 0) != DATA_MAGIC {
        return Err(DataCodecError::of(DataCodecErrorKind::InvalidHeader));
    }
    if read_u16(wire, 4) != COMPACT_DATA_WIRE_VERSION {
        return Err(DataCodecError::of(DataCodecErrorKind::UnsupportedVersion));
    }
    if wire[6] != DATA_FRAME_KIND {
        return Err(DataCodecError::of(DataCodecErrorKind::UnknownFrameKind));
    }
    let session_id = SessionId::from_bytes(read_16(wire, 7));
    let channel_id = ChannelId(read_u32(wire, 23));
    let generation = ChannelGeneration(read_u32(wire, 27));
    if channel_id.0 == CONTROL_CHANNEL_ID || generation.0 == 0 {
        return Err(DataCodecError::of(DataCodecErrorKind::InvalidChannel));
    }
    let sequence: u64 = read_u64(wire, 31);
    let nesting_depth: u16 = read_u16(wire, 39);
    if nesting_depth > limits.max_nesting_depth {
        return Err(DataCodecError::of(DataCodecErrorKind::LimitExceeded));
    }
    let flags = flags_from_bits(read_u16(wire, 41))?;
    let payload_len: usize = read_u32(wire, 43) as usize;
    if payload_len > limits.max_payload_bytes {
        return Err(DataCodecError::of(DataCodecErrorKind::LimitExceeded));
    }
    let expected: usize = match COMPACT_DATA_HEADER_BYTES.checked_add(payload_len) {
        Some(expected) => expected,
        None => {
            return Err(DataCodecError::of(DataCodecErrorKind::LimitExceeded));
        },
    };
    if wire.len() < expected {
        return Err(DataCodecError::of(DataCodecErrorKind::Truncated));
    }
    if wire.len() != expected {
        return Err(DataCodecError::of(DataCodecErrorKind::TrailingBytes));
    }
    Ok(
        BorrowedDataEnvelope {
            session_id,
            channel_id,
            generation,
            sequence,
            nesting_depth,
            flags,
            payload: slice_subrange(wire, COMPACT_DATA_HEADER_BYTES, wire.len()),
        },
    )
}

proof fn lemma_header_places(v: DataView)
    ensures
        ({
            let w = data_bytes(v);
            &&& w.len() == COMPACT_DATA_HEADER_BYTES + v.payload.len()
            &&& w.subrange(0, 4) == be32(DATA_MAGIC)
            &&& w.subrange(4, 6) == be16(COMPACT_DATA_WIRE_VERSION)
            &&& w[6] == DATA_FRAME_KIND
            &&& w.subrange(7, 23) == v.session_id@
            &&& w.subrange(23, 27) == be32(v.channel_id.0)
            &&& w.subrange(27, 31) == be32(v.generation.0)
            &&& w.subrange(31, 39) == be64(v.sequence)
            &&& w.subrange(39, 41) == be16(v.nesting_depth)
            &&& w.subrange(41, 43) == be16(flag_bits(v.flags))
            &&& w.subrange(43, 47) == be32(v.payload.len() as u32)
            &&& w.subrange(47, w.len() as int) == v.payload
        }),
{
    value_of_be32(DATA_MAGIC);
    value_of_be16(COMPACT_DATA_WIRE_VERSION);
    value_of_be32(v.channel_id.0);
    value_of_be32(v.generation.0);
    value_of_be64(v.sequence);
    value_of_be16(v.nesting_depth);
    value_of_be16(flag_bits(v.flags));
    value_of_be32(v.payload.len() as u32);
    let w = data_bytes(v);
    assert(w.subrange(0, 4) =~= be32(DATA_MAGIC));
    assert(w.subrange(4, 6) =~= be16(COMPACT_DATA_WIRE_VERSION));
    assert(w.subrange(7, 23) =~= v.session_id@);
    assert(w.subrange(23, 27) =~= be32(v.channel_id.0));
    assert(w.subrange(27, 31) =~= be32(v.generation.0));
    assert(w.subrange(31, 39) =~= be64(v.sequence));
    assert(w.subrange(39, 41) =~= be16(v.nesting_depth));
    assert(w.subrange(41, 43) =~= be16(flag_bits(v.flags)));
    assert(w.subrange(43, 47) =~= be32(v.payload.len() as u32));
    assert(w.subrange(47, w.len() as int) =~= v.payload);
}

/// A peer with the same limits reads back every frame that was written, as far
/// as its length fits an index.
pub proof fn data_frames_round_trip(v: DataView, limits: DataCodecLimits)
    requires
        data_fault(DataIdentityMode::CompactV1, v, limits) is None,
        COMPACT_DATA_HEADER_BYTES + v.payload.len() <= usize::MAX,
    ensures
        wire_fault(DataIdentityMode::CompactV1, data_bytes(v), limits) is None,
        says(data_bytes(v), v),
{
    lemma_header_places(v);
    value_of_be32(DATA_MAGIC);
    value_of_be16(COMPACT_DATA_WIRE_VERSION);
    value_of_be32(v.channel_id.0);
    value_of_be32(v.generation.0);
    value_of_be64(v.sequence);
    value_of_be16(v.nesting_depth);
    value_of_be16(flag_bits(v.flags));
    value_of_be32(v.payload.len() as u32);
}

/// A frame says one thing only.
pub proof fn data_frames_are_unambiguous(wire: Seq<u8>, a: DataView, b: DataView)
    requires
        says(wire, a),
        says(wire, b),
    ensures
        a == b,
{
    assert(a.session_id.0 =~= b.session_id.0);
}

/// Every frame that is read is the one that writing what was read gives.
pub proof fn data_frames_are_canonical(wire: Seq<u8>, v: DataView, limits: DataCodecLimits)
    requires
        wire_fault(DataIdentityMode::CompactV1, wire, limits) is None,
        says(wire, v),
    ensures
        data_fault(DataIdentityMode::CompactV1, v, limits) is None,
        data_bytes(v) == wire,
{
    be32_of_value(wire.subrange(0, 4));
    be16_of_value(wire.subrange(4, 6));
    be32_of_value(wire.subrange(23, 27));
    be32_of_value(wire.subrange(27, 31));
    be64_of_value(wire.subrange(31, 39));
    be16_of_value(wire.subrange(39, 41));
    be16_of_value(wire.subrange(41, 43));
    be32_of_value(wire.subrange(43, 47));
    let bits = u16_at(wire, 41);
    assert(flag_bits(flags_with(bits)) == bits);
    lemma_header_places(v);
    let w = data_bytes(v);
    assert forall|i: int| 0 <= i < wire.len() implies w[i] == wire[i] by {
        if i < 4 {
            assert(w.subrange(0, 4)[i] == wire.subrange(0, 4)[i]);
        } else if i < 6 {
            assert(w.subrange(4, 6)[i - 4] == wire.subrange(4, 6)[i - 4]);
        } else if i < 7 {
        } else if i < 23 {
            assert(w.subrange(7, 23)[i - 7] == wire.subrange(7, 23)[i - 7]);
        } else if i < 27 {
            assert(w.subrange(23, 27)[i - 23] == wire.subrange(23, 27)[i - 23]);
        } else if i < 31 {
            assert(w.subrange(27, 31)[i - 27] == wire.subrange(27, 31)[i - 27]);
        } else if i < 39 {
            assert(w.subrange(31, 39)[i - 31] == wire.subrange(31, 39)[i - 31]);
        } else if i < 41 {
            assert(w.subrange(39, 41)[i - 39] == wire.subrange(39, 41)[i - 39]);
        } else if i < 43 {
            assert(w.subrange(41, 43)[i - 41] == wire.subrange(41, 43)[i - 41]);
        } else if i < 47 {
            assert(w.subrange(43, 47)[i - 43] == wire.subrange(43, 47)[i - 43]);
        } else {
            assert(w.subrange(47, w.len() as int)[i - 47] == wire.subrange(47, wire.len() as int)[i - 47]);
        }
    }
    assert(w =~= wire);
}

/// In each mode the frames of that mode pass, and those of the other do not.
pub proof fn data_modes_exclude_each_other(guard: DataModeGuard)
    ensures
        forall|compact: Result<(), DataCodecError>, legacy: Result<(), DataCodecError>|
            {
                &&& #[trigger] call_ensures(DataModeGuard::validate_compact, (guard,), compact)
                &&& #[trigger] call_ensures(DataModeGuard::validate_legacy, (guard,), legacy)
            } ==> {
                &&& compact is Ok <==> legacy is Err
                &&& compact is Ok <==> guard.mode is CompactV1
            },
{
}

/// Writing into a buffer leaves there what writing anew gives, and the buffer as it was where
/// that is refused.
pub proof fn both_ways_of_writing_agree(
    guard: DataModeGuard,
    envelope: DataEnvelope,
    limits: DataCodecLimits,
    output: Vec<u8>,
)
    ensures
        forall|
            wire: Result<Vec<u8>, DataCodecError>,
            lent: &mut Vec<u8>,
            written: Result<(), DataCodecError>,
        |
            {
                &&& #[trigger] call_ensures(encode_data_envelope, (guard, &envelope, limits), wire)
                &&& *lent == output
                &&& #[trigger] call_ensures(
                    encode_data_envelope_into,
                    (guard, &envelope, limits, lent),
                    written,
                )
            } ==> {
                &&& written is Ok <==> wire is Ok
                &&& wire matches Ok(bytes) ==> final(lent)@ == bytes@
                &&& wire is Err ==> final(lent)@ == output@
            },
{
}

} // verus!
