//! Realtime datagrams and their wire form.
//!
//! A datagram is the bytes `MLRD`, the version, the priority, the flow, the
//! generation, the sequence number, and the payload. Moments are nanoseconds on
//! the monotonic clock of the caller.

use vstd::prelude::*;
use crate::bytes::{
    be16, be32, be64, copy_range, push_bytes, push_u16, push_u32, push_u64, read_u16, read_u32, read_u64,
    value16, value32, value64, value_of_be16, value_of_be32, value_of_be64,
};
use crate::ordering::{MapKey, Position, number_position};
use crate::sorted_map::SortedMap;
use crate::transport_error::{TransportError, TransportErrorKind};

verus! {

/// The bytes `MLRD`.
pub const REALTIME_MAGIC: u32 = 0x4d4c5244;

pub const REALTIME_VERSION: u8 = 1;

pub const REALTIME_DATAGRAM_HEADER_LEN: usize = 20;

/// A flow of datagrams, of which only the latest group matters.
#[derive(Clone, Copy, Debug, Eq, Hash, Ord, PartialEq, PartialOrd, Structural)]
pub struct RealtimeFlowId(pub u16);

impl View for RealtimeFlowId {
    type V = u16;

    open spec fn view(&self) -> u16 {
        self.0
    }
}

/// Ordered by number.
impl MapKey for RealtimeFlowId {
    open spec fn rank(v: u16) -> Seq<int> {
        seq![v as int]
    }

    proof fn rank_injective(a: u16, b: u16) {
        assert(Self::rank(a)[0] == a as int);
        assert(Self::rank(b)[0] == b as int);
    }

    fn position(&self, other: &Self) -> (p: Position) {
        number_position(self.0 as u64, other.0 as u64)
    }
}

/// How much a datagram matters, the most important first.
#[derive(Clone, Copy, Debug, Eq, Ord, PartialEq, PartialOrd, Structural)]
pub enum RealtimePriority {
    Critical,
    High,
    Normal,
    Disposable,
}

impl RealtimePriority {
    /// The number of the priority: the less it is, the more the datagram matters.
    #[verifier::allow_in_spec]
    pub fn code(self) -> u8
        returns
            (match self {
                RealtimePriority::Critical => 0u8,
                RealtimePriority::High => 1u8,
                RealtimePriority::Normal => 2u8,
                RealtimePriority::Disposable => 3u8,
            }),
    {
        match self {
            RealtimePriority::Critical => 0,
            RealtimePriority::High => 1,
            RealtimePriority::Normal => 2,
            RealtimePriority::Disposable => 3,
        }
    }

    /// The priority with this number.
    pub fn from_code(code: u8) -> (priority: Result<Self, TransportError>)
        ensures
            match priority {
                Ok(p) => p.code() == code,
                Err(e) => code > 3 && e == invalid_realtime("realtime priority is invalid"),
            },
    {
        match code {
            0 => Ok(RealtimePriority::Critical),
            1 => Ok(RealtimePriority::High),
            2 => Ok(RealtimePriority::Normal),
            3 => Ok(RealtimePriority::Disposable),
            _ => Err(invalid_realtime("realtime priority is invalid")),
        }
    }
}

/// A datagram to be sent while it is the latest of its flow.
#[derive(Clone, Copy, Debug)]
pub struct RealtimeDatagram<'a> {
    pub flow: RealtimeFlowId,
    pub generation: u32,
    pub sequence: u64,
    pub deadline: u64,
    pub priority: RealtimePriority,
    pub payload: &'a [u8],
}

/// A datagram that waited and is to be sent.
#[derive(Clone, Debug)]
pub struct QueuedRealtimeDatagram {
    pub flow: RealtimeFlowId,
    pub generation: u32,
    pub sequence: u64,
    pub deadline: u64,
    pub priority: RealtimePriority,
    pub payload: Vec<u8>,
}

/// What a datagram says, and by when it matters.
#[verifier::ext_equal]
pub struct DatagramView {
    pub flow: u16,
    pub generation: u32,
    pub sequence: u64,
    pub deadline: u64,
    pub priority: RealtimePriority,
    pub payload: Seq<u8>,
}

impl<'a> View for RealtimeDatagram<'a> {
    type V = DatagramView;

    open spec fn view(&self) -> DatagramView {
        DatagramView {
            flow: self.flow.0,
            generation: self.generation,
            sequence: self.sequence,
            deadline: self.deadline,
            priority: self.priority,
            payload: self.payload@,
        }
    }
}

impl View for QueuedRealtimeDatagram {
    type V = DatagramView;

    open spec fn view(&self) -> DatagramView {
        DatagramView {
            flow: self.flow.0,
            generation: self.generation,
            sequence: self.sequence,
            deadline: self.deadline,
            priority: self.priority,
            payload: self.payload@,
        }
    }
}

/// A datagram as it arrived.
#[derive(Clone, Debug, Eq, PartialEq)]
pub struct ReceivedRealtimeDatagram {
    pub flow: RealtimeFlowId,
    pub generation: u32,
    pub sequence: u64,
    pub priority: RealtimePriority,
    pub received_at: u64,
    pub payload: Vec<u8>,
}

/// What became of a datagram.
#[derive(Clone, Copy, Debug, Eq, PartialEq, Structural)]
pub enum SendOutcome {
    Enqueued,
    ReplacedOlder,
    DroppedExpired,
    DroppedCongested,
    Unsupported,
}

/// How much may wait.
#[derive(Clone, Copy, Debug, Eq, PartialEq, Structural)]
pub struct RealtimeQueueConfig {
    pub max_flows: usize,
    pub max_datagrams_per_group: usize,
    pub max_group_bytes: usize,
}

impl Default for RealtimeQueueConfig {
    fn default() -> (config: Self)
        ensures
            config == (RealtimeQueueConfig {
                max_flows: 32,
                max_datagrams_per_group: 2048,
                max_group_bytes: 8388608,
            }),
    {
        RealtimeQueueConfig { max_flows: 32, max_datagrams_per_group: 2048, max_group_bytes: 8388608 }
    }
}

impl RealtimeQueueConfig {
    #[verifier::allow_in_spec]
    pub fn is_valid(self) -> bool
        returns
            self.max_flows > 0 && self.max_datagrams_per_group > 0 && self.max_group_bytes > 0,
    {
        self.max_flows > 0 && self.max_datagrams_per_group > 0 && self.max_group_bytes > 0
    }
}

/// What happened to the datagrams of one flow.
#[derive(Clone, Copy, Debug, Eq, PartialEq, Structural)]
pub struct RealtimeFlowTelemetry {
    pub queued: u64,
    pub sent: u64,
    pub sent_bytes: u64,
    pub replaced: u64,
    pub expired: u64,
    pub congestion_dropped: u64,
    pub received: u64,
    pub received_bytes: u64,
    pub receive_queue_overflow: u64,
}

/// Counters that have counted nothing.
pub open spec fn no_flow_telemetry() -> RealtimeFlowTelemetry {
    RealtimeFlowTelemetry {
        queued: 0,
        sent: 0,
        sent_bytes: 0,
        replaced: 0,
        expired: 0,
        congestion_dropped: 0,
        received: 0,
        received_bytes: 0,
        receive_queue_overflow: 0,
    }
}

impl Default for RealtimeFlowTelemetry {
    fn default() -> (none: Self)
        ensures
            none == no_flow_telemetry(),
    {
        RealtimeFlowTelemetry {
            queued: 0,
            sent: 0,
            sent_bytes: 0,
            replaced: 0,
            expired: 0,
            congestion_dropped: 0,
            received: 0,
            received_bytes: 0,
            receive_queue_overflow: 0,
        }
    }
}

/// What happened to the datagrams of a connection.
#[derive(Clone, Debug, Eq, PartialEq)]
pub struct RealtimeTelemetry {
    pub queued: u64,
    pub pending: usize,
    pub sent: u64,
    pub sent_bytes: u64,
    pub replaced: u64,
    pub expired: u64,
    pub congestion_dropped: u64,
    pub receive_queue_overflow: u64,
    pub rtt_us: Option<u64>,
    pub estimated_send_rate_bps: Option<u64>,
    pub congestion_events: u64,
    pub current_datagram_payload: Option<usize>,
    pub max_datagram_payload: usize,
    pub mtu_change_count: u64,
    pub migration_count: u64,
    pub reconnect_count: u64,
    pub flows: SortedMap<RealtimeFlowId, RealtimeFlowTelemetry>,
}

impl RealtimeTelemetry {
    /// Whether nothing was counted and nothing is known.
    pub open spec fn is_blank(self) -> bool {
        &&& self.flows.wf()
        &&& self.flows@ == Map::<u16, RealtimeFlowTelemetry>::empty()
        &&& self.queued == 0
        &&& self.pending == 0
        &&& self.sent == 0
        &&& self.sent_bytes == 0
        &&& self.replaced == 0
        &&& self.expired == 0
        &&& self.congestion_dropped == 0
        &&& self.receive_queue_overflow == 0
        &&& self.rtt_us is None
        &&& self.estimated_send_rate_bps is None
        &&& self.congestion_events == 0
        &&& self.current_datagram_payload is None
        &&& self.max_datagram_payload == 0
        &&& self.mtu_change_count == 0
        &&& self.migration_count == 0
        &&& self.reconnect_count == 0
    }
}

impl Default for RealtimeTelemetry {
    fn default() -> (none: Self)
        ensures
            none.is_blank(),
    {
        RealtimeTelemetry {
            queued: 0,
            pending: 0,
            sent: 0,
            sent_bytes: 0,
            replaced: 0,
            expired: 0,
            congestion_dropped: 0,
            receive_queue_overflow: 0,
            rtt_us: None,
            estimated_send_rate_bps: None,
            congestion_events: 0,
            current_datagram_payload: None,
            max_datagram_payload: 0,
            mtu_change_count: 0,
            migration_count: 0,
            reconnect_count: 0,
            flows: SortedMap::new(),
        }
    }
}

/// What a connection tells of its realtime path.
#[derive(Clone, Debug, Eq, PartialEq)]
pub enum RealtimeEvent {
    DatagramPayloadChanged { previous: usize, current: usize },
    PathMigrated,
    SessionReset,
}

#[verifier::allow_in_spec]
pub fn invalid_realtime(message: &'static str) -> TransportError
    returns
        TransportError::new(TransportErrorKind::Other, message),
{
    TransportError::new(TransportErrorKind::Other, message)
}

/// The datagram on the wire.
pub open spec fn realtime_bytes(v: DatagramView) -> Seq<u8> {
    be32(REALTIME_MAGIC) + seq![REALTIME_VERSION, v.priority.code()] + be16(v.flow) + be32(v.generation)
        + be64(v.sequence) + v.payload
}

/// Whether the bytes start with the header of a datagram.
pub open spec fn has_realtime_header(wire: Seq<u8>) -> bool {
    &&& wire.len() >= REALTIME_DATAGRAM_HEADER_LEN
    &&& value32(wire.subrange(0, 4)) == REALTIME_MAGIC
    &&& wire[4] == REALTIME_VERSION
}

/// The flow that stands in a header.
pub open spec fn wire_flow(wire: Seq<u8>) -> u16 {
    value16(wire.subrange(6, 8))
}

/// Writes a datagram. It fails only if its length does not fit an index.
pub fn encode_realtime_datagram(datagram: &QueuedRealtimeDatagram) -> (wire: Result<
    Vec<u8>,
    TransportError,
>)
    ensures
        match wire {
            Ok(bytes) => {
                &&& REALTIME_DATAGRAM_HEADER_LEN + datagram@.payload.len() <= usize::MAX
                &&& bytes@ == realtime_bytes(datagram@)
            },
            Err(e) => {
                &&& REALTIME_DATAGRAM_HEADER_LEN + datagram@.payload.len() > usize::MAX
                &&& e == invalid_realtime("realtime datagram size overflow")
            },
        },
{
    if REALTIME_DATAGRAM_HEADER_LEN.checked_add(datagram.payload.len()).is_none() {
        return Err(invalid_realtime("realtime datagram size overflow"));
    }
    let mut encoded: Vec<u8> = Vec::new();
    push_u32(&mut encoded, REALTIME_MAGIC);
    encoded.push(REALTIME_VERSION);
    encoded.push(datagram.priority.code());
    assert(encoded@ =~= be32(REALTIME_MAGIC) + seq![REALTIME_VERSION, datagram.priority.code()]);
    push_u16(&mut encoded, datagram.flow.0);
    push_u32(&mut encoded, datagram.generation);
    push_u64(&mut encoded, datagram.sequence);
    push_bytes(&mut encoded, datagram.payload.as_slice());
    Ok(encoded)
}

/// Reads a datagram that arrived at `received_at`.
pub fn decode_realtime_datagram(encoded: &[u8], received_at: u64) -> (datagram: Result<
    ReceivedRealtimeDatagram,
    TransportError,
>)
    ensures
        match datagram {
            Ok(d) => {
                &&& has_realtime_header(encoded@)
                &&& encoded@[5] <= 3
                &&& d.priority.code() == encoded@[5]
                &&& d.flow.0 == wire_flow(encoded@)
                &&& d.generation == value32(encoded@.subrange(8, 12))
                &&& d.sequence == value64(encoded@.subrange(12, 20))
                &&& d.received_at == received_at
                &&& d.payload@ == encoded@.subrange(
                    REALTIME_DATAGRAM_HEADER_LEN as int,
                    encoded@.len() as int,
                )
            },
            Err(e) => e == (if encoded@.len() < REALTIME_DATAGRAM_HEADER_LEN {
                invalid_realtime("realtime datagram is truncated")
            } else if !has_realtime_header(encoded@) {
                invalid_realtime("realtime datagram header is invalid")
            } else {
                invalid_realtime("realtime priority is invalid")
            }) && (has_realtime_header(encoded@) ==> encoded@[5] > 3),
        },
{
    if encoded.len() < REALTIME_DATAGRAM_HEADER_LEN {
        return Err(invalid_realtime("realtime datagram is truncated"));
    }
    if read_u32(encoded, 0) != REALTIME_MAGIC || encoded[4] != REALTIME_VERSION {
        return Err(invalid_realtime("realtime datagram header is invalid"));
    }
    let priority = RealtimePriority::from_code(encoded[5])?;
    Ok(
        ReceivedRealtimeDatagram {
            flow: RealtimeFlowId(read_u16(encoded, 6)),
            generation: read_u32(encoded, 8),
            sequence: read_u64(encoded, 12),
            priority,
            received_at,
            payload: copy_range(encoded, REALTIME_DATAGRAM_HEADER_LEN, encoded.len()),
        },
    )
}

/// The flow of a datagram, whatever its priority.
pub fn realtime_flow_from_wire(encoded: &[u8]) -> (flow: Option<RealtimeFlowId>)
    ensures
        flow == (if has_realtime_header(encoded@) {
            Some(RealtimeFlowId(wire_flow(encoded@)))
        } else {
            None
        }),
{
    if encoded.len() >= REALTIME_DATAGRAM_HEADER_LEN && read_u32(encoded, 0) == REALTIME_MAGIC && encoded[4]
        == REALTIME_VERSION {
        Some(RealtimeFlowId(read_u16(encoded, 6)))
    } else {
        None
    }
}

/// A datagram that was written is read back with its flow, generation, sequence,
/// priority and payload; its deadline stays with the sender.
pub proof fn realtime_datagrams_round_trip(v: DatagramView)
    ensures
        ({
            let wire = realtime_bytes(v);
            &&& has_realtime_header(wire)
            &&& wire[5] == v.priority.code()
            &&& wire_flow(wire) == v.flow
            &&& value32(wire.subrange(8, 12)) == v.generation
            &&& value64(wire.subrange(12, 20)) == v.sequence
            &&& wire.subrange(20, wire.len() as int) == v.payload
        }),
{
    let wire = realtime_bytes(v);
    value_of_be32(REALTIME_MAGIC);
    value_of_be16(v.flow);
    value_of_be32(v.generation);
    value_of_be64(v.sequence);
    assert(wire.subrange(0, 4) =~= be32(REALTIME_MAGIC));
    assert(wire.subrange(6, 8) =~= be16(v.flow));
    assert(wire.subrange(8, 12) =~= be32(v.generation));
    assert(wire.subrange(12, 20) =~= be64(v.sequence));
    assert(wire.subrange(20, wire.len() as int) =~= v.payload);
}

/// The priorities are numbered from the most important on, and each number stands for one.
pub proof fn priorities_are_numbered_by_importance(a: RealtimePriority, b: RealtimePriority)
    ensures
        a is Critical ==> a.code() == 0,
        a is High ==> a.code() == 1,
        a is Normal ==> a.code() == 2,
        a is Disposable ==> a.code() == 3,
        a.code() == b.code() <==> a == b,
{
}

/// What is no longer than its header, begins otherwise or is of another version is no
/// datagram of a flow; the flow stands in the seventh and eighth byte.
pub proof fn headers_are_told_by_their_bytes(wire: Seq<u8>)
    ensures
        wire.len() < 20 ==> !has_realtime_header(wire),
        wire.len() >= 20 ==> (has_realtime_header(wire) <==> {
            &&& wire[0] * 0x100_0000 + wire[1] * 0x1_0000 + wire[2] * 0x100 + wire[3] == REALTIME_MAGIC
            &&& wire[4] == 1
        }),
        wire.len() >= 20 ==> wire_flow(wire) == wire[6] * 0x100 + wire[7],
{
    if wire.len() >= 20 {
        let magic = wire.subrange(0, 4);
        let flow = wire.subrange(6, 8);
        crate::bytes::bytes_spell_their_weighted_sum(magic);
        crate::bytes::bytes_spell_their_weighted_sum(flow);
        assert(magic[0] == wire[0] && magic[1] == wire[1] && magic[2] == wire[2] && magic[3] == wire[3]);
        assert(flow[0] == wire[6] && flow[1] == wire[7]);
    }
}

/// A queue may have flows, datagrams and bytes, at least one of each.
pub proof fn queues_hold_something(config: RealtimeQueueConfig)
    ensures
        config.is_valid() <==> config.max_flows >= 1 && config.max_datagrams_per_group >= 1
            && config.max_group_bytes >= 1,
{
}

/// The numbers zero to three stand for a priority each, in the order of importance; no other
/// does.
pub proof fn four_numbers_stand_for_priorities(code: u8)
    ensures
        forall|priority: Result<RealtimePriority, TransportError>| #[trigger]
            call_ensures(RealtimePriority::from_code, (code,), priority) ==> {
                &&& priority is Ok <==> code <= 3
                &&& code == 0 ==> priority->Ok_0 is Critical
                &&& code == 1 ==> priority->Ok_0 is High
                &&& code == 2 ==> priority->Ok_0 is Normal
                &&& code == 3 ==> priority->Ok_0 is Disposable
            },
{
}

} // verus!
