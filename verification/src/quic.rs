//! What a connection over QUIC decides: its limits, its streams, its datagrams.

use std::collections::VecDeque;
use vstd::prelude::*;
use crate::arith::{at_most, saturating_index_product};
use crate::bytes::{bytes_equal, push_bytes};
use crate::identity::EndpointId;
use crate::liveness::{ConnectionQuality, LivenessState};
use crate::realtime::{
    QueuedRealtimeDatagram, REALTIME_DATAGRAM_HEADER_LEN, RealtimeDatagram, RealtimeEvent, RealtimeFlowId,
    RealtimeQueueConfig, RealtimeTelemetry, SendOutcome, encode_realtime_datagram, invalid_realtime,
    realtime_bytes,
};
use crate::realtime_model::{
    DropReason, QueueCounters, QueueView, disposable, index_saturated, saturated,
};
use crate::realtime_queue::RealtimeSendQueue;
use crate::selection::{SecurityLevel, TransportKind};
use crate::transport::{ConnectionMetadata, TransportBudget};
use crate::transport_error::{TransportError, TransportErrorKind};

verus! {

/// How many datagrams are sent at once before others get a turn.
pub const MAX_REALTIME_DATAGRAMS_PER_POLL: usize = 64;

/// How a connection over QUIC is made. The timeout is in nanoseconds.
#[derive(Clone, Copy, Debug, Eq, PartialEq)]
pub struct QuicOptions {
    pub budget: TransportBudget,
    pub connect_timeout: u64,
    pub enable_datagrams: bool,
    pub realtime_queue: RealtimeQueueConfig,
    /// Refused: control frames must not be replayed, so a full handshake is made.
    pub enable_zero_rtt: bool,
}

impl Default for QuicOptions {
    fn default() -> (options: Self)
        ensures
            options.budget == (TransportBudget {
                max_connections: 64,
                max_concurrent_streams: 64,
                control_queue_capacity: 32,
                data_queue_capacity: 128,
                receive_queue_capacity: 128,
                max_frame_bytes: 1048576,
                control_bytes_per_second: None,
                data_bytes_per_second: None,
                receive_bytes_per_second: None,
                idle_timeout: Some(60_000_000_000),
            }),
            options.connect_timeout == 10_000_000_000,
            options.enable_datagrams,
            options.realtime_queue == (RealtimeQueueConfig {
                max_flows: 32,
                max_datagrams_per_group: 2048,
                max_group_bytes: 8388608,
            }),
            !options.enable_zero_rtt,
    {
        QuicOptions {
            budget: TransportBudget::default(),
            connect_timeout: 10_000_000_000,
            enable_datagrams: true,
            realtime_queue: RealtimeQueueConfig::default(),
            enable_zero_rtt: false,
        }
    }
}

impl QuicOptions {
    /// Why the options are refused.
    pub open spec fn fault(self) -> Option<TransportError> {
        if !self.budget.positive() {
            Some(
                TransportError::new(
                    TransportErrorKind::Other,
                    "transport budget values must be positive",
                ),
            )
        } else if !self.realtime_queue.is_valid() {
            Some(
                TransportError::new(
                    TransportErrorKind::Other,
                    "realtime queue limits must be positive",
                ),
            )
        } else if self.enable_zero_rtt {
            Some(
                TransportError::new(
                    TransportErrorKind::Unsupported,
                    "0-RTT is disabled for replay-sensitive Link control operations",
                ),
            )
        } else {
            None
        }
    }

    /// The options, if they are valid.
    pub fn validate(self) -> (valid: Result<Self, TransportError>)
        ensures
            valid == (match self.fault() {
                None => Ok::<QuicOptions, TransportError>(self),
                Some(fault) => Err(fault),
            }),
    {
        self.budget.validate()?;
        if !self.realtime_queue.is_valid() {
            return Err(
                TransportError::new(
                    TransportErrorKind::Other,
                    "realtime queue limits must be positive",
                ),
            );
        }
        if self.enable_zero_rtt {
            return Err(
                TransportError::new(
                    TransportErrorKind::Unsupported,
                    "0-RTT is disabled for replay-sensitive Link control operations",
                ),
            );
        }
        Ok(self)
    }
}

/// What the protocol itself is limited to.
#[derive(Clone, Copy, Debug, Eq, PartialEq, Structural)]
pub struct TransportLimits {
    pub bidirectional_streams: u32,
    /// How many bytes of datagrams may wait, or `None` where there are no datagrams.
    pub datagram_buffer: Option<usize>,
    /// How long a silent path is kept, and how often it is kept alive.
    pub idle: Option<IdleLimits>,
}

/// Both in nanoseconds.
#[derive(Clone, Copy, Debug, Eq, PartialEq, Structural)]
pub struct IdleLimits {
    pub timeout: u64,
    pub keep_alive: u64,
}

/// The limits that a budget comes to.
pub fn transport_limits(options: QuicOptions) -> (limits: Result<TransportLimits, TransportError>)
    ensures
        match limits {
            Ok(l) => {
                &&& 2 <= options.budget.max_concurrent_streams <= u32::MAX
                &&& l.bidirectional_streams == options.budget.max_concurrent_streams
                &&& l.datagram_buffer == (if options.enable_datagrams {
                    Some(
                        at_most(
                            options.budget.max_frame_bytes * options.budget.receive_queue_capacity,
                            usize::MAX as int,
                        ) as usize,
                    )
                } else {
                    None
                })
                &&& l.idle == (match options.budget.idle_timeout {
                    Some(timeout) => Some(
                        IdleLimits { timeout, keep_alive: (timeout / 3) as u64 },
                    ),
                    None => None,
                })
            },
            Err(e) => if options.budget.max_concurrent_streams < 2 {
                e == TransportError::new(
                    TransportErrorKind::Other,
                    "QUIC requires at least two streams for independent control and data",
                )
            } else {
                options.budget.max_concurrent_streams > u32::MAX && e == TransportError::new(
                    TransportErrorKind::Other,
                    "QUIC stream limit exceeds protocol range",
                )
            },
        },
{
    let streams: usize = options.budget.max_concurrent_streams;
    if streams < 2 {
        return Err(
            TransportError::new(
                TransportErrorKind::Other,
                "QUIC requires at least two streams for independent control and data",
            ),
        );
    }
    if streams > 0xffff_ffff {
        return Err(
            TransportError::new(
                TransportErrorKind::Other,
                "QUIC stream limit exceeds protocol range",
            ),
        );
    }
    let buffer: usize = saturating_index_product(
        options.budget.max_frame_bytes,
        options.budget.receive_queue_capacity,
    );
    Ok(
        TransportLimits {
            bidirectional_streams: streams as u32,
            datagram_buffer: if options.enable_datagrams {
                Some(buffer)
            } else {
                None
            },
            idle: match options.budget.idle_timeout {
                Some(timeout) => Some(IdleLimits { timeout, keep_alive: timeout / 3 }),
                None => None,
            },
        },
    )
}

/// What a stream carries.
#[derive(Clone, Copy, Debug, Eq, PartialEq, Structural)]
pub enum StreamKind {
    Control,
    Data,
}

impl StreamKind {
    /// The bytes that open a stream of the kind.
    pub open spec fn preface_bytes(self) -> Seq<u8> {
        seq![
            0x4d,
            0x4c,
            0x49,
            0x4e,
            0x4b,
            0x00,
            0x01,
            0x00,
            match self {
                StreamKind::Control => 0x43u8,
                StreamKind::Data => 0x44u8,
            },
        ]
    }

    /// The bytes that open a stream of the kind.
    pub fn preface(self) -> (bytes: [u8; 9])
        ensures
            bytes@ == self.preface_bytes(),
    {
        let kind: u8 = match self {
            StreamKind::Control => 0x43,
            StreamKind::Data => 0x44,
        };
        let bytes: [u8; 9] = [0x4d, 0x4c, 0x49, 0x4e, 0x4b, 0x00, 0x01, 0x00, kind];
        assert(bytes@ =~= self.preface_bytes());
        bytes
    }

    /// The kind of stream that some bytes open.
    pub fn from_preface(bytes: &[u8; 9]) -> (kind: Result<Self, TransportError>)
        ensures
            match kind {
                Ok(kind) => bytes@ == kind.preface_bytes(),
                Err(e) => {
                    &&& bytes@ != StreamKind::Control.preface_bytes()
                    &&& bytes@ != StreamKind::Data.preface_bytes()
                    &&& e == TransportError::new(
                        TransportErrorKind::Other,
                        "QUIC Link stream preface is invalid",
                    )
                },
            },
    {
        if bytes_equal(bytes, &StreamKind::Control.preface()) {
            return Ok(StreamKind::Control);
        }
        if bytes_equal(bytes, &StreamKind::Data.preface()) {
            return Ok(StreamKind::Data);
        }
        Err(
            TransportError::new(TransportErrorKind::Other, "QUIC Link stream preface is invalid"),
        )
    }
}

/// A stream is recognised by what opens it.
pub proof fn prefaces_tell_streams_apart(a: StreamKind, b: StreamKind)
    requires
        a.preface_bytes() == b.preface_bytes(),
    ensures
        a == b,
{
    assert(a.preface_bytes()[8] == b.preface_bytes()[8]);
}

/// Which of two streams that a peer opened carries control: whether it is the first.
/// There must be one of each kind.
pub fn control_is_first(first: StreamKind, second: StreamKind) -> (control_first: Result<bool, TransportError>)
    ensures
        match control_first {
            Ok(is_first) => first != second && is_first == (first == StreamKind::Control),
            Err(e) => first == second && e == TransportError::new(
                TransportErrorKind::Other,
                "QUIC Link control/data stream set is incomplete",
            ),
        },
{
    if first == second {
        return Err(
            TransportError::new(
                TransportErrorKind::Other,
                "QUIC Link control/data stream set is incomplete",
            ),
        );
    }
    Ok(first == StreamKind::Control)
}

/// Why a datagram could not be sent.
#[derive(Clone, Copy, Debug, Eq, PartialEq, Structural)]
pub enum DatagramFailure {
    TooLarge,
    UnsupportedByPeer,
    Disabled,
    ConnectionLost,
}

/// Why a connection has ended or was not made.
#[derive(Clone, Copy, Debug, Eq, PartialEq, Structural)]
pub enum QuicFailure {
    TimedOut,
    LocallyClosed,
    ApplicationClosed,
    ConnectionClosed,
    Other,
}

#[verifier::allow_in_spec]
pub fn unsupported_datagram() -> TransportError
    returns
        TransportError::new(TransportErrorKind::Unsupported, "QUIC datagrams are not available"),
{
    TransportError::new(TransportErrorKind::Unsupported, "QUIC datagrams are not available")
}

/// What a datagram that could not be sent is told as.
#[verifier::allow_in_spec]
pub fn datagram_error(failure: DatagramFailure) -> TransportError
    returns
        (match failure {
            DatagramFailure::TooLarge => TransportError::new(
                TransportErrorKind::MessageTooLarge,
                "QUIC datagram exceeds path limit",
            ),
            DatagramFailure::UnsupportedByPeer | DatagramFailure::Disabled => unsupported_datagram(),
            DatagramFailure::ConnectionLost => TransportError::new(
                TransportErrorKind::Closed,
                "QUIC connection is closed",
            ),
        }),
{
    match failure {
        DatagramFailure::TooLarge => TransportError::new(
            TransportErrorKind::MessageTooLarge,
            "QUIC datagram exceeds path limit",
        ),
        DatagramFailure::UnsupportedByPeer | DatagramFailure::Disabled => unsupported_datagram(),
        DatagramFailure::ConnectionLost => TransportError::new(
            TransportErrorKind::Closed,
            "QUIC connection is closed",
        ),
    }
}

/// What the end of a connection is told as.
#[verifier::allow_in_spec]
pub fn connection_error(failure: QuicFailure) -> TransportError
    returns
        TransportError::new(
            match failure {
                QuicFailure::TimedOut => TransportErrorKind::TimedOut,
                QuicFailure::LocallyClosed
                | QuicFailure::ApplicationClosed
                | QuicFailure::ConnectionClosed => TransportErrorKind::Closed,
                QuicFailure::Other => TransportErrorKind::Aborted,
            },
            "QUIC connection failed",
        ),
{
    TransportError::new(
        match failure {
            QuicFailure::TimedOut => TransportErrorKind::TimedOut,
            QuicFailure::LocallyClosed
            | QuicFailure::ApplicationClosed
            | QuicFailure::ConnectionClosed => TransportErrorKind::Closed,
            QuicFailure::Other => TransportErrorKind::Aborted,
        },
        "QUIC connection failed",
    )
}

#[verifier::allow_in_spec]
pub fn connection_limit() -> TransportError
    returns
        TransportError::new(TransportErrorKind::WouldBlock, "QUIC connection limit reached"),
{
    TransportError::new(TransportErrorKind::WouldBlock, "QUIC connection limit reached")
}

/// What is told where no datagram waits.
#[verifier::allow_in_spec]
pub fn no_datagram(receiver_ended: bool) -> TransportError
    returns
        (if receiver_ended {
            TransportError::new(TransportErrorKind::Closed, "QUIC datagram receiver is closed")
        } else {
            TransportError::new(TransportErrorKind::WouldBlock, "no QUIC datagram is ready")
        }),
{
    if receiver_ended {
        TransportError::new(TransportErrorKind::Closed, "QUIC datagram receiver is closed")
    } else {
        TransportError::new(TransportErrorKind::WouldBlock, "no QUIC datagram is ready")
    }
}

/// Whether data is looked for after control gave an error: only if no control message
/// was ready.
#[verifier::allow_in_spec]
pub fn asks_for_data(control: TransportErrorKind) -> bool
    returns
        control == TransportErrorKind::WouldBlock,
{
    control == TransportErrorKind::WouldBlock
}

/// How secure a connection over QUIC is.
#[verifier::allow_in_spec]
pub fn security_level() -> SecurityLevel
    returns
        SecurityLevel::AuthenticatedEncrypted,
{
    SecurityLevel::AuthenticatedEncrypted
}

/// What the time of a round trip says of the quality of a connection.
pub fn quality_of(round_trip_millis: u128) -> (quality: ConnectionQuality)
    ensures
        quality == (ConnectionQuality {
            round_trip_millis: Some(at_most(round_trip_millis as int, u32::MAX as int) as u32),
            jitter_millis: None,
            loss_per_million: None,
            retransmit_per_million: None,
            send_queue_pressure_per_million: 0,
            transmit_bytes_per_second: 0,
            receive_bytes_per_second: 0,
            consecutive_failures: 0,
            transport: Some(TransportKind::Quic),
            liveness: LivenessState::Healthy,
        }),
{
    let millis: u32 = if round_trip_millis > 0xffff_ffff {
        0xffff_ffff
    } else {
        round_trip_millis as u32
    };
    let mut quality = ConnectionQuality::default();
    quality.round_trip_millis = Some(millis);
    quality.transport = Some(TransportKind::Quic);
    quality
}

/// The longest datagram that both the path and the budget carry.
#[verifier::allow_in_spec]
pub fn raw_datagram_limit(path: Option<usize>, budget: usize) -> usize
    returns
        (match path {
            Some(path) => if path < budget {
                path
            } else {
                budget
            },
            None => 0usize,
        }),
{
    match path {
        Some(path) => if path < budget {
            path
        } else {
            budget
        },
        None => 0,
    }
}

/// The longest payload that fits a datagram with its header.
#[verifier::allow_in_spec]
pub fn payload_limit(raw: usize) -> usize
    returns
        (if raw > REALTIME_DATAGRAM_HEADER_LEN {
            (raw - REALTIME_DATAGRAM_HEADER_LEN) as usize
        } else {
            0usize
        }),
{
    if raw > REALTIME_DATAGRAM_HEADER_LEN {
        raw - REALTIME_DATAGRAM_HEADER_LEN
    } else {
        0
    }
}

/// How many bits a second a path seems to carry: one window in each round trip.
pub open spec fn send_rate(window: u64, rtt_us: u64) -> Option<u64> {
    if rtt_us == 0 {
        None
    } else {
        Some(at_most(window * 8_000_000 / rtt_us as int, u64::MAX as int) as u64)
    }
}

/// How many bits a second a path seems to carry.
pub fn estimated_rate(window: u64, rtt_us: u64) -> (rate: Option<u64>)
    ensures
        rate == send_rate(window, rtt_us),
{
    if rtt_us == 0 {
        return None;
    }
    let bits: u128 = (window as u128) * 8_000_000;
    let rate: u128 = bits / (rtt_us as u128);
    proof {
        vstd::arithmetic::div_mod::lemma_div_is_ordered_by_denominator(bits as int, 1, rtt_us as int);
        vstd::arithmetic::div_mod::lemma_div_pos_is_pos(bits as int, rtt_us as int);
    }
    if rate > u64::MAX as u128 {
        Some(u64::MAX)
    } else {
        Some(rate as u64)
    }
}

/// What a connection tells of its path. The address is compared byte by byte.
#[derive(Debug)]
pub struct PathReport {
    pub max_datagram_size: Option<usize>,
    pub remote: Vec<u8>,
    pub rtt_us: u128,
    pub congestion_window: u64,
    pub congestion_events: u64,
}

#[verifier::ext_equal]
pub struct PathView {
    pub max_datagram_size: Option<usize>,
    pub remote: Seq<u8>,
    pub rtt_us: u128,
    pub congestion_window: u64,
    pub congestion_events: u64,
}

impl View for PathReport {
    type V = PathView;

    open spec fn view(&self) -> PathView {
        PathView {
            max_datagram_size: self.max_datagram_size,
            remote: self.remote@,
            rtt_us: self.rtt_us,
            congestion_window: self.congestion_window,
            congestion_events: self.congestion_events,
        }
    }
}

/// The datagrams of a connection over QUIC.
#[derive(Debug)]
pub struct QuicDatagrams {
    enabled: bool,
    max_datagram_bytes: usize,
    send: RealtimeSendQueue,
    events: VecDeque<RealtimeEvent>,
    last_remote: Vec<u8>,
}

#[verifier::ext_equal]
pub struct DatagramsView {
    pub enabled: bool,
    pub max_datagram_bytes: usize,
    pub send: QueueView,
    pub events: Seq<RealtimeEvent>,
    pub last_remote: Seq<u8>,
}

impl View for QuicDatagrams {
    type V = DatagramsView;

    closed spec fn view(&self) -> DatagramsView {
        DatagramsView {
            enabled: self.enabled,
            max_datagram_bytes: self.max_datagram_bytes,
            send: self.send@,
            events: self.events@,
            last_remote: self.last_remote@,
        }
    }
}

/// What is to be sent next.
#[derive(Debug)]
pub enum PollStep {
    /// A datagram, as it stands on the wire.
    Send { datagram: QueuedRealtimeDatagram, wire: Vec<u8> },
    /// Nothing now, but there is room for another look.
    Again,
    /// Nothing any more.
    Done,
}

impl DatagramsView {
    /// The longest payload on a path.
    pub open spec fn payload_on(self, path: Option<usize>) -> usize {
        payload_limit(raw_datagram_limit(path, self.max_datagram_bytes))
    }

    /// With the longest payload of the path taken over.
    pub open spec fn resized(self, limit: usize) -> DatagramsView {
        DatagramsView {
            send: self.send.limited(limit),
            events: if limit == self.send.max_payload {
                self.events
            } else {
                self.events.push(
                    RealtimeEvent::DatagramPayloadChanged {
                        previous: self.send.max_payload,
                        current: limit,
                    },
                )
            },
            ..self
        }
    }

    /// With the address of the path taken over.
    pub open spec fn moved(self, remote: Seq<u8>) -> DatagramsView {
        if remote == self.last_remote {
            self
        } else {
            DatagramsView {
                send: QueueView {
                    counters: QueueCounters {
                        migration_count: saturated(self.send.counters.migration_count, 1),
                        ..self.send.counters
                    },
                    ..self.send
                },
                events: self.events.push(RealtimeEvent::PathMigrated),
                last_remote: remote,
                ..self
            }
        }
    }

    /// With what was measured taken over.
    pub open spec fn measured(self, rtt_us: u64, window: u64, congestion_events: u64) -> DatagramsView {
        DatagramsView {
            send: QueueView {
                counters: QueueCounters {
                    rtt_us: Some(rtt_us),
                    estimated_send_rate_bps: send_rate(window, rtt_us),
                    congestion_events: saturated(
                        self.send.counters.congestion_events,
                        if congestion_events > self.send.transport_congestion_events {
                            (congestion_events - self.send.transport_congestion_events) as nat
                        } else {
                            0
                        },
                    ),
                    ..self.send.counters
                },
                transport_congestion_events: congestion_events,
                ..self.send
            },
            ..self
        }
    }

    /// What a report makes of the datagrams.
    pub open spec fn refreshed(self, path: PathView) -> (DatagramsView, Option<TransportError>) {
        let limit = self.payload_on(path.max_datagram_size);
        if !self.enabled {
            (self, None)
        } else if limit == 0 {
            (self, Some(unsupported_datagram()))
        } else {
            (
                self.resized(limit).moved(path.remote).measured(
                    at_most(path.rtt_us as int, u64::MAX as int) as u64,
                    path.congestion_window,
                    path.congestion_events,
                ),
                None,
            )
        }
    }

    /// With nothing that fits: a congestion, for which the disposable datagrams go.
    pub open spec fn congested(self) -> DatagramsView {
        let noted = QueueView {
            counters: QueueCounters {
                congestion_events: saturated(self.send.counters.congestion_events, 1),
                ..self.send.counters
            },
            ..self.send
        };
        DatagramsView {
            send: noted.dropped_all(noted.flows_where(disposable()), DropReason::Congested),
            ..self
        }
    }

    /// Whether a step is right: the next datagram that fits is sent; where none fits
    /// although some wait, the disposable ones go, and there is another look if there
    /// were any.
    pub open spec fn steps(self, now: u64, available: usize, sent: usize, step: PollStep, after: DatagramsView) -> bool {
        let q = self.send.expired_at(now);
        if sent >= MAX_REALTIME_DATAGRAMS_PER_POLL {
            step is Done && after == self
        } else {
            match step {
                PollStep::Send { datagram, wire } => {
                    &&& q.is_next_fitting(datagram@.flow, available)
                    &&& datagram@ == q.front(datagram@.flow)
                    &&& wire@ == realtime_bytes(datagram@)
                    &&& after == (DatagramsView { send: q.popped(datagram@.flow), ..self })
                },
                PollStep::Done | PollStep::Again => {
                    let waiting = index_saturated(q.datagrams_in(q.waiting()));
                    let emptied = DatagramsView { send: q, ..self };
                    &&& forall|flow: u16| #[trigger] q.is_foremost(flow) ==> !q.fits(flow, available)
                    &&& if waiting > 0 {
                        &&& after == emptied.congested()
                        &&& step is Again <==> index_saturated(
                            q.datagrams_in(q.flows_where(disposable())),
                        ) > 0
                    } else {
                        step is Done && after == emptied
                    }
                },
            }
        }
    }
}

/// What became of a datagram when it was handed over, and how many of its flow had been
/// dropped for congestion by then.
#[derive(Clone, Copy, Debug, Eq, PartialEq, Structural)]
pub struct Offered {
    pub flow: RealtimeFlowId,
    pub outcome: SendOutcome,
    pub drops_before: u64,
}

impl QuicDatagrams {
    /// Whether the queue is valid.
    pub closed spec fn wf(&self) -> bool {
        self.send.wf()
    }

    /// The datagrams of a new connection. They are sent only if the options ask for
    /// them and the path carries them.
    pub fn new(options: QuicOptions, path: Option<usize>, remote: Vec<u8>) -> (datagrams: Result<
        Self,
        TransportError,
    >)
        ensures
            match datagrams {
                Ok(d) => {
                    let limit = payload_limit(
                        raw_datagram_limit(path, options.budget.max_frame_bytes),
                    );
                    &&& options.realtime_queue.is_valid()
                    &&& d.wf()
                    &&& d@ == (DatagramsView {
                        enabled: options.enable_datagrams && path is Some,
                        max_datagram_bytes: options.budget.max_frame_bytes,
                        send: QueueView::empty(
                            options.realtime_queue,
                            if limit == 0 {
                                1
                            } else {
                                limit
                            },
                        ),
                        events: Seq::empty(),
                        last_remote: remote@,
                    })
                },
                Err(e) => !options.realtime_queue.is_valid() && e == invalid_realtime(
                    "realtime queue limits must be positive",
                ),
            },
    {
        let max_datagram_bytes: usize = options.budget.max_frame_bytes;
        let limit: usize = payload_limit(raw_datagram_limit(path, max_datagram_bytes));
        let first: usize = if limit == 0 {
            1
        } else {
            limit
        };
        let send = RealtimeSendQueue::new(options.realtime_queue, first)?;
        let datagrams = QuicDatagrams {
            enabled: options.enable_datagrams && path.is_some(),
            max_datagram_bytes,
            send,
            events: VecDeque::new(),
            last_remote: remote,
        };
        assert(datagrams@.events =~= Seq::empty());
        Ok(datagrams)
    }

    /// Whether datagrams are sent.
    pub fn enabled(&self) -> (enabled: bool)
        ensures
            enabled == self@.enabled,
    {
        self.enabled
    }

    /// What the connection is.
    pub fn metadata(&self, local_endpoint: EndpointId, remote_endpoint: EndpointId) -> (metadata: ConnectionMetadata)
        ensures
            metadata == (ConnectionMetadata {
                local_endpoint,
                remote_endpoint,
                peer_hint: None,
                reliable: true,
                datagrams: self@.enabled,
            }),
    {
        ConnectionMetadata {
            local_endpoint,
            remote_endpoint,
            peer_hint: None,
            reliable: true,
            datagrams: self.enabled,
        }
    }

    /// The longest payload on a path, if it carries any.
    pub fn max_payload(&self, path: Option<usize>) -> (limit: Option<usize>)
        ensures
            limit == (if self@.enabled && self@.payload_on(path) > 0 {
                Some(self@.payload_on(path))
            } else {
                None
            }),
    {
        let limit: usize = payload_limit(raw_datagram_limit(path, self.max_datagram_bytes));
        if self.enabled && limit > 0 {
            Some(limit)
        } else {
            None
        }
    }

    /// Whether a datagram of a length may be sent as it is.
    pub fn check_raw(&self, len: usize, path: Option<usize>) -> (checked: Result<(), TransportError>)
        ensures
            checked == (if !self@.enabled {
                Err::<(), TransportError>(unsupported_datagram())
            } else if len > raw_datagram_limit(path, self@.max_datagram_bytes) {
                Err(
                    TransportError::new(
                        TransportErrorKind::MessageTooLarge,
                        "QUIC datagram exceeds configured limit",
                    ),
                )
            } else {
                Ok(())
            }),
    {
        if !self.enabled {
            return Err(unsupported_datagram());
        }
        if len > raw_datagram_limit(path, self.max_datagram_bytes) {
            return Err(
                TransportError::new(
                    TransportErrorKind::MessageTooLarge,
                    "QUIC datagram exceeds configured limit",
                ),
            );
        }
        Ok(())
    }

    /// Takes over what the connection tells of its path.
    pub fn refresh(&mut self, path: &PathReport) -> (refreshed: Result<(), TransportError>)
        requires
            old(self).wf(),
        ensures
            final(self).wf(),
            ({
                let (after, fault) = old(self)@.refreshed(path@);
                &&& final(self)@ == after
                &&& refreshed == (match fault {
                    None => Ok::<(), TransportError>(()),
                    Some(e) => Err(e),
                })
            }),
    {
        if !self.enabled {
            return Ok(());
        }
        let limit: usize = payload_limit(
            raw_datagram_limit(path.max_datagram_size, self.max_datagram_bytes),
        );
        if limit == 0 {
            return Err(unsupported_datagram());
        }
        let ghost before = self@;
        let previous: usize = self.send.max_payload();
        let changed = self.send.set_max_payload(limit)?;
        if changed {
            self.events.push_back(
                RealtimeEvent::DatagramPayloadChanged { previous, current: limit },
            );
        }
        assert(self@ =~= before.resized(limit));
        let ghost resized = self@;
        if !bytes_equal(path.remote.as_slice(), self.last_remote.as_slice()) {
            let mut remote: Vec<u8> = Vec::new();
            push_bytes(&mut remote, path.remote.as_slice());
            assert(remote@ =~= path.remote@);
            self.last_remote = remote;
            self.send.note_migration();
            self.events.push_back(RealtimeEvent::PathMigrated);
        }
        assert(self@ =~= resized.moved(path@.remote));
        let rtt_us: u64 = if path.rtt_us > u64::MAX as u128 {
            u64::MAX
        } else {
            path.rtt_us as u64
        };
        let rate = estimated_rate(path.congestion_window, rtt_us);
        self.send.note_network_metrics(rtt_us, rate, path.congestion_events);
        Ok(())
    }

    /// Hands a datagram over. The path must have been taken over before.
    pub fn offer(&mut self, datagram: RealtimeDatagram<'_>, now: u64) -> (offered: Result<
        Offered,
        TransportError,
    >)
        requires
            old(self).wf(),
        ensures
            final(self).wf(),
            ({
                let (send, outcome) = old(self)@.send.enqueued(datagram@, now);
                &&& final(self)@ == (DatagramsView { send, ..old(self)@ })
                &&& offered == (match outcome {
                    Ok(outcome) => Ok::<Offered, TransportError>(
                        Offered {
                            flow: datagram.flow,
                            outcome,
                            drops_before: old(self)@.send.of_flow(datagram.flow@).congestion_dropped,
                        },
                    ),
                    Err(e) => Err(e),
                })
            }),
    {
        let flow = datagram.flow;
        let drops_before: u64 = self.send.congestion_dropped_for_flow(flow);
        match self.send.enqueue(datagram, now) {
            Ok(outcome) => Ok(Offered { flow, outcome, drops_before }),
            Err(e) => Err(e),
        }
    }

    /// What became of a datagram after others were sent: if any of its flow was dropped
    /// for congestion meanwhile, that is told.
    pub fn settle(&self, offered: Offered) -> (outcome: SendOutcome)
        requires
            self.wf(),
        ensures
            outcome == (if self@.send.of_flow(offered.flow@).congestion_dropped > offered.drops_before {
                SendOutcome::DroppedCongested
            } else {
                offered.outcome
            }),
    {
        if self.send.congestion_dropped_for_flow(offered.flow) > offered.drops_before {
            SendOutcome::DroppedCongested
        } else {
            offered.outcome
        }
    }

    /// What is sent next, where there is room for so many bytes and so many datagrams
    /// were sent already.
    pub fn next_step(&mut self, now: u64, available: usize, sent: usize) -> (step: PollStep)
        requires
            old(self).wf(),
        ensures
            final(self).wf(),
            old(self)@.steps(now, available, sent, step, final(self)@),
    {
        if sent >= MAX_REALTIME_DATAGRAMS_PER_POLL {
            return PollStep::Done;
        }
        let ghost before = self@;
        let ghost q = self@.send.expired_at(now);
        match self.send.pop_next_fitting(now, available) {
            Some(datagram) => {
                match encode_realtime_datagram(&datagram) {
                    Ok(wire) => {
                        return PollStep::Send { datagram, wire };
                    },
                    Err(_) => {
                        assert(q.fits(datagram@.flow, available));
                        assert(false);
                    },
                }
            },
            None => {},
        }
        if self.send.pending_datagrams() > 0 {
            self.send.note_transport_congestion();
            let ghost noted = self@.send;
            proof {
                assert(noted.groups == q.groups);
                lemma_same_groups(noted, q);
            }
            if self.send.drop_disposable_for_congestion() > 0 {
                return PollStep::Again;
            }
        }
        PollStep::Done
    }

    /// Counts a datagram as sent.
    pub fn note_sent(&mut self, datagram: &QueuedRealtimeDatagram)
        requires
            old(self).wf(),
        ensures
            final(self).wf(),
            final(self)@ == (DatagramsView {
                send: old(self)@.send.noted_sent(datagram@.flow, datagram@.payload.len()),
                ..old(self)@
            }),
    {
        self.send.note_sent(datagram);
    }

    /// What was counted of the sending side.
    pub fn telemetry(&self) -> (telemetry: RealtimeTelemetry)
        requires
            self.wf(),
        ensures
            telemetry.flows.wf(),
            telemetry.flows@ == self@.send.flows,
            telemetry.pending == index_saturated(self@.send.datagrams_in(self@.send.waiting())),
            telemetry.receive_queue_overflow == 0,
            self@.send.counters == (QueueCounters {
                queued: telemetry.queued,
                sent: telemetry.sent,
                sent_bytes: telemetry.sent_bytes,
                replaced: telemetry.replaced,
                expired: telemetry.expired,
                congestion_dropped: telemetry.congestion_dropped,
                rtt_us: telemetry.rtt_us,
                estimated_send_rate_bps: telemetry.estimated_send_rate_bps,
                congestion_events: telemetry.congestion_events,
                current_datagram_payload: telemetry.current_datagram_payload,
                max_datagram_payload: telemetry.max_datagram_payload,
                mtu_change_count: telemetry.mtu_change_count,
                migration_count: telemetry.migration_count,
                reconnect_count: telemetry.reconnect_count,
            }),
    {
        self.send.telemetry()
    }

    /// The events since they were last taken.
    pub fn take_events(&mut self) -> (events: Vec<RealtimeEvent>)
        requires
            old(self).wf(),
        ensures
            final(self).wf(),
            events@ == old(self)@.events,
            final(self)@ == (DatagramsView { events: Seq::empty(), ..old(self)@ }),
    {
        let ghost all = self.events@;
        let ghost before = self@;
        let mut events: Vec<RealtimeEvent> = Vec::new();
        let ghost mut n: int = 0;
        assert(all.subrange(0, all.len() as int) =~= all);
        while self.events.len() > 0
            invariant
                0 <= n <= all.len(),
                self.wf(),
                self.events@ == all.subrange(n, all.len() as int),
                events@ == all.subrange(0, n),
                self@ == (DatagramsView { events: self.events@, ..before }),
            decreases self.events@.len(),
        {
            match self.events.pop_front() {
                None => {},
                Some(event) => {
                    proof {
                        assert(event == all[n]);
                        assert(self.events@ =~= all.subrange(n + 1, all.len() as int));
                        assert(all.subrange(0, n + 1) =~= all.subrange(0, n).push(event));
                        n = n + 1;
                    }
                    events.push(event);
                },
            }
        }
        assert(all.subrange(0, n) =~= all);
        assert(self@.events =~= Seq::empty());
        events
    }

    /// Begins anew after a reconnect: nothing from before is sent.
    pub fn reset_session(&mut self)
        requires
            old(self).wf(),
        ensures
            final(self).wf(),
            final(self)@ == (DatagramsView {
                send: QueueView {
                    groups: Map::empty(),
                    counters: QueueCounters {
                        reconnect_count: saturated(old(self)@.send.counters.reconnect_count, 1),
                        ..old(self)@.send.counters
                    },
                    ..old(self)@.send
                },
                events: old(self)@.events.push(RealtimeEvent::SessionReset),
                ..old(self)@
            }),
    {
        self.send.reset_for_reconnect();
        self.events.push_back(RealtimeEvent::SessionReset);
    }

    /// Drops what waits.
    pub fn clear_pending(&mut self)
        requires
            old(self).wf(),
        ensures
            final(self).wf(),
            final(self)@ == (DatagramsView {
                send: QueueView { groups: Map::empty(), ..old(self)@.send },
                ..old(self)@
            }),
    {
        self.send.clear_pending();
    }
}

/// What waits depends on the groups alone.
proof fn lemma_same_groups(a: QueueView, b: QueueView)
    requires
        a.groups == b.groups,
    ensures
        a.waiting() == b.waiting(),
        a.flows_where(disposable()) == b.flows_where(disposable()),
        a.datagrams_in(a.flows_where(disposable())) == b.datagrams_in(b.flows_where(disposable())),
{
    assert(a.flow_test(disposable()) =~= b.flow_test(disposable()));
    lemma_same_count(a, b, a.flows_where(disposable()));
}

proof fn lemma_same_count(a: QueueView, b: QueueView, row: Seq<u16>)
    requires
        a.groups == b.groups,
    ensures
        a.datagrams_in(row) == b.datagrams_in(row),
    decreases row.len(),
{
    if row.len() > 0 {
        lemma_same_count(a, b, row.drop_last());
    }
}

/// No options let replay-sensitive control be sent before the handshake is complete.
pub proof fn early_control_is_refused(options: QuicOptions)
    requires
        options.enable_zero_rtt,
    ensures
        options.fault() is Some,
{
}

/// A payload within the limit of a path fits a datagram of that path.
pub proof fn limited_payloads_fit(path: usize, budget: usize, payload: nat)
    requires
        payload <= payload_limit(raw_datagram_limit(Some(path), budget)),
        payload > 0,
    ensures
        payload + REALTIME_DATAGRAM_HEADER_LEN <= path,
        payload + REALTIME_DATAGRAM_HEADER_LEN <= budget,
{
}

/// The greatest datagram of a path is the lesser of what the path and the budget allow for;
/// twenty bytes of it are the header, and a path that has no room for more carries no
/// payload.
pub proof fn payloads_leave_room_for_the_header(path: usize, budget: usize)
    ensures
        raw_datagram_limit(Some(path), budget) <= path,
        raw_datagram_limit(Some(path), budget) <= budget,
        raw_datagram_limit(Some(path), budget) == path || raw_datagram_limit(Some(path), budget) == budget,
        raw_datagram_limit(None, budget) == 0,
        path > 20 ==> payload_limit(path) == path - 20,
        path <= 20 ==> payload_limit(path) == 0,
{
}

/// The rate of a path is the bits of its window by the time of a round trip, rounded down.
pub proof fn rates_are_windows_by_round_trips(window: u64, rtt_us: u64)
    requires
        rtt_us > 0,
        window * 8_000_000 <= u64::MAX,
    ensures
        send_rate(window, 0) is None,
        ({
            let rate = send_rate(window, rtt_us);
            &&& rate is Some
            &&& rate->0 * rtt_us <= window * 8_000_000 < (rate->0 + 1) * rtt_us
        }),
{
    let n = (window * 8_000_000) as int;
    let d = rtt_us as int;
    vstd::arithmetic::div_mod::lemma_fundamental_div_mod(n, d);
    vstd::arithmetic::div_mod::lemma_mod_bound(n, d);
    let q = n / d;
    assert(0 <= q <= n) by (nonlinear_arith)
        requires
            n == d * q + n % d,
            0 <= n % d < d,
            0 <= n,
            1 <= d,
    ;
    assert(d * q == q * d && (q + 1) * d == q * d + d) by (nonlinear_arith);
}

/// Another payload limit is told with the one before it and goes to the queue; the same one
/// is not told.
pub proof fn other_limits_are_told(datagrams: DatagramsView, limit: usize)
    ensures
        ({
            let after = datagrams.resized(limit);
            &&& limit == datagrams.send.max_payload ==> after.events == datagrams.events
            &&& limit != datagrams.send.max_payload ==> after.events == datagrams.events.push(
                RealtimeEvent::DatagramPayloadChanged {
                    previous: datagrams.send.max_payload,
                    current: limit,
                },
            )
            &&& after.send == datagrams.send.limited(limit)
            &&& after.enabled == datagrams.enabled
        }),
{
}

/// A path with another remote address is told as moved, once, and counted; what waits to
/// be sent stays.
pub proof fn moved_paths_are_told(datagrams: DatagramsView, remote: Seq<u8>)
    requires
        datagrams.send.counters.migration_count < u64::MAX,
    ensures
        ({
            let after = datagrams.moved(remote);
            &&& after.last_remote == remote
            &&& after.send.groups == datagrams.send.groups
            &&& remote == datagrams.last_remote ==> after == datagrams
            &&& remote != datagrams.last_remote ==> {
                &&& after.events == datagrams.events.push(RealtimeEvent::PathMigrated)
                &&& after.send.counters.migration_count == datagrams.send.counters.migration_count + 1
            }
            &&& after.moved(remote) == after
        }),
{
}

/// A measure of a path counts the congestion since the one before it, each event once.
pub proof fn congestion_is_counted_once(datagrams: DatagramsView, rtt_us: u64, window: u64, events: u64)
    requires
        datagrams.send.transport_congestion_events <= events,
        datagrams.send.counters.congestion_events + (events
            - datagrams.send.transport_congestion_events) <= u64::MAX,
    ensures
        ({
            let once = datagrams.measured(rtt_us, window, events);
            let twice = once.measured(rtt_us, window, events);
            &&& once.send.counters.congestion_events - datagrams.send.counters.congestion_events == events
                - datagrams.send.transport_congestion_events
            &&& twice.send.counters.congestion_events == once.send.counters.congestion_events
            &&& once.send.counters.rtt_us == Some(rtt_us)
            &&& once.send.counters.estimated_send_rate_bps == send_rate(window, rtt_us)
            &&& once.send.groups == datagrams.send.groups
        }),
{
}

/// A look at the path changes nothing without datagrams, is refused where the path carries
/// no payload, and else brings the queue to what the path carries.
pub proof fn looks_at_the_path_are_followed(datagrams: DatagramsView, path: PathView)
    ensures
        ({
            let (after, fault) = datagrams.refreshed(path);
            let carries = path.max_datagram_size matches Some(most) && most > 20
                && datagrams.max_datagram_bytes > 20;
            &&& !datagrams.enabled ==> after == datagrams && fault is None
            &&& datagrams.enabled && !carries ==> after == datagrams && (fault matches Some(e) && e.kind
                == TransportErrorKind::Unsupported)
            &&& datagrams.enabled && carries ==> {
                &&& fault is None
                &&& after.last_remote == path.remote
                &&& after.send.transport_congestion_events == path.congestion_events
                &&& path.rtt_us <= u64::MAX ==> after.send.counters.rtt_us == Some(path.rtt_us as u64)
            }
        }),
{
}

/// A step of a poll sends nothing once 64 datagrams were sent in it, and what it sends fits,
/// is in time, and is taken from the queue.
pub proof fn polls_send_what_fits(
    datagrams: DatagramsView,
    now: u64,
    available: usize,
    sent: usize,
    step: PollStep,
    after: DatagramsView,
)
    requires
        datagrams.send.wf(),
        datagrams.steps(now, available, sent, step, after),
    ensures
        sent >= 64 ==> step is Done && after == datagrams,
        step matches PollStep::Send { datagram, wire } ==> {
            &&& sent < 64
            &&& 20 + datagram@.payload.len() <= available
            &&& datagram@.deadline > now
            &&& wire@.len() == 20 + datagram@.payload.len()
            &&& datagrams.send.groups.contains_key(datagram@.flow)
            &&& datagram@.payload == datagrams.send.groups[datagram@.flow].datagrams[0]
        },
{
    if step is Send {
        crate::realtime_model::lemma_expired(datagrams.send, now);
        let d = step->datagram@;
        crate::realtime_order::datagram_headers_have_their_places(d);
    }
}

/// Options are refused for a budget or a queue that is limited to nothing, and for early
/// data; else they are taken.
pub proof fn sound_options_are_taken(options: QuicOptions)
    ensures
        options.fault() is None <==> options.budget.positive() && options.realtime_queue.is_valid()
            && !options.enable_zero_rtt,
{
}

/// A stream says in nine bytes that it is one of this link, and whether it carries control
/// or data.
pub proof fn prefaces_name_the_link(kind: StreamKind)
    ensures
        kind.preface_bytes().len() == 9,
        kind.preface_bytes()[0] == 'M' as u8,
        kind.preface_bytes()[1] == 'L' as u8,
        kind.preface_bytes()[2] == 'I' as u8,
        kind.preface_bytes()[3] == 'N' as u8,
        kind.preface_bytes()[4] == 'K' as u8,
        kind.preface_bytes()[5] == 0,
        kind.preface_bytes()[6] == 1,
        kind.preface_bytes()[7] == 0,
        kind is Control ==> kind.preface_bytes()[8] == 'C' as u8,
        kind is Data ==> kind.preface_bytes()[8] == 'D' as u8,
{
}

/// What failed is told by what it was: a datagram that is too long, a peer that takes none,
/// a time that ran out, an end that was meant, and a connection that was cut.
pub proof fn failures_keep_their_kind(datagram: DatagramFailure, connection: QuicFailure)
    ensures
        datagram is TooLarge ==> datagram_error(datagram).kind == TransportErrorKind::MessageTooLarge,
        datagram is UnsupportedByPeer || datagram is Disabled ==> datagram_error(datagram).kind
            == TransportErrorKind::Unsupported,
        datagram is ConnectionLost ==> datagram_error(datagram).kind == TransportErrorKind::Closed,
        connection is TimedOut ==> connection_error(connection).kind == TransportErrorKind::TimedOut,
        connection is LocallyClosed || connection is ApplicationClosed || connection is ConnectionClosed
            ==> connection_error(connection).kind == TransportErrorKind::Closed,
        connection is Other ==> connection_error(connection).kind == TransportErrorKind::Aborted,
        no_datagram(true).kind == TransportErrorKind::Closed,
        no_datagram(false).kind == TransportErrorKind::WouldBlock,
        security_level() is AuthenticatedEncrypted,
{
}

/// Data is asked for only where control had nothing ready: a failure of control stands.
pub proof fn failed_control_is_not_passed_over(control: TransportErrorKind)
    ensures
        asks_for_data(TransportErrorKind::WouldBlock),
        control != TransportErrorKind::WouldBlock ==> !asks_for_data(control),
{
}

/// Events are handed out once; a new session drops what waits and is told last.
pub proof fn events_are_handed_out_once(before: QuicDatagrams)
    ensures
        forall|lent: &mut QuicDatagrams, events: Vec<RealtimeEvent>|
            *lent == before && #[trigger] call_ensures(
                QuicDatagrams::take_events,
                (lent,),
                events,
            ) ==> {
                &&& events@ == before@.events
                &&& final(lent)@.events.len() == 0
                &&& final(lent)@.send == before@.send
                &&& final(lent)@.last_remote == before@.last_remote
                &&& final(lent)@.enabled == before@.enabled
            },
        forall|lent: &mut QuicDatagrams, done: ()|
            *lent == before && #[trigger] call_ensures(
                QuicDatagrams::reset_session,
                (lent,),
                done,
            ) ==> {
                let events = final(lent)@.events;
                &&& events.len() == before@.events.len() + 1
                &&& events.last() is SessionReset
                &&& final(lent)@.send.groups.dom() =~= Set::<u16>::empty()
                &&& final(lent)@.last_remote == before@.last_remote
                &&& final(lent)@.enabled == before@.enabled
            },
{
}

/// Where datagrams of the flow were dropped for congestion since the offer, the offer is
/// told as dropped; otherwise as it was made.
pub proof fn offers_are_settled_by_later_drops(datagrams: QuicDatagrams, offered: Offered)
    ensures
        forall|outcome: SendOutcome| #[trigger]
            call_ensures(QuicDatagrams::settle, (&datagrams, offered), outcome) ==> {
                let dropped = datagrams@.send.of_flow(offered.flow@).congestion_dropped;
                &&& dropped > offered.drops_before ==> outcome is DroppedCongested
                &&& dropped <= offered.drops_before ==> outcome == offered.outcome
            },
{
}

/// The limits of a transport have as many streams as the budget allows, at least two; room
/// for a full queue of datagrams where they are in use; and a keep-alive three times within
/// the time after which an idle connection ends.
pub proof fn transports_have_room_for_two_streams(options: QuicOptions)
    ensures
        forall|limits: Result<TransportLimits, TransportError>| #[trigger]
            call_ensures(transport_limits, (options,), limits) ==> {
                let streams = options.budget.max_concurrent_streams;
                let room = options.budget.max_frame_bytes * options.budget.receive_queue_capacity;
                &&& limits is Ok <==> 2 <= streams <= u32::MAX
                &&& limits matches Ok(l) ==> {
                    &&& l.bidirectional_streams == streams
                    &&& l.datagram_buffer is Some <==> options.enable_datagrams
                    &&& options.enable_datagrams && room <= usize::MAX ==> l.datagram_buffer->0
                        == room
                    &&& options.enable_datagrams && room > usize::MAX ==> l.datagram_buffer->0
                        == usize::MAX
                    &&& l.idle is Some <==> options.budget.idle_timeout is Some
                    &&& options.budget.idle_timeout matches Some(timeout) ==> {
                        &&& l.idle->0.timeout == timeout
                        &&& 3 * l.idle->0.keep_alive <= timeout < 3 * (l.idle->0.keep_alive + 1)
                    }
                }
            },
{
}

} // verus!
