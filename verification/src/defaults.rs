//! What holds of the values that stand where none was chosen, and of the limits.

use vstd::prelude::*;
use crate::budget::ConnectionBudget;
use crate::channel::CONTROL_CHANNEL_ID;
use crate::channel_map::MAX_SESSION_CHANNEL_MAPPINGS;
use crate::control_wire::{
    MAX_CONTROL_DEBUG_COMPONENT_BYTES, MAX_CONTROL_PAYLOAD_BYTES, MAX_CONTROL_PROTOCOLS,
};
use crate::data::DataCodecLimits;
use crate::liveness::{HeartbeatPolicy, QualityChangeThreshold};
use crate::memory_transport::MemoryTransportConfig;
use crate::mux_model::MultiplexerLimits;
use crate::pairing::MIN_PUBLIC_KEY_BYTES;
use crate::protocol::{MAX_CHANNEL_NAME_BYTES, MAX_PROTOCOL_ID_BYTES, ProtocolRegistryLimits};
use crate::protocol_ids::MAX_PROTOCOL_CAPABILITY_WORDS;
use crate::quic::{MAX_REALTIME_DATAGRAMS_PER_POLL, QuicOptions};
use crate::realtime::RealtimeQueueConfig;
use crate::resume::{ResumeLimits, SessionContinuity};
use crate::security::{
    ForwardSecrecyPolicy, LocalPeerCredentialPolicy, RemoteSecurityPolicy, SecurityPolicy,
};
use crate::tcp::TcpConfig;
use crate::transport::TransportBudget;
use crate::trust::{
    DEFAULT_MAX_TRUST_RECORDS, MAX_ALIAS_BYTES, MAX_PERMISSIONS, MAX_PERMISSION_NAMESPACE_BYTES,
    MAX_PREVIOUS_KEY_FINGERPRINTS, MAX_PUBLIC_KEY_BYTES,
};
use crate::trust_table::MAX_TRUST_STORE_FILE_BYTES;

verus! {

/// Heartbeats that were not chosen are valid. A busy connection is probed most often, then an
/// idle, a mobile, a local and one in the background. Three idle probes go unanswered before
/// a peer counts as unreachable, and as many again before it counts as dead.
pub proof fn heartbeats_are_probed_thrice()
    ensures
        forall|policy: HeartbeatPolicy| #[trigger]
            call_ensures(HeartbeatPolicy::default, (), policy) ==> {
                &&& policy.is_valid()
                &&& policy.active_interval_ms < policy.idle_interval_ms
                    < policy.mobile_interval_ms < policy.local_ipc_interval_ms
                    < policy.background_interval_ms
                &&& policy.unreachable_after_ms == 3 * policy.idle_interval_ms
                &&& policy.dead_after_ms == 2 * policy.unreachable_after_ms
                &&& policy.idle_interval_ms == 30 * 1_000
                &&& policy.idle_interval_ms == 3 * policy.active_interval_ms
                &&& 2 * policy.mobile_interval_ms == 3 * policy.idle_interval_ms
                &&& policy.local_ipc_interval_ms == 2 * policy.idle_interval_ms
                &&& policy.background_interval_ms == 4 * policy.idle_interval_ms
            },
{
}

/// A quality that moves by less than the thresholds is not told: these are positive, so that
/// the same quality is told once.
pub proof fn thresholds_are_positive()
    ensures
        forall|threshold: QualityChangeThreshold| #[trigger]
            call_ensures(QualityChangeThreshold::default, (), threshold) ==> {
                &&& threshold.round_trip_millis == 25
                &&& 5 * threshold.jitter_millis == 2 * threshold.round_trip_millis
                &&& 100 * threshold.loss_per_million == 1_000_000
                &&& threshold.retransmit_per_million == threshold.loss_per_million
                &&& 10 * threshold.queue_pressure_per_million == 1_000_000
                &&& threshold.throughput_bytes_per_second == 64 * 1_024
            },
{
}

/// The largest frame is the same for the transports, the multiplexer and the data codec: a
/// mebibyte. A frame that one of them takes, the others take.
pub proof fn frames_fit_everywhere()
    ensures
        forall|budget: TransportBudget| #[trigger]
            call_ensures(TransportBudget::default, (), budget) ==> {
                &&& budget.positive()
                &&& budget.max_frame_bytes == 1_024 * 1_024
                &&& budget.max_connections == 64
                &&& budget.max_concurrent_streams == budget.max_connections
                &&& budget.control_queue_capacity == 32
                &&& budget.data_queue_capacity == 4 * budget.control_queue_capacity
                &&& budget.receive_queue_capacity == budget.data_queue_capacity
                &&& budget.control_bytes_per_second is None
                &&& budget.data_bytes_per_second is None
                &&& budget.receive_bytes_per_second is None
                &&& budget.idle_timeout matches Some(timeout)
                &&& timeout == 60 * 1_000_000_000
            },
        forall|limits: MultiplexerLimits| #[trigger]
            call_ensures(MultiplexerLimits::default, (), limits) ==> {
                &&& limits.positive()
                &&& limits.max_frame_bytes == 1_024 * 1_024
                &&& limits.max_nesting_depth == 32
                &&& limits.max_channels == 64
                &&& limits.control_queue_capacity == 32
                &&& limits.max_total_pending_frames == 8 * limits.max_channels
            },
        forall|limits: DataCodecLimits| #[trigger]
            call_ensures(DataCodecLimits::default, (), limits) ==> {
                &&& limits.max_payload_bytes == 1_024 * 1_024
                &&& limits.max_nesting_depth == 32
            },
        forall|budget: ConnectionBudget| #[trigger]
            call_ensures(ConnectionBudget::default, (), budget) ==> {
                &&& budget.positive()
                &&& budget.max_memory_bytes == 16 * 1_024 * 1_024
                &&& budget.max_bandwidth_bytes_per_second == budget.max_memory_bytes
                &&& budget.max_channels == 64
                &&& budget.max_send_queue_frames == 8 * budget.max_channels
                &&& budget.max_resume_channels == budget.max_channels
                &&& budget.max_pending_replays == 2 * budget.max_channels
                &&& 8 * budget.max_maintenance_operations_per_tick == budget.max_channels
            },
{
}

/// Options of the transports that were not chosen are valid: a connection is given up after
/// ten seconds and kept alive twice within the time after which it would end, messages leave
/// at once, and no data is sent before the handshake is over.
pub proof fn transports_give_up_after_ten_seconds()
    ensures
        forall|options: QuicOptions| #[trigger]
            call_ensures(QuicOptions::default, (), options) ==> {
                &&& options.fault() is None
                &&& options.connect_timeout == 10 * 1_000_000_000
                &&& options.enable_datagrams
                &&& !options.enable_zero_rtt
                &&& options.budget.max_frame_bytes == 1_024 * 1_024
                &&& options.realtime_queue.is_valid()
            },
        forall|config: TcpConfig| #[trigger]
            call_ensures(TcpConfig::default, (), config) ==> {
                &&& config.budget.positive()
                &&& config.budget.max_frame_bytes == 1_024 * 1_024
                &&& config.connect_timeout == 10 * 1_000_000_000
                &&& config.no_delay
                &&& config.keepalive is Some
                &&& config.budget.idle_timeout is Some
                &&& 2 * config.keepalive->0 == config.budget.idle_timeout->0
            },
        forall|config: RealtimeQueueConfig| #[trigger]
            call_ensures(RealtimeQueueConfig::default, (), config) ==> {
                &&& config.is_valid()
                &&& config.max_flows == 32
                &&& config.max_datagrams_per_group == 2 * 1_024
                &&& config.max_group_bytes == 8 * 1_024 * 1_024
            },
        forall|config: MemoryTransportConfig| #[trigger]
            call_ensures(MemoryTransportConfig::default, (), config) ==> {
                &&& config.queue_capacity == 16
                &&& config.max_message_bytes == 64 * 1_024
                &&& 2 * config.datagram_capacity == config.queue_capacity
            },
{
}

/// A policy that was not chosen is the strictest: encryption, forward secrecy and the
/// credentials of local peers are all asked for. No session is taken to go on unless that
/// was asked for.
pub proof fn nothing_is_trusted_unasked()
    ensures
        forall|policy: SecurityPolicy| #[trigger]
            call_ensures(SecurityPolicy::default, (), policy) ==> {
                &&& policy.remote == RemoteSecurityPolicy::AuthenticatedEncrypted
                &&& policy.forward_secrecy == ForwardSecrecyPolicy::Required
                &&& policy.local_peer_credential == LocalPeerCredentialPolicy::Required
            },
        forall|continuity: SessionContinuity| #[trigger]
            call_ensures(SessionContinuity::default, (), continuity)
                ==> continuity is NewSession,
        forall|limits: ResumeLimits| #[trigger]
            call_ensures(ResumeLimits::default, (), limits) ==> {
                &&& limits.is_valid()
                &&& limits.max_token_bytes == 512
                &&& limits.max_channels == 64
                &&& 2 * limits.max_cursor_bytes == limits.max_token_bytes
                &&& limits.max_pending_requests == 2 * limits.max_channels
            },
        forall|limits: ProtocolRegistryLimits| #[trigger]
            call_ensures(ProtocolRegistryLimits::default, (), limits) ==> {
                &&& limits.is_valid()
                &&& limits.max_protocols == 16
                &&& limits.max_channels_per_protocol == 2 * limits.max_protocols
                &&& limits.max_total_channels == 4 * limits.max_channels_per_protocol
            },
{
}

/// How large things may get: what a peer sends is bounded before it is looked at, and a
/// default never asks for more than that.
pub proof fn sizes_are_bounded()
    ensures
        MAX_CONTROL_PAYLOAD_BYTES == 64 * 1_024,
        MAX_CONTROL_PROTOCOLS == 32,
        MAX_CONTROL_DEBUG_COMPONENT_BYTES == 128,
        MAX_SESSION_CHANNEL_MAPPINGS == 128,
        MAX_PROTOCOL_ID_BYTES == 128,
        2 * MAX_CHANNEL_NAME_BYTES == MAX_PROTOCOL_ID_BYTES,
        MAX_PROTOCOL_CAPABILITY_WORDS == 8,
        MIN_PUBLIC_KEY_BYTES == 16,
        MAX_PUBLIC_KEY_BYTES == 4 * 1_024,
        MAX_ALIAS_BYTES == 256,
        MAX_PERMISSIONS == 128,
        MAX_PERMISSION_NAMESPACE_BYTES == MAX_PERMISSIONS,
        MAX_PREVIOUS_KEY_FINGERPRINTS == 64,
        DEFAULT_MAX_TRUST_RECORDS == 1_024,
        MAX_TRUST_STORE_FILE_BYTES == 16 * 1_024 * 1_024,
        MAX_REALTIME_DATAGRAMS_PER_POLL == 64,
        CONTROL_CHANNEL_ID == 0,
        forall|limits: ProtocolRegistryLimits| #[trigger]
            call_ensures(ProtocolRegistryLimits::default, (), limits) ==> {
                &&& limits.max_protocols <= MAX_CONTROL_PROTOCOLS
                &&& limits.max_total_channels <= MAX_SESSION_CHANNEL_MAPPINGS
                &&& limits.max_protocol_id_bytes == MAX_PROTOCOL_ID_BYTES
                &&& limits.max_channel_name_bytes == MAX_CHANNEL_NAME_BYTES
            },
{
}

/// A peer is understood if its major version is one that this release still speaks, which
/// so far is the first alone.
pub proof fn the_first_version_is_spoken(version: u16)
    ensures
        forall|compatible: bool| #[trigger]
            call_ensures(crate::protocol_version_is_compatible, (version,), compatible) ==> (compatible
                <==> version == 1),
{
}

} // verus!
