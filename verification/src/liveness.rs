//! Whether a connection is alive, and how well it does.

use vstd::prelude::*;
use crate::arith::{at_most, distance, distance_u32, distance_u64, saturating_index_product, saturating_product};
use crate::selection::TransportKind;

verus! {

#[derive(Clone, Copy, Debug, Eq, PartialEq, Structural)]
pub enum LivenessState {
    Healthy,
    LatencyElevated,
    TemporarilyUnreachable,
    Dead,
    PeerClosed,
}

impl Default for LivenessState {
    fn default() -> (state: Self)
        ensures
            state == LivenessState::Healthy,
    {
        LivenessState::Healthy
    }
}

#[derive(Clone, Copy, Debug, Eq, PartialEq, Structural)]
pub enum ConnectionActivityProfile {
    Idle,
    Active,
    Mobile,
    Background,
    LocalIpc,
}

/// How often a connection is probed, and after which silence it is given up.
#[derive(Clone, Copy, Debug, Eq, PartialEq, Structural)]
pub struct HeartbeatPolicy {
    pub idle_interval_ms: u64,
    pub active_interval_ms: u64,
    pub mobile_interval_ms: u64,
    pub background_interval_ms: u64,
    pub local_ipc_interval_ms: u64,
    pub unreachable_after_ms: u64,
    pub dead_after_ms: u64,
}

impl Default for HeartbeatPolicy {
    fn default() -> (policy: Self)
        ensures
            policy == (HeartbeatPolicy {
                idle_interval_ms: 30_000,
                active_interval_ms: 10_000,
                mobile_interval_ms: 45_000,
                background_interval_ms: 120_000,
                local_ipc_interval_ms: 60_000,
                unreachable_after_ms: 90_000,
                dead_after_ms: 180_000,
            }),
    {
        HeartbeatPolicy {
            idle_interval_ms: 30_000,
            active_interval_ms: 10_000,
            mobile_interval_ms: 45_000,
            background_interval_ms: 120_000,
            local_ipc_interval_ms: 60_000,
            unreachable_after_ms: 90_000,
            dead_after_ms: 180_000,
        }
    }
}

impl HeartbeatPolicy {
    #[verifier::allow_in_spec]
    pub fn is_valid(self) -> bool
        returns
            self.idle_interval_ms > 0 && self.active_interval_ms > 0 && self.mobile_interval_ms > 0
                && self.background_interval_ms > 0 && self.local_ipc_interval_ms > 0
                && self.dead_after_ms > self.unreachable_after_ms && self.unreachable_after_ms > 0,
    {
        self.idle_interval_ms > 0 && self.active_interval_ms > 0 && self.mobile_interval_ms > 0
            && self.background_interval_ms > 0 && self.local_ipc_interval_ms > 0 && self.dead_after_ms
            > self.unreachable_after_ms && self.unreachable_after_ms > 0
    }

    /// How long a connection of a profile may be quiet.
    #[verifier::allow_in_spec]
    pub fn interval(self, profile: ConnectionActivityProfile) -> u64
        returns
            (match profile {
                ConnectionActivityProfile::Idle => self.idle_interval_ms,
                ConnectionActivityProfile::Active => self.active_interval_ms,
                ConnectionActivityProfile::Mobile => self.mobile_interval_ms,
                ConnectionActivityProfile::Background => self.background_interval_ms,
                ConnectionActivityProfile::LocalIpc => self.local_ipc_interval_ms,
            }),
    {
        match profile {
            ConnectionActivityProfile::Idle => self.idle_interval_ms,
            ConnectionActivityProfile::Active => self.active_interval_ms,
            ConnectionActivityProfile::Mobile => self.mobile_interval_ms,
            ConnectionActivityProfile::Background => self.background_interval_ms,
            ConnectionActivityProfile::LocalIpc => self.local_ipc_interval_ms,
        }
    }
}

/// What is to be done. Where the transport has shown that the peer is there, no
/// probe is sent.
#[derive(Clone, Copy, Debug, Eq, PartialEq, Structural)]
pub enum HeartbeatAction {
    Quiet,
    SendProbe,
    SuppressedByTransport,
    StateChanged(LivenessState),
}

/// Watches whether a peer is there.
#[derive(Clone, Copy, Debug, Eq, PartialEq, Structural)]
pub struct HeartbeatController {
    pub policy: HeartbeatPolicy,
    pub last_liveness_unix_ms: u64,
    pub last_transport_ack_unix_ms: Option<u64>,
    pub next_probe_unix_ms: u64,
    pub state: LivenessState,
    pub paused: bool,
}

/// A later moment, or the last one.
pub open spec fn later_by(at: u64, by: u64) -> u64 {
    at_most(at + by, u64::MAX as int) as u64
}

/// How long ago a moment was.
pub open spec fn since(at: u64, now: u64) -> int {
    if now >= at {
        now - at
    } else {
        0
    }
}

impl HeartbeatController {
    /// The state that a silence leads to.
    pub open spec fn state_after(self, silence: int) -> LivenessState {
        if silence >= self.policy.dead_after_ms {
            LivenessState::Dead
        } else if silence >= self.policy.unreachable_after_ms {
            LivenessState::TemporarilyUnreachable
        } else {
            LivenessState::Healthy
        }
    }

    /// What a look at the clock makes of the controller, and what is to be done.
    pub open spec fn ticked(self, now_unix_ms: u64, profile: ConnectionActivityProfile) -> (
        HeartbeatController,
        HeartbeatAction,
    ) {
        let next = self.state_after(since(self.last_liveness_unix_ms, now_unix_ms));
        let interval = self.policy.interval(profile);
        if self.paused || self.state == LivenessState::PeerClosed {
            (self, HeartbeatAction::Quiet)
        } else if next != self.state {
            (HeartbeatController { state: next, ..self }, HeartbeatAction::StateChanged(next))
        } else if now_unix_ms < self.next_probe_unix_ms {
            (self, HeartbeatAction::Quiet)
        } else {
            (
                HeartbeatController {
                    next_probe_unix_ms: later_by(now_unix_ms, interval),
                    ..self
                },
                if self.last_transport_ack_unix_ms is Some && since(
                    self.last_transport_ack_unix_ms->0,
                    now_unix_ms,
                ) <= interval {
                    HeartbeatAction::SuppressedByTransport
                } else {
                    HeartbeatAction::SendProbe
                },
            )
        }
    }

    pub fn new(policy: HeartbeatPolicy, now_unix_ms: u64) -> (controller: Result<Self, &'static str>)
        ensures
            controller == (if policy.is_valid() {
                Ok::<HeartbeatController, &'static str>(
                    HeartbeatController {
                        policy,
                        last_liveness_unix_ms: now_unix_ms,
                        last_transport_ack_unix_ms: None,
                        next_probe_unix_ms: later_by(now_unix_ms, policy.idle_interval_ms),
                        state: LivenessState::Healthy,
                        paused: false,
                    },
                )
            } else {
                Err("heartbeat intervals must be positive and ordered")
            }),
    {
        if !policy.is_valid() {
            return Err("heartbeat intervals must be positive and ordered");
        }
        Ok(
            HeartbeatController {
                policy,
                last_liveness_unix_ms: now_unix_ms,
                last_transport_ack_unix_ms: None,
                next_probe_unix_ms: now_unix_ms.saturating_add(policy.idle_interval_ms),
                state: LivenessState::Healthy,
                paused: false,
            },
        )
    }

    /// Stops looking at the clock.
    pub fn pause(&mut self)
        ensures
            *final(self) == (HeartbeatController { paused: true, ..*old(self) }),
    {
        self.paused = true;
    }

    /// Looks at the clock again, with the next probe after a whole interval.
    pub fn resume(&mut self, now_unix_ms: u64, profile: ConnectionActivityProfile)
        ensures
            *final(self) == (HeartbeatController {
                paused: false,
                next_probe_unix_ms: later_by(now_unix_ms, old(self).policy.interval(profile)),
                ..*old(self)
            }),
    {
        self.paused = false;
        self.next_probe_unix_ms = now_unix_ms.saturating_add(self.policy.interval(profile));
    }

    /// Takes it that the transport has heard of the peer.
    pub fn observe_transport_ack(&mut self, now_unix_ms: u64)
        ensures
            *final(self) == (HeartbeatController {
                last_transport_ack_unix_ms: Some(now_unix_ms),
                last_liveness_unix_ms: now_unix_ms,
                state: LivenessState::Healthy,
                ..*old(self)
            }),
    {
        self.last_transport_ack_unix_ms = Some(now_unix_ms);
        self.observe_liveness(now_unix_ms);
    }

    /// Takes it that a probe was answered.
    pub fn observe_probe_ack(&mut self, now_unix_ms: u64)
        ensures
            *final(self) == (HeartbeatController {
                last_liveness_unix_ms: now_unix_ms,
                state: LivenessState::Healthy,
                ..*old(self)
            }),
    {
        self.observe_liveness(now_unix_ms);
    }

    /// Takes a measured round trip.
    pub fn observe_latency(&mut self, now_unix_ms: u64, round_trip_millis: u32, elevated_at_millis: u32) -> (
        action: HeartbeatAction)
        ensures
            ({
                let next = if round_trip_millis >= elevated_at_millis {
                    LivenessState::LatencyElevated
                } else {
                    LivenessState::Healthy
                };
                &&& *final(self) == (HeartbeatController {
                    last_liveness_unix_ms: now_unix_ms,
                    state: next,
                    ..*old(self)
                })
                &&& action == if next == old(self).state {
                    HeartbeatAction::Quiet
                } else {
                    HeartbeatAction::StateChanged(next)
                }
            }),
    {
        self.last_liveness_unix_ms = now_unix_ms;
        let next = if round_trip_millis >= elevated_at_millis {
            LivenessState::LatencyElevated
        } else {
            LivenessState::Healthy
        };
        if next == self.state {
            HeartbeatAction::Quiet
        } else {
            self.state = next;
            HeartbeatAction::StateChanged(next)
        }
    }

    /// Takes it that the peer has closed.
    pub fn observe_peer_close(&mut self) -> (action: HeartbeatAction)
        ensures
            *final(self) == (HeartbeatController { state: LivenessState::PeerClosed, ..*old(self) }),
            action == HeartbeatAction::StateChanged(LivenessState::PeerClosed),
    {
        self.state = LivenessState::PeerClosed;
        HeartbeatAction::StateChanged(self.state)
    }

    /// Looks at the clock.
    pub fn tick(&mut self, now_unix_ms: u64, profile: ConnectionActivityProfile) -> (action:
        HeartbeatAction)
        ensures
            (*final(self), action) == old(self).ticked(now_unix_ms, profile),
    {
        if self.paused || self.state == LivenessState::PeerClosed {
            return HeartbeatAction::Quiet;
        }
        let silence: u64 = now_unix_ms.saturating_sub(self.last_liveness_unix_ms);
        let next_state = if silence >= self.policy.dead_after_ms {
            LivenessState::Dead
        } else if silence >= self.policy.unreachable_after_ms {
            LivenessState::TemporarilyUnreachable
        } else {
            LivenessState::Healthy
        };
        if next_state != self.state {
            self.state = next_state;
            return HeartbeatAction::StateChanged(next_state);
        }
        if now_unix_ms < self.next_probe_unix_ms {
            return HeartbeatAction::Quiet;
        }
        let interval: u64 = self.policy.interval(profile);
        self.next_probe_unix_ms = now_unix_ms.saturating_add(interval);
        match self.last_transport_ack_unix_ms {
            Some(ack) => if now_unix_ms.saturating_sub(ack) <= interval {
                HeartbeatAction::SuppressedByTransport
            } else {
                HeartbeatAction::SendProbe
            },
            None => HeartbeatAction::SendProbe,
        }
    }

    pub fn state(&self) -> (state: LivenessState)
        ensures
            state == self.state,
    {
        self.state
    }

    fn observe_liveness(&mut self, now_unix_ms: u64)
        ensures
            *final(self) == (HeartbeatController {
                last_liveness_unix_ms: now_unix_ms,
                state: LivenessState::Healthy,
                ..*old(self)
            }),
    {
        self.last_liveness_unix_ms = now_unix_ms;
        self.state = LivenessState::Healthy;
    }
}

/// A paused controller, or one whose peer has closed, does nothing.
pub proof fn paused_heartbeats_are_quiet(
    controller: HeartbeatController,
    now_unix_ms: u64,
    profile: ConnectionActivityProfile,
)
    requires
        controller.paused || controller.state == LivenessState::PeerClosed,
    ensures
        controller.ticked(now_unix_ms, profile) == (controller, HeartbeatAction::Quiet),
{
}

/// After a probe, or one that was not needed, a whole interval passes before the next.
/// (The last moment that the clock can show is left out.)
pub proof fn probes_keep_their_interval(
    controller: HeartbeatController,
    now: u64,
    profile: ConnectionActivityProfile,
    later: u64,
    later_profile: ConnectionActivityProfile,
)
    requires
        controller.ticked(now, profile).1 == HeartbeatAction::SendProbe || controller.ticked(now, profile).1
            == HeartbeatAction::SuppressedByTransport,
        now <= later < u64::MAX,
        later - now < controller.policy.interval(profile),
    ensures
        controller.ticked(now, profile).0.ticked(later, later_profile).1 != HeartbeatAction::SendProbe,
        controller.ticked(now, profile).0.ticked(later, later_profile).1
            != HeartbeatAction::SuppressedByTransport,
{
}

/// How well a connection does.
#[derive(Clone, Copy, Debug, Eq, PartialEq)]
pub struct ConnectionQuality {
    pub round_trip_millis: Option<u32>,
    pub jitter_millis: Option<u32>,
    pub loss_per_million: Option<u32>,
    pub retransmit_per_million: Option<u32>,
    pub send_queue_pressure_per_million: u32,
    pub transmit_bytes_per_second: u64,
    pub receive_bytes_per_second: u64,
    pub consecutive_failures: u16,
    pub transport: Option<TransportKind>,
    pub liveness: LivenessState,
}

impl Default for ConnectionQuality {
    fn default() -> (quality: Self)
        ensures
            quality == (ConnectionQuality {
                round_trip_millis: None,
                jitter_millis: None,
                loss_per_million: None,
                retransmit_per_million: None,
                send_queue_pressure_per_million: 0,
                transmit_bytes_per_second: 0,
                receive_bytes_per_second: 0,
                consecutive_failures: 0,
                transport: None,
                liveness: LivenessState::Healthy,
            }),
    {
        ConnectionQuality {
            round_trip_millis: None,
            jitter_millis: None,
            loss_per_million: None,
            retransmit_per_million: None,
            send_queue_pressure_per_million: 0,
            transmit_bytes_per_second: 0,
            receive_bytes_per_second: 0,
            consecutive_failures: 0,
            transport: None,
            liveness: LivenessState::Healthy,
        }
    }
}

/// What was measured over a span of time.
#[derive(Clone, Copy, Debug, Eq, PartialEq, Structural)]
pub struct QualityObservation {
    pub round_trip_millis: Option<u32>,
    pub sent_packets: u32,
    pub lost_packets: u32,
    pub retransmitted_packets: u32,
    pub transmitted_bytes: u64,
    pub received_bytes: u64,
    pub elapsed_ms: u64,
    pub send_queue_depth: usize,
    pub send_queue_capacity: usize,
    pub consecutive_failures: u16,
    pub liveness: LivenessState,
}

/// Averages what is measured.
#[derive(Clone, Copy, Debug)]
pub struct QualityAccumulator {
    pub transport: TransportKind,
    pub rtt_ewma: Option<u32>,
    pub jitter_ewma: Option<u32>,
    pub total_sent_packets: u64,
    pub total_lost_packets: u64,
    pub total_retransmitted_packets: u64,
}

/// An average that moves by an eighth towards a sample.
pub open spec fn averaged(previous: u32, sample: u32) -> u32 {
    (at_most(at_most(previous * 7, u32::MAX as int) + sample, u32::MAX as int) / 8) as u32
}

/// A ratio in millionths, where there is anything to divide by.
pub open spec fn per_million(numerator: u64, denominator: u64) -> Option<u32> {
    if denominator == 0 {
        None
    } else {
        Some(
            at_most(
                at_most(numerator * 1_000_000, u64::MAX as int) / denominator as int,
                u32::MAX as int,
            ) as u32,
        )
    }
}

/// How full a queue is, in millionths.
pub open spec fn pressure(depth: usize, capacity: usize) -> u32 {
    if capacity == 0 {
        0
    } else {
        at_most(at_most(depth * 1_000_000, usize::MAX as int) / capacity as int, 1_000_000) as u32
    }
}

/// Bytes per second.
pub open spec fn per_second(bytes: u64, elapsed_ms: u64) -> u64 {
    if elapsed_ms == 0 {
        0
    } else {
        (at_most(bytes * 1_000, u64::MAX as int) / elapsed_ms as int) as u64
    }
}

impl QualityAccumulator {
    /// With one more observation.
    pub open spec fn observed(self, sample: QualityObservation) -> QualityAccumulator {
        let (rtt, jitter) = match sample.round_trip_millis {
            Some(rtt) => {
                let previous = match self.rtt_ewma {
                    Some(average) => average,
                    None => rtt,
                };
                let deviation = distance(previous as int, rtt as int) as u32;
                let jitter = match self.jitter_ewma {
                    Some(average) => average,
                    None => deviation,
                };
                (Some(averaged(previous, rtt)), Some(averaged(jitter, deviation)))
            },
            None => (self.rtt_ewma, self.jitter_ewma),
        };
        QualityAccumulator {
            rtt_ewma: rtt,
            jitter_ewma: jitter,
            total_sent_packets: later_by(self.total_sent_packets, sample.sent_packets as u64),
            total_lost_packets: later_by(self.total_lost_packets, sample.lost_packets as u64),
            total_retransmitted_packets: later_by(
                self.total_retransmitted_packets,
                sample.retransmitted_packets as u64,
            ),
            ..self
        }
    }

    /// What the averages and an observation say of the connection.
    pub open spec fn quality(self, sample: QualityObservation) -> ConnectionQuality {
        ConnectionQuality {
            round_trip_millis: self.rtt_ewma,
            jitter_millis: self.jitter_ewma,
            loss_per_million: per_million(self.total_lost_packets, self.total_sent_packets),
            retransmit_per_million: per_million(
                self.total_retransmitted_packets,
                self.total_sent_packets,
            ),
            send_queue_pressure_per_million: pressure(
                sample.send_queue_depth,
                sample.send_queue_capacity,
            ),
            transmit_bytes_per_second: per_second(sample.transmitted_bytes, sample.elapsed_ms),
            receive_bytes_per_second: per_second(sample.received_bytes, sample.elapsed_ms),
            consecutive_failures: sample.consecutive_failures,
            transport: Some(self.transport),
            liveness: sample.liveness,
        }
    }

    #[verifier::allow_in_spec]
    pub fn new(transport: TransportKind) -> Self
        returns
            (QualityAccumulator {
                transport,
                rtt_ewma: None,
                jitter_ewma: None,
                total_sent_packets: 0,
                total_lost_packets: 0,
                total_retransmitted_packets: 0,
            }),
    {
        QualityAccumulator {
            transport,
            rtt_ewma: None,
            jitter_ewma: None,
            total_sent_packets: 0,
            total_lost_packets: 0,
            total_retransmitted_packets: 0,
        }
    }

    /// Takes an observation.
    pub fn observe(&mut self, sample: QualityObservation) -> (quality: ConnectionQuality)
        ensures
            *final(self) == old(self).observed(sample),
            quality == old(self).observed(sample).quality(sample),
    {
        match sample.round_trip_millis {
            Some(rtt) => {
                let previous: u32 = match self.rtt_ewma {
                    Some(average) => average,
                    None => rtt,
                };
                let deviation: u32 = distance_u32(previous, rtt);
                self.rtt_ewma = Some(ewma(previous, rtt));
                let jitter: u32 = match self.jitter_ewma {
                    Some(average) => average,
                    None => deviation,
                };
                self.jitter_ewma = Some(ewma(jitter, deviation));
            },
            None => {},
        }
        self.total_sent_packets = self.total_sent_packets.saturating_add(sample.sent_packets as u64);
        self.total_lost_packets = self.total_lost_packets.saturating_add(sample.lost_packets as u64);
        self.total_retransmitted_packets = self.total_retransmitted_packets.saturating_add(
            sample.retransmitted_packets as u64,
        );
        ConnectionQuality {
            round_trip_millis: self.rtt_ewma,
            jitter_millis: self.jitter_ewma,
            loss_per_million: ratio_per_million(self.total_lost_packets, self.total_sent_packets),
            retransmit_per_million: ratio_per_million(
                self.total_retransmitted_packets,
                self.total_sent_packets,
            ),
            send_queue_pressure_per_million: queue_pressure(
                sample.send_queue_depth,
                sample.send_queue_capacity,
            ),
            transmit_bytes_per_second: rate(sample.transmitted_bytes, sample.elapsed_ms),
            receive_bytes_per_second: rate(sample.received_bytes, sample.elapsed_ms),
            consecutive_failures: sample.consecutive_failures,
            transport: Some(self.transport),
            liveness: sample.liveness,
        }
    }
}

fn ewma(previous: u32, sample: u32) -> (average: u32)
    ensures
        average == averaged(previous, sample),
{
    let weighted: u64 = (previous as u64) * 7;
    let top: u64 = u32::MAX as u64;
    let scaled: u64 = if weighted > top {
        top
    } else {
        weighted
    };
    let sum: u64 = scaled + sample as u64;
    let capped: u64 = if sum > top {
        top
    } else {
        sum
    };
    (capped / 8) as u32
}

fn ratio_per_million(numerator: u64, denominator: u64) -> (ratio: Option<u32>)
    ensures
        ratio == per_million(numerator, denominator),
{
    if denominator == 0 {
        return None;
    }
    let scaled: u64 = saturating_product(numerator, 1_000_000) / denominator;
    if scaled > u32::MAX as u64 {
        Some(u32::MAX)
    } else {
        Some(scaled as u32)
    }
}

fn queue_pressure(depth: usize, capacity: usize) -> (millionths: u32)
    ensures
        millionths == pressure(depth, capacity),
{
    if capacity == 0 {
        return 0;
    }
    let scaled: usize = saturating_index_product(depth, 1_000_000) / capacity;
    if scaled > 1_000_000 {
        1_000_000
    } else {
        scaled as u32
    }
}

fn rate(bytes: u64, elapsed_ms: u64) -> (bytes_per_second: u64)
    ensures
        bytes_per_second == per_second(bytes, elapsed_ms),
{
    if elapsed_ms == 0 {
        return 0;
    }
    let top: u64 = saturating_product(bytes, 1_000);
    let per: u64 = top / elapsed_ms;
    assert(per <= u64::MAX);
    per
}

/// From which change on a quality is told anew.
#[derive(Clone, Copy, Debug, Eq, PartialEq, Structural)]
pub struct QualityChangeThreshold {
    pub round_trip_millis: u32,
    pub jitter_millis: u32,
    pub loss_per_million: u32,
    pub retransmit_per_million: u32,
    pub queue_pressure_per_million: u32,
    pub throughput_bytes_per_second: u64,
}

impl Default for QualityChangeThreshold {
    fn default() -> (threshold: Self)
        ensures
            threshold == (QualityChangeThreshold {
                round_trip_millis: 25,
                jitter_millis: 10,
                loss_per_million: 10_000,
                retransmit_per_million: 10_000,
                queue_pressure_per_million: 100_000,
                throughput_bytes_per_second: 65536,
            }),
    {
        QualityChangeThreshold {
            round_trip_millis: 25,
            jitter_millis: 10,
            loss_per_million: 10_000,
            retransmit_per_million: 10_000,
            queue_pressure_per_million: 100_000,
            throughput_bytes_per_second: 65536,
        }
    }
}

/// Tells a quality only where it has changed.
#[derive(Clone, Copy, Debug)]
pub struct QualityChangeDetector {
    pub threshold: QualityChangeThreshold,
    pub last_emitted: Option<ConnectionQuality>,
}

/// How far two measures lie apart; one that is missing is as far as can be.
pub open spec fn apart(left: Option<u32>, right: Option<u32>) -> int {
    match (left, right) {
        (Some(left), Some(right)) => distance(left as int, right as int),
        (None, None) => 0,
        _ => u32::MAX as int,
    }
}

/// Whether two transports differ.
pub open spec fn transports_agree(left: Option<TransportKind>, right: Option<TransportKind>) -> bool {
    match (left, right) {
        (Some(left), Some(right)) => left.agrees(right),
        (None, None) => true,
        _ => false,
    }
}

/// Whether a quality has changed enough to be told.
pub open spec fn changed(
    threshold: QualityChangeThreshold,
    previous: ConnectionQuality,
    value: ConnectionQuality,
) -> bool {
    ||| apart(previous.round_trip_millis, value.round_trip_millis) >= threshold.round_trip_millis
    ||| apart(previous.jitter_millis, value.jitter_millis) >= threshold.jitter_millis
    ||| apart(previous.loss_per_million, value.loss_per_million) >= threshold.loss_per_million
    ||| apart(previous.retransmit_per_million, value.retransmit_per_million)
        >= threshold.retransmit_per_million
    ||| distance(
        previous.send_queue_pressure_per_million as int,
        value.send_queue_pressure_per_million as int,
    ) >= threshold.queue_pressure_per_million
    ||| distance(previous.transmit_bytes_per_second as int, value.transmit_bytes_per_second as int)
        >= threshold.throughput_bytes_per_second
    ||| distance(previous.receive_bytes_per_second as int, value.receive_bytes_per_second as int)
        >= threshold.throughput_bytes_per_second
    ||| previous.liveness != value.liveness
    ||| !transports_agree(previous.transport, value.transport)
}

fn option_diff(left: Option<u32>, right: Option<u32>) -> (d: u32)
    ensures
        d == apart(left, right),
{
    match (left, right) {
        (Some(left), Some(right)) => distance_u32(left, right),
        (None, None) => 0,
        _ => u32::MAX,
    }
}

fn same_transport(left: Option<TransportKind>, right: Option<TransportKind>) -> (same: bool)
    ensures
        same == transports_agree(left, right),
{
    match (left, right) {
        (Some(left), Some(right)) => left.same(right),
        (None, None) => true,
        _ => false,
    }
}

impl QualityChangeDetector {
    #[verifier::allow_in_spec]
    pub fn new(threshold: QualityChangeThreshold) -> Self
        returns
            (QualityChangeDetector { threshold, last_emitted: None }),
    {
        QualityChangeDetector { threshold, last_emitted: None }
    }

    /// Hands a quality back if it is the first or has changed enough.
    pub fn consider(&mut self, value: ConnectionQuality) -> (told: Option<ConnectionQuality>)
        ensures
            if old(self).last_emitted is None || changed(
                old(self).threshold,
                old(self).last_emitted->0,
                value,
            ) {
                &&& told == Some(value)
                &&& *final(self) == (QualityChangeDetector {
                    last_emitted: Some(value),
                    ..*old(self)
                })
            } else {
                told is None && *final(self) == *old(self)
            },
    {
        let significant = match self.last_emitted {
            None => true,
            Some(previous) => option_diff(previous.round_trip_millis, value.round_trip_millis)
                >= self.threshold.round_trip_millis || option_diff(
                previous.jitter_millis,
                value.jitter_millis,
            ) >= self.threshold.jitter_millis || option_diff(
                previous.loss_per_million,
                value.loss_per_million,
            ) >= self.threshold.loss_per_million || option_diff(
                previous.retransmit_per_million,
                value.retransmit_per_million,
            ) >= self.threshold.retransmit_per_million || distance_u32(
                previous.send_queue_pressure_per_million,
                value.send_queue_pressure_per_million,
            ) >= self.threshold.queue_pressure_per_million || distance_u64(
                previous.transmit_bytes_per_second,
                value.transmit_bytes_per_second,
            ) >= self.threshold.throughput_bytes_per_second || distance_u64(
                previous.receive_bytes_per_second,
                value.receive_bytes_per_second,
            ) >= self.threshold.throughput_bytes_per_second || previous.liveness != value.liveness
                || !same_transport(previous.transport, value.transport),
        };
        if significant {
            self.last_emitted = Some(value);
            Some(value)
        } else {
            None
        }
    }
}

/// The interval of a profile is the one that the policy names for it.
pub proof fn profiles_have_their_own_interval(policy: HeartbeatPolicy, profile: ConnectionActivityProfile)
    ensures
        profile is Idle ==> policy.interval(profile) == policy.idle_interval_ms,
        profile is Active ==> policy.interval(profile) == policy.active_interval_ms,
        profile is Mobile ==> policy.interval(profile) == policy.mobile_interval_ms,
        profile is Background ==> policy.interval(profile) == policy.background_interval_ms,
        profile is LocalIpc ==> policy.interval(profile) == policy.local_ipc_interval_ms,
{
}

/// A controller that watches, whose peer was heard of so lately that its state stays
/// healthy, and whose next probe is due, asks for a probe unless the transport has shown
/// the peer within the interval of the profile; only where it has is the probe left out.
/// The next probe is due an interval later.
pub proof fn due_probes_are_sent_unless_the_transport_answered(
    controller: HeartbeatController,
    now: u64,
    profile: ConnectionActivityProfile,
    interval: u64,
)
    requires
        !controller.paused,
        controller.policy.is_valid(),
        profile is Idle ==> interval == controller.policy.idle_interval_ms,
        profile is Active ==> interval == controller.policy.active_interval_ms,
        profile is Mobile ==> interval == controller.policy.mobile_interval_ms,
        profile is Background ==> interval == controller.policy.background_interval_ms,
        profile is LocalIpc ==> interval == controller.policy.local_ipc_interval_ms,
        now >= controller.next_probe_unix_ms,
        ({
            ||| controller.state == LivenessState::Healthy && now - controller.last_liveness_unix_ms
                < controller.policy.unreachable_after_ms
            ||| controller.state == LivenessState::TemporarilyUnreachable
                && controller.policy.unreachable_after_ms <= now - controller.last_liveness_unix_ms
                < controller.policy.dead_after_ms
            ||| controller.state == LivenessState::Dead && controller.policy.dead_after_ms <= now
                - controller.last_liveness_unix_ms
        }),
    ensures
        ({
            let (after, action) = controller.ticked(now, profile);
            let answered = controller.last_transport_ack_unix_ms matches Some(ack) && now - ack
                <= interval;
            &&& action == (if answered {
                HeartbeatAction::SuppressedByTransport
            } else {
                HeartbeatAction::SendProbe
            })
            &&& after == (HeartbeatController {
                next_probe_unix_ms: after.next_probe_unix_ms,
                ..controller
            })
            &&& now + interval <= u64::MAX ==> after.next_probe_unix_ms == now + interval
            &&& now + interval > u64::MAX ==> after.next_probe_unix_ms == u64::MAX
        }),
{
}

/// Before the next probe is due, a controller whose state stays does nothing.
pub proof fn no_probe_before_its_time(
    controller: HeartbeatController,
    now: u64,
    profile: ConnectionActivityProfile,
)
    requires
        now < controller.next_probe_unix_ms,
    ensures
        controller.ticked(now, profile).1 != HeartbeatAction::SendProbe,
        controller.ticked(now, profile).1 != HeartbeatAction::SuppressedByTransport,
        controller.ticked(now, profile).1 == HeartbeatAction::Quiet ==> controller.ticked(now, profile).0
            == controller,
{
}

/// A look at the clock leaves a controller that watches in the state that the silence of
/// its peer asks for: healthy, then unreachable, then dead, each from its own moment on. A
/// change of state is told, and is the only thing that is.
pub proof fn silence_decides_the_state(
    controller: HeartbeatController,
    now: u64,
    profile: ConnectionActivityProfile,
)
    requires
        !controller.paused,
        controller.state != LivenessState::PeerClosed,
        controller.policy.is_valid(),
    ensures
        ({
            let (after, action) = controller.ticked(now, profile);
            let silence = now - controller.last_liveness_unix_ms;
            &&& after.state == LivenessState::Healthy <==> silence
                < controller.policy.unreachable_after_ms
            &&& after.state == LivenessState::TemporarilyUnreachable <==> controller.policy.unreachable_after_ms
                <= silence < controller.policy.dead_after_ms
            &&& after.state == LivenessState::Dead <==> controller.policy.dead_after_ms <= silence
            &&& after.state != controller.state ==> action == HeartbeatAction::StateChanged(after.state)
                && after == (HeartbeatController { state: after.state, ..controller })
            &&& action is StateChanged ==> after.state != controller.state
        }),
{
}

/// An average of measures lies between the two, up to rounding, and nearer to the one
/// before: an eighth of the way, where nothing overflows.
pub proof fn averages_move_by_an_eighth(previous: u32, sample: u32)
    requires
        previous * 7 + sample <= u32::MAX,
    ensures
        8 * averaged(previous, sample) <= 7 * previous + sample < 8 * averaged(previous, sample) + 8,
        previous <= sample ==> previous <= averaged(previous, sample) <= sample,
        previous >= sample ==> sample <= averaged(previous, sample) <= previous,
{
}

/// A ratio is told in millionths, rounded down, as far as it can be told.
pub proof fn ratios_are_in_millionths(numerator: u64, denominator: u64)
    requires
        denominator > 0,
        numerator * 1_000_000 <= u64::MAX,
    ensures
        ({
            let ratio = per_million(numerator, denominator);
            &&& ratio is Some
            &&& ratio->0 * denominator <= numerator * 1_000_000
            &&& ratio->0 < u32::MAX ==> numerator * 1_000_000 < (ratio->0 + 1) * denominator
            &&& numerator == denominator ==> ratio->0 == 1_000_000
        }),
        per_million(numerator, 0) is None,
{
    let n = (numerator * 1_000_000) as int;
    let d = denominator as int;
    vstd::arithmetic::div_mod::lemma_fundamental_div_mod(n, d);
    vstd::arithmetic::div_mod::lemma_mod_bound(n, d);
    let q = n / d;
    let r = per_million(numerator, denominator)->0 as int;
    assert(0 <= q) by (nonlinear_arith)
        requires
            n == d * q + n % d,
            0 <= n % d < d,
            0 <= n,
    ;
    assert(d * q == q * d) by (nonlinear_arith);
    assert(r * d <= q * d) by (nonlinear_arith)
        requires
            r <= q,
            0 < d,
    ;
    assert((q + 1) * d == q * d + d) by (nonlinear_arith);
    if numerator == denominator {
        assert(n == 1_000_000 * d);
        assert(q == 1_000_000) by (nonlinear_arith)
            requires
                1_000_000 * d == d * q + n % d,
                0 <= n % d < d,
        ;
    }
}

/// The pressure on a queue is none where it is empty, a million where it is full or more,
/// and in between the share of its room that is taken, in millionths.
pub proof fn pressure_is_the_share_that_is_taken(depth: usize, capacity: usize)
    requires
        capacity > 0,
        depth * 1_000_000 <= usize::MAX,
    ensures
        pressure(0, capacity) == 0,
        depth >= capacity ==> pressure(depth, capacity) == 1_000_000,
        depth < capacity ==> pressure(depth, capacity) * capacity <= depth * 1_000_000 < (pressure(
            depth,
            capacity,
        ) + 1) * capacity,
{
    let n = (depth * 1_000_000) as int;
    let c = capacity as int;
    vstd::arithmetic::div_mod::lemma_fundamental_div_mod(n, c);
    vstd::arithmetic::div_mod::lemma_mod_bound(n, c);
    let q = n / c;
    assert(0int / c == 0) by {
        vstd::arithmetic::div_mod::lemma_div_basics(c);
    }
    assert(c * q == q * c && (q + 1) * c == q * c + c) by (nonlinear_arith);
    if depth >= capacity {
        assert(q >= 1_000_000) by (nonlinear_arith)
            requires
                n >= 1_000_000 * c,
                n == c * q + n % c,
                0 <= n % c < c,
        ;
    } else {
        assert(0 <= q <= 1_000_000) by (nonlinear_arith)
            requires
                0 <= n < 1_000_000 * c,
                n == c * q + n % c,
                0 <= n % c < c,
        ;
    }
}

/// A rate is bytes by the seconds they took, rounded down.
pub proof fn rates_are_bytes_per_second(bytes: u64, elapsed_ms: u64)
    requires
        elapsed_ms > 0,
        bytes * 1_000 <= u64::MAX,
    ensures
        per_second(bytes, elapsed_ms) * elapsed_ms <= bytes * 1_000 < (per_second(bytes, elapsed_ms) + 1)
            * elapsed_ms,
        per_second(bytes, 0) == 0,
{
    let n = (bytes * 1_000) as int;
    let d = elapsed_ms as int;
    vstd::arithmetic::div_mod::lemma_fundamental_div_mod(n, d);
    vstd::arithmetic::div_mod::lemma_mod_bound(n, d);
    let q = n / d;
    assert(d * q == q * d && (q + 1) * d == q * d + d) by (nonlinear_arith);
    assert(0 <= q <= n) by (nonlinear_arith)
        requires
            n == d * q + n % d,
            0 <= n % d < d,
            0 <= n,
            1 <= d,
    ;
}

/// The losses that are told are those of all packets so far, and the first measure of a
/// round trip is the average.
pub proof fn quality_speaks_of_all_packets(all: QualityAccumulator, sample: QualityObservation)
    requires
        all.total_sent_packets + sample.sent_packets <= u64::MAX,
        all.total_lost_packets + sample.lost_packets <= u64::MAX,
        all.total_retransmitted_packets + sample.retransmitted_packets <= u64::MAX,
    ensures
        ({
            let after = all.observed(sample);
            let told = after.quality(sample);
            &&& after.total_sent_packets == all.total_sent_packets + sample.sent_packets
            &&& after.total_lost_packets == all.total_lost_packets + sample.lost_packets
            &&& after.total_retransmitted_packets == all.total_retransmitted_packets
                + sample.retransmitted_packets
            &&& told.loss_per_million == per_million(after.total_lost_packets, after.total_sent_packets)
            &&& told.retransmit_per_million == per_million(
                after.total_retransmitted_packets,
                after.total_sent_packets,
            )
            &&& told.liveness == sample.liveness
            &&& told.consecutive_failures == sample.consecutive_failures
            &&& sample.round_trip_millis is None ==> told.round_trip_millis == all.rtt_ewma
                && told.jitter_millis == all.jitter_ewma
            &&& (sample.round_trip_millis matches Some(rtt) && all.rtt_ewma is None && all.jitter_ewma
                is None && 8 * rtt <= u32::MAX ==> told.round_trip_millis == sample.round_trip_millis
                && told.jitter_millis == Some(0u32))
        }),
{
    match sample.round_trip_millis {
        Some(rtt) => {
            if 8 * rtt <= u32::MAX {
                assert((rtt * 7 + rtt) / 8 == rtt);
                assert(averaged(rtt, rtt) == rtt);
                assert(averaged(0, 0) == 0);
            }
        },
        None => {},
    }
}

/// Whether two optional measures are as far apart as a threshold, or one is missing.
pub open spec fn far_apart(left: Option<u32>, right: Option<u32>, threshold: u32) -> bool {
    match (left, right) {
        (Some(a), Some(b)) => a + threshold <= b || b + threshold <= a,
        (None, None) => threshold == 0,
        _ => true,
    }
}

/// A quality is told anew exactly where one of its measures has moved by its threshold or
/// more, where a measure comes or goes, or where the liveness or the transport is another.
pub proof fn changes_are_told_from_their_threshold_on(
    threshold: QualityChangeThreshold,
    previous: ConnectionQuality,
    value: ConnectionQuality,
)
    ensures
        changed(threshold, previous, value) <==> {
            ||| far_apart(
                previous.round_trip_millis,
                value.round_trip_millis,
                threshold.round_trip_millis,
            )
            ||| far_apart(previous.jitter_millis, value.jitter_millis, threshold.jitter_millis)
            ||| far_apart(previous.loss_per_million, value.loss_per_million, threshold.loss_per_million)
            ||| far_apart(
                previous.retransmit_per_million,
                value.retransmit_per_million,
                threshold.retransmit_per_million,
            )
            ||| previous.send_queue_pressure_per_million + threshold.queue_pressure_per_million
                <= value.send_queue_pressure_per_million
            ||| value.send_queue_pressure_per_million + threshold.queue_pressure_per_million
                <= previous.send_queue_pressure_per_million
            ||| previous.transmit_bytes_per_second + threshold.throughput_bytes_per_second
                <= value.transmit_bytes_per_second
            ||| value.transmit_bytes_per_second + threshold.throughput_bytes_per_second
                <= previous.transmit_bytes_per_second
            ||| previous.receive_bytes_per_second + threshold.throughput_bytes_per_second
                <= value.receive_bytes_per_second
            ||| value.receive_bytes_per_second + threshold.throughput_bytes_per_second
                <= previous.receive_bytes_per_second
            ||| previous.liveness != value.liveness
            ||| previous.transport is Some != value.transport is Some
            ||| previous.transport is Some && value.transport is Some && !alike(
                previous.transport->0,
                value.transport->0,
            )
        },
{
}

/// Whether two transports have the same kind, and, if they are of their own kind, the
/// same name.
pub open spec fn alike(left: TransportKind, right: TransportKind) -> bool {
    ||| left is Local && right is Local
    ||| left is Quic && right is Quic
    ||| left is Tcp && right is Tcp
    ||| left is Custom && right is Custom && left->Custom_0@ == right->Custom_0@
}

/// A policy is valid where every interval is positive and a peer is unreachable before it is
/// dead, and not at once.
pub proof fn sound_policies_are_valid(policy: HeartbeatPolicy)
    ensures
        policy.is_valid() <==> {
            &&& policy.idle_interval_ms >= 1
            &&& policy.active_interval_ms >= 1
            &&& policy.mobile_interval_ms >= 1
            &&& policy.background_interval_ms >= 1
            &&& policy.local_ipc_interval_ms >= 1
            &&& 1 <= policy.unreachable_after_ms
            &&& policy.unreachable_after_ms < policy.dead_after_ms
        },
{
}

/// A moment that is put off lies later by that much, up to the end of time; the time since a
/// moment is how long ago it was, and nothing for one that is to come.
pub proof fn moments_are_told_apart(at: u64, by: u64, now: u64)
    ensures
        at + by <= u64::MAX ==> later_by(at, by) == at + by,
        at + by > u64::MAX ==> later_by(at, by) == u64::MAX,
        now >= at ==> since(at, now) == now - at,
        now < at ==> since(at, now) == 0,
{
}

/// A new measure of the jitter is how far the measure of the round trip is from its average.
pub proof fn jitter_is_the_distance_from_the_average(
    all: QualityAccumulator,
    sample: QualityObservation,
    rtt: u32,
    average: u32,
    jitter: u32,
)
    requires
        sample.round_trip_millis == Some(rtt),
        all.rtt_ewma == Some(average),
        all.jitter_ewma == Some(jitter),
        7 * average + rtt <= u32::MAX,
        7 * jitter + rtt + average <= u32::MAX,
    ensures
        ({
            let after = all.observed(sample);
            let deviation = if rtt >= average {
                rtt - average
            } else {
                average - rtt
            };
            &&& after.rtt_ewma is Some
            &&& after.jitter_ewma is Some
            &&& 8 * after.rtt_ewma->0 <= 7 * average + rtt < 8 * after.rtt_ewma->0 + 8
            &&& 8 * after.jitter_ewma->0 <= 7 * jitter + deviation < 8 * after.jitter_ewma->0 + 8
            &&& after.transport == all.transport
        }),
{
}

/// What is told of a connection is measured of its own observation: the pressure of its
/// queue and the rates at which it sends and receives.
pub proof fn quality_tells_the_observation(all: QualityAccumulator, sample: QualityObservation)
    ensures
        ({
            let told = all.quality(sample);
            &&& told.round_trip_millis == all.rtt_ewma
            &&& told.jitter_millis == all.jitter_ewma
            &&& told.send_queue_pressure_per_million == pressure(
                sample.send_queue_depth,
                sample.send_queue_capacity,
            )
            &&& told.transmit_bytes_per_second == per_second(sample.transmitted_bytes, sample.elapsed_ms)
            &&& told.receive_bytes_per_second == per_second(sample.received_bytes, sample.elapsed_ms)
            &&& told.transport == Some(all.transport)
        }),
{
}

/// A sign of the peer by the transport is remembered as the last one, and as one of the
/// transport, and makes the connection healthy.
pub proof fn signs_of_the_peer_are_remembered(controller: HeartbeatController, now_unix_ms: u64)
    ensures
        forall|lent: &mut HeartbeatController, done: ()|
            *lent == controller && #[trigger] call_ensures(
                HeartbeatController::observe_transport_ack,
                (lent, now_unix_ms),
                done,
            ) ==> {
                let after = *final(lent);
                &&& after.last_transport_ack_unix_ms == Some(now_unix_ms)
                &&& after.last_liveness_unix_ms == now_unix_ms
                &&& after.state is Healthy
                &&& after.next_probe_unix_ms == controller.next_probe_unix_ms
                &&& after.paused == controller.paused
                &&& after.policy == controller.policy
            },
{
}

/// The answer to a probe is remembered as the last sign of the peer and makes the
/// connection healthy, but says nothing of the transport.
pub proof fn answered_probes_are_remembered(controller: HeartbeatController, now_unix_ms: u64)
    ensures
        forall|lent: &mut HeartbeatController, done: ()|
            *lent == controller && #[trigger] call_ensures(
                HeartbeatController::observe_probe_ack,
                (lent, now_unix_ms),
                done,
            ) ==> {
                let after = *final(lent);
                &&& after.last_transport_ack_unix_ms == controller.last_transport_ack_unix_ms
                &&& after.last_liveness_unix_ms == now_unix_ms
                &&& after.state is Healthy
                &&& after.next_probe_unix_ms == controller.next_probe_unix_ms
                &&& after.paused == controller.paused
                &&& after.policy == controller.policy
            },
{
}

/// A controller that was paused does nothing, whatever the clock says, until it is resumed;
/// what it knew of its peer stays, and its next probe is due an interval of its profile
/// after that.
pub proof fn paused_controllers_wait(
    controller: HeartbeatController,
    now: u64,
    profile: ConnectionActivityProfile,
    interval: u64,
)
    requires
        profile is Idle ==> interval == controller.policy.idle_interval_ms,
        profile is Active ==> interval == controller.policy.active_interval_ms,
        profile is Mobile ==> interval == controller.policy.mobile_interval_ms,
        profile is Background ==> interval == controller.policy.background_interval_ms,
        profile is LocalIpc ==> interval == controller.policy.local_ipc_interval_ms,
    ensures
        forall|
            lent: &mut HeartbeatController,
            again: &mut HeartbeatController,
            done: (),
            action: HeartbeatAction,
        |
            {
                &&& *lent == controller
                &&& #[trigger] call_ensures(HeartbeatController::pause, (lent,), done)
                &&& *again == *final(lent)
                &&& #[trigger] call_ensures(HeartbeatController::tick, (again, now, profile), action)
            } ==> action is Quiet && *final(again) == *again,
        forall|
            lent: &mut HeartbeatController,
            again: &mut HeartbeatController,
            done: (),
            resumed: (),
        |
            {
                &&& *lent == controller
                &&& #[trigger] call_ensures(HeartbeatController::pause, (lent,), done)
                &&& *again == *final(lent)
                &&& #[trigger] call_ensures(HeartbeatController::resume, (again, now, profile), resumed)
            } ==> {
                let after = *final(again);
                &&& !after.paused
                &&& now + interval <= u64::MAX ==> after.next_probe_unix_ms == now + interval
                &&& now + interval > u64::MAX ==> after.next_probe_unix_ms == u64::MAX
                &&& after.last_transport_ack_unix_ms == controller.last_transport_ack_unix_ms
                &&& after.last_liveness_unix_ms == controller.last_liveness_unix_ms
                &&& after.state == controller.state
                &&& after.policy == controller.policy
            },
{
}

/// A round trip is a sign of the peer. From the threshold on it makes the latency elevated,
/// below it healthy; the state is told where it was another one.
pub proof fn slow_round_trips_elevate_the_latency(
    controller: HeartbeatController,
    now_unix_ms: u64,
    round_trip_millis: u32,
    elevated_at_millis: u32,
)
    ensures
        forall|lent: &mut HeartbeatController, action: HeartbeatAction|
            *lent == controller && #[trigger] call_ensures(
                HeartbeatController::observe_latency,
                (lent, now_unix_ms, round_trip_millis, elevated_at_millis),
                action,
            ) ==> {
                let after = *final(lent);
                &&& round_trip_millis >= elevated_at_millis ==> after.state is LatencyElevated
                &&& round_trip_millis < elevated_at_millis ==> after.state is Healthy
                &&& after.state == controller.state ==> action is Quiet
                &&& after.state != controller.state ==> action == HeartbeatAction::StateChanged(
                    after.state,
                )
                &&& after.last_liveness_unix_ms == now_unix_ms
                &&& after.last_transport_ack_unix_ms == controller.last_transport_ack_unix_ms
                &&& after.next_probe_unix_ms == controller.next_probe_unix_ms
                &&& after.paused == controller.paused
                &&& after.policy == controller.policy
            },
{
}

/// Once the peer has closed, that is told, and no look at the clock changes it or asks for
/// a probe.
pub proof fn closed_peers_stay_closed(
    controller: HeartbeatController,
    now: u64,
    profile: ConnectionActivityProfile,
)
    ensures
        forall|
            lent: &mut HeartbeatController,
            again: &mut HeartbeatController,
            told: HeartbeatAction,
            action: HeartbeatAction,
        |
            {
                &&& *lent == controller
                &&& #[trigger] call_ensures(HeartbeatController::observe_peer_close, (lent,), told)
                &&& *again == *final(lent)
                &&& #[trigger] call_ensures(HeartbeatController::tick, (again, now, profile), action)
            } ==> {
                &&& told == HeartbeatAction::StateChanged(LivenessState::PeerClosed)
                &&& action is Quiet
                &&& final(again).state is PeerClosed
                &&& final(again).last_liveness_unix_ms == controller.last_liveness_unix_ms
                &&& final(again).policy == controller.policy
            },
{
}

/// A controller begins healthy and awake, as if its peer had just been heard of; its first
/// probe is due when the idle interval has passed. One whose intervals are not positive,
/// or whose peer would be dead before it is unreachable, does not begin.
pub proof fn controllers_begin_healthy(policy: HeartbeatPolicy, now_unix_ms: u64)
    ensures
        forall|begun: Result<HeartbeatController, &'static str>| #[trigger]
            call_ensures(HeartbeatController::new, (policy, now_unix_ms), begun) ==> {
                let sound = {
                    &&& policy.idle_interval_ms > 0
                    &&& policy.active_interval_ms > 0
                    &&& policy.mobile_interval_ms > 0
                    &&& policy.background_interval_ms > 0
                    &&& policy.local_ipc_interval_ms > 0
                    &&& 0 < policy.unreachable_after_ms < policy.dead_after_ms
                };
                let due = now_unix_ms + policy.idle_interval_ms;
                &&& begun is Ok <==> sound
                &&& begun matches Ok(c) ==> {
                    &&& c.policy == policy
                    &&& c.last_liveness_unix_ms == now_unix_ms
                    &&& c.last_transport_ack_unix_ms is None
                    &&& c.state is Healthy
                    &&& !c.paused
                    &&& due <= u64::MAX ==> c.next_probe_unix_ms == due
                    &&& due > u64::MAX ==> c.next_probe_unix_ms == u64::MAX
                }
            },
{
}

/// The first quality is told. After that, what was told is what the next one is held
/// against: the same again is not told, and what is not told leaves nothing behind.
pub proof fn told_qualities_are_held_against(
    detector: QualityChangeDetector,
    value: ConnectionQuality,
)
    ensures
        forall|lent: &mut QualityChangeDetector, told: Option<ConnectionQuality>|
            *lent == detector && #[trigger] call_ensures(
                QualityChangeDetector::consider,
                (lent, value),
                told,
            ) ==> {
                let after = *final(lent);
                let limits = detector.threshold;
                let steady = {
                    &&& limits.round_trip_millis > 0
                    &&& limits.jitter_millis > 0
                    &&& limits.loss_per_million > 0
                    &&& limits.retransmit_per_million > 0
                    &&& limits.queue_pressure_per_million > 0
                    &&& limits.throughput_bytes_per_second > 0
                };
                &&& after.threshold == detector.threshold
                &&& detector.last_emitted is None ==> told is Some
                &&& told is Some ==> told->0 == value && after.last_emitted == Some(value)
                &&& told is None ==> after.last_emitted == detector.last_emitted
                &&& detector.last_emitted matches Some(previous) ==> (told is Some <==> changed(
                    detector.threshold,
                    previous,
                    value,
                ))
                &&& detector.last_emitted == Some(value) && steady ==> told is None
            },
{
}

/// A look at the clock asks for a probe exactly where one is due, the state of the peer stays
/// and the transport has not shown the peer within the interval; where it has, the probe is
/// left out, and where none is due nothing happens.
pub proof fn looks_at_the_clock_ask_for_due_probes(
    before: HeartbeatController,
    now: u64,
    profile: ConnectionActivityProfile,
    interval: u64,
)
    requires
        !before.paused,
        before.policy.is_valid(),
        before.state == LivenessState::Healthy,
        now - before.last_liveness_unix_ms < before.policy.unreachable_after_ms,
        profile is Idle ==> interval == before.policy.idle_interval_ms,
        profile is Active ==> interval == before.policy.active_interval_ms,
        profile is Mobile ==> interval == before.policy.mobile_interval_ms,
        profile is Background ==> interval == before.policy.background_interval_ms,
        profile is LocalIpc ==> interval == before.policy.local_ipc_interval_ms,
    ensures
        forall|lent: &mut HeartbeatController, action: HeartbeatAction|
            *lent == before && #[trigger] call_ensures(
                HeartbeatController::tick,
                (lent, now, profile),
                action,
            ) ==> {
                let due = now >= before.next_probe_unix_ms;
                let shown = before.last_transport_ack_unix_ms matches Some(ack) && now - ack
                    <= interval;
                &&& action is SendProbe <==> due && !shown
                &&& action is SuppressedByTransport <==> due && shown
                &&& action is Quiet <==> !due
                &&& final(lent).state is Healthy
                &&& final(lent).last_liveness_unix_ms == before.last_liveness_unix_ms
                &&& final(lent).last_transport_ack_unix_ms == before.last_transport_ack_unix_ms
            },
{
}

} // verus!
