//! What a queue of realtime datagrams holds, and what each operation makes of it.
//!
//! Of each flow one group waits: the datagrams of its latest generation and
//! sequence number. A newer group takes the place of the whole older one.

use vstd::prelude::*;
use crate::ordering::{MapKey, precedes};
use crate::realtime::{
    DatagramView, REALTIME_DATAGRAM_HEADER_LEN, RealtimeFlowId, RealtimeFlowTelemetry, RealtimePriority,
    RealtimeQueueConfig, SendOutcome, invalid_realtime, no_flow_telemetry,
};
use crate::sorted_map::{ascending, ascending_keys, ascending_keys_exist};
use crate::transport_error::{TransportError, TransportErrorKind};

verus! {

/// What a group holds.
#[verifier::ext_equal]
pub struct GroupView {
    pub generation: u32,
    pub sequence: u64,
    pub deadline: u64,
    pub priority: RealtimePriority,
    pub datagrams: Seq<Seq<u8>>,
    pub payload_bytes: usize,
    pub insertion_order: u64,
}

/// What the queue has counted over all flows.
#[derive(Clone, Copy, Debug, Eq, PartialEq, Structural)]
pub struct QueueCounters {
    pub queued: u64,
    pub sent: u64,
    pub sent_bytes: u64,
    pub replaced: u64,
    pub expired: u64,
    pub congestion_dropped: u64,
    pub rtt_us: Option<u64>,
    pub estimated_send_rate_bps: Option<u64>,
    pub congestion_events: u64,
    pub current_datagram_payload: Option<usize>,
    pub max_datagram_payload: usize,
    pub mtu_change_count: u64,
    pub migration_count: u64,
    pub reconnect_count: u64,
}

/// What a queue holds and has counted.
#[verifier::ext_equal]
pub struct QueueView {
    pub config: RealtimeQueueConfig,
    pub max_payload: usize,
    pub groups: Map<u16, GroupView>,
    pub counters: QueueCounters,
    pub flows: Map<u16, RealtimeFlowTelemetry>,
    pub next_insertion_order: u64,
    pub transport_congestion_events: u64,
}

/// Why a group leaves without being sent.
#[derive(Clone, Copy, Debug)]
pub enum DropReason {
    Replaced,
    Expired,
    Congested,
}

/// How a datagram stands to the group of its flow.
#[derive(Clone, Copy, Debug)]
pub enum GroupOrder {
    Older,
    Same,
    Newer,
}

/// Whether a 32-bit counter that wraps around has run on from `current` to
/// `candidate`.
pub open spec fn runs_ahead_32(candidate: u32, current: u32) -> bool {
    0 < (candidate - current) % 0x1_0000_0000 < 0x8000_0000
}

/// Whether a 64-bit counter that wraps around has run on from `current` to
/// `candidate`.
pub open spec fn runs_ahead_64(candidate: u64, current: u64) -> bool {
    0 < (candidate - current) % 0x1_0000_0000_0000_0000 < 0x8000_0000_0000_0000
}

/// The order of a datagram against a group: by generation, then by sequence.
pub open spec fn group_order(
    candidate_generation: u32,
    candidate_sequence: u64,
    current_generation: u32,
    current_sequence: u64,
) -> GroupOrder {
    if candidate_generation != current_generation {
        if runs_ahead_32(candidate_generation, current_generation) {
            GroupOrder::Newer
        } else {
            GroupOrder::Older
        }
    } else if candidate_sequence == current_sequence {
        GroupOrder::Same
    } else if runs_ahead_64(candidate_sequence, current_sequence) {
        GroupOrder::Newer
    } else {
        GroupOrder::Older
    }
}

/// The sum, or the greatest number where it does not fit.
pub open spec fn saturated(a: u64, n: nat) -> u64 {
    if a + n > u64::MAX {
        u64::MAX
    } else {
        (a + n) as u64
    }
}

/// The number, or the greatest index where it does not fit.
pub open spec fn index_saturated(n: nat) -> usize {
    if n > usize::MAX {
        usize::MAX
    } else {
        n as usize
    }
}

/// How many bytes the payloads have.
pub open spec fn total_len(payloads: Seq<Seq<u8>>) -> nat
    decreases payloads.len(),
{
    if payloads.len() == 0 {
        0
    } else {
        payloads.first().len() + total_len(payloads.drop_first())
    }
}

pub proof fn lemma_total_len_push(payloads: Seq<Seq<u8>>, last: Seq<u8>)
    ensures
        total_len(payloads.push(last)) == total_len(payloads) + last.len(),
    decreases payloads.len(),
{
    if payloads.len() == 0 {
        assert(payloads.push(last).drop_first() =~= payloads);
    } else {
        assert(payloads.push(last).drop_first() =~= payloads.drop_first().push(last));
        lemma_total_len_push(payloads.drop_first(), last);
    }
}

/// The groups whose deadline has come.
pub open spec fn past_deadline(now: u64) -> spec_fn(GroupView) -> bool {
    |group: GroupView| group.deadline <= now
}

/// The groups that may be dropped first.
pub open spec fn disposable() -> spec_fn(GroupView) -> bool {
    |group: GroupView| group.priority == RealtimePriority::Disposable
}

/// The groups with a payload over the limit.
pub open spec fn oversized(max_payload: usize) -> spec_fn(GroupView) -> bool {
    |group: GroupView| exists|i: int|
        0 <= i < group.datagrams.len() && (#[trigger] group.datagrams[i]).len() > max_payload
}

impl QueueView {
    /// A queue in which nothing waits and nothing was counted.
    pub open spec fn empty(config: RealtimeQueueConfig, max_payload: usize) -> QueueView {
        QueueView {
            config,
            max_payload,
            groups: Map::empty(),
            counters: QueueCounters {
                queued: 0,
                sent: 0,
                sent_bytes: 0,
                replaced: 0,
                expired: 0,
                congestion_dropped: 0,
                rtt_us: None,
                estimated_send_rate_bps: None,
                congestion_events: 0,
                current_datagram_payload: Some(max_payload),
                max_datagram_payload: max_payload,
                mtu_change_count: 0,
                migration_count: 0,
                reconnect_count: 0,
            },
            flows: Map::empty(),
            next_insertion_order: 0,
            transport_congestion_events: 0,
        }
    }

    /// What was counted of a flow.
    pub open spec fn of_flow(self, flow: u16) -> RealtimeFlowTelemetry {
        if self.flows.contains_key(flow) {
            self.flows[flow]
        } else {
            no_flow_telemetry()
        }
    }

    /// With one more datagram counted as queued.
    pub open spec fn noted_queued(self, flow: u16) -> QueueView {
        let stats = self.of_flow(flow);
        QueueView {
            counters: QueueCounters { queued: saturated(self.counters.queued, 1), ..self.counters },
            flows: self.flows.insert(
                flow,
                RealtimeFlowTelemetry { queued: saturated(stats.queued, 1), ..stats },
            ),
            ..self
        }
    }

    /// With `count` more datagrams counted as dropped.
    pub open spec fn noted_dropped(self, flow: u16, reason: DropReason, count: nat) -> QueueView {
        let all = self.counters;
        let stats = self.of_flow(flow);
        let (counters, telemetry) = match reason {
            DropReason::Replaced => (
                QueueCounters { replaced: saturated(all.replaced, count), ..all },
                RealtimeFlowTelemetry { replaced: saturated(stats.replaced, count), ..stats },
            ),
            DropReason::Expired => (
                QueueCounters { expired: saturated(all.expired, count), ..all },
                RealtimeFlowTelemetry { expired: saturated(stats.expired, count), ..stats },
            ),
            DropReason::Congested => (
                QueueCounters { congestion_dropped: saturated(all.congestion_dropped, count), ..all },
                RealtimeFlowTelemetry {
                    congestion_dropped: saturated(stats.congestion_dropped, count),
                    ..stats
                },
            ),
        };
        QueueView { counters, flows: self.flows.insert(flow, telemetry), ..self }
    }

    /// With one more datagram counted as sent.
    pub open spec fn noted_sent(self, flow: u16, bytes: nat) -> QueueView {
        let stats = self.of_flow(flow);
        QueueView {
            counters: QueueCounters {
                sent: saturated(self.counters.sent, 1),
                sent_bytes: saturated(self.counters.sent_bytes, bytes),
                ..self.counters
            },
            flows: self.flows.insert(
                flow,
                RealtimeFlowTelemetry {
                    sent: saturated(stats.sent, 1),
                    sent_bytes: saturated(stats.sent_bytes, bytes),
                    ..stats
                },
            ),
            ..self
        }
    }

    /// Without the group of a flow, whose datagrams are counted as dropped.
    pub open spec fn dropped(self, flow: u16, reason: DropReason) -> QueueView {
        if self.groups.contains_key(flow) {
            QueueView {
                groups: self.groups.remove(flow),
                ..self.noted_dropped(flow, reason, self.groups[flow].datagrams.len())
            }
        } else {
            self
        }
    }

    /// Without the groups of several flows.
    pub open spec fn dropped_all(self, row: Seq<u16>, reason: DropReason) -> QueueView
        decreases row.len(),
    {
        if row.len() == 0 {
            self
        } else {
            self.dropped_all(row.drop_last(), reason).dropped(row.last(), reason)
        }
    }

    /// The flows with a group, in ascending order.
    pub open spec fn waiting(self) -> Seq<u16> {
        ascending_keys::<RealtimeFlowId>(self.groups.dom())
    }

    /// The flows whose group passes a test.
    pub open spec fn flow_test(self, test: spec_fn(GroupView) -> bool) -> spec_fn(u16) -> bool {
        |flow: u16| test(self.groups[flow])
    }

    /// The flows whose group passes a test, in ascending order.
    pub open spec fn flows_where(self, test: spec_fn(GroupView) -> bool) -> Seq<u16> {
        self.waiting().filter(self.flow_test(test))
    }

    /// How many datagrams the groups of the flows hold.
    pub open spec fn datagrams_in(self, row: Seq<u16>) -> nat
        decreases row.len(),
    {
        if row.len() == 0 {
            0
        } else {
            self.datagrams_in(row.drop_last()) + self.groups[row.last()].datagrams.len()
        }
    }

    /// Without the groups whose deadline has come.
    pub open spec fn expired_at(self, now: u64) -> QueueView {
        self.dropped_all(self.flows_where(past_deadline(now)), DropReason::Expired)
    }

    /// With a group of its own for the datagram.
    pub open spec fn placed(self, d: DatagramView) -> QueueView {
        let order = self.next_insertion_order;
        let queued = self.noted_queued(d.flow);
        QueueView {
            groups: self.groups.insert(
                d.flow,
                GroupView {
                    generation: d.generation,
                    sequence: d.sequence,
                    deadline: d.deadline,
                    priority: d.priority,
                    datagrams: seq![d.payload],
                    payload_bytes: d.payload.len() as usize,
                    insertion_order: order,
                },
            ),
            next_insertion_order: if order == u64::MAX {
                0
            } else {
                (order + 1) as u64
            },
            ..queued
        }
    }

    /// With the datagram added to the group of its flow, or with the whole group
    /// dropped where the group would be too large.
    pub open spec fn appended(self, d: DatagramView) -> (QueueView, Result<
        SendOutcome,
        TransportError,
    >) {
        let group = self.groups[d.flow];
        let bytes = group.payload_bytes + d.payload.len();
        if bytes > usize::MAX {
            (self, Err(invalid_realtime("realtime group size overflow")))
        } else if group.datagrams.len() >= self.config.max_datagrams_per_group || bytes
            > self.config.max_group_bytes {
            (
                QueueView {
                    groups: self.groups.remove(d.flow),
                    ..self.noted_dropped(
                        d.flow,
                        DropReason::Congested,
                        index_saturated(group.datagrams.len() + 1) as nat,
                    )
                },
                Ok(SendOutcome::DroppedCongested),
            )
        } else {
            (
                QueueView {
                    groups: self.groups.insert(
                        d.flow,
                        GroupView {
                            deadline: if d.deadline < group.deadline {
                                d.deadline
                            } else {
                                group.deadline
                            },
                            priority: if d.priority.code() < group.priority.code() {
                                d.priority
                            } else {
                                group.priority
                            },
                            datagrams: group.datagrams.push(d.payload),
                            payload_bytes: bytes as usize,
                            ..group
                        },
                    ),
                    ..self.noted_queued(d.flow)
                },
                Ok(SendOutcome::Enqueued),
            )
        }
    }

    /// Whether `a` makes room before `b` does: the less important group first, of
    /// equally important ones the older, then the one with the greater flow.
    pub open spec fn yields_before(self, a: u16, b: u16) -> bool {
        let (ga, gb) = (self.groups[a], self.groups[b]);
        if ga.priority != gb.priority {
            ga.priority.code() > gb.priority.code()
        } else if ga.insertion_order != gb.insertion_order {
            ga.insertion_order < gb.insertion_order
        } else {
            a >= b
        }
    }

    /// Whether the group of `flow` is the one that makes room for a datagram of
    /// this priority.
    pub open spec fn is_victim(self, flow: u16, incoming: RealtimePriority) -> bool {
        &&& self.groups.contains_key(flow)
        &&& self.groups[flow].priority.code() > incoming.code()
        &&& forall|other: u16| #[trigger]
            self.groups.contains_key(other) && self.groups[other].priority.code() > incoming.code()
                ==> self.yields_before(flow, other)
    }

    /// The group that makes room for a datagram of this priority.
    pub open spec fn victim(self, incoming: RealtimePriority) -> Option<u16> {
        if exists|flow: u16| self.is_victim(flow, incoming) {
            Some(choose|flow: u16| self.is_victim(flow, incoming))
        } else {
            None
        }
    }

    /// What becomes of the queue and of a datagram that is handed to it.
    pub open spec fn enqueued(self, d: DatagramView, now: u64) -> (QueueView, Result<
        SendOutcome,
        TransportError,
    >) {
        let q = self.expired_at(now);
        if d.payload.len() > q.max_payload {
            (
                q,
                Err(
                    TransportError::new(
                        TransportErrorKind::MessageTooLarge,
                        "realtime datagram exceeds path payload limit",
                    ),
                ),
            )
        } else if d.deadline <= now {
            (q.noted_dropped(d.flow, DropReason::Expired, 1), Ok(SendOutcome::DroppedExpired))
        } else if q.groups.contains_key(d.flow) {
            let group = q.groups[d.flow];
            match group_order(d.generation, d.sequence, group.generation, group.sequence) {
                GroupOrder::Older => (
                    q.noted_dropped(d.flow, DropReason::Congested, 1),
                    Ok(SendOutcome::DroppedCongested),
                ),
                GroupOrder::Same => q.appended(d),
                GroupOrder::Newer => (
                    q.dropped(d.flow, DropReason::Replaced).placed(d),
                    Ok(SendOutcome::ReplacedOlder),
                ),
            }
        } else if q.groups.dom().len() < q.config.max_flows {
            (q.placed(d), Ok(SendOutcome::Enqueued))
        } else {
            match q.victim(d.priority) {
                Some(flow) => (
                    q.dropped(flow, DropReason::Congested).placed(d),
                    Ok(SendOutcome::Enqueued),
                ),
                None => (
                    q.noted_dropped(d.flow, DropReason::Congested, 1),
                    Ok(SendOutcome::DroppedCongested),
                ),
            }
        }
    }

    /// Whether `a` is sent before `b`: the more important group first, then the
    /// older, then the one with the lesser flow.
    pub open spec fn drains_before(self, a: u16, b: u16) -> bool {
        let (ga, gb) = (self.groups[a], self.groups[b]);
        if ga.priority != gb.priority {
            ga.priority.code() < gb.priority.code()
        } else if ga.insertion_order != gb.insertion_order {
            ga.insertion_order < gb.insertion_order
        } else {
            a <= b
        }
    }

    /// Whether the next datagram is one of this flow.
    pub open spec fn is_next(self, flow: u16) -> bool {
        &&& self.groups.contains_key(flow)
        &&& forall|other: u16| #[trigger]
            self.groups.contains_key(other) ==> self.drains_before(flow, other)
    }

    /// Whether the first datagram of a flow has at most this length on the wire.
    pub open spec fn fits(self, flow: u16, max_wire_len: usize) -> bool {
        REALTIME_DATAGRAM_HEADER_LEN + self.groups[flow].datagrams[0].len() <= max_wire_len
    }

    /// Whether no group is more important than that of `flow`.
    pub open spec fn is_foremost(self, flow: u16) -> bool {
        &&& self.groups.contains_key(flow)
        &&& forall|other: u16| #[trigger]
            self.groups.contains_key(other) ==> self.groups[flow].priority.code()
                <= self.groups[other].priority.code()
    }

    /// Whether the next datagram that fits is one of this flow. A less important
    /// datagram does not overtake one that does not fit.
    pub open spec fn is_next_fitting(self, flow: u16, max_wire_len: usize) -> bool {
        &&& self.is_foremost(flow)
        &&& self.fits(flow, max_wire_len)
        &&& forall|other: u16| #[trigger]
            self.groups.contains_key(other) && self.is_foremost(other) && self.fits(other, max_wire_len)
                ==> self.drains_before(flow, other)
    }

    /// The first datagram of a flow.
    pub open spec fn front(self, flow: u16) -> DatagramView {
        let group = self.groups[flow];
        DatagramView {
            flow,
            generation: group.generation,
            sequence: group.sequence,
            deadline: group.deadline,
            priority: group.priority,
            payload: group.datagrams[0],
        }
    }

    /// Without the first datagram of a flow.
    pub open spec fn popped(self, flow: u16) -> QueueView {
        let group = self.groups[flow];
        let rest = group.datagrams.drop_first();
        QueueView {
            groups: if rest.len() == 0 {
                self.groups.remove(flow)
            } else {
                self.groups.insert(flow, GroupView { datagrams: rest, ..group })
            },
            ..self
        }
    }

    /// With another limit noted.
    pub open spec fn adjusted(self, max_payload: usize) -> QueueView {
        QueueView {
            max_payload,
            counters: QueueCounters {
                current_datagram_payload: Some(max_payload),
                max_datagram_payload: if max_payload > self.counters.max_datagram_payload {
                    max_payload
                } else {
                    self.counters.max_datagram_payload
                },
                mtu_change_count: saturated(self.counters.mtu_change_count, 1),
                ..self.counters
            },
            ..self
        }
    }

    /// With another limit of the payload, without the groups that are over it.
    pub open spec fn limited(self, max_payload: usize) -> QueueView {
        if max_payload == self.max_payload {
            self
        } else if max_payload < self.max_payload {
            let adjusted = self.adjusted(max_payload);
            adjusted.dropped_all(adjusted.flows_where(oversized(max_payload)), DropReason::Congested)
        } else {
            self.adjusted(max_payload)
        }
    }

    /// Whether a group keeps to the limits.
    pub open spec fn group_wf(self, group: GroupView) -> bool {
        &&& 0 < group.datagrams.len() <= self.config.max_datagrams_per_group
        &&& total_len(group.datagrams) <= group.payload_bytes
        &&& group.payload_bytes > self.config.max_group_bytes ==> group.datagrams.len() == 1
            && group.payload_bytes == group.datagrams[0].len()
        &&& forall|i: int|
            0 <= i < group.datagrams.len() ==> (#[trigger] group.datagrams[i]).len() <= self.max_payload
    }

    /// Whether the queue keeps to the limits.
    pub open spec fn wf(self) -> bool {
        &&& self.config.is_valid()
        &&& self.max_payload > 0
        &&& self.groups.dom().finite()
        &&& self.groups.dom().len() <= self.config.max_flows
        &&& forall|flow: u16| #[trigger]
            self.groups.contains_key(flow) ==> self.group_wf(self.groups[flow])
    }
}

pub proof fn lemma_dropped(q: QueueView, flow: u16, reason: DropReason)
    requires
        q.wf(),
    ensures
        q.dropped(flow, reason).wf(),
        q.dropped(flow, reason).groups == q.groups.remove(flow),
        q.dropped(flow, reason).config == q.config,
        q.dropped(flow, reason).max_payload == q.max_payload,
        q.dropped(flow, reason).next_insertion_order == q.next_insertion_order,
{
    let after = q.dropped(flow, reason);
    if !q.groups.contains_key(flow) {
        assert(q.groups.remove(flow) =~= q.groups);
    }
    assert forall|other: u16| #[trigger] after.groups.contains_key(other) implies after.group_wf(
        after.groups[other],
    ) by {
        assert(q.groups.contains_key(other));
    }
}

pub proof fn lemma_dropped_all(q: QueueView, row: Seq<u16>, reason: DropReason)
    requires
        q.wf(),
    ensures
        q.dropped_all(row, reason).wf(),
        q.dropped_all(row, reason).groups == q.groups.remove_keys(row.to_set()),
        q.dropped_all(row, reason).config == q.config,
        q.dropped_all(row, reason).max_payload == q.max_payload,
        q.dropped_all(row, reason).next_insertion_order == q.next_insertion_order,
    decreases row.len(),
{
    if row.len() == 0 {
        assert(q.groups.remove_keys(row.to_set()) =~= q.groups);
    } else {
        let front = row.drop_last();
        lemma_dropped_all(q, front, reason);
        lemma_dropped(q.dropped_all(front, reason), row.last(), reason);
        assert forall|k: u16| row.contains(k) <==> front.contains(k) || k == row.last() by {
            if row.contains(k) && k != row.last() {
                assert(front[row.index_of(k)] == k);
            }
            if front.contains(k) {
                assert(row[front.index_of(k)] == k);
            }
            assert(row[row.len() - 1] == row.last());
        }
        assert(q.groups.remove_keys(front.to_set()).remove(row.last()) =~= q.groups.remove_keys(
            row.to_set(),
        ));
    }
}

/// The flows that pass a test are those that wait and pass it.
pub proof fn lemma_flows_where(q: QueueView, test: spec_fn(GroupView) -> bool)
    requires
        q.groups.dom().finite(),
    ensures
        q.flows_where(test).no_duplicates(),
        forall|flow: u16| #[trigger]
            q.flows_where(test).contains(flow) <==> q.groups.contains_key(flow) && test(q.groups[flow]),
{
    let row = q.waiting();
    let pass = q.flow_test(test);
    ascending_keys_exist::<RealtimeFlowId>(q.groups.dom());
    lemma_filter_distinct(row, pass);
    assert forall|flow: u16| #[trigger] q.flows_where(test).contains(flow) <==> q.groups.contains_key(flow)
        && test(q.groups[flow]) by {
        lemma_filter_members(row, pass, flow);
        assert(row.to_set().contains(flow) == row.contains(flow));
    }
}

pub proof fn lemma_filter_members<A>(row: Seq<A>, pass: spec_fn(A) -> bool, x: A)
    ensures
        row.filter(pass).contains(x) <==> row.contains(x) && pass(x),
    decreases row.len(),
{
    reveal(Seq::filter);
    if row.len() > 0 {
        let front = row.drop_last();
        lemma_filter_members(front, pass, x);
        assert(row =~= front.push(row.last()));
        assert(row.contains(x) <==> front.contains(x) || x == row.last()) by {
            if row.contains(x) && x != row.last() {
                assert(front[row.index_of(x)] == x);
            }
            if front.contains(x) {
                assert(row[front.index_of(x)] == x);
            }
            assert(row[row.len() - 1] == row.last());
        }
        let kept = front.filter(pass);
        assert(kept.push(row.last()).contains(x) <==> kept.contains(x) || x == row.last()) by {
            let more = kept.push(row.last());
            if kept.contains(x) {
                assert(more[kept.index_of(x)] == x);
            }
            assert(more[kept.len() as int] == row.last());
        }
    }
}

pub proof fn lemma_filter_distinct<A>(row: Seq<A>, pass: spec_fn(A) -> bool)
    requires
        row.no_duplicates(),
    ensures
        row.filter(pass).no_duplicates(),
    decreases row.len(),
{
    reveal(Seq::filter);
    if row.len() > 0 {
        let front = row.drop_last();
        lemma_filter_distinct(front, pass);
        lemma_filter_members(front, pass, row.last());
        assert(!front.contains(row.last())) by {
            if front.contains(row.last()) {
                let i = front.index_of(row.last());
                assert(row[i] == row[row.len() - 1]);
            }
        }
    }
}

pub proof fn lemma_expired(q: QueueView, now: u64)
    requires
        q.wf(),
    ensures
        q.expired_at(now).wf(),
        q.expired_at(now).config == q.config,
        q.expired_at(now).max_payload == q.max_payload,
        q.expired_at(now).next_insertion_order == q.next_insertion_order,
        forall|flow: u16| #[trigger]
            q.expired_at(now).groups.contains_key(flow) <==> q.groups.contains_key(flow)
                && q.groups[flow].deadline > now,
        forall|flow: u16| #[trigger]
            q.expired_at(now).groups.contains_key(flow) ==> q.expired_at(now).groups[flow]
                == q.groups[flow],
{
    let row = q.flows_where(past_deadline(now));
    lemma_dropped_all(q, row, DropReason::Expired);
    lemma_flows_where(q, past_deadline(now));
    assert forall|flow: u16| #[trigger] q.expired_at(now).groups.contains_key(flow) <==> q.groups.contains_key(flow)
        && q.groups[flow].deadline > now by {
        assert(row.to_set().contains(flow) == row.contains(flow));
    }
}

pub proof fn lemma_placed(q: QueueView, d: DatagramView)
    requires
        q.wf(),
        d.payload.len() <= q.max_payload,
        q.groups.contains_key(d.flow) || q.groups.dom().len() < q.config.max_flows,
    ensures
        q.placed(d).wf(),
{
    let after = q.placed(d);
    assert forall|other: u16| #[trigger] after.groups.contains_key(other) implies after.group_wf(
        after.groups[other],
    ) by {
        if other == d.flow {
            reveal_with_fuel(total_len, 2);
            let group = after.groups[other];
            assert(group.datagrams.drop_first() =~= Seq::<Seq<u8>>::empty());
            assert(total_len(group.datagrams) == d.payload.len());
        } else {
            assert(q.groups.contains_key(other));
        }
    }
}

pub proof fn lemma_appended(q: QueueView, d: DatagramView)
    requires
        q.wf(),
        d.payload.len() <= q.max_payload,
        q.groups.contains_key(d.flow),
    ensures
        q.appended(d).0.wf(),
{
    let after = q.appended(d).0;
    let group = q.groups[d.flow];
    assert(q.group_wf(group));
    lemma_total_len_push(group.datagrams, d.payload);
    assert forall|other: u16| #[trigger] after.groups.contains_key(other) implies after.group_wf(
        after.groups[other],
    ) by {
        assert(q.groups.contains_key(other));
    }
}

pub proof fn lemma_popped(q: QueueView, flow: u16)
    requires
        q.wf(),
        q.groups.contains_key(flow),
    ensures
        q.popped(flow).wf(),
{
    let after = q.popped(flow);
    let group = q.groups[flow];
    assert(q.group_wf(group));
    assert forall|other: u16| #[trigger] after.groups.contains_key(other) implies after.group_wf(
        after.groups[other],
    ) by {
        assert(q.groups.contains_key(other));
        if other == flow {
            let rest = group.datagrams.drop_first();
            assert forall|i: int| 0 <= i < rest.len() implies (#[trigger] rest[i]).len() <= q.max_payload by {
                assert(rest[i] == group.datagrams[i + 1]);
            }
        }
    }
}

pub proof fn lemma_datagrams_prefix(q: QueueView, row: Seq<u16>, i: int)
    requires
        0 <= i < row.len(),
    ensures
        q.datagrams_in(row.subrange(0, i + 1)) == q.datagrams_in(row.subrange(0, i))
            + q.groups[row[i]].datagrams.len(),
{
    assert(row.subrange(0, i + 1).drop_last() =~= row.subrange(0, i));
}

pub proof fn lemma_filter_prefix<A>(row: Seq<A>, pass: spec_fn(A) -> bool, i: int)
    requires
        0 <= i < row.len(),
    ensures
        row.subrange(0, i + 1).filter(pass) == (if pass(row[i]) {
            row.subrange(0, i).filter(pass).push(row[i])
        } else {
            row.subrange(0, i).filter(pass)
        }),
{
    reveal(Seq::filter);
    assert(row.subrange(0, i + 1).drop_last() =~= row.subrange(0, i));
}

/// Flows stand in ascending order of their numbers.
pub proof fn lemma_flow_order(keys: Seq<u16>)
    requires
        ascending::<RealtimeFlowId>(keys),
    ensures
        forall|i: int, j: int| 0 <= i < j < keys.len() ==> #[trigger] keys[i] < #[trigger] keys[j],
{
    assert forall|i: int, j: int| 0 <= i < j < keys.len() implies #[trigger] keys[i] < #[trigger] keys[j] by {
        let a = RealtimeFlowId::rank(keys[i]);
        let b = RealtimeFlowId::rank(keys[j]);
        assert(a[0] == keys[i] as int && b[0] == keys[j] as int);
        assert(precedes(a, b));
        reveal_with_fuel(precedes, 2);
    }
}

/// At most one group is the one that makes room.
pub proof fn lemma_victim_unique(q: QueueView, incoming: RealtimePriority, flow: u16)
    requires
        q.is_victim(flow, incoming),
    ensures
        q.victim(incoming) == Some(flow),
{
    let other = choose|f: u16| q.is_victim(f, incoming);
    assert(q.is_victim(other, incoming));
    assert(q.groups.contains_key(other) && q.groups.contains_key(flow));
    assert(q.yields_before(flow, other));
    assert(q.yields_before(other, flow));
}

/// The limit may be set before the groups are dropped or after.
pub proof fn lemma_limit_commutes(q: QueueView, max_payload: usize, row: Seq<u16>)
    requires
        max_payload != q.max_payload,
        row == q.flows_where(oversized(max_payload)),
    ensures
        ({
            let dropped = if max_payload < q.max_payload {
                q.dropped_all(row, DropReason::Congested)
            } else {
                q
            };
            q.limited(max_payload) == dropped.adjusted(max_payload)
        }),
{
    let adjusted = q.adjusted(max_payload);
    assert(adjusted.groups == q.groups);
    assert(adjusted.waiting() == q.waiting());
    assert(adjusted.flow_test(oversized(max_payload)) =~= q.flow_test(oversized(max_payload)));
    assert(adjusted.flows_where(oversized(max_payload)) == row);
    lemma_adjusted_dropped(q, max_payload, row);
}

pub proof fn lemma_adjusted_dropped(q: QueueView, max_payload: usize, row: Seq<u16>)
    ensures
        q.adjusted(max_payload).dropped_all(row, DropReason::Congested) == q.dropped_all(
            row,
            DropReason::Congested,
        ).adjusted(max_payload),
    decreases row.len(),
{
    if row.len() > 0 {
        lemma_adjusted_dropped(q, max_payload, row.drop_last());
    }
}

} // verus!
