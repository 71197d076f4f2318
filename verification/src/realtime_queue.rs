//! The queue of realtime datagrams that wait to be sent.

use std::collections::VecDeque;
use vstd::prelude::*;
use crate::bytes::copy_range;
use crate::realtime::{
    QueuedRealtimeDatagram, REALTIME_DATAGRAM_HEADER_LEN, RealtimeDatagram, RealtimeFlowId,
    RealtimeFlowTelemetry, RealtimePriority, RealtimeQueueConfig, RealtimeTelemetry, SendOutcome,
    invalid_realtime,
};
use crate::realtime_model::{
    DropReason, GroupOrder, GroupView, QueueCounters, QueueView, disposable, group_order,
    index_saturated, lemma_appended, lemma_datagrams_prefix, lemma_dropped, lemma_dropped_all,
    lemma_filter_prefix, lemma_flow_order, lemma_flows_where, lemma_limit_commutes, lemma_placed,
    lemma_popped, lemma_victim_unique, oversized, past_deadline, runs_ahead_32, runs_ahead_64, saturated,
};
use crate::sorted_map::{SortedMap, ascending};
use crate::transport_error::{TransportError, TransportErrorKind};

verus! {

/// The datagrams of one flow that wait.
#[derive(Debug)]
struct PendingGroup {
    generation: u32,
    sequence: u64,
    deadline: u64,
    priority: RealtimePriority,
    datagrams: VecDeque<Vec<u8>>,
    payload_bytes: usize,
    insertion_order: u64,
}

impl View for PendingGroup {
    type V = GroupView;

    closed spec fn view(&self) -> GroupView {
        GroupView {
            generation: self.generation,
            sequence: self.sequence,
            deadline: self.deadline,
            priority: self.priority,
            datagrams: self.datagrams@.map_values(|payload: Vec<u8>| payload@),
            payload_bytes: self.payload_bytes,
            insertion_order: self.insertion_order,
        }
    }
}

/// A bounded queue of realtime datagrams.
#[derive(Debug)]
pub struct RealtimeSendQueue {
    config: RealtimeQueueConfig,
    max_payload: usize,
    groups: SortedMap<RealtimeFlowId, PendingGroup>,
    counters: QueueCounters,
    flows: SortedMap<RealtimeFlowId, RealtimeFlowTelemetry>,
    next_insertion_order: u64,
    transport_congestion_events: u64,
}

impl View for RealtimeSendQueue {
    type V = QueueView;

    closed spec fn view(&self) -> QueueView {
        QueueView {
            config: self.config,
            max_payload: self.max_payload,
            groups: self.groups@.map_values(|group: PendingGroup| group@),
            counters: self.counters,
            flows: self.flows@,
            next_insertion_order: self.next_insertion_order,
            transport_congestion_events: self.transport_congestion_events,
        }
    }
}

/// The flows of the ids.
spec fn numbers(flows: Seq<RealtimeFlowId>) -> Seq<u16> {
    flows.map_values(|flow: RealtimeFlowId| flow.0)
}

fn is_newer_u32(candidate: u32, current: u32) -> (newer: bool)
    ensures
        newer == runs_ahead_32(candidate, current),
{
    let difference: u32 = candidate.wrapping_sub(current);
    difference != 0 && difference < 0x8000_0000
}

fn is_newer_u64(candidate: u64, current: u64) -> (newer: bool)
    ensures
        newer == runs_ahead_64(candidate, current),
{
    let difference: u64 = candidate.wrapping_sub(current);
    difference != 0 && difference < 0x8000_0000_0000_0000
}

fn compare_group(
    candidate_generation: u32,
    candidate_sequence: u64,
    current_generation: u32,
    current_sequence: u64,
) -> (order: GroupOrder)
    ensures
        order == group_order(candidate_generation, candidate_sequence, current_generation, current_sequence),
{
    if candidate_generation == current_generation {
        if candidate_sequence == current_sequence {
            GroupOrder::Same
        } else if is_newer_u64(candidate_sequence, current_sequence) {
            GroupOrder::Newer
        } else {
            GroupOrder::Older
        }
    } else if is_newer_u32(candidate_generation, current_generation) {
        GroupOrder::Newer
    } else {
        GroupOrder::Older
    }
}

impl PendingGroup {
    /// Whether a payload is longer than the limit.
    fn has_oversized(&self, max_payload: usize) -> (found: bool)
        ensures
            found == oversized(max_payload)(self@),
    {
        let mut i: usize = 0;
        while i < self.datagrams.len()
            invariant
                i <= self.datagrams@.len(),
                forall|j: int|
                    0 <= j < i ==> (#[trigger] self@.datagrams[j]).len() <= max_payload,
            decreases self.datagrams@.len() - i,
        {
            assert(self@.datagrams[i as int] == self.datagrams@[i as int]@);
            if self.datagrams[i].len() > max_payload {
                return true;
            }
            i = i + 1;
        }
        false
    }
}

impl RealtimeSendQueue {
    /// Whether the queue is valid: it keeps to its limits.
    pub closed spec fn wf(&self) -> bool {
        self.groups.wf() && self.flows.wf() && self@.wf()
    }

    /// A valid queue keeps to its limits.
    pub proof fn lemma_wf(&self)
        requires
            self.wf(),
        ensures
            self@.wf(),
    {
    }

    /// An empty queue.
    pub fn new(config: RealtimeQueueConfig, max_payload: usize) -> (queue: Result<Self, TransportError>)
        ensures
            match queue {
                Ok(q) => {
                    &&& q.wf()
                    &&& config.is_valid() && max_payload > 0
                    &&& q@ == QueueView::empty(config, max_payload)
                },
                Err(e) => {
                    &&& !config.is_valid() || max_payload == 0
                    &&& e == invalid_realtime("realtime queue limits must be positive")
                },
            },
    {
        if !config.is_valid() || max_payload == 0 {
            return Err(invalid_realtime("realtime queue limits must be positive"));
        }
        let queue = RealtimeSendQueue {
            config,
            max_payload,
            groups: SortedMap::new(),
            counters: QueueCounters {
                queued: 0,
                sent: 0,
                sent_bytes: 0,
                replaced: 0,
                expired: 0,
                congestion_dropped: 0,
                rtt_us: None,
                estimated_send_rate_bps: None,
                congestion_events: 0,
                current_datagram_payload: Some(max_payload),
                max_datagram_payload: max_payload,
                mtu_change_count: 0,
                migration_count: 0,
                reconnect_count: 0,
            },
            flows: SortedMap::new(),
            next_insertion_order: 0,
            transport_congestion_events: 0,
        };
        assert(queue@ =~= QueueView::empty(config, max_payload));
        Ok(queue)
    }

    /// The longest payload that the path carries.
    pub fn max_payload(&self) -> (max_payload: usize)
        ensures
            max_payload == self@.max_payload,
    {
        self.max_payload
    }

    proof fn lemma_rows(&self)
        requires
            self.wf(),
        ensures
            self.groups.keys() == self@.waiting(),
            ascending::<RealtimeFlowId>(self.groups.keys()),
            forall|flow: u16| #[trigger]
                self@.groups.contains_key(flow) <==> self.groups.keys().contains(flow),
            forall|i: int|
                0 <= i < self.groups.keys().len() ==> self@.groups.contains_key(
                    #[trigger] self.groups.keys()[i],
                ) && self@.groups[self.groups.keys()[i]] == self.groups.values()[i]@,
            self.groups.keys().len() == self.groups.values().len(),
            self.groups.keys().len() == self@.groups.dom().len(),
    {
        self.groups.lemma_entries();
        self.groups.lemma_ascending_keys();
        assert(self@.groups.dom() =~= self.groups@.dom());
        assert forall|flow: u16| #[trigger] self@.groups.contains_key(flow) <==> self.groups.keys().contains(
            flow,
        ) by {
            assert(self.groups.keys().to_set().contains(flow) == self.groups.keys().contains(flow));
        }
    }

    /// How many datagrams wait.
    pub fn pending_datagrams(&self) -> (n: usize)
        requires
            self.wf(),
        ensures
            n == index_saturated(self@.datagrams_in(self@.waiting())),
    {
        let mut total: usize = 0;
        let mut i: usize = 0;
        proof {
            self.lemma_rows();
        }
        let len: usize = self.groups.len();
        while i < len
            invariant
                self.wf(),
                len == self.groups.keys().len(),
                i <= len,
                self.groups.keys() == self@.waiting(),
                total == index_saturated(self@.datagrams_in(self@.waiting().subrange(0, i as int))),
            decreases len - i,
        {
            let group = self.groups.value_at(i);
            proof {
                self.lemma_rows();
                lemma_datagrams_prefix(self@, self@.waiting(), i as int);
                assert(self@.groups.contains_key(self.groups.keys()[i as int]));
                assert(group@.datagrams.len() == group.datagrams@.len());
            }
            total = total.saturating_add(group.datagrams.len());
            i = i + 1;
        }
        assert(self@.waiting().subrange(0, i as int) =~= self@.waiting());
        total
    }

    /// What was counted, and how many datagrams wait.
    pub fn telemetry(&self) -> (telemetry: RealtimeTelemetry)
        requires
            self.wf(),
        ensures
            telemetry.flows.wf(),
            telemetry.flows@ == self@.flows,
            telemetry.pending == index_saturated(self@.datagrams_in(self@.waiting())),
            telemetry.receive_queue_overflow == 0,
            self@.counters == (QueueCounters {
                queued: telemetry.queued,
                sent: telemetry.sent,
                sent_bytes: telemetry.sent_bytes,
                replaced: telemetry.replaced,
                expired: telemetry.expired,
                congestion_dropped: telemetry.congestion_dropped,
                rtt_us: telemetry.rtt_us,
                estimated_send_rate_bps: telemetry.estimated_send_rate_bps,
                congestion_events: telemetry.congestion_events,
                current_datagram_payload: telemetry.current_datagram_payload,
                max_datagram_payload: telemetry.max_datagram_payload,
                mtu_change_count: telemetry.mtu_change_count,
                migration_count: telemetry.migration_count,
                reconnect_count: telemetry.reconnect_count,
            }),
    {
        RealtimeTelemetry {
            queued: self.counters.queued,
            pending: self.pending_datagrams(),
            sent: self.counters.sent,
            sent_bytes: self.counters.sent_bytes,
            replaced: self.counters.replaced,
            expired: self.counters.expired,
            congestion_dropped: self.counters.congestion_dropped,
            receive_queue_overflow: 0,
            rtt_us: self.counters.rtt_us,
            estimated_send_rate_bps: self.counters.estimated_send_rate_bps,
            congestion_events: self.counters.congestion_events,
            current_datagram_payload: self.counters.current_datagram_payload,
            max_datagram_payload: self.counters.max_datagram_payload,
            mtu_change_count: self.counters.mtu_change_count,
            migration_count: self.counters.migration_count,
            reconnect_count: self.counters.reconnect_count,
            flows: self.flows.duplicate(),
        }
    }

    /// How many datagrams of a flow were dropped for congestion.
    pub fn congestion_dropped_for_flow(&self, flow: RealtimeFlowId) -> (n: u64)
        requires
            self.wf(),
        ensures
            n == self@.of_flow(flow@).congestion_dropped,
    {
        self.stats(flow).congestion_dropped
    }

    /// What was counted of a flow.
    fn stats(&self, flow: RealtimeFlowId) -> (stats: RealtimeFlowTelemetry)
        requires
            self.flows.wf(),
        ensures
            stats == self@.of_flow(flow@),
    {
        match self.flows.get(&flow) {
            Some(stats) => *stats,
            None => RealtimeFlowTelemetry::default(),
        }
    }

    fn note_queued(&mut self, flow: RealtimeFlowId)
        requires
            old(self).groups.wf(),
            old(self).flows.wf(),
        ensures
            final(self).groups == old(self).groups,
            final(self).flows.wf(),
            final(self)@ == old(self)@.noted_queued(flow@),
    {
        let mut stats = self.stats(flow);
        stats.queued = stats.queued.saturating_add(1);
        self.flows.insert(flow, stats);
        self.counters.queued = self.counters.queued.saturating_add(1);
    }

    fn note_dropped(&mut self, flow: RealtimeFlowId, reason: DropReason, count: usize)
        requires
            old(self).groups.wf(),
            old(self).flows.wf(),
        ensures
            final(self).groups == old(self).groups,
            final(self).flows.wf(),
            final(self)@ == old(self)@.noted_dropped(flow@, reason, count as nat),
    {
        let n: u64 = count as u64;
        let mut stats = self.stats(flow);
        match reason {
            DropReason::Replaced => {
                self.counters.replaced = self.counters.replaced.saturating_add(n);
                stats.replaced = stats.replaced.saturating_add(n);
            },
            DropReason::Expired => {
                self.counters.expired = self.counters.expired.saturating_add(n);
                stats.expired = stats.expired.saturating_add(n);
            },
            DropReason::Congested => {
                self.counters.congestion_dropped = self.counters.congestion_dropped.saturating_add(n);
                stats.congestion_dropped = stats.congestion_dropped.saturating_add(n);
            },
        }
        self.flows.insert(flow, stats);
    }

    /// Drops the group of a flow and tells how many datagrams it held.
    fn drop_flow_group(&mut self, flow: RealtimeFlowId, reason: DropReason) -> (count: usize)
        requires
            old(self).wf(),
        ensures
            final(self).wf(),
            final(self)@ == old(self)@.dropped(flow@, reason),
            count == (if old(self)@.groups.contains_key(flow@) {
                old(self)@.groups[flow@].datagrams.len()
            } else {
                0
            }),
    {
        let ghost before = self@;
        proof {
            lemma_dropped(self@, flow@, reason);
        }
        match self.groups.remove(&flow) {
            Some(group) => {
                let count: usize = group.datagrams.len();
                proof {
                    assert(group@.datagrams.len() == group.datagrams@.len());
                    assert(self@.groups =~= before.groups.remove(flow@));
                }
                self.note_dropped(flow, reason, count);
                assert(self@ =~= before.dropped(flow@, reason));
                count
            },
            None => {
                assert(self@.groups =~= before.groups);
                0
            },
        }
    }

    /// Drops the groups of several flows and tells how many datagrams they held.
    fn drop_flows(&mut self, flows: &Vec<RealtimeFlowId>, reason: DropReason) -> (count: usize)
        requires
            old(self).wf(),
            numbers(flows@).no_duplicates(),
            forall|i: int|
                0 <= i < flows@.len() ==> old(self)@.groups.contains_key(#[trigger] numbers(flows@)[i]),
        ensures
            final(self).wf(),
            final(self)@ == old(self)@.dropped_all(numbers(flows@), reason),
            count == index_saturated(old(self)@.datagrams_in(numbers(flows@))),
    {
        let mut count: usize = 0;
        let mut i: usize = 0;
        let ghost before = self@;
        let ghost row = numbers(flows@);
        assert(row.subrange(0, 0) =~= Seq::empty());
        while i < flows.len()
            invariant
                self.wf(),
                before.wf(),
                row == numbers(flows@),
                row.no_duplicates(),
                forall|j: int| 0 <= j < row.len() ==> before.groups.contains_key(#[trigger] row[j]),
                i <= flows@.len(),
                self@ == before.dropped_all(row.subrange(0, i as int), reason),
                count == index_saturated(before.datagrams_in(row.subrange(0, i as int))),
            decreases flows@.len() - i,
        {
            proof {
                let done = row.subrange(0, i as int);
                lemma_dropped_all(before, done, reason);
                lemma_datagrams_prefix(before, row, i as int);
                assert(row.subrange(0, i + 1).drop_last() =~= done);
                assert(row[i as int] == flows@[i as int].0);
                assert(before.groups.contains_key(row[i as int]));
                assert(!done.contains(row[i as int])) by {
                    if done.contains(row[i as int]) {
                        assert(row[done.index_of(row[i as int])] == row[i as int]);
                    }
                }
                assert(done.to_set().contains(row[i as int]) == done.contains(row[i as int]));
                assert(self@.groups.contains_key(row[i as int]));
            }
            let dropped: usize = self.drop_flow_group(flows[i], reason);
            count = count.saturating_add(dropped);
            i = i + 1;
        }
        assert(row.subrange(0, i as int) =~= row);
        count
    }

    /// The flows whose deadline has come.
    fn expired_flows(&self, now: u64) -> (flows: Vec<RealtimeFlowId>)
        requires
            self.wf(),
        ensures
            numbers(flows@) == self@.flows_where(past_deadline(now)),
    {
        let mut flows: Vec<RealtimeFlowId> = Vec::new();
        let mut i: usize = 0;
        let ghost pass = self@.flow_test(past_deadline(now));
        proof {
            self.lemma_rows();
            reveal(Seq::filter);
            assert(numbers(flows@) =~= self@.waiting().subrange(0, 0).filter(pass));
        }
        let len: usize = self.groups.len();
        while i < len
            invariant
                self.wf(),
                len == self.groups.keys().len(),
                i <= len,
                pass == self@.flow_test(past_deadline(now)),
                self.groups.keys() == self@.waiting(),
                numbers(flows@) == self@.waiting().subrange(0, i as int).filter(pass),
            decreases len - i,
        {
            proof {
                self.lemma_rows();
                lemma_filter_prefix(self@.waiting(), pass, i as int);
                assert(self@.groups.contains_key(self.groups.keys()[i as int]));
            }
            let flow = *self.groups.key_at(i);
            if self.groups.value_at(i).deadline <= now {
                let ghost was = flows@;
                flows.push(flow);
                assert(numbers(flows@) =~= numbers(was).push(flow.0));
            }
            i = i + 1;
        }
        assert(self@.waiting().subrange(0, i as int) =~= self@.waiting());
        flows
    }

    /// The flows that may be dropped first.
    fn disposable_flows(&self) -> (flows: Vec<RealtimeFlowId>)
        requires
            self.wf(),
        ensures
            numbers(flows@) == self@.flows_where(disposable()),
    {
        let mut flows: Vec<RealtimeFlowId> = Vec::new();
        let mut i: usize = 0;
        let ghost pass = self@.flow_test(disposable());
        proof {
            self.lemma_rows();
            reveal(Seq::filter);
            assert(numbers(flows@) =~= self@.waiting().subrange(0, 0).filter(pass));
        }
        let len: usize = self.groups.len();
        while i < len
            invariant
                self.wf(),
                len == self.groups.keys().len(),
                i <= len,
                pass == self@.flow_test(disposable()),
                self.groups.keys() == self@.waiting(),
                numbers(flows@) == self@.waiting().subrange(0, i as int).filter(pass),
            decreases len - i,
        {
            proof {
                self.lemma_rows();
                lemma_filter_prefix(self@.waiting(), pass, i as int);
                assert(self@.groups.contains_key(self.groups.keys()[i as int]));
            }
            let flow = *self.groups.key_at(i);
            if self.groups.value_at(i).priority == RealtimePriority::Disposable {
                let ghost was = flows@;
                flows.push(flow);
                assert(numbers(flows@) =~= numbers(was).push(flow.0));
            }
            i = i + 1;
        }
        assert(self@.waiting().subrange(0, i as int) =~= self@.waiting());
        flows
    }

    /// The flows with a payload over the limit.
    fn oversized_flows(&self, max_payload: usize) -> (flows: Vec<RealtimeFlowId>)
        requires
            self.groups.wf(),
        ensures
            numbers(flows@) == self@.flows_where(oversized(max_payload)),
    {
        let mut flows: Vec<RealtimeFlowId> = Vec::new();
        let mut i: usize = 0;
        let ghost pass = self@.flow_test(oversized(max_payload));
        proof {
            self.groups.lemma_ascending_keys();
            assert(self@.groups.dom() =~= self.groups@.dom());
            reveal(Seq::filter);
            assert(numbers(flows@) =~= self@.waiting().subrange(0, 0).filter(pass));
        }
        let len: usize = self.groups.len();
        while i < len
            invariant
                self.groups.wf(),
                len == self.groups.keys().len(),
                i <= len,
                pass == self@.flow_test(oversized(max_payload)),
                self.groups.keys() == self@.waiting(),
                numbers(flows@) == self@.waiting().subrange(0, i as int).filter(pass),
            decreases len - i,
        {
            proof {
                self.groups.lemma_entries();
                lemma_filter_prefix(self@.waiting(), pass, i as int);
                assert(self.groups@.contains_key(self.groups.keys()[i as int]));
            }
            let flow = *self.groups.key_at(i);
            if self.groups.value_at(i).has_oversized(max_payload) {
                let ghost was = flows@;
                flows.push(flow);
                assert(numbers(flows@) =~= numbers(was).push(flow.0));
            }
            i = i + 1;
        }
        assert(self@.waiting().subrange(0, i as int) =~= self@.waiting());
        flows
    }

    /// Drops the groups whose deadline has come.
    fn expire(&mut self, now: u64) -> (count: usize)
        requires
            old(self).wf(),
        ensures
            final(self).wf(),
            final(self)@ == old(self)@.expired_at(now),
            count == index_saturated(
                old(self)@.datagrams_in(old(self)@.flows_where(past_deadline(now))),
            ),
    {
        let flows = self.expired_flows(now);
        proof {
            lemma_flows_where(self@, past_deadline(now));
            assert forall|i: int| 0 <= i < flows@.len() implies self@.groups.contains_key(
                #[trigger] numbers(flows@)[i],
            ) by {
                assert(self@.flows_where(past_deadline(now)).contains(numbers(flows@)[i]));
            }
        }
        self.drop_flows(&flows, DropReason::Expired)
    }
}

impl RealtimeSendQueue {
    /// Takes a datagram in, or tells why it was dropped.
    pub fn enqueue(&mut self, datagram: RealtimeDatagram<'_>, now: u64) -> (outcome: Result<
        SendOutcome,
        TransportError,
    >)
        requires
            old(self).wf(),
        ensures
            final(self).wf(),
            (final(self)@, outcome) == old(self)@.enqueued(datagram@, now),
    {
        let ghost start = self@;
        self.expire(now);
        let ghost q = self@;
        let payload_len: usize = datagram.payload.len();
        if payload_len > self.max_payload {
            return Err(
                TransportError::new(
                    TransportErrorKind::MessageTooLarge,
                    "realtime datagram exceeds path payload limit",
                ),
            );
        }
        if datagram.deadline <= now {
            self.note_dropped(datagram.flow, DropReason::Expired, 1);
            return Ok(SendOutcome::DroppedExpired);
        }
        proof {
            self.lemma_rows();
        }
        match self.groups.get(&datagram.flow) {
            Some(group) => {
                match compare_group(
                    datagram.generation,
                    datagram.sequence,
                    group.generation,
                    group.sequence,
                ) {
                    GroupOrder::Older => {
                        self.note_dropped(datagram.flow, DropReason::Congested, 1);
                        return Ok(SendOutcome::DroppedCongested);
                    },
                    GroupOrder::Same => {
                        return self.append_to_group(datagram);
                    },
                    GroupOrder::Newer => {},
                }
            },
            None => {
                if self.groups.len() >= self.config.max_flows && !self.evict_lower_priority(
                    datagram.priority,
                ) {
                    self.note_dropped(datagram.flow, DropReason::Congested, 1);
                    return Ok(SendOutcome::DroppedCongested);
                }
            },
        }
        let ghost room = self@;
        proof {
            lemma_dropped(room, datagram.flow@, DropReason::Replaced);
            if room.groups.contains_key(datagram.flow@) {
                assert(room.group_wf(room.groups[datagram.flow@]));
            }
        }
        let replaced: usize = self.drop_flow_group(datagram.flow, DropReason::Replaced);
        let ghost free = self@;
        proof {
            lemma_placed(free, datagram@);
        }
        let insertion_order: u64 = self.next_insertion_order;
        self.next_insertion_order = self.next_insertion_order.wrapping_add(1);
        let payload = copy_range(datagram.payload, 0, payload_len);
        assert(payload@ =~= datagram.payload@);
        let mut datagrams: VecDeque<Vec<u8>> = VecDeque::new();
        datagrams.push_back(payload);
        let group = PendingGroup {
            generation: datagram.generation,
            sequence: datagram.sequence,
            deadline: datagram.deadline,
            priority: datagram.priority,
            datagrams,
            payload_bytes: payload_len,
            insertion_order,
        };
        assert(group@.datagrams =~= seq![datagram.payload@]);
        self.groups.insert(datagram.flow, group);
        self.note_queued(datagram.flow);
        proof {
            assert(self@.groups =~= free.placed(datagram@).groups);
            assert(self@ =~= free.placed(datagram@));
        }
        if replaced > 0 {
            Ok(SendOutcome::ReplacedOlder)
        } else {
            Ok(SendOutcome::Enqueued)
        }
    }

    fn append_to_group(&mut self, datagram: RealtimeDatagram<'_>) -> (outcome: Result<
        SendOutcome,
        TransportError,
    >)
        requires
            old(self).wf(),
            old(self)@.groups.contains_key(datagram.flow@),
            datagram.payload@.len() <= old(self)@.max_payload,
        ensures
            final(self).wf(),
            (final(self)@, outcome) == old(self)@.appended(datagram@),
    {
        let ghost before = self@;
        let config = self.config;
        proof {
            lemma_appended(before, datagram@);
            assert(before.group_wf(before.groups[datagram.flow@]));
        }
        let payload_len: usize = datagram.payload.len();
        match self.groups.get_mut(&datagram.flow) {
            None => Err(invalid_realtime("realtime group size overflow")),
            Some(group) => {
                let ghost was = *group;
                let waiting: usize = group.datagrams.len();
                assert(was@.datagrams.len() == waiting);
                match group.payload_bytes.checked_add(payload_len) {
                    None => {
                        let error = invalid_realtime("realtime group size overflow");
                        assert(self@.groups =~= before.groups);
                        Err(error)
                    },
                    Some(payload_bytes) => {
                        if waiting >= config.max_datagrams_per_group || payload_bytes
                            > config.max_group_bytes {
                            let dropped: usize = waiting.saturating_add(1);
                            self.groups.remove(&datagram.flow);
                            self.note_dropped(datagram.flow, DropReason::Congested, dropped);
                            proof {
                                assert(self@.groups =~= before.appended(datagram@).0.groups);
                                assert(self@ =~= before.appended(datagram@).0);
                            }
                            Ok(SendOutcome::DroppedCongested)
                        } else {
                            let payload = copy_range(datagram.payload, 0, payload_len);
                            assert(payload@ =~= datagram.payload@);
                            if datagram.deadline < group.deadline {
                                group.deadline = datagram.deadline;
                            }
                            if datagram.priority.code() < group.priority.code() {
                                group.priority = datagram.priority;
                            }
                            group.datagrams.push_back(payload);
                            group.payload_bytes = payload_bytes;
                            assert(group@.datagrams =~= was@.datagrams.push(datagram.payload@));
                            self.note_queued(datagram.flow);
                            proof {
                                assert(self@.groups =~= before.appended(datagram@).0.groups);
                                assert(self@ =~= before.appended(datagram@).0);
                            }
                            Ok(SendOutcome::Enqueued)
                        }
                    },
                }
            },
        }
    }

    /// Drops the least important group if it is less important than `incoming`.
    fn evict_lower_priority(&mut self, incoming: RealtimePriority) -> (evicted: bool)
        requires
            old(self).wf(),
        ensures
            final(self).wf(),
            match old(self)@.victim(incoming) {
                Some(flow) => {
                    &&& evicted
                    &&& old(self)@.groups.contains_key(flow)
                    &&& final(self)@ == old(self)@.dropped(flow, DropReason::Congested)
                },
                None => !evicted && final(self)@ == old(self)@,
            },
    {
        let mut victim: Option<RealtimeFlowId> = None;
        let mut i: usize = 0;
        proof {
            self.lemma_rows();
        }
        let len: usize = self.groups.len();
        let ghost q = self@;
        while i < len
            invariant
                self.wf(),
                q == self@,
                len == self.groups.keys().len(),
                i <= len,
                match victim {
                    None => forall|j: int|
                        0 <= j < i ==> q.groups[#[trigger] self.groups.keys()[j]].priority.code()
                            <= incoming.code(),
                    Some(flow) => {
                        &&& q.groups.contains_key(flow@)
                        &&& q.groups[flow@].priority.code() > incoming.code()
                        &&& exists|j: int| 0 <= j < i && self.groups.keys()[j] == flow@
                        &&& forall|j: int|
                            0 <= j < i && q.groups[#[trigger] self.groups.keys()[j]].priority.code()
                                > incoming.code() ==> q.yields_before(flow@, self.groups.keys()[j])
                    },
                },
            decreases len - i,
        {
            proof {
                self.lemma_rows();
                lemma_flow_order(self.groups.keys());
                assert(q.groups.contains_key(self.groups.keys()[i as int]));
            }
            let flow = *self.groups.key_at(i);
            let group = self.groups.value_at(i);
            if group.priority.code() > incoming.code() {
                match victim {
                    None => {
                        victim = Some(flow);
                    },
                    Some(best) => {
                        match self.groups.get(&best) {
                            Some(best_group) => {
                                if group.priority.code() > best_group.priority.code() || (
                                group.priority.code() == best_group.priority.code()
                                    && group.insertion_order <= best_group.insertion_order) {
                                    victim = Some(flow);
                                }
                            },
                            None => {},
                        }
                    },
                }
            }
            i = i + 1;
        }
        proof {
            self.lemma_rows();
            assert forall|flow: u16| q.groups.contains_key(flow) implies exists|j: int|
                0 <= j < len && #[trigger] self.groups.keys()[j] == flow by {
                assert(self.groups.keys().contains(flow));
            }
        }
        match victim {
            Some(flow) => {
                proof {
                    assert(q.is_victim(flow@, incoming));
                    lemma_victim_unique(q, incoming, flow@);
                }
                self.drop_flow_group(flow, DropReason::Congested);
                true
            },
            None => {
                assert(forall|flow: u16| !q.is_victim(flow, incoming));
                false
            },
        }
    }

    /// The flow whose turn it is.
    fn next_flow(&self) -> (next: Option<RealtimeFlowId>)
        requires
            self.wf(),
        ensures
            match next {
                Some(flow) => self@.is_next(flow@),
                None => self@.groups == Map::<u16, GroupView>::empty(),
            },
    {
        let mut next: Option<RealtimeFlowId> = None;
        let mut i: usize = 0;
        proof {
            self.lemma_rows();
        }
        let len: usize = self.groups.len();
        let ghost q = self@;
        while i < len
            invariant
                self.wf(),
                q == self@,
                len == self.groups.keys().len(),
                i <= len,
                match next {
                    None => i == 0,
                    Some(flow) => {
                        &&& q.groups.contains_key(flow@)
                        &&& exists|j: int| 0 <= j < i && self.groups.keys()[j] == flow@
                        &&& forall|j: int|
                            0 <= j < i ==> q.drains_before(flow@, #[trigger] self.groups.keys()[j])
                    },
                },
            decreases len - i,
        {
            proof {
                self.lemma_rows();
                lemma_flow_order(self.groups.keys());
                assert(q.groups.contains_key(self.groups.keys()[i as int]));
            }
            let flow = *self.groups.key_at(i);
            let group = self.groups.value_at(i);
            match next {
                None => {
                    next = Some(flow);
                },
                Some(best) => {
                    match self.groups.get(&best) {
                        Some(best_group) => {
                            if group.priority.code() < best_group.priority.code() || (
                            group.priority.code() == best_group.priority.code()
                                && group.insertion_order < best_group.insertion_order) {
                                next = Some(flow);
                            }
                        },
                        None => {},
                    }
                },
            }
            i = i + 1;
        }
        proof {
            self.lemma_rows();
            assert forall|flow: u16| q.groups.contains_key(flow) implies exists|j: int|
                0 <= j < len && #[trigger] self.groups.keys()[j] == flow by {
                assert(self.groups.keys().contains(flow));
            }
            if next is None {
                assert(q.groups =~= Map::<u16, GroupView>::empty());
            }
        }
        next
    }

    /// The length on the wire of the next datagram.
    pub fn peek_next_wire_len(&mut self, now: u64) -> (length: Option<usize>)
        requires
            old(self).wf(),
        ensures
            final(self).wf(),
            final(self)@ == old(self)@.expired_at(now),
            match length {
                Some(n) => exists|flow: u16| #[trigger]
                    final(self)@.is_next(flow) && n == REALTIME_DATAGRAM_HEADER_LEN
                        + final(self)@.front(flow).payload.len(),
                None => final(self)@.groups == Map::<u16, GroupView>::empty() || exists|flow: u16|
                    #[trigger]
                    final(self)@.is_next(flow) && REALTIME_DATAGRAM_HEADER_LEN + final(self)@.front(
                        flow,
                    ).payload.len() > usize::MAX,
            },
    {
        self.expire(now);
        match self.next_flow() {
            None => None,
            Some(flow) => {
                proof {
                    assert(self@.group_wf(self@.groups[flow@]));
                }
                match self.groups.get(&flow) {
                    None => None,
                    Some(group) => {
                        assert(group@.datagrams[0] == group.datagrams@[0]@);
                        REALTIME_DATAGRAM_HEADER_LEN.checked_add(group.datagrams[0].len())
                    },
                }
            },
        }
    }

    /// Takes the next datagram out.
    pub fn pop_next(&mut self, now: u64) -> (datagram: Option<QueuedRealtimeDatagram>)
        requires
            old(self).wf(),
        ensures
            final(self).wf(),
            ({
                let q = old(self)@.expired_at(now);
                match datagram {
                    Some(d) => {
                        &&& q.is_next(d@.flow)
                        &&& d@ == q.front(d@.flow)
                        &&& final(self)@ == q.popped(d@.flow)
                    },
                    None => q.groups == Map::<u16, GroupView>::empty() && final(self)@ == q,
                }
            }),
    {
        self.expire(now);
        match self.next_flow() {
            None => None,
            Some(flow) => Some(self.pop_flow(flow)),
        }
    }

    /// Takes the next datagram out that fits, if it is as important as the most
    /// important one.
    pub fn pop_next_fitting(&mut self, now: u64, max_wire_len: usize) -> (datagram: Option<
        QueuedRealtimeDatagram,
    >)
        requires
            old(self).wf(),
        ensures
            final(self).wf(),
            ({
                let q = old(self)@.expired_at(now);
                match datagram {
                    Some(d) => {
                        &&& q.is_next_fitting(d@.flow, max_wire_len)
                        &&& d@ == q.front(d@.flow)
                        &&& final(self)@ == q.popped(d@.flow)
                    },
                    None => {
                        &&& forall|flow: u16| #[trigger] q.is_foremost(flow) ==> !q.fits(flow, max_wire_len)
                        &&& final(self)@ == q
                    },
                }
            }),
    {
        self.expire(now);
        let first = match self.next_flow() {
            None => {
                return None;
            },
            Some(first) => first,
        };
        let ghost q = self@;
        let priority = match self.groups.get(&first) {
            None => {
                return None;
            },
            Some(group) => group.priority,
        };
        assert(q.groups[first@].priority == priority);
        assert(q.is_foremost(first@));
        let mut next: Option<RealtimeFlowId> = None;
        let mut i: usize = 0;
        proof {
            self.lemma_rows();
        }
        let len: usize = self.groups.len();
        while i < len
            invariant
                self.wf(),
                q == self@,
                q.is_foremost(first@),
                q.groups[first@].priority == priority,
                len == self.groups.keys().len(),
                i <= len,
                match next {
                    None => forall|j: int|
                        0 <= j < i ==> !(q.is_foremost(#[trigger] self.groups.keys()[j]) && q.fits(
                            self.groups.keys()[j],
                            max_wire_len,
                        )),
                    Some(flow) => {
                        &&& q.is_foremost(flow@)
                        &&& q.fits(flow@, max_wire_len)
                        &&& exists|j: int| 0 <= j < i && self.groups.keys()[j] == flow@
                        &&& forall|j: int|
                            0 <= j < i && q.is_foremost(#[trigger] self.groups.keys()[j]) && q.fits(
                                self.groups.keys()[j],
                                max_wire_len,
                            ) ==> q.drains_before(flow@, self.groups.keys()[j])
                    },
                },
            decreases len - i,
        {
            let ghost at = self.groups.keys()[i as int];
            proof {
                self.lemma_rows();
                lemma_flow_order(self.groups.keys());
                assert(q.groups.contains_key(at));
                assert(q.group_wf(q.groups[at]));
                if q.groups[at].priority == priority {
                    assert(q.is_foremost(at));
                } else if q.is_foremost(at) {
                    assert(q.groups.contains_key(first@));
                }
            }
            let flow = *self.groups.key_at(i);
            let group = self.groups.value_at(i);
            if group.priority == priority {
                assert(group@.datagrams[0] == group.datagrams@[0]@);
                let fits = match REALTIME_DATAGRAM_HEADER_LEN.checked_add(group.datagrams[0].len()) {
                    Some(wire_len) => wire_len <= max_wire_len,
                    None => false,
                };
                if fits {
                    match next {
                        None => {
                            next = Some(flow);
                        },
                        Some(best) => {
                            proof {
                                assert(q.groups.contains_key(best@));
                                assert(q.groups[best@].priority.code() == priority.code());
                            }
                            match self.groups.get(&best) {
                                Some(best_group) => {
                                    if group.insertion_order < best_group.insertion_order {
                                        next = Some(flow);
                                    }
                                },
                                None => {},
                            }
                        },
                    }
                }
            }
            i = i + 1;
        }
        proof {
            self.lemma_rows();
            assert forall|flow: u16| q.groups.contains_key(flow) implies exists|j: int|
                0 <= j < len && #[trigger] self.groups.keys()[j] == flow by {
                assert(self.groups.keys().contains(flow));
            }
        }
        match next {
            None => None,
            Some(flow) => Some(self.pop_flow(flow)),
        }
    }

    fn pop_flow(&mut self, flow: RealtimeFlowId) -> (datagram: QueuedRealtimeDatagram)
        requires
            old(self).wf(),
            old(self)@.groups.contains_key(flow@),
        ensures
            final(self).wf(),
            datagram@ == old(self)@.front(flow@),
            final(self)@ == old(self)@.popped(flow@),
    {
        let ghost before = self@;
        proof {
            lemma_popped(before, flow@);
            assert(before.group_wf(before.groups[flow@]));
        }
        let mut group = match self.groups.remove(&flow) {
            Some(group) => group,
            None => {
                assert(false);
                PendingGroup {
                    generation: 0,
                    sequence: 0,
                    deadline: 0,
                    priority: RealtimePriority::Critical,
                    datagrams: VecDeque::new(),
                    payload_bytes: 0,
                    insertion_order: 0,
                }
            },
        };
        let ghost was = group;
        assert(was@ == before.groups[flow@]);
        assert(was@.datagrams.len() == was.datagrams@.len());
        assert(was@.datagrams[0] == was.datagrams@[0]@);
        let payload = match group.datagrams.pop_front() {
            Some(payload) => payload,
            None => Vec::new(),
        };
        assert(group@.datagrams =~= was@.datagrams.drop_first());
        let datagram = QueuedRealtimeDatagram {
            flow,
            generation: group.generation,
            sequence: group.sequence,
            deadline: group.deadline,
            priority: group.priority,
            payload,
        };
        assert(group@.datagrams.len() == group.datagrams@.len());
        if group.datagrams.len() > 0 {
            self.groups.insert(flow, group);
        }
        proof {
            assert(self@.groups =~= before.popped(flow@).groups);
            assert(self@ =~= before.popped(flow@));
        }
        datagram
    }

    /// Counts a datagram as sent.
    pub fn note_sent(&mut self, datagram: &QueuedRealtimeDatagram)
        requires
            old(self).wf(),
        ensures
            final(self).wf(),
            final(self)@ == old(self)@.noted_sent(datagram@.flow, datagram@.payload.len()),
    {
        let ghost before = self@;
        let bytes: u64 = datagram.payload.len() as u64;
        let mut stats = self.stats(datagram.flow);
        stats.sent = stats.sent.saturating_add(1);
        stats.sent_bytes = stats.sent_bytes.saturating_add(bytes);
        self.flows.insert(datagram.flow, stats);
        self.counters.sent = self.counters.sent.saturating_add(1);
        self.counters.sent_bytes = self.counters.sent_bytes.saturating_add(bytes);
        assert(self@ =~= before.noted_sent(datagram@.flow, datagram@.payload.len()));
    }

    /// Counts a congestion of the transport.
    pub fn note_transport_congestion(&mut self)
        requires
            old(self).wf(),
        ensures
            final(self).wf(),
            final(self)@ == (QueueView {
                counters: QueueCounters {
                    congestion_events: saturated(old(self)@.counters.congestion_events, 1),
                    ..old(self)@.counters
                },
                ..old(self)@
            }),
    {
        self.counters.congestion_events = self.counters.congestion_events.saturating_add(1);
    }

    /// Drops the disposable groups and tells how many datagrams they held.
    pub fn drop_disposable_for_congestion(&mut self) -> (count: usize)
        requires
            old(self).wf(),
        ensures
            final(self).wf(),
            final(self)@ == old(self)@.dropped_all(
                old(self)@.flows_where(disposable()),
                DropReason::Congested,
            ),
            count == index_saturated(old(self)@.datagrams_in(old(self)@.flows_where(disposable()))),
    {
        let flows = self.disposable_flows();
        proof {
            lemma_flows_where(self@, disposable());
            assert forall|i: int| 0 <= i < flows@.len() implies self@.groups.contains_key(
                #[trigger] numbers(flows@)[i],
            ) by {
                assert(self@.flows_where(disposable()).contains(numbers(flows@)[i]));
            }
        }
        self.drop_flows(&flows, DropReason::Congested)
    }

    /// Sets the longest payload that the path carries and drops what does not fit
    /// any more. Tells whether the limit has changed.
    pub fn set_max_payload(&mut self, max_payload: usize) -> (changed: Result<bool, TransportError>)
        requires
            old(self).wf(),
        ensures
            final(self).wf(),
            match changed {
                Ok(changed) => {
                    &&& max_payload > 0
                    &&& changed == (max_payload != old(self)@.max_payload)
                    &&& final(self)@ == old(self)@.limited(max_payload)
                },
                Err(e) => {
                    &&& max_payload == 0
                    &&& e == invalid_realtime("realtime payload limit must be positive")
                    &&& final(self)@ == old(self)@
                },
            },
    {
        if max_payload == 0 {
            return Err(invalid_realtime("realtime payload limit must be positive"));
        }
        if max_payload == self.max_payload {
            return Ok(false);
        }
        let ghost before = self@;
        let previous: usize = self.max_payload;
        let oversized_row = self.oversized_flows(max_payload);
        proof {
            lemma_flows_where(before, oversized(max_payload));
            assert forall|i: int| 0 <= i < oversized_row@.len() implies before.groups.contains_key(
                #[trigger] numbers(oversized_row@)[i],
            ) by {
                assert(before.flows_where(oversized(max_payload)).contains(numbers(oversized_row@)[i]));
            }
        }
        if max_payload < previous {
            self.drop_flows(&oversized_row, DropReason::Congested);
        }
        let ghost dropped = self@;
        self.max_payload = max_payload;
        self.counters.current_datagram_payload = Some(max_payload);
        if max_payload > self.counters.max_datagram_payload {
            self.counters.max_datagram_payload = max_payload;
        }
        self.counters.mtu_change_count = self.counters.mtu_change_count.saturating_add(1);
        proof {
            let row = before.flows_where(oversized(max_payload));
            lemma_limit_commutes(before, max_payload, row);
            if max_payload < previous {
                lemma_dropped_all(before, row, DropReason::Congested);
            }
            assert forall|flow: u16| #[trigger] self@.groups.contains_key(flow) implies self@.group_wf(
                self@.groups[flow],
            ) by {
                assert(dropped.groups.contains_key(flow));
                assert(row.to_set().contains(flow) == row.contains(flow));
                assert(before.groups.contains_key(flow));
                assert(before.group_wf(before.groups[flow]));
                let group = self@.groups[flow];
                if max_payload < previous {
                    assert(!oversized(max_payload)(before.groups[flow]));
                }
            }
        }
        Ok(true)
    }

    /// Takes over what the transport measured.
    pub fn note_network_metrics(
        &mut self,
        rtt_us: u64,
        estimated_send_rate_bps: Option<u64>,
        transport_congestion_events: u64,
    )
        requires
            old(self).wf(),
        ensures
            final(self).wf(),
            final(self)@ == (QueueView {
                counters: QueueCounters {
                    rtt_us: Some(rtt_us),
                    estimated_send_rate_bps,
                    congestion_events: saturated(
                        old(self)@.counters.congestion_events,
                        if transport_congestion_events > old(self)@.transport_congestion_events {
                            (transport_congestion_events - old(self)@.transport_congestion_events) as nat
                        } else {
                            0
                        },
                    ),
                    ..old(self)@.counters
                },
                transport_congestion_events,
                ..old(self)@
            }),
    {
        self.counters.rtt_us = Some(rtt_us);
        self.counters.estimated_send_rate_bps = estimated_send_rate_bps;
        let new_events: u64 = transport_congestion_events.saturating_sub(self.transport_congestion_events);
        self.counters.congestion_events = self.counters.congestion_events.saturating_add(new_events);
        self.transport_congestion_events = transport_congestion_events;
    }

    /// Counts a change of the path.
    pub fn note_migration(&mut self)
        requires
            old(self).wf(),
        ensures
            final(self).wf(),
            final(self)@ == (QueueView {
                counters: QueueCounters {
                    migration_count: saturated(old(self)@.counters.migration_count, 1),
                    ..old(self)@.counters
                },
                ..old(self)@
            }),
    {
        self.counters.migration_count = self.counters.migration_count.saturating_add(1);
    }

    /// Empties the queue for a new connection.
    pub fn reset_for_reconnect(&mut self)
        requires
            old(self).wf(),
        ensures
            final(self).wf(),
            final(self)@ == (QueueView {
                groups: Map::empty(),
                counters: QueueCounters {
                    reconnect_count: saturated(old(self)@.counters.reconnect_count, 1),
                    ..old(self)@.counters
                },
                ..old(self)@
            }),
    {
        self.clear_pending();
        self.counters.reconnect_count = self.counters.reconnect_count.saturating_add(1);
    }

    /// Empties the queue.
    pub fn clear_pending(&mut self)
        requires
            old(self).wf(),
        ensures
            final(self).wf(),
            final(self)@ == (QueueView { groups: Map::empty(), ..old(self)@ }),
    {
        self.groups.clear();
        assert(self@.groups =~= Map::empty());
    }
}

/// Notes on the network change the counters that they speak of, and nothing that waits:
/// congestion that the queue saw itself is counted by one, that which the transport counts
/// by as much as its count has grown.
pub proof fn notes_on_the_network_are_counted(
    before: RealtimeSendQueue,
    rtt_us: u64,
    rate: Option<u64>,
    events: u64,
)
    ensures
        forall|lent: &mut RealtimeSendQueue, done: ()|
            *lent == before && #[trigger] call_ensures(
                RealtimeSendQueue::note_transport_congestion,
                (lent,),
                done,
            ) ==> {
                let count = before@.counters.congestion_events;
                &&& final(lent)@.groups == before@.groups
                &&& final(lent)@.flows == before@.flows
                &&& count < u64::MAX ==> final(lent)@.counters.congestion_events == count + 1
                &&& count == u64::MAX ==> final(lent)@.counters.congestion_events == count
            },
        forall|lent: &mut RealtimeSendQueue, done: ()|
            *lent == before && #[trigger] call_ensures(
                RealtimeSendQueue::note_migration,
                (lent,),
                done,
            ) ==> {
                let count = before@.counters.migration_count;
                &&& final(lent)@.groups == before@.groups
                &&& final(lent)@.flows == before@.flows
                &&& final(lent)@.counters.congestion_events == before@.counters.congestion_events
                &&& count < u64::MAX ==> final(lent)@.counters.migration_count == count + 1
                &&& count == u64::MAX ==> final(lent)@.counters.migration_count == count
            },
        forall|lent: &mut RealtimeSendQueue, done: ()|
            *lent == before && #[trigger] call_ensures(
                RealtimeSendQueue::note_network_metrics,
                (lent, rtt_us, rate, events),
                done,
            ) ==> {
                let count = before@.counters.congestion_events;
                let grown = events - before@.transport_congestion_events;
                &&& final(lent)@.groups == before@.groups
                &&& final(lent)@.flows == before@.flows
                &&& final(lent)@.counters.rtt_us == Some(rtt_us)
                &&& final(lent)@.counters.estimated_send_rate_bps == rate
                &&& final(lent)@.transport_congestion_events == events
                &&& grown <= 0 ==> final(lent)@.counters.congestion_events == count
                &&& grown > 0 && count + grown <= u64::MAX
                    ==> final(lent)@.counters.congestion_events == count + grown
                &&& grown > 0 && count + grown > u64::MAX
                    ==> final(lent)@.counters.congestion_events == u64::MAX
            },
{
}

/// After a reconnection, and after all that waits was dropped, nothing waits; only the
/// reconnection is counted.
pub proof fn reconnections_leave_nothing_waiting(before: RealtimeSendQueue)
    ensures
        forall|lent: &mut RealtimeSendQueue, done: ()|
            *lent == before && #[trigger] call_ensures(
                RealtimeSendQueue::reset_for_reconnect,
                (lent,),
                done,
            ) ==> {
                let count = before@.counters.reconnect_count;
                &&& final(lent)@.groups.dom() =~= Set::<u16>::empty()
                &&& final(lent)@.flows == before@.flows
                &&& final(lent)@.max_payload == before@.max_payload
                &&& final(lent)@.counters.sent == before@.counters.sent
                &&& final(lent)@.counters.congestion_dropped == before@.counters.congestion_dropped
                &&& count < u64::MAX ==> final(lent)@.counters.reconnect_count == count + 1
                &&& count == u64::MAX ==> final(lent)@.counters.reconnect_count == count
            },
        forall|lent: &mut RealtimeSendQueue, done: ()|
            *lent == before && #[trigger] call_ensures(
                RealtimeSendQueue::clear_pending,
                (lent,),
                done,
            ) ==> {
                &&& final(lent)@.groups.dom() =~= Set::<u16>::empty()
                &&& final(lent)@.flows == before@.flows
                &&& final(lent)@.counters == before@.counters
                &&& final(lent)@.max_payload == before@.max_payload
            },
{
}

/// What is taken out is the first datagram of a group that waits and is not late; nothing
/// comes out only where nothing waits that is not late.
pub proof fn what_waits_is_taken_out(before: RealtimeSendQueue, now: u64)
    ensures
        forall|lent: &mut RealtimeSendQueue, datagram: Option<QueuedRealtimeDatagram>|
            *lent == before && #[trigger] call_ensures(
                RealtimeSendQueue::pop_next,
                (lent, now),
                datagram,
            ) ==> {
                let waiting = before@.expired_at(now);
                &&& datagram is None <==> waiting.groups.dom() =~= Set::<u16>::empty()
                &&& datagram matches Some(d) ==> {
                    &&& waiting.groups.contains_key(d@.flow)
                    &&& d@.payload == waiting.groups[d@.flow].datagrams[0]
                    &&& d@.generation == waiting.groups[d@.flow].generation
                    &&& d@.sequence == waiting.groups[d@.flow].sequence
                    &&& d@.deadline == waiting.groups[d@.flow].deadline
                    &&& d@.priority == waiting.groups[d@.flow].priority
                    &&& final(lent)@ == waiting.popped(d@.flow)
                }
            },
{
}

/// The length that is told of the next datagram is that of the one that is taken out next,
/// with its header.
pub proof fn the_told_length_is_the_next_ones(before: RealtimeSendQueue, now: u64)
    requires
        before.wf(),
    ensures
        forall|
            lent: &mut RealtimeSendQueue,
            length: Option<usize>,
            other: &mut RealtimeSendQueue,
            datagram: Option<QueuedRealtimeDatagram>,
        |
            {
                &&& *lent == before
                &&& #[trigger] call_ensures(
                    RealtimeSendQueue::peek_next_wire_len,
                    (lent, now),
                    length,
                )
                &&& *other == before
                &&& #[trigger] call_ensures(RealtimeSendQueue::pop_next, (other, now), datagram)
            } ==> {
                &&& datagram is None ==> length is None
                &&& datagram matches Some(d) ==> {
                    &&& length matches Some(n) ==> n == 20 + d@.payload.len()
                    &&& length is None ==> 20 + d@.payload.len() > usize::MAX
                }
            },
{
    let q = before@.expired_at(now);
    assert forall|a: u16, b: u16| q.is_next(a) && q.is_next(b) implies a == b by {
        assert(q.drains_before(a, b));
        assert(q.drains_before(b, a));
    }
}

/// Under congestion everything that is disposable is dropped, and nothing else.
pub proof fn congestion_drops_what_is_disposable(before: RealtimeSendQueue, flow: u16)
    requires
        before.wf(),
        before@.groups.contains_key(flow),
    ensures
        forall|lent: &mut RealtimeSendQueue, count: usize|
            *lent == before && #[trigger] call_ensures(
                RealtimeSendQueue::drop_disposable_for_congestion,
                (lent,),
                count,
            ) ==> {
                let kept = final(lent)@.groups.contains_key(flow);
                &&& before@.groups[flow].priority is Disposable ==> !kept
                &&& !(before@.groups[flow].priority is Disposable) ==> kept
                    && final(lent)@.groups[flow] == before@.groups[flow]
            },
{
    crate::realtime_model::lemma_flows_where(before@, disposable());
    crate::realtime_model::lemma_dropped_all(
        before@,
        before@.flows_where(disposable()),
        DropReason::Congested,
    );
    assert(before@.flows_where(disposable()).to_set().contains(flow)
        <==> before@.flows_where(disposable()).contains(flow));
}

/// A limit of the payload is taken where it is positive, and is told as a change where it is
/// another one.
pub proof fn positive_payload_limits_are_taken(before: RealtimeSendQueue, max_payload: usize)
    ensures
        forall|lent: &mut RealtimeSendQueue, changed: Result<bool, TransportError>|
            *lent == before && #[trigger] call_ensures(
                RealtimeSendQueue::set_max_payload,
                (lent, max_payload),
                changed,
            ) ==> {
                &&& changed is Ok <==> max_payload > 0
                &&& changed is Err ==> final(lent)@ == before@
                &&& changed matches Ok(moved) ==> (moved <==> max_payload != before@.max_payload)
            },
{
}

} // verus!
