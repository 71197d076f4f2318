//! Datagrams that have arrived and wait to be read.

use std::collections::VecDeque;
use vstd::prelude::*;
use crate::realtime::{
    RealtimeFlowId, RealtimeFlowTelemetry, RealtimeTelemetry, REALTIME_DATAGRAM_HEADER_LEN,
    has_realtime_header, no_flow_telemetry, realtime_flow_from_wire, wire_flow,
};
use crate::realtime_model::saturated;
use crate::sorted_map::SortedMap;

verus! {

/// A datagram as it arrived.
#[derive(Debug)]
pub struct RawReceivedDatagram {
    pub received_at: u64,
    pub payload: Vec<u8>,
}

#[verifier::ext_equal]
pub struct RawView {
    pub received_at: u64,
    pub payload: Seq<u8>,
}

impl View for RawReceivedDatagram {
    type V = RawView;

    open spec fn view(&self) -> RawView {
        RawView { received_at: self.received_at, payload: self.payload@ }
    }
}

/// What each datagram of a row says.
pub open spec fn raw_views(row: Seq<RawReceivedDatagram>) -> Seq<RawView> {
    row.map_values(|d: RawReceivedDatagram| d@)
}

/// A bounded queue of the datagrams that have arrived, and what was counted of them.
#[derive(Debug)]
pub struct DatagramReceiveState {
    queue: VecDeque<RawReceivedDatagram>,
    capacity: usize,
    overflow: u64,
    flow_stats: SortedMap<RealtimeFlowId, RealtimeFlowTelemetry>,
}

#[verifier::ext_equal]
pub struct ReceiveView {
    pub queue: Seq<RawView>,
    pub capacity: usize,
    pub overflow: u64,
    pub flows: Map<u16, RealtimeFlowTelemetry>,
}

impl View for DatagramReceiveState {
    type V = ReceiveView;

    closed spec fn view(&self) -> ReceiveView {
        ReceiveView {
            queue: raw_views(self.queue@),
            capacity: self.capacity,
            overflow: self.overflow,
            flows: self.flow_stats@,
        }
    }
}

/// What was counted of a flow.
pub open spec fn stats_of(flows: Map<u16, RealtimeFlowTelemetry>, flow: u16) -> RealtimeFlowTelemetry {
    if flows.contains_key(flow) {
        flows[flow]
    } else {
        no_flow_telemetry()
    }
}

impl ReceiveView {
    /// How many datagrams there is room for. The newest one always has room.
    pub open spec fn room(self) -> usize {
        if self.capacity == 0 {
            1
        } else {
            self.capacity
        }
    }

    /// Whether no more datagrams wait than there is room for.
    pub open spec fn wf(self) -> bool {
        self.queue.len() <= self.room()
    }

    /// With a datagram counted as arrived. Only its payload counts, and only if it
    /// belongs to a flow.
    pub open spec fn counted(self, payload: Seq<u8>) -> ReceiveView {
        if has_realtime_header(payload) {
            let flow = wire_flow(payload);
            let stats = stats_of(self.flows, flow);
            ReceiveView {
                flows: self.flows.insert(
                    flow,
                    RealtimeFlowTelemetry {
                        received: saturated(stats.received, 1),
                        received_bytes: saturated(
                            stats.received_bytes,
                            (payload.len() - REALTIME_DATAGRAM_HEADER_LEN) as nat,
                        ),
                        ..stats
                    },
                ),
                ..self
            }
        } else {
            self
        }
    }

    /// Without the oldest datagram, which is counted as dropped.
    pub open spec fn without_oldest(self) -> ReceiveView {
        let dropped = self.queue[0].payload;
        let shorter = ReceiveView {
            queue: self.queue.drop_first(),
            overflow: saturated(self.overflow, 1),
            ..self
        };
        if has_realtime_header(dropped) {
            let flow = wire_flow(dropped);
            let stats = stats_of(self.flows, flow);
            ReceiveView {
                flows: self.flows.insert(
                    flow,
                    RealtimeFlowTelemetry {
                        receive_queue_overflow: saturated(stats.receive_queue_overflow, 1),
                        ..stats
                    },
                ),
                ..shorter
            }
        } else {
            shorter
        }
    }

    /// With one more datagram. Where the queue is full the oldest makes room.
    pub open spec fn arrived(self, datagram: RawView) -> ReceiveView {
        let counted = self.counted(datagram.payload);
        let roomy = if self.queue.len() == self.room() {
            counted.without_oldest()
        } else {
            counted
        };
        ReceiveView { queue: roomy.queue.push(datagram), ..roomy }
    }
}

impl DatagramReceiveState {
    /// Whether the queue is valid.
    pub closed spec fn wf(&self) -> bool {
        self.flow_stats.wf() && self@.wf()
    }

    /// What is known of a valid queue.
    pub proof fn lemma_wf(&self)
        requires
            self.wf(),
        ensures
            self@.wf(),
    {
    }

    pub fn new(capacity: usize) -> (state: Self)
        ensures
            state.wf(),
            state@ == (ReceiveView {
                queue: Seq::empty(),
                capacity,
                overflow: 0,
                flows: Map::empty(),
            }),
    {
        let state = DatagramReceiveState {
            queue: VecDeque::new(),
            capacity,
            overflow: 0,
            flow_stats: SortedMap::new(),
        };
        assert(state@.queue =~= Seq::empty());
        state
    }

    fn stats(&self, flow: RealtimeFlowId) -> (stats: RealtimeFlowTelemetry)
        requires
            self.flow_stats.wf(),
        ensures
            stats == stats_of(self.flow_stats@, flow@),
    {
        match self.flow_stats.get(&flow) {
            Some(stats) => *stats,
            None => RealtimeFlowTelemetry::default(),
        }
    }

    /// Takes a datagram that has arrived.
    pub fn push(&mut self, payload: Vec<u8>, received_at: u64)
        requires
            old(self).wf(),
        ensures
            final(self).wf(),
            final(self)@ == old(self)@.arrived(RawView { received_at, payload: payload@ }),
    {
        let ghost before = self@;
        match realtime_flow_from_wire(payload.as_slice()) {
            Some(flow) => {
                let mut stats = self.stats(flow);
                stats.received = stats.received.saturating_add(1);
                stats.received_bytes = stats.received_bytes.saturating_add(
                    (payload.len() - REALTIME_DATAGRAM_HEADER_LEN) as u64,
                );
                self.flow_stats.insert(flow, stats);
            },
            None => {},
        }
        assert(self@ =~= before.counted(payload@));
        let ghost counted = self@;
        if self.queue.len() >= self.capacity {
            let ghost was = self.queue@;
            match self.queue.pop_front() {
                Some(dropped) => {
                    proof {
                        assert(raw_views(was)[0] == was[0]@);
                        assert(raw_views(self.queue@) =~= raw_views(was).drop_first());
                    }
                    self.overflow = self.overflow.saturating_add(1);
                    match realtime_flow_from_wire(dropped.payload.as_slice()) {
                        Some(flow) => {
                            let mut stats = self.stats(flow);
                            stats.receive_queue_overflow = stats.receive_queue_overflow.saturating_add(
                                1,
                            );
                            self.flow_stats.insert(flow, stats);
                        },
                        None => {},
                    }
                    assert(self@ =~= counted.without_oldest());
                },
                None => {},
            }
        }
        let datagram = RawReceivedDatagram { received_at, payload };
        let ghost roomy = self@;
        let ghost was = self.queue@;
        self.queue.push_back(datagram);
        proof {
            assert(raw_views(self.queue@) =~= raw_views(was).push(datagram@));
            assert(self@ =~= before.arrived(datagram@));
        }
    }

    /// The oldest datagram.
    pub fn pop(&mut self) -> (datagram: Option<RawReceivedDatagram>)
        requires
            old(self).wf(),
        ensures
            final(self).wf(),
            match datagram {
                Some(d) => {
                    &&& old(self)@.queue.len() > 0
                    &&& d@ == old(self)@.queue[0]
                    &&& final(self)@ == (ReceiveView {
                        queue: old(self)@.queue.drop_first(),
                        ..old(self)@
                    })
                },
                None => old(self)@.queue.len() == 0 && final(self)@ == old(self)@,
            },
    {
        let ghost was = self.queue@;
        let datagram = self.queue.pop_front();
        proof {
            if was.len() > 0 {
                assert(raw_views(was)[0] == was[0]@);
                assert(raw_views(self.queue@) =~= raw_views(was).drop_first());
            }
        }
        datagram
    }

    /// Drops what waits; what was counted stays.
    pub fn clear(&mut self)
        requires
            old(self).wf(),
        ensures
            final(self).wf(),
            final(self)@ == (ReceiveView { queue: Seq::empty(), ..old(self)@ }),
    {
        self.queue.clear();
        assert(self@.queue =~= Seq::empty());
    }

    /// How many datagrams made room unread.
    pub fn overflow(&self) -> (n: u64)
        ensures
            n == self@.overflow,
    {
        self.overflow
    }

    /// What was counted of a flow, if any of its datagrams has arrived.
    pub fn flow_stats(&self, flow: RealtimeFlowId) -> (stats: Option<RealtimeFlowTelemetry>)
        requires
            self.wf(),
        ensures
            stats == (if self@.flows.contains_key(flow@) {
                Some(self@.flows[flow@])
            } else {
                None
            }),
    {
        match self.flow_stats.get(&flow) {
            Some(stats) => Some(*stats),
            None => None,
        }
    }

    /// Adds what was counted here to what was counted of the sending side.
    pub fn report(&self, telemetry: &mut RealtimeTelemetry)
        requires
            self.wf(),
            old(telemetry).flows.wf(),
        ensures
            final(telemetry).flows.wf(),
            final(telemetry).flows@ == with_received(old(telemetry).flows@, self@.flows),
            final(telemetry).receive_queue_overflow == self@.overflow,
            *final(telemetry) == (RealtimeTelemetry {
                receive_queue_overflow: self@.overflow,
                flows: final(telemetry).flows,
                ..*old(telemetry)
            }),
    {
        let ghost before = *telemetry;
        telemetry.receive_queue_overflow = self.overflow;
        let ghost keys = self.flow_stats.keys();
        proof {
            self.flow_stats.lemma_entries();
            assert(with_received_of(before.flows@, self@.flows, keys.subrange(0, 0)) =~= before.flows@);
        }
        let len: usize = self.flow_stats.len();
        let mut i: usize = 0;
        while i < len
            invariant
                self.wf(),
                self.flow_stats.wf(),
                keys == self.flow_stats.keys(),
                len == keys.len(),
                keys.no_duplicates(),
                i <= len,
                telemetry.flows.wf(),
                telemetry.flows@ == with_received_of(
                    before.flows@,
                    self@.flows,
                    keys.subrange(0, i as int),
                ),
                *telemetry == (RealtimeTelemetry {
                    receive_queue_overflow: self@.overflow,
                    flows: telemetry.flows,
                    ..before
                }),
            decreases len - i,
        {
            proof {
                self.flow_stats.lemma_entries();
                assert(self.flow_stats@.contains_key(keys[i as int]));
            }
            let flow = *self.flow_stats.key_at(i);
            let received = *self.flow_stats.value_at(i);
            let mut stats = match telemetry.flows.get(&flow) {
                Some(stats) => *stats,
                None => RealtimeFlowTelemetry::default(),
            };
            stats.received = received.received;
            stats.received_bytes = received.received_bytes;
            stats.receive_queue_overflow = received.receive_queue_overflow;
            let ghost was = telemetry.flows@;
            telemetry.flows.insert(flow, stats);
            proof {
                let some = keys.subrange(0, i as int);
                let more = keys.subrange(0, i + 1);
                assert(more =~= some.push(keys[i as int]));
                assert(!some.contains(keys[i as int])) by {
                    if some.contains(keys[i as int]) {
                        let j = some.index_of(keys[i as int]);
                        assert(keys[j] == keys[i as int]);
                    }
                }
                assert forall|k: u16| #[trigger] more.contains(k) <==> some.contains(k) || k
                    == keys[i as int] by {
                    if some.contains(k) {
                        assert(more[some.index_of(k)] == k);
                    }
                    assert(more[i as int] == keys[i as int]);
                    if more.contains(k) && k != keys[i as int] {
                        assert(some[more.index_of(k)] == k);
                    }
                }
                assert(telemetry.flows@ =~= with_received_of(before.flows@, self@.flows, more));
            }
            i = i + 1;
        }
        proof {
            assert(keys.subrange(0, i as int) =~= keys);
            assert forall|k: u16| keys.contains(k) <==> #[trigger] self@.flows.contains_key(k) by {
                assert(keys.to_set().contains(k) == keys.contains(k));
            }
            assert(telemetry.flows@ =~= with_received(before.flows@, self@.flows));
        }
    }
}

/// Counters with those of arrived datagrams in place of their own.
pub open spec fn received_in(stats: RealtimeFlowTelemetry, received: RealtimeFlowTelemetry) -> RealtimeFlowTelemetry {
    RealtimeFlowTelemetry {
        received: received.received,
        received_bytes: received.received_bytes,
        receive_queue_overflow: received.receive_queue_overflow,
        ..stats
    }
}

/// The counters of each flow with those of arrived datagrams.
pub open spec fn with_received(
    flows: Map<u16, RealtimeFlowTelemetry>,
    received: Map<u16, RealtimeFlowTelemetry>,
) -> Map<u16, RealtimeFlowTelemetry> {
    Map::new(
        |flow: u16| flows.contains_key(flow) || received.contains_key(flow),
        |flow: u16|
            if received.contains_key(flow) {
                received_in(stats_of(flows, flow), received[flow])
            } else {
                flows[flow]
            },
    )
}

spec fn with_received_of(
    flows: Map<u16, RealtimeFlowTelemetry>,
    received: Map<u16, RealtimeFlowTelemetry>,
    some: Seq<u16>,
) -> Map<u16, RealtimeFlowTelemetry> {
    Map::new(
        |flow: u16| flows.contains_key(flow) || some.contains(flow),
        |flow: u16|
            if some.contains(flow) {
                received_in(stats_of(flows, flow), received[flow])
            } else {
                flows[flow]
            },
    )
}

/// However many datagrams arrive unread, no more wait than there is room for: the
/// newest stay, and each one that made room is counted.
pub proof fn newest_datagrams_stay(state: ReceiveView, datagram: RawView)
    requires
        state.wf(),
    ensures
        state.arrived(datagram).wf(),
        state.arrived(datagram).queue.last() == datagram,
        state.queue.len() == state.room() ==> state.arrived(datagram).queue
            == state.queue.drop_first().push(datagram) && state.arrived(datagram).overflow == saturated(
            state.overflow,
            1,
        ),
        state.queue.len() < state.room() ==> state.arrived(datagram).queue == state.queue.push(datagram)
            && state.arrived(datagram).overflow == state.overflow,
{
}

/// A datagram that arrives with the header of a flow is counted for the flow, with the bytes
/// of its payload; others are not counted, nor is one counted twice.
pub proof fn arrived_datagrams_are_counted(state: ReceiveView, payload: Seq<u8>, other: u16)
    requires
        has_realtime_header(payload),
        state.flows.contains_key(wire_flow(payload)),
        state.flows[wire_flow(payload)].received < u64::MAX,
        state.flows[wire_flow(payload)].received_bytes + payload.len() <= u64::MAX,
        other != wire_flow(payload),
    ensures
        ({
            let flow = wire_flow(payload);
            let after = state.counted(payload);
            &&& payload.len() >= 20
            &&& after.flows[flow].received == state.flows[flow].received + 1
            &&& after.flows[flow].received_bytes == state.flows[flow].received_bytes + payload.len() - 20
            &&& after.flows[flow].receive_queue_overflow == state.flows[flow].receive_queue_overflow
            &&& after.flows[flow].sent == state.flows[flow].sent
            &&& after.flows.contains_key(other) == state.flows.contains_key(other)
            &&& after.flows[other] == state.flows[other]
            &&& after.queue == state.queue
        }),
{
}

/// Where there is room a datagram goes behind those that wait, and nothing is dropped; what
/// waits is bounded by the capacity, and the newest always has room.
pub proof fn datagrams_wait_in_order(state: ReceiveView, datagram: RawView)
    requires
        state.queue.len() < state.room(),
    ensures
        state.arrived(datagram).queue == state.queue.push(datagram),
        state.arrived(datagram).overflow == state.overflow,
        state.capacity > 0 ==> state.room() == state.capacity,
        state.capacity == 0 ==> state.room() == 1,
{
}

/// A datagram that is dropped for want of room is the oldest, and is counted for its flow.
pub proof fn overflow_is_counted_for_the_flow(state: ReceiveView, other: u16)
    requires
        state.queue.len() > 0,
        has_realtime_header(state.queue[0].payload),
        state.flows.contains_key(wire_flow(state.queue[0].payload)),
        state.flows[wire_flow(state.queue[0].payload)].receive_queue_overflow < u64::MAX,
        state.overflow < u64::MAX,
        other != wire_flow(state.queue[0].payload),
    ensures
        ({
            let flow = wire_flow(state.queue[0].payload);
            let after = state.without_oldest();
            &&& after.queue == state.queue.skip(1)
            &&& after.overflow == state.overflow + 1
            &&& after.flows[flow].receive_queue_overflow == state.flows[flow].receive_queue_overflow + 1
            &&& after.flows[flow].received == state.flows[flow].received
            &&& after.flows[other] == state.flows[other]
        }),
{
    assert(state.queue.drop_first() =~= state.queue.skip(1));
}

/// What is told of a flow has what was sent from one count and what was received from the
/// other.
pub proof fn both_counts_are_told(
    flows: Map<u16, RealtimeFlowTelemetry>,
    received: Map<u16, RealtimeFlowTelemetry>,
    flow: u16,
)
    ensures
        with_received(flows, received).contains_key(flow) <==> flows.contains_key(flow)
            || received.contains_key(flow),
        flows.contains_key(flow) && received.contains_key(flow) ==> {
            let told = with_received(flows, received)[flow];
            &&& told.received == received[flow].received
            &&& told.received_bytes == received[flow].received_bytes
            &&& told.receive_queue_overflow == received[flow].receive_queue_overflow
            &&& told.queued == flows[flow].queued
            &&& told.sent == flows[flow].sent
            &&& told.sent_bytes == flows[flow].sent_bytes
            &&& told.replaced == flows[flow].replaced
            &&& told.expired == flows[flow].expired
            &&& told.congestion_dropped == flows[flow].congestion_dropped
        },
        flows.contains_key(flow) && !received.contains_key(flow) ==> with_received(flows, received)[flow]
            == flows[flow],
{
}

/// What has arrived is taken out in the order in which it came, once each; after a clear
/// nothing is left to take out, and what was counted stays.
pub proof fn arrived_datagrams_are_taken_out_once(before: DatagramReceiveState)
    ensures
        forall|lent: &mut DatagramReceiveState, datagram: Option<RawReceivedDatagram>|
            *lent == before && #[trigger] call_ensures(
                DatagramReceiveState::pop,
                (lent,),
                datagram,
            ) ==> {
                let waiting = before@.queue;
                let left = final(lent)@.queue;
                &&& datagram is Some <==> waiting.len() > 0
                &&& datagram matches Some(d) ==> {
                    &&& d@ == waiting[0]
                    &&& left.len() == waiting.len() - 1
                    &&& forall|i: int| 0 <= i < left.len() ==> #[trigger] left[i] == waiting[i + 1]
                }
                &&& datagram is None ==> left.len() == 0
                &&& final(lent)@.overflow == before@.overflow
                &&& final(lent)@.flows == before@.flows
                &&& final(lent)@.capacity == before@.capacity
            },
        forall|lent: &mut DatagramReceiveState, done: ()|
            *lent == before && #[trigger] call_ensures(
                DatagramReceiveState::clear,
                (lent,),
                done,
            ) ==> {
                &&& final(lent)@.queue.len() == 0
                &&& final(lent)@.overflow == before@.overflow
                &&& final(lent)@.flows == before@.flows
                &&& final(lent)@.capacity == before@.capacity
            },
{
}

} // verus!
