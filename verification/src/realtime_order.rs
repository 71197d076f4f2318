//! Which datagrams of a realtime queue replace, follow and yield to which.

use vstd::prelude::*;
use crate::realtime::{DatagramView, RealtimePriority, SendOutcome, realtime_bytes};
use crate::realtime_model::{
    DropReason, GroupView, QueueView, disposable, lemma_dropped, lemma_dropped_all, lemma_expired,
    lemma_flows_where, lemma_victim_unique, oversized,
};
use crate::transport_error::{TransportError, TransportErrorKind};

verus! {

/// Whether a datagram is handed in while a group of its flow waits: it is short enough and
/// in time, and so is the group.
pub open spec fn meets_a_group(q: QueueView, d: DatagramView, now: u64) -> bool {
    &&& q.wf()
    &&& d.payload.len() <= q.max_payload
    &&& d.deadline > now
    &&& q.groups.contains_key(d.flow)
    &&& q.groups[d.flow].deadline > now
}

/// A datagram whose generation runs ahead of that of the waiting group, by less than half
/// of the range and wrapping around, takes the place of the group, whatever the sequence
/// numbers are.
pub proof fn later_generations_replace(q: QueueView, d: DatagramView, now: u64, ahead: int)
    requires
        meets_a_group(q, d, now),
        0 < ahead < 0x8000_0000,
        d.generation == (q.groups[d.flow].generation + ahead) % 0x1_0000_0000,
    ensures
        ({
            let (after, outcome) = q.enqueued(d, now);
            let group = after.groups[d.flow];
            &&& outcome == Ok::<SendOutcome, TransportError>(SendOutcome::ReplacedOlder)
            &&& after.groups.contains_key(d.flow)
            &&& group.generation == d.generation
            &&& group.sequence == d.sequence
            &&& group.deadline == d.deadline
            &&& group.priority == d.priority
            &&& group.datagrams == seq![d.payload]
        }),
{
    lemma_expired(q, now);
}

/// Of the same generation, a datagram whose sequence number runs ahead of that of the
/// waiting group, by less than half of the range and wrapping around, takes the place of
/// the group.
pub proof fn later_sequences_replace(q: QueueView, d: DatagramView, now: u64, ahead: int)
    requires
        meets_a_group(q, d, now),
        d.generation == q.groups[d.flow].generation,
        0 < ahead < 0x8000_0000_0000_0000,
        d.sequence == (q.groups[d.flow].sequence + ahead) % 0x1_0000_0000_0000_0000,
    ensures
        ({
            let (after, outcome) = q.enqueued(d, now);
            let group = after.groups[d.flow];
            &&& outcome == Ok::<SendOutcome, TransportError>(SendOutcome::ReplacedOlder)
            &&& after.groups.contains_key(d.flow)
            &&& group.generation == d.generation
            &&& group.sequence == d.sequence
            &&& group.datagrams == seq![d.payload]
        }),
{
    lemma_expired(q, now);
}

/// A datagram whose generation is behind that of the waiting group, by up to half of the
/// range and wrapping around, is dropped, whatever the sequence numbers are; so is one of
/// the same generation whose sequence number is behind. The group stays as it is.
pub proof fn earlier_datagrams_are_dropped(q: QueueView, d: DatagramView, now: u64, behind: int)
    requires
        meets_a_group(q, d, now),
        ({
            ||| 0 < behind <= 0x8000_0000 && q.groups[d.flow].generation == (d.generation + behind)
                % 0x1_0000_0000
            ||| 0 < behind <= 0x8000_0000_0000_0000 && d.generation == q.groups[d.flow].generation
                && q.groups[d.flow].sequence == (d.sequence + behind) % 0x1_0000_0000_0000_0000
        }),
    ensures
        ({
            let (after, outcome) = q.enqueued(d, now);
            &&& outcome == Ok::<SendOutcome, TransportError>(SendOutcome::DroppedCongested)
            &&& after.groups.contains_key(d.flow)
            &&& after.groups[d.flow] == q.groups[d.flow]
        }),
{
    lemma_expired(q, now);
}

/// A datagram of the generation and sequence number of the waiting group goes behind those
/// of the group, if there is room for it; the group then waits no longer than its first
/// deadline, and matters as much as its most important datagram. Without room the whole
/// group is dropped.
pub proof fn datagrams_of_one_group_stay_together(q: QueueView, d: DatagramView, now: u64)
    requires
        meets_a_group(q, d, now),
        d.generation == q.groups[d.flow].generation,
        d.sequence == q.groups[d.flow].sequence,
        q.groups[d.flow].payload_bytes + d.payload.len() <= usize::MAX,
    ensures
        ({
            let (after, outcome) = q.enqueued(d, now);
            let had = q.groups[d.flow];
            let has = after.groups[d.flow];
            let roomy = had.datagrams.len() + 1 <= q.config.max_datagrams_per_group && had.payload_bytes
                + d.payload.len() <= q.config.max_group_bytes;
            &&& roomy ==> {
                &&& outcome == Ok::<SendOutcome, TransportError>(SendOutcome::Enqueued)
                &&& after.groups.contains_key(d.flow)
                &&& has.datagrams == had.datagrams.push(d.payload)
                &&& has.payload_bytes == had.payload_bytes + d.payload.len()
                &&& has.deadline <= had.deadline && has.deadline <= d.deadline
                &&& has.deadline == had.deadline || has.deadline == d.deadline
                &&& importance(has.priority) >= importance(had.priority) && importance(has.priority)
                    >= importance(d.priority)
                &&& has.priority == had.priority || has.priority == d.priority
                &&& has.insertion_order == had.insertion_order
                &&& has.generation == had.generation
                &&& has.sequence == had.sequence
            }
            &&& !roomy ==> {
                &&& outcome == Ok::<SendOutcome, TransportError>(SendOutcome::DroppedCongested)
                &&& !after.groups.contains_key(d.flow)
            }
        }),
{
    lemma_expired(q, now);
}

/// How much a datagram of a priority matters: critical ones most, then high, normal and
/// disposable ones.
pub open spec fn importance(priority: RealtimePriority) -> int {
    if priority is Critical {
        4
    } else if priority is High {
        3
    } else if priority is Normal {
        2
    } else {
        1
    }
}

/// A datagram that is too long for the path is refused, and one whose deadline has come is
/// dropped; neither changes what waits in time.
pub proof fn long_and_late_datagrams_do_not_wait(q: QueueView, d: DatagramView, now: u64, flow: u16)
    requires
        q.wf(),
        d.payload.len() > q.max_payload || d.deadline <= now,
    ensures
        ({
            let (after, outcome) = q.enqueued(d, now);
            &&& d.payload.len() > q.max_payload ==> outcome is Err && outcome->Err_0.kind
                == TransportErrorKind::MessageTooLarge
            &&& d.payload.len() <= q.max_payload ==> outcome == Ok::<SendOutcome, TransportError>(
                SendOutcome::DroppedExpired,
            )
            &&& after.groups.contains_key(flow) <==> q.groups.contains_key(flow)
                && q.groups[flow].deadline > now
            &&& after.groups.contains_key(flow) ==> after.groups[flow] == q.groups[flow]
        }),
{
    lemma_expired(q, now);
}

/// A datagram of a flow without a group in time gets a group of its own, behind all that
/// wait, as long as there are fewer groups in time than flows are allowed.
pub proof fn new_flows_get_a_group(q: QueueView, d: DatagramView, now: u64)
    requires
        q.wf(),
        d.payload.len() <= q.max_payload,
        d.deadline > now,
        !q.groups.contains_key(d.flow) || q.groups[d.flow].deadline <= now,
        q.groups.dom().len() < q.config.max_flows,
    ensures
        ({
            let (after, outcome) = q.enqueued(d, now);
            let group = after.groups[d.flow];
            &&& outcome == Ok::<SendOutcome, TransportError>(SendOutcome::Enqueued)
            &&& after.groups.contains_key(d.flow)
            &&& group == (GroupView {
                generation: d.generation,
                sequence: d.sequence,
                deadline: d.deadline,
                priority: d.priority,
                datagrams: seq![d.payload],
                payload_bytes: d.payload.len() as usize,
                insertion_order: q.next_insertion_order,
            })
            &&& q.next_insertion_order < u64::MAX ==> after.next_insertion_order
                == q.next_insertion_order + 1
        }),
{
    lemma_expired(q, now);
    let e = q.expired_at(now);
    assert(e.groups.dom().subset_of(q.groups.dom())) by {
        assert forall|flow: u16| e.groups.dom().contains(flow) implies q.groups.dom().contains(flow) by {
            assert(e.groups.contains_key(flow));
        }
    }
    vstd::set_lib::lemma_len_subset(e.groups.dom(), q.groups.dom());
}

/// Where every flow that is allowed has a group in time, a datagram of another flow is
/// taken only in the place of a group that matters less: of those, one that matters least,
/// and of such the one that came first. Where no group matters less, the datagram is
/// dropped and all groups stay.
pub proof fn the_least_important_makes_room(q: QueueView, d: DatagramView, now: u64, flow: u16)
    requires
        q.wf(),
        d.payload.len() <= q.max_payload,
        d.deadline > now,
        !q.groups.contains_key(d.flow),
        q.groups.dom().len() == q.config.max_flows,
        forall|other: u16| #[trigger]
            q.groups.contains_key(other) ==> q.groups[other].deadline > now,
        q.groups.contains_key(flow),
    ensures
        (forall|other: u16| #[trigger]
            q.groups.contains_key(other) ==> importance(q.groups[other].priority) >= importance(
                d.priority,
            )) ==> {
            let (after, outcome) = q.enqueued(d, now);
            &&& outcome == Ok::<SendOutcome, TransportError>(SendOutcome::DroppedCongested)
            &&& after.groups == q.groups
        },
        importance(q.groups[flow].priority) < importance(d.priority) && (forall|other: u16| #[trigger]
            q.groups.contains_key(other) && other != flow ==> {
                ||| importance(q.groups[other].priority) > importance(q.groups[flow].priority)
                ||| importance(q.groups[other].priority) == importance(q.groups[flow].priority)
                    && q.groups[other].insertion_order > q.groups[flow].insertion_order
            }) ==> {
            let (after, outcome) = q.enqueued(d, now);
            &&& outcome == Ok::<SendOutcome, TransportError>(SendOutcome::Enqueued)
            &&& after.groups.dom() == q.groups.dom().remove(flow).insert(d.flow)
            &&& after.groups[d.flow].datagrams == seq![d.payload]
            &&& forall|other: u16| #[trigger]
                q.groups.contains_key(other) && other != flow ==> after.groups[other] == q.groups[other]
        },
{
    lemma_expired(q, now);
    let e = q.expired_at(now);
    assert(e.groups =~= q.groups) by {
        assert forall|other: u16| e.groups.contains_key(other) == q.groups.contains_key(other) by {}
        assert(e.groups.dom() =~= q.groups.dom());
        assert forall|other: u16| q.groups.contains_key(other) implies e.groups[other]
            == q.groups[other] by {
            assert(e.groups.contains_key(other));
        }
    }
    if (forall|other: u16| #[trigger]
        q.groups.contains_key(other) ==> importance(q.groups[other].priority) >= importance(d.priority)) {
        assert forall|v: u16| !e.is_victim(v, d.priority) by {
            if e.is_victim(v, d.priority) {
                assert(q.groups.contains_key(v));
            }
        }
    }
    if importance(q.groups[flow].priority) < importance(d.priority) && (forall|other: u16| #[trigger]
        q.groups.contains_key(other) && other != flow ==> {
            ||| importance(q.groups[other].priority) > importance(q.groups[flow].priority)
            ||| importance(q.groups[other].priority) == importance(q.groups[flow].priority)
                && q.groups[other].insertion_order > q.groups[flow].insertion_order
        }) {
        assert forall|other: u16| #[trigger]
            e.groups.contains_key(other) && e.groups[other].priority.code() > d.priority.code() implies
            e.yields_before(flow, other) by {
            assert(q.groups.contains_key(other));
        }
        assert(e.is_victim(flow, d.priority));
        lemma_victim_unique(e, d.priority, flow);
        lemma_dropped(e, flow, DropReason::Congested);
        let after = q.enqueued(d, now).0;
        assert(after.groups.dom() =~= q.groups.dom().remove(flow).insert(d.flow));
    }
}

/// The datagram that goes next is of a group that matters most, and of those of the one
/// that came first; of each group the datagrams go in the order in which they came.
pub proof fn most_important_then_oldest_goes_next(q: QueueView, flow: u16, other: u16)
    requires
        q.is_next(flow),
        q.groups.contains_key(other),
    ensures
        importance(q.groups[flow].priority) >= importance(q.groups[other].priority),
        importance(q.groups[flow].priority) == importance(q.groups[other].priority)
            ==> q.groups[flow].insertion_order <= q.groups[other].insertion_order,
        q.front(flow).payload == q.groups[flow].datagrams[0],
        q.front(flow).flow == flow,
        q.front(flow).generation == q.groups[flow].generation,
        q.front(flow).sequence == q.groups[flow].sequence,
        q.front(flow).deadline == q.groups[flow].deadline,
        q.front(flow).priority == q.groups[flow].priority,
{
    assert(q.drains_before(flow, other));
}

/// A group that alone matters most, or came first of those that do, is the one that goes
/// next.
pub proof fn the_foremost_group_goes_next(q: QueueView, flow: u16)
    requires
        q.groups.contains_key(flow),
        forall|other: u16| #[trigger]
            q.groups.contains_key(other) && other != flow ==> {
                ||| importance(q.groups[other].priority) < importance(q.groups[flow].priority)
                ||| importance(q.groups[other].priority) == importance(q.groups[flow].priority)
                    && q.groups[other].insertion_order > q.groups[flow].insertion_order
            },
    ensures
        q.is_next(flow),
{
}

/// Of those that matter most, the datagram goes next whose twenty bytes of header and
/// payload fit, and of several the one that came first.
pub proof fn fitting_datagrams_count_their_header(
    q: QueueView,
    max_wire_len: usize,
    flow: u16,
    other: u16,
)
    requires
        q.is_next_fitting(flow, max_wire_len),
        q.groups.contains_key(other),
    ensures
        20 + q.groups[flow].datagrams[0].len() <= max_wire_len,
        importance(q.groups[flow].priority) >= importance(q.groups[other].priority),
        importance(q.groups[flow].priority) == importance(q.groups[other].priority) && 20
            + q.groups[other].datagrams[0].len() <= max_wire_len ==> q.groups[flow].insertion_order
            <= q.groups[other].insertion_order,
{
    if importance(q.groups[flow].priority) == importance(q.groups[other].priority) && 20
        + q.groups[other].datagrams[0].len() <= max_wire_len {
        assert(q.is_foremost(other));
        assert(q.fits(other, max_wire_len));
    }
}

/// A datagram that is taken out leaves the rest of its group, in order, and a group
/// without datagrams is gone; the other groups stay.
pub proof fn taking_out_leaves_the_rest(q: QueueView, flow: u16, other: u16)
    requires
        q.groups.contains_key(flow),
        q.groups[flow].datagrams.len() > 0,
        other != flow,
    ensures
        ({
            let after = q.popped(flow);
            let had = q.groups[flow].datagrams;
            &&& after.groups.contains_key(flow) <==> had.len() > 1
            &&& had.len() > 1 ==> after.groups[flow].datagrams == had.skip(1)
                && after.groups[flow].insertion_order == q.groups[flow].insertion_order
                && after.groups[flow].deadline == q.groups[flow].deadline
                && after.groups[flow].priority == q.groups[flow].priority
            &&& after.groups.contains_key(other) == q.groups.contains_key(other)
            &&& after.groups.contains_key(other) ==> after.groups[other] == q.groups[other]
        }),
{
    assert(q.groups[flow].datagrams.drop_first() =~= q.groups[flow].datagrams.skip(1));
}

/// A lower limit of the payload drops the groups with a datagram over it and leaves the
/// others; another limit is counted once.
pub proof fn lower_limits_drop_what_is_over_them(q: QueueView, max_payload: usize, flow: u16)
    requires
        q.wf(),
        max_payload > 0,
    ensures
        ({
            let after = q.limited(max_payload);
            let over = exists|i: int|
                0 <= i < q.groups[flow].datagrams.len() && (#[trigger] q.groups[flow].datagrams[i]).len()
                    > max_payload;
            &&& after.max_payload == max_payload
            &&& after.groups.contains_key(flow) <==> q.groups.contains_key(flow) && !over
            &&& after.groups.contains_key(flow) ==> after.groups[flow] == q.groups[flow]
        }),
{
    if q.groups.contains_key(flow) {
        assert(q.group_wf(q.groups[flow]));
    }
    if max_payload < q.max_payload {
        let a = q.adjusted(max_payload);
        lemma_limited(q, a, flow);
    }
}

proof fn lemma_limited(q: QueueView, a: QueueView, flow: u16)
    requires
        q.wf(),
        a.groups == q.groups,
    ensures
        ({
            let after = a.dropped_all(a.flows_where(oversized(a.max_payload)), DropReason::Congested);
            &&& after.groups.contains_key(flow) <==> q.groups.contains_key(flow) && !oversized(
                a.max_payload,
            )(q.groups[flow])
            &&& after.groups.contains_key(flow) ==> after.groups[flow] == q.groups[flow]
            &&& after.max_payload == a.max_payload
        }),
{
    let row = a.flows_where(oversized(a.max_payload));
    lemma_flows_where(a, oversized(a.max_payload));
    lemma_dropping(a, row, DropReason::Congested);
    assert(row.to_set().contains(flow) == row.contains(flow));
}

/// Dropping the groups of some flows leaves the others.
proof fn lemma_dropping(q: QueueView, row: Seq<u16>, reason: DropReason)
    ensures
        q.dropped_all(row, reason).groups == q.groups.remove_keys(row.to_set()),
        q.dropped_all(row, reason).max_payload == q.max_payload,
    decreases row.len(),
{
    if row.len() == 0 {
        assert(q.groups.remove_keys(row.to_set()) =~= q.groups);
    } else {
        let front = row.drop_last();
        lemma_dropping(q, front, reason);
        assert forall|k: u16| row.contains(k) <==> front.contains(k) || k == row.last() by {
            if row.contains(k) && k != row.last() {
                assert(front[row.index_of(k)] == k);
            }
            if front.contains(k) {
                assert(row[front.index_of(k)] == k);
            }
            assert(row[row.len() - 1] == row.last());
        }
        let kept = q.dropped_all(front, reason);
        assert(kept.dropped(row.last(), reason).groups =~= kept.groups.remove(row.last()));
        assert(q.groups.remove_keys(front.to_set()).remove(row.last()) =~= q.groups.remove_keys(
            row.to_set(),
        ));
    }
}

/// A datagram that is dropped is counted under the reason for it, in all and for its flow,
/// and under nothing else.
pub proof fn drops_are_counted_by_their_reason(
    q: QueueView,
    flow: u16,
    reason: DropReason,
    count: nat,
    other: u16,
)
    requires
        other != flow,
        q.flows.contains_key(flow),
        q.counters.replaced + count <= u64::MAX,
        q.counters.expired + count <= u64::MAX,
        q.counters.congestion_dropped + count <= u64::MAX,
        q.flows[flow].replaced + count <= u64::MAX,
        q.flows[flow].expired + count <= u64::MAX,
        q.flows[flow].congestion_dropped + count <= u64::MAX,
    ensures
        ({
            let after = q.noted_dropped(flow, reason, count);
            let replaced = if reason is Replaced {
                count
            } else {
                0
            };
            let expired = if reason is Expired {
                count
            } else {
                0
            };
            let congested = if reason is Congested {
                count
            } else {
                0
            };
            &&& after.counters.replaced == q.counters.replaced + replaced
            &&& after.counters.expired == q.counters.expired + expired
            &&& after.counters.congestion_dropped == q.counters.congestion_dropped + congested
            &&& after.counters.queued == q.counters.queued
            &&& after.counters.sent == q.counters.sent
            &&& after.flows[flow].replaced == q.flows[flow].replaced + replaced
            &&& after.flows[flow].expired == q.flows[flow].expired + expired
            &&& after.flows[flow].congestion_dropped == q.flows[flow].congestion_dropped + congested
            &&& after.flows[flow].queued == q.flows[flow].queued
            &&& after.flows[flow].sent == q.flows[flow].sent
            &&& after.flows.contains_key(other) == q.flows.contains_key(other)
            &&& after.flows[other] == q.flows[other]
            &&& after.groups == q.groups
        }),
{
}

/// A datagram that is queued or sent is counted once, in all and for its flow.
pub proof fn queued_and_sent_are_counted(q: QueueView, flow: u16, bytes: nat)
    requires
        q.flows.contains_key(flow),
        q.counters.queued < u64::MAX,
        q.counters.sent < u64::MAX,
        q.counters.sent_bytes + bytes <= u64::MAX,
        q.flows[flow].queued < u64::MAX,
        q.flows[flow].sent < u64::MAX,
        q.flows[flow].sent_bytes + bytes <= u64::MAX,
    ensures
        ({
            let queued = q.noted_queued(flow);
            let sent = q.noted_sent(flow, bytes);
            &&& queued.counters.queued == q.counters.queued + 1
            &&& queued.flows[flow].queued == q.flows[flow].queued + 1
            &&& queued.counters.sent == q.counters.sent
            &&& sent.counters.sent == q.counters.sent + 1
            &&& sent.counters.sent_bytes == q.counters.sent_bytes + bytes
            &&& sent.flows[flow].sent == q.flows[flow].sent + 1
            &&& sent.flows[flow].sent_bytes == q.flows[flow].sent_bytes + bytes
            &&& sent.counters.queued == q.counters.queued
        }),
{
}

/// The group that a datagram replaces, or that makes room for it, is counted as replaced
/// or as dropped for congestion, with all of its datagrams.
pub proof fn replaced_groups_are_counted(q: QueueView, d: DatagramView, now: u64, ahead: int)
    requires
        meets_a_group(q, d, now),
        0 < ahead < 0x8000_0000,
        d.generation == (q.groups[d.flow].generation + ahead) % 0x1_0000_0000,
        forall|other: u16| #[trigger]
            q.groups.contains_key(other) ==> q.groups[other].deadline > now,
        q.counters.replaced + q.groups[d.flow].datagrams.len() <= u64::MAX,
        q.counters.queued < u64::MAX,
    ensures
        ({
            let after = q.enqueued(d, now).0;
            &&& after.counters.replaced == q.counters.replaced + q.groups[d.flow].datagrams.len()
            &&& after.counters.queued == q.counters.queued + 1
            &&& after.counters.expired == q.counters.expired
            &&& after.counters.congestion_dropped == q.counters.congestion_dropped
        }),
{
    lemma_expired(q, now);
    lemma_flows_where(q, crate::realtime_model::past_deadline(now));
    let row = q.flows_where(crate::realtime_model::past_deadline(now));
    assert(row.len() == 0) by {
        if row.len() > 0 {
            assert(row.contains(row[0]));
            assert(q.groups.contains_key(row[0]));
        }
    }
    assert(q.expired_at(now) == q);
}

/// A datagram on the wire begins with its sixteen-bit to sixty-four-bit numbers, each with
/// its most significant byte first, and ends with its payload.
pub proof fn datagram_headers_have_their_places(v: DatagramView)
    ensures
        ({
            let wire = realtime_bytes(v);
            &&& wire.len() == 20 + v.payload.len()
            &&& wire[4] == 1
            &&& wire[5] == 4 - importance(v.priority)
            &&& wire[6] * 0x100 + wire[7] == v.flow
            &&& wire[8] * 0x100_0000 + wire[9] * 0x1_0000 + wire[10] * 0x100 + wire[11] == v.generation
            &&& wire[12] * 0x100_0000_0000_0000 + wire[13] * 0x1_0000_0000_0000 + wire[14]
                * 0x100_0000_0000 + wire[15] * 0x1_0000_0000 + wire[16] * 0x100_0000 + wire[17]
                * 0x1_0000 + wire[18] * 0x100 + wire[19] == v.sequence
            &&& wire.skip(20) == v.payload
        }),
{
    let wire = realtime_bytes(v);
    crate::bytes::value_of_be32(crate::realtime::REALTIME_MAGIC);
    crate::bytes::numbers_begin_with_their_greatest_byte(v.flow, v.generation, v.sequence);
    let f = crate::bytes::be16(v.flow);
    let g = crate::bytes::be32(v.generation);
    let s = crate::bytes::be64(v.sequence);
    assert(wire.subrange(6, 8) =~= f);
    assert(wire.subrange(8, 12) =~= g);
    assert(wire.subrange(12, 20) =~= s);
    assert(wire[6] == f[0] && wire[7] == f[1]);
    assert(wire[8] == g[0] && wire[9] == g[1] && wire[10] == g[2] && wire[11] == g[3]);
    assert(wire[12] == s[0] && wire[13] == s[1] && wire[14] == s[2] && wire[15] == s[3]);
    assert(wire[16] == s[4] && wire[17] == s[5] && wire[18] == s[6] && wire[19] == s[7]);
    assert(wire.skip(20) =~= v.payload);
}

} // verus!
