//! What holds of every queue of realtime datagrams.

use vstd::prelude::*;
use vstd::arithmetic::mul::lemma_mul_is_distributive_add_other_way;
use crate::realtime::{
    DatagramView, RealtimeFlowId, RealtimePriority, RealtimeQueueConfig, SendOutcome,
};
use crate::realtime_model::{
    DropReason, GroupOrder, QueueView, disposable, group_order, lemma_appended, lemma_dropped,
    lemma_dropped_all, lemma_expired, lemma_flows_where, lemma_limit_commutes, lemma_placed, lemma_popped,
    oversized, past_deadline,
};
use crate::sorted_map::ascending_keys_exist;
use crate::transport_error::TransportError;

verus! {

/// A datagram of a newer group takes the place of the whole older group.
pub proof fn newer_group_replaces_the_older(q: QueueView, d: DatagramView, now: u64)
    requires
        q.wf(),
        d.payload.len() <= q.max_payload,
        d.deadline > now,
        q.groups.contains_key(d.flow),
        q.groups[d.flow].deadline > now,
        group_order(d.generation, d.sequence, q.groups[d.flow].generation, q.groups[d.flow].sequence)
            == GroupOrder::Newer,
    ensures
        ({
            let (after, outcome) = q.enqueued(d, now);
            &&& outcome == Ok::<_, TransportError>(SendOutcome::ReplacedOlder)
            &&& after.groups.contains_key(d.flow)
            &&& after.groups[d.flow].generation == d.generation
            &&& after.groups[d.flow].sequence == d.sequence
            &&& after.groups[d.flow].datagrams == seq![d.payload]
        }),
{
    lemma_expired(q, now);
}

/// A datagram of an older group is dropped and changes no group.
pub proof fn older_datagrams_change_nothing(q: QueueView, d: DatagramView, now: u64)
    requires
        q.wf(),
        d.payload.len() <= q.max_payload,
        d.deadline > now,
        q.groups.contains_key(d.flow),
        q.groups[d.flow].deadline > now,
        group_order(d.generation, d.sequence, q.groups[d.flow].generation, q.groups[d.flow].sequence)
            == GroupOrder::Older,
    ensures
        q.enqueued(d, now).1 == Ok::<_, TransportError>(
            SendOutcome::DroppedCongested,
        ),
        q.enqueued(d, now).0.groups == q.expired_at(now).groups,
{
    lemma_expired(q, now);
}

/// A datagram leaves the groups of other flows as they are, but for those whose
/// deadline has come and for one that matters less than the datagram.
pub proof fn flows_are_independent(q: QueueView, d: DatagramView, now: u64, other: u16)
    requires
        q.wf(),
        other != d.flow,
        q.groups.contains_key(other),
        q.groups[other].deadline > now,
        q.groups[other].priority.code() <= d.priority.code(),
    ensures
        q.enqueued(d, now).0.groups.contains_key(other),
        q.enqueued(d, now).0.groups[other] == q.groups[other],
{
    lemma_expired(q, now);
    let e = q.expired_at(now);
    assert(e.groups.contains_key(other));
    match e.victim(d.priority) {
        Some(flow) => {
            assert(e.is_victim(flow, d.priority));
            lemma_dropped(e, flow, DropReason::Congested);
        },
        None => {},
    }
    lemma_dropped(e, d.flow, DropReason::Replaced);
}

/// No datagram is sent whose deadline has come.
pub proof fn nothing_expired_is_sent(q: QueueView, now: u64, flow: u16)
    requires
        q.wf(),
        q.expired_at(now).groups.contains_key(flow),
    ensures
        q.expired_at(now).front(flow).deadline > now,
{
    lemma_expired(q, now);
}

/// What has no deadline behind it stays.
pub proof fn unexpired_groups_stay(q: QueueView, now: u64, flow: u16)
    requires
        q.wf(),
        q.groups.contains_key(flow),
        q.groups[flow].deadline > now,
    ensures
        q.expired_at(now).groups.contains_key(flow),
        q.expired_at(now).groups[flow] == q.groups[flow],
{
    lemma_expired(q, now);
}

/// The next datagram is the only one, and none matters more.
pub proof fn important_datagrams_go_first(q: QueueView, flow: u16, other: u16)
    requires
        q.is_next(flow),
        q.groups.contains_key(other),
    ensures
        q.groups[flow].priority.code() <= q.groups[other].priority.code(),
        q.is_next(other) ==> flow == other,
{
    assert(q.drains_before(flow, other));
    if q.is_next(other) {
        assert(q.drains_before(other, flow));
    }
}

/// The next datagram that fits is the only one, and none matters more, whether it
/// fits or not.
pub proof fn fitting_datagrams_overtake_no_important_one(
    q: QueueView,
    max_wire_len: usize,
    flow: u16,
    other: u16,
)
    requires
        q.is_next_fitting(flow, max_wire_len),
        q.groups.contains_key(other),
    ensures
        q.groups[flow].priority.code() <= q.groups[other].priority.code(),
        q.is_next_fitting(other, max_wire_len) ==> flow == other,
{
    if q.is_next_fitting(other, max_wire_len) {
        assert(q.drains_before(flow, other));
        assert(q.drains_before(other, flow));
    }
}

/// Of two groups at most one is newer than the other.
pub proof fn at_most_one_group_is_newer(g1: u32, s1: u64, g2: u32, s2: u64)
    ensures
        !(group_order(g1, s1, g2, s2) == GroupOrder::Newer && group_order(g2, s2, g1, s1)
            == GroupOrder::Newer),
        group_order(g1, s1, g2, s2) == GroupOrder::Same <==> g1 == g2 && s1 == s2,
{
}

/// Under congestion the disposable groups leave and the others stay.
pub proof fn congestion_drops_the_disposable_alone(q: QueueView, flow: u16)
    requires
        q.wf(),
    ensures
        ({
            let after = q.dropped_all(q.flows_where(disposable()), DropReason::Congested);
            &&& after.groups.contains_key(flow) <==> q.groups.contains_key(flow)
                && q.groups[flow].priority != RealtimePriority::Disposable
            &&& after.groups.contains_key(flow) ==> after.groups[flow] == q.groups[flow]
        }),
{
    let row = q.flows_where(disposable());
    lemma_dropped_all(q, row, DropReason::Congested);
    lemma_flows_where(q, disposable());
    assert(row.to_set().contains(flow) == row.contains(flow));
}

proof fn lemma_datagrams_bounded(q: QueueView, row: Seq<u16>)
    requires
        q.wf(),
        forall|i: int| 0 <= i < row.len() ==> q.groups.contains_key(#[trigger] row[i]),
    ensures
        q.datagrams_in(row) <= row.len() * q.config.max_datagrams_per_group,
    decreases row.len(),
{
    if row.len() > 0 {
        let front = row.drop_last();
        let most = q.config.max_datagrams_per_group as int;
        assert forall|i: int| 0 <= i < front.len() implies q.groups.contains_key(#[trigger] front[i]) by {
            assert(front[i] == row[i]);
        }
        lemma_datagrams_bounded(q, front);
        assert(q.groups.contains_key(row[row.len() - 1]));
        assert(q.group_wf(q.groups[row.last()]));
        lemma_mul_is_distributive_add_other_way(most, front.len() as int, 1);
    }
}

/// Never do more datagrams wait than the limits allow.
pub proof fn waiting_datagrams_are_bounded(q: QueueView)
    requires
        q.wf(),
    ensures
        q.datagrams_in(q.waiting()) <= q.config.max_flows * q.config.max_datagrams_per_group,
{
    let row = q.waiting();
    let most = q.config.max_datagrams_per_group as int;
    ascending_keys_exist::<RealtimeFlowId>(q.groups.dom());
    row.unique_seq_to_set();
    assert forall|i: int| 0 <= i < row.len() implies q.groups.contains_key(#[trigger] row[i]) by {
        assert(row.to_set().contains(row[i]));
    }
    lemma_datagrams_bounded(q, row);
    assert(row.len() * most <= q.config.max_flows * most) by (nonlinear_arith)
        requires
            row.len() <= q.config.max_flows,
            0 <= most,
    ;
}

/// What may be done to a queue, but for emptying it.
pub enum QueueStep {
    /// A datagram is handed in.
    Enqueue { datagram: DatagramView, now: u64 },
    /// What has expired is dropped, and the first datagram of a flow is taken out.
    Take { flow: u16, now: u64 },
    /// What has expired is dropped.
    Look { now: u64 },
    /// What is disposable is dropped.
    Dispose,
    /// The payload gets another limit.
    Limit { max_payload: usize },
    /// Something else is counted.
    Note { noted: QueueView },
}

impl QueueStep {
    /// Whether the step can be taken.
    pub open spec fn possible(self, q: QueueView) -> bool {
        match self {
            QueueStep::Take { flow, now } => q.expired_at(now).groups.contains_key(flow),
            QueueStep::Limit { max_payload } => max_payload > 0,
            QueueStep::Note { noted } => {
                &&& noted.config == q.config
                &&& noted.max_payload == q.max_payload
                &&& noted.groups == q.groups
                &&& noted.counters.replaced == q.counters.replaced
                &&& noted.counters.expired == q.counters.expired
                &&& noted.counters.congestion_dropped == q.counters.congestion_dropped
            },
            _ => true,
        }
    }

    /// What the step makes of a queue.
    pub open spec fn made(self, q: QueueView) -> QueueView {
        match self {
            QueueStep::Enqueue { datagram, now } => q.enqueued(datagram, now).0,
            QueueStep::Take { flow, now } => q.expired_at(now).popped(flow),
            QueueStep::Look { now } => q.expired_at(now),
            QueueStep::Dispose => q.dropped_all(q.flows_where(disposable()), DropReason::Congested),
            QueueStep::Limit { max_payload } => q.limited(max_payload),
            QueueStep::Note { noted } => noted,
        }
    }

    /// How many datagrams the step hands in, without an error.
    pub open spec fn handed_in(self, q: QueueView) -> nat {
        match self {
            QueueStep::Enqueue { datagram, now } => if q.enqueued(datagram, now).1 is Ok {
                1
            } else {
                0
            },
            _ => 0,
        }
    }

    /// How many datagrams the step takes out.
    pub open spec fn taken_out(self) -> nat {
        if self is Take {
            1
        } else {
            0
        }
    }
}

/// What some steps make of a queue.
pub open spec fn queue_after(q: QueueView, steps: Seq<QueueStep>) -> QueueView
    decreases steps.len(),
{
    if steps.len() == 0 {
        q
    } else {
        steps.last().made(queue_after(q, steps.drop_last()))
    }
}

/// Whether each step can be taken after the ones before it.
pub open spec fn steps_possible(q: QueueView, steps: Seq<QueueStep>) -> bool
    decreases steps.len(),
{
    steps.len() > 0 ==> steps_possible(q, steps.drop_last()) && steps.last().possible(
        queue_after(q, steps.drop_last()),
    )
}

/// Whether no group holds as many datagrams as can be counted.
pub open spec fn countable(q: QueueView) -> bool {
    forall|flow: u16| #[trigger]
        q.groups.contains_key(flow) ==> q.groups[flow].datagrams.len() < usize::MAX
}

/// Whether the datagrams of a group can be counted before each step.
pub open spec fn steps_countable(q: QueueView, steps: Seq<QueueStep>) -> bool
    decreases steps.len(),
{
    steps.len() > 0 ==> steps_countable(q, steps.drop_last()) && countable(
        queue_after(q, steps.drop_last()),
    )
}

/// How many datagrams some steps hand in.
pub open spec fn all_handed_in(q: QueueView, steps: Seq<QueueStep>) -> nat
    decreases steps.len(),
{
    if steps.len() == 0 {
        0
    } else {
        all_handed_in(q, steps.drop_last()) + steps.last().handed_in(
            queue_after(q, steps.drop_last()),
        )
    }
}

/// How many datagrams some steps take out.
pub open spec fn all_taken_out(steps: Seq<QueueStep>) -> nat
    decreases steps.len(),
{
    if steps.len() == 0 {
        0
    } else {
        all_taken_out(steps.drop_last()) + steps.last().taken_out()
    }
}

/// How many datagrams were dropped, for whatever reason.
pub open spec fn drops(q: QueueView) -> nat {
    (q.counters.replaced + q.counters.expired + q.counters.congestion_dropped) as nat
}

/// Whether no count of drops has reached its end.
pub open spec fn drops_fit(q: QueueView) -> bool {
    &&& q.counters.replaced < u64::MAX
    &&& q.counters.expired < u64::MAX
    &&& q.counters.congestion_dropped < u64::MAX
}

/// How many datagrams wait.
pub open spec fn pending(q: QueueView) -> nat {
    q.datagrams_in(q.waiting())
}

proof fn lemma_row_agrees(q: QueueView, other: QueueView, row: Seq<u16>)
    requires
        forall|i: int| 0 <= i < row.len() ==> q.groups[#[trigger] row[i]] == other.groups[row[i]],
    ensures
        q.datagrams_in(row) == other.datagrams_in(row),
    decreases row.len(),
{
    if row.len() > 0 {
        let front = row.drop_last();
        assert forall|i: int| 0 <= i < front.len() implies q.groups[#[trigger] front[i]]
            == other.groups[front[i]] by {
            assert(front[i] == row[i]);
        }
        lemma_row_agrees(q, other, front);
        assert(row[row.len() - 1] == row.last());
    }
}

proof fn lemma_row_without(q: QueueView, row: Seq<u16>, i: int)
    requires
        0 <= i < row.len(),
    ensures
        q.datagrams_in(row) == q.datagrams_in(row.remove(i)) + q.groups[row[i]].datagrams.len(),
    decreases row.len(),
{
    if i == row.len() - 1 {
        assert(row.remove(i) =~= row.drop_last());
    } else {
        lemma_row_without(q, row.drop_last(), i);
        assert(row.remove(i).drop_last() =~= row.drop_last().remove(i));
        assert(row.remove(i).last() == row.last());
    }
}

proof fn lemma_rows_agree(q: QueueView, row: Seq<u16>, other: Seq<u16>)
    requires
        row.no_duplicates(),
        other.no_duplicates(),
        forall|flow: u16| #[trigger] row.contains(flow) <==> other.contains(flow),
    ensures
        q.datagrams_in(row) == q.datagrams_in(other),
    decreases row.len(),
{
    if row.len() == 0 {
        if other.len() > 0 {
            assert(other.contains(other[0]));
            assert(row.contains(other[0]));
        }
    } else {
        let last = row.last();
        let front = row.drop_last();
        assert(row[row.len() - 1] == last);
        assert(row.contains(last));
        assert(other.contains(last));
        let i = other.index_of(last);
        let rest = other.remove(i);
        lemma_row_without(q, other, i);
        assert(rest.no_duplicates()) by {
            assert forall|a: int, b: int| 0 <= a < rest.len() && 0 <= b < rest.len() && a != b implies rest[a]
                != rest[b] by {
                let x = if a < i {
                    a
                } else {
                    a + 1
                };
                let y = if b < i {
                    b
                } else {
                    b + 1
                };
                assert(rest[a] == other[x] && rest[b] == other[y]);
            }
        }
        assert forall|flow: u16| #[trigger] front.contains(flow) <==> rest.contains(flow) by {
            if front.contains(flow) {
                let a = front.index_of(flow);
                assert(row[a] == flow && a != row.len() - 1);
                assert(row.contains(flow) && flow != last);
                let b = other.index_of(flow);
                assert(b != i);
                let at = if b < i {
                    b
                } else {
                    b - 1
                };
                assert(rest[at] == flow);
            }
            if rest.contains(flow) {
                let a = rest.index_of(flow);
                let b = if a < i {
                    a
                } else {
                    a + 1
                };
                assert(other[b] == flow);
                assert(other.contains(flow) && flow != last);
                assert(row.contains(flow));
                let c = row.index_of(flow);
                assert(front[c] == flow);
            }
        }
        lemma_rows_agree(q, front, rest);
    }
}

/// Without the group of a flow, as many datagrams fewer wait as the group holds.
proof fn lemma_pending_without(q: QueueView, other: QueueView, flow: u16)
    requires
        q.groups.dom().finite(),
        q.groups.contains_key(flow),
        other.groups == q.groups.remove(flow),
    ensures
        pending(q) == pending(other) + q.groups[flow].datagrams.len(),
{
    let row = q.waiting();
    let rest = other.waiting();
    let all = rest.push(flow);
    ascending_keys_exist::<RealtimeFlowId>(q.groups.dom());
    ascending_keys_exist::<RealtimeFlowId>(other.groups.dom());
    assert forall|k: u16| rest.contains(k) <==> other.groups.contains_key(k) by {
        assert(rest.to_set().contains(k) == rest.contains(k));
    }
    assert forall|k: u16| #[trigger] row.contains(k) <==> all.contains(k) by {
        assert(row.to_set().contains(k) == row.contains(k));
        assert(all[rest.len() as int] == flow);
        if rest.contains(k) {
            assert(all[rest.index_of(k)] == k);
        }
        if all.contains(k) && k != flow {
            assert(rest[all.index_of(k)] == k);
        }
    }
    assert(all.no_duplicates()) by {
        assert(!rest.contains(flow));
        assert forall|a: int, b: int| 0 <= a < all.len() && 0 <= b < all.len() && a != b implies all[a]
            != all[b] by {
            if a < rest.len() {
                assert(rest.contains(rest[a]));
            }
            if b < rest.len() {
                assert(rest.contains(rest[b]));
            }
        }
    }
    lemma_rows_agree(q, row, all);
    assert(all.drop_last() =~= rest);
    assert forall|i: int| 0 <= i < rest.len() implies q.groups[#[trigger] rest[i]] == other.groups[rest[i]] by {
        assert(rest.contains(rest[i]));
    }
    lemma_row_agrees(q, other, rest);
}

/// With another group for a flow, as many datagrams more or fewer wait as the two groups
/// differ by.
proof fn lemma_pending_with(q: QueueView, other: QueueView, flow: u16)
    requires
        q.groups.dom().finite(),
        other.groups.contains_key(flow),
        other.groups == q.groups.insert(flow, other.groups[flow]),
    ensures
        pending(other) + (if q.groups.contains_key(flow) {
            q.groups[flow].datagrams.len()
        } else {
            0
        }) == pending(q) + other.groups[flow].datagrams.len(),
{
    let rest = QueueView { groups: q.groups.remove(flow), ..q };
    assert(other.groups.remove(flow) =~= rest.groups);
    lemma_pending_without(other, rest, flow);
    if q.groups.contains_key(flow) {
        lemma_pending_without(q, rest, flow);
    } else {
        assert(rest.groups =~= q.groups);
        lemma_row_agrees(q, rest, q.waiting());
    }
}

proof fn lemma_dropped_counts(q: QueueView, flow: u16, reason: DropReason)
    requires
        q.wf(),
    ensures
        drops_fit(q.dropped(flow, reason)) ==> drops_fit(q) && pending(q.dropped(flow, reason)) + drops(
            q.dropped(flow, reason),
        ) == pending(q) + drops(q),
{
    if q.groups.contains_key(flow) {
        lemma_pending_without(q, q.dropped(flow, reason), flow);
    }
}

proof fn lemma_dropped_all_counts(q: QueueView, row: Seq<u16>, reason: DropReason)
    requires
        q.wf(),
    ensures
        drops_fit(q.dropped_all(row, reason)) ==> drops_fit(q) && pending(q.dropped_all(row, reason))
            + drops(q.dropped_all(row, reason)) == pending(q) + drops(q),
    decreases row.len(),
{
    if row.len() > 0 {
        let front = row.drop_last();
        lemma_dropped_all(q, front, reason);
        lemma_dropped_counts(q.dropped_all(front, reason), row.last(), reason);
        lemma_dropped_all_counts(q, front, reason);
    }
}

proof fn lemma_placed_counts(q: QueueView, d: DatagramView)
    requires
        q.wf(),
        !q.groups.contains_key(d.flow),
    ensures
        pending(q.placed(d)) == pending(q) + 1,
        drops(q.placed(d)) == drops(q),
        drops_fit(q.placed(d)) == drops_fit(q),
{
    let after = q.placed(d);
    assert(after.groups =~= q.groups.insert(d.flow, after.groups[d.flow]));
    lemma_pending_with(q, after, d.flow);
}

proof fn lemma_noted_dropped_counts(q: QueueView, flow: u16, reason: DropReason)
    requires
        q.wf(),
    ensures
        q.noted_dropped(flow, reason, 1).wf(),
        pending(q.noted_dropped(flow, reason, 1)) == pending(q),
        drops_fit(q.noted_dropped(flow, reason, 1)) ==> drops_fit(q) && drops(
            q.noted_dropped(flow, reason, 1),
        ) == drops(q) + 1,
{
    let after = q.noted_dropped(flow, reason, 1);
    lemma_row_agrees(q, after, q.waiting());
    assert forall|other: u16| #[trigger] after.groups.contains_key(other) implies after.group_wf(
        after.groups[other],
    ) by {
        assert(q.groups.contains_key(other));
    }
}

proof fn lemma_appended_counts(q: QueueView, d: DatagramView)
    requires
        q.wf(),
        q.groups.contains_key(d.flow),
        q.groups[d.flow].datagrams.len() < usize::MAX,
    ensures
        drops_fit(q.appended(d).0) ==> drops_fit(q) && pending(q.appended(d).0) + drops(
            q.appended(d).0,
        ) == pending(q) + drops(q) + (if q.appended(d).1 is Ok {
            1nat
        } else {
            0
        }),
{
    let (after, outcome) = q.appended(d);
    let group = q.groups[d.flow];
    assert(q.group_wf(group));
    if outcome == Ok::<_, TransportError>(SendOutcome::Enqueued) {
        assert(after.groups =~= q.groups.insert(d.flow, after.groups[d.flow]));
        lemma_pending_with(q, after, d.flow);
    } else if outcome is Ok {
        lemma_pending_without(q, after, d.flow);
    }
}

proof fn lemma_enqueued_counts(q: QueueView, d: DatagramView, now: u64)
    requires
        q.wf(),
        countable(q),
    ensures
        q.enqueued(d, now).0.wf(),
        q.enqueued(d, now).0.config == q.config,
        drops_fit(q.enqueued(d, now).0) ==> drops_fit(q) && pending(q.enqueued(d, now).0) + drops(
            q.enqueued(d, now).0,
        ) == pending(q) + drops(q) + (if q.enqueued(d, now).1 is Ok {
            1nat
        } else {
            0
        }),
{
    let e = q.expired_at(now);
    lemma_expired(q, now);
    if d.payload.len() > e.max_payload {
    } else if d.deadline <= now {
        lemma_noted_dropped_counts(e, d.flow, DropReason::Expired);
    } else if e.groups.contains_key(d.flow) {
        let group = e.groups[d.flow];
        match group_order(d.generation, d.sequence, group.generation, group.sequence) {
            GroupOrder::Older => {
                lemma_noted_dropped_counts(e, d.flow, DropReason::Congested);
            },
            GroupOrder::Same => {
                lemma_appended(e, d);
                lemma_appended_counts(e, d);
            },
            GroupOrder::Newer => {
                let free = e.dropped(d.flow, DropReason::Replaced);
                lemma_dropped(e, d.flow, DropReason::Replaced);
                assert(free.groups.dom() =~= e.groups.dom().remove(d.flow));
                lemma_placed(free, d);
                lemma_placed_counts(free, d);
                lemma_dropped_counts(e, d.flow, DropReason::Replaced);
            },
        }
    } else if e.groups.dom().len() < e.config.max_flows {
        lemma_placed(e, d);
        lemma_placed_counts(e, d);
    } else {
        match e.victim(d.priority) {
            Some(flow) => {
                assert(e.is_victim(flow, d.priority));
                let free = e.dropped(flow, DropReason::Congested);
                lemma_dropped(e, flow, DropReason::Congested);
                assert(free.groups.dom() =~= e.groups.dom().remove(flow));
                lemma_placed(free, d);
                lemma_placed_counts(free, d);
                lemma_dropped_counts(e, flow, DropReason::Congested);
            },
            None => {
                lemma_noted_dropped_counts(e, d.flow, DropReason::Congested);
            },
        }
    }
    lemma_dropped_all_counts(q, q.flows_where(past_deadline(now)), DropReason::Expired);
}

proof fn lemma_limited_counts(q: QueueView, max_payload: usize)
    requires
        q.wf(),
        max_payload > 0,
    ensures
        q.limited(max_payload).wf(),
        q.limited(max_payload).config == q.config,
        drops_fit(q.limited(max_payload)) ==> drops_fit(q) && pending(q.limited(max_payload)) + drops(
            q.limited(max_payload),
        ) == pending(q) + drops(q),
{
    if max_payload != q.max_payload {
        let row = q.flows_where(oversized(max_payload));
        let dropped = if max_payload < q.max_payload {
            q.dropped_all(row, DropReason::Congested)
        } else {
            q
        };
        let after = q.limited(max_payload);
        lemma_limit_commutes(q, max_payload, row);
        if max_payload < q.max_payload {
            lemma_dropped_all(q, row, DropReason::Congested);
            lemma_dropped_all_counts(q, row, DropReason::Congested);
            lemma_flows_where(q, oversized(max_payload));
        }
        lemma_row_agrees(dropped, after, dropped.waiting());
        assert forall|flow: u16| #[trigger] after.groups.contains_key(flow) implies after.group_wf(
            after.groups[flow],
        ) by {
            assert(dropped.groups.contains_key(flow));
            assert(row.to_set().contains(flow) == row.contains(flow));
            assert(q.groups.contains_key(flow));
            assert(q.group_wf(q.groups[flow]));
            if max_payload < q.max_payload {
                assert(!oversized(max_payload)(q.groups[flow]));
            }
        }
    }
}

/// One step loses no datagram: what waits, was taken out or was counted as dropped is
/// more by what was handed in.
proof fn lemma_step_counts(q: QueueView, step: QueueStep)
    requires
        q.wf(),
        countable(q),
        step.possible(q),
    ensures
        step.made(q).wf(),
        step.made(q).config == q.config,
        drops_fit(step.made(q)) ==> drops_fit(q) && pending(step.made(q)) + drops(step.made(q))
            + step.taken_out() == pending(q) + drops(q) + step.handed_in(q),
{
    match step {
        QueueStep::Enqueue { datagram, now } => {
            lemma_enqueued_counts(q, datagram, now);
        },
        QueueStep::Take { flow, now } => {
            let e = q.expired_at(now);
            lemma_expired(q, now);
            lemma_popped(e, flow);
            assert(e.group_wf(e.groups[flow]));
            let after = e.popped(flow);
            if e.groups[flow].datagrams.len() == 1 {
                lemma_pending_without(e, after, flow);
            } else {
                assert(after.groups =~= e.groups.insert(flow, after.groups[flow]));
                lemma_pending_with(e, after, flow);
            }
            lemma_dropped_all_counts(q, q.flows_where(past_deadline(now)), DropReason::Expired);
        },
        QueueStep::Look { now } => {
            lemma_expired(q, now);
            lemma_dropped_all_counts(q, q.flows_where(past_deadline(now)), DropReason::Expired);
        },
        QueueStep::Dispose => {
            lemma_dropped_all(q, q.flows_where(disposable()), DropReason::Congested);
            lemma_dropped_all_counts(q, q.flows_where(disposable()), DropReason::Congested);
        },
        QueueStep::Limit { max_payload } => {
            lemma_limited_counts(q, max_payload);
        },
        QueueStep::Note { noted } => {
            lemma_row_agrees(q, noted, q.waiting());
            assert forall|flow: u16| #[trigger] noted.groups.contains_key(flow) implies noted.group_wf(
                noted.groups[flow],
            ) by {
                assert(q.groups.contains_key(flow));
                assert(q.group_wf(q.groups[flow]));
            }
        },
    }
}

proof fn lemma_steps_count(q: QueueView, steps: Seq<QueueStep>)
    requires
        q.wf(),
        steps_possible(q, steps),
        steps_countable(q, steps),
    ensures
        queue_after(q, steps).wf(),
        queue_after(q, steps).config == q.config,
        drops_fit(queue_after(q, steps)) ==> drops_fit(q) && pending(queue_after(q, steps))
            + all_taken_out(steps) + drops(queue_after(q, steps)) == pending(q) + drops(q)
            + all_handed_in(q, steps),
    decreases steps.len(),
{
    if steps.len() > 0 {
        let front = steps.drop_last();
        lemma_steps_count(q, front);
        lemma_step_counts(queue_after(q, front), steps.last());
    }
}

/// Every datagram that a fresh queue was handed waits, was taken out, or was counted once
/// as dropped, whatever was done to the queue but for emptying it, as long as no count of
/// drops, and of the datagrams of a group, has reached its end.
pub proof fn every_datagram_is_accounted_for(
    config: RealtimeQueueConfig,
    max_payload: usize,
    steps: Seq<QueueStep>,
)
    requires
        config.is_valid(),
        max_payload > 0,
        steps_possible(QueueView::empty(config, max_payload), steps),
        steps_countable(QueueView::empty(config, max_payload), steps),
        drops_fit(queue_after(QueueView::empty(config, max_payload), steps)),
    ensures
        ({
            let start = QueueView::empty(config, max_payload);
            let after = queue_after(start, steps);
            &&& after.wf()
            &&& pending(after) + all_taken_out(steps) + after.counters.replaced + after.counters.expired
                + after.counters.congestion_dropped == all_handed_in(start, steps)
        }),
{
    let start = QueueView::empty(config, max_payload);
    ascending_keys_exist::<RealtimeFlowId>(start.groups.dom());
    start.waiting().unique_seq_to_set();
    lemma_steps_count(start, steps);
}

} // verus!
