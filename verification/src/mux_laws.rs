//! What holds of every multiplexer.

use vstd::prelude::*;
use crate::channel::ChannelMode;
use crate::error::{LimitKind, LinkError};
use crate::identity::ProtocolVersion;
use crate::mux_model::{
    ChannelView, ConfigView, EnvelopeView, FrameView, MuxView, channel_numbers, cost, lemma_cost, lemma_none_queued,
    lemma_queued_update, lemma_served,
};
use crate::realtime_model::lemma_filter_members;

verus! {

/// Whether a control frame is taken depends on the control frames alone: data
/// frames never stand in its way.
pub proof fn data_never_blocks_control(m: MuxView, e: EnvelopeView, payload_len: nat)
    ensures
        m.with_frame(e).control_fault(payload_len) == m.control_fault(payload_len),
        forall|other: MuxView|
            other.limits == m.limits && other.control == m.control ==> #[trigger] other.control_fault(
                payload_len,
            ) == m.control_fault(payload_len),
{
}

/// While a control frame waits, no data frame is sent.
pub proof fn control_goes_first(m: MuxView, frame: Option<FrameView>, after: MuxView)
    requires
        m.control.len() > 0,
        m.sends(frame, after),
    ensures
        frame == Some(FrameView::Control(m.control[0])),
        after.channels == m.channels,
{
}

/// Whatever waits is sent: nothing is sent only where nothing waits.
pub proof fn what_waits_is_sent(m: MuxView, frame: Option<FrameView>, after: MuxView)
    requires
        m.wf(),
        m.sends(frame, after),
    ensures
        frame is Some ==> after.pending() == m.pending() - 1,
        frame is None <==> m.pending() == 0,
{
    if m.control.len() == 0 {
        if m.ready.len() > 0 {
            let i = choose|i: int| #[trigger]
                m.is_turn(i) && frame == Some(FrameView::Data(m.channels[m.ready[i]].queue[0])) && after
                    == m.served(i);
            lemma_served(m, i);
        } else {
            assert forall|id: u32| #[trigger] m.channels.contains_key(id) implies m.channels[id].queue.len()
                == 0 by {
                assert(!m.ready.contains(id));
            }
            lemma_none_queued(m.channels, channel_numbers());
        }
    }
}

/// What is sent next is fixed by what waits.
pub proof fn the_next_frame_is_fixed(
    m: MuxView,
    frame1: Option<FrameView>,
    after1: MuxView,
    frame2: Option<FrameView>,
    after2: MuxView,
)
    requires
        m.sends(frame1, after1),
        m.sends(frame2, after2),
    ensures
        frame1 == frame2,
        after1 == after2,
{
    if m.control.len() == 0 && m.ready.len() > 0 {
        let i = choose|i: int| #[trigger]
            m.is_turn(i) && frame1 == Some(FrameView::Data(m.channels[m.ready[i]].queue[0])) && after1
                == m.served(i);
        let j = choose|j: int| #[trigger]
            m.is_turn(j) && frame2 == Some(FrameView::Data(m.channels[m.ready[j]].queue[0])) && after2
                == m.served(j);
        assert(m.ready[i] == m.ready[i] && m.ready[j] == m.ready[j]);
        assert(i == j);
    }
}

/// A full channel does not stand in the way of another one.
pub proof fn channels_do_not_block_each_other(m: MuxView, e: EnvelopeView, other: EnvelopeView)
    requires
        m.wf(),
        m.data_fault(e) is None,
        e.channel.id != other.channel.id,
        m.pending() + 1 < m.limits.max_total_pending_frames,
    ensures
        m.with_frame(e).data_fault(other) == m.data_fault(other),
{
    lemma_queued_update(m.channels, e.channel.id, m.with_frame(e).channels[e.channel.id], channel_numbers());
}

/// The frames of a channel are sent in the order in which they were taken.
pub proof fn frames_keep_their_order(m: MuxView, e: EnvelopeView, i: int, id: u32)
    ensures
        m.with_frame(e).channels[id].queue == (if id == e.channel.id {
            m.channels[id].queue.push(e)
        } else {
            m.channels[id].queue
        }),
        m.served(i).channels[id].queue == (if id == m.ready[i] {
            m.channels[id].queue.drop_first()
        } else {
            m.channels[id].queue
        }),
{
}

/// Never do more frames wait than the limits allow.
pub proof fn waiting_frames_are_bounded(m: MuxView)
    requires
        m.wf(),
    ensures
        m.pending() <= m.limits.max_total_pending_frames + m.limits.control_queue_capacity,
        m.channels.dom().len() <= m.limits.max_channels,
{
}

/// A cancelled channel holds nothing and takes nothing.
pub proof fn cancelled_channels_take_nothing(m: MuxView, e: EnvelopeView)
    requires
        m.wf(),
        m.channels.contains_key(e.channel.id),
        m.channels[e.channel.id].config.key == e.channel,
    ensures
        m.cancelled(e.channel.id).channels[e.channel.id].queue.len() == 0,
        m.cancelled(e.channel.id).data_fault(e) is Some,
        m.cancelled(e.channel.id).discardable_fault(e) is Some,
{
}

/// A multiplexer that is restricted to some protocols has channels of those alone.
pub proof fn restricted_channels_are_allowed(m: MuxView, id: u32)
    requires
        m.wf(),
        m.channels.contains_key(id),
    ensures
        m.allows(m.channels[id].config.key.namespace, m.channels[id].config.key.version),
{
    assert(m.channel_wf(id));
}

/// How far a channel is behind a virtual time, or at it.
pub open spec fn lag(state: ChannelView, finish: u128) -> nat {
    if state.virtual_finish > finish {
        0
    } else {
        (finish - state.virtual_finish + 1) as nat
    }
}

/// How much the channels below `n` may yet be sent before a channel that is to be
/// served at the virtual time `finish`.
pub open spec fn debt_below(channels: Map<u32, ChannelView>, finish: u128, n: nat) -> nat
    decreases n,
{
    if n == 0 {
        0
    } else {
        let id = (n - 1) as u32;
        debt_below(channels, finish, (n - 1) as nat) + if channels.contains_key(id) {
            lag(channels[id], finish)
        } else {
            0
        }
    }
}

/// How much may be sent before the channel `id` is served.
pub open spec fn debt(m: MuxView, id: u32) -> nat {
    debt_below(m.channels, m.channels[id].virtual_finish, channel_numbers())
}

proof fn lemma_debt_update(
    channels: Map<u32, ChannelView>,
    finish: u128,
    id: u32,
    state: ChannelView,
    n: nat,
)
    requires
        n <= channel_numbers(),
        channels.contains_key(id),
    ensures
        debt_below(channels.insert(id, state), finish, n) == debt_below(channels, finish, n) + if id < n {
            lag(state, finish) - lag(channels[id], finish)
        } else {
            0
        },
    decreases n,
{
    if n > 0 {
        lemma_debt_update(channels, finish, id, state, (n - 1) as nat);
    }
}

/// No channel is starved: each time another channel is served, the debt that stands
/// before a waiting channel shrinks, so its turn comes, whatever the weights are.
/// (Virtual time that has reached its end is left out.)
pub proof fn no_waiting_channel_is_starved(m: MuxView, i: int, waiting: u32)
    requires
        m.wf(),
        m.is_turn(i),
        m.ready.contains(waiting),
        m.ready[i] != waiting,
        m.channels[waiting].virtual_finish < u128::MAX,
    ensures
        m.served(i).ready.contains(waiting),
        m.served(i).channels[waiting] == m.channels[waiting],
        debt(m.served(i), waiting) < debt(m, waiting),
{
    let id = m.ready[i];
    let state = m.channels[id];
    let after = m.served(i);
    lemma_served(m, i);
    lemma_cost(state.queue[0].payload.len(), state.config.priority_hint);
    let j = m.ready.index_of(waiting);
    assert(m.ready[j] == waiting);
    assert(state.virtual_finish <= m.channels[waiting].virtual_finish);
    assert(m.channels.contains_key(waiting) && m.channels[waiting].queue.len() > 0);
    lemma_debt_update(
        m.channels,
        m.channels[waiting].virtual_finish,
        id,
        after.channels[id],
        channel_numbers(),
    );
}

/// A frame that is taken does not put off the turn of a waiting channel.
pub proof fn taken_frames_put_off_no_waiting_channel(m: MuxView, e: EnvelopeView, waiting: u32)
    requires
        m.wf(),
        m.data_fault(e) is None,
        m.ready.contains(waiting),
    ensures
        m.with_frame(e).channels[waiting].virtual_finish == m.channels[waiting].virtual_finish,
        debt(m.with_frame(e), waiting) <= debt(m, waiting),
{
    let id = e.channel.id;
    assert(m.channels.contains_key(waiting) && m.channels[waiting].queue.len() > 0);
    lemma_debt_update(
        m.channels,
        m.channels[waiting].virtual_finish,
        id,
        m.with_frame(e).channels[id],
        channel_numbers(),
    );
}

/// Two channels that are alone in waiting, at the same virtual time and with frames of the
/// same cost, take turns: the first goes, then the second, and then they stand as before.
/// (Virtual time that has reached its end is left out.)
pub proof fn equal_channels_take_turns(m: MuxView, first: u32, second: u32)
    requires
        m.wf(),
        m.ready == seq![first, second],
        m.channels[first].queue.len() > 1,
        m.channels[second].queue.len() > 1,
        m.channels[first].virtual_finish == m.channels[second].virtual_finish,
        cost(m.channels[first].queue[0].payload.len(), m.channels[first].config.priority_hint) == cost(
            m.channels[second].queue[0].payload.len(),
            m.channels[second].config.priority_hint,
        ),
        m.channels[first].virtual_finish + cost(
            m.channels[first].queue[0].payload.len(),
            m.channels[first].config.priority_hint,
        ) <= u128::MAX,
    ensures
        ({
            let once = m.served(0);
            let twice = once.served(0);
            &&& m.is_turn(0)
            &&& once.ready == seq![second, first]
            &&& once.is_turn(0)
            &&& twice.ready == seq![first, second]
            &&& twice.channels[first].virtual_finish == twice.channels[second].virtual_finish
        }),
{
    let once = m.served(0);
    let twice = once.served(0);
    lemma_cost(m.channels[first].queue[0].payload.len(), m.channels[first].config.priority_hint);
    assert(m.ready[0] == first && m.ready[1] == second);
    assert(first != second);
    assert(m.is_turn(0));
    lemma_served(m, 0);
    assert(once.ready =~= seq![second, first]);
    assert(once.ready[0] == second && once.ready[1] == first);
    assert(once.channels[second] == m.channels[second]);
    assert(once.is_turn(0));
    lemma_served(once, 0);
    assert(twice.ready =~= seq![first, second]);
}

/// A data frame is taken exactly where it is short and flat enough, fewer frames wait than
/// may, its channel is open with its name and version, was not cancelled, and has room.
pub proof fn fitting_frames_are_taken(m: MuxView, e: EnvelopeView)
    ensures
        m.data_fault(e) is None <==> {
            &&& e.payload.len() <= m.limits.max_frame_bytes
            &&& e.nesting_depth <= m.limits.max_nesting_depth
            &&& m.control.len() + m.queued() + 1 <= m.limits.max_total_pending_frames
            &&& m.channels.contains_key(e.channel.id)
            &&& m.channels[e.channel.id].config.key.namespace == e.channel.namespace
            &&& m.channels[e.channel.id].config.key.version == e.channel.version
            &&& m.channels[e.channel.id].config.key.id == e.channel.id
            &&& !m.channels[e.channel.id].cancelled
            &&& m.channels[e.channel.id].queue.len() + 1 <= m.channels[e.channel.id].config.capacity
        },
{
    assert(m.channels[e.channel.id].config.key =~= e.channel <==> {
        &&& m.channels[e.channel.id].config.key.namespace == e.channel.namespace
        &&& m.channels[e.channel.id].config.key.version == e.channel.version
        &&& m.channels[e.channel.id].config.key.id == e.channel.id
    });
}

/// Why a frame is not taken is told: that it is too long before all else, then that too many
/// wait, that its channel is not there, is another, was cancelled or is full.
pub proof fn refused_frames_are_told_why(m: MuxView, e: EnvelopeView)
    requires
        e.nesting_depth <= m.limits.max_nesting_depth,
    ensures
        e.payload.len() > m.limits.max_frame_bytes ==> (m.data_fault(e) matches Some(
            LinkError::LimitExceeded { kind, limit },
        ) && kind == LimitKind::FrameBytes && limit == m.limits.max_frame_bytes),
        e.payload.len() <= m.limits.max_frame_bytes && m.control.len() + m.queued()
            >= m.limits.max_total_pending_frames ==> (m.data_fault(e) matches Some(
            LinkError::LimitExceeded { kind, limit },
        ) && kind == LimitKind::PendingFrames && limit == m.limits.max_total_pending_frames),
        e.payload.len() <= m.limits.max_frame_bytes && m.control.len() + m.queued()
            < m.limits.max_total_pending_frames ==> {
            let state = m.channels[e.channel.id];
            &&& !m.channels.contains_key(e.channel.id) ==> m.data_fault(e) == Some(
                LinkError::UnknownChannel(e.channel.id),
            )
            &&& m.channels.contains_key(e.channel.id) && state.config.key != e.channel ==> m.data_fault(e)
                == Some(LinkError::NamespaceConflict)
            &&& m.channels.contains_key(e.channel.id) && state.config.key == e.channel && state.cancelled
                ==> m.data_fault(e) == Some(LinkError::ChannelCancelled(e.channel.id))
            &&& m.channels.contains_key(e.channel.id) && state.config.key == e.channel
                && !state.cancelled && state.queue.len() >= state.config.capacity ==> (m.data_fault(
                e,
            ) matches Some(LinkError::Backpressure { channel, capacity }) && channel == e.channel.id
                && capacity == state.config.capacity)
        },
{
}

/// A frame that may be discarded is taken on a channel for events alone; that there is no
/// room for it is no fault, and there is room exactly where another frame would have it.
pub proof fn discardable_frames_need_an_event_channel(m: MuxView, e: EnvelopeView)
    ensures
        m.channels.contains_key(e.channel.id) && m.channels[e.channel.id].config.mode
            != ChannelMode::Event ==> m.discardable_fault(e) is Some,
        m.data_fault(e) is None && m.channels[e.channel.id].config.mode == ChannelMode::Event
            ==> m.discardable_fault(e) is None && m.has_room(e.channel.id),
        m.discardable_fault(e) is None ==> (m.has_room(e.channel.id) <==> m.data_fault(e) is None),
{
}

/// A control frame is taken where it is short enough and fewer wait than there is room for.
pub proof fn fitting_control_is_taken(m: MuxView, payload_len: nat)
    ensures
        m.control_fault(payload_len) is None <==> payload_len <= m.limits.max_frame_bytes
            && m.control.len() + 1 <= m.limits.control_queue_capacity,
        payload_len <= m.limits.max_frame_bytes && m.control.len() >= m.limits.control_queue_capacity
            ==> (m.control_fault(payload_len) matches Some(LinkError::Backpressure { channel, capacity })
            && channel == 0 && capacity == m.limits.control_queue_capacity),
{
}

/// A channel is opened with a number that is positive and not in use, a name and room for a
/// frame, for a protocol that may have channels, where there is room for one more; then it
/// is there, empty, and the others stay.
pub proof fn new_channels_are_opened(m: MuxView, config: ConfigView, other: u32)
    ensures
        m.open_fault(config) is None <==> {
            &&& config.key.id >= 1
            &&& config.key.namespace.len() >= 1
            &&& config.capacity >= 1
            &&& m.allowed matches Some(protocols) ==> protocols.contains(
                (config.key.namespace, config.key.version),
            )
            &&& m.channels.dom().len() + 1 <= m.limits.max_channels
            &&& !m.channels.contains_key(config.key.id)
        },
        ({
            let after = m.with_channel(config);
            &&& after.channels.contains_key(config.key.id)
            &&& after.channels[config.key.id].config == config
            &&& after.channels[config.key.id].queue.len() == 0
            &&& !after.channels[config.key.id].cancelled
            &&& after.channels[config.key.id].virtual_finish == m.virtual_time
            &&& after.opened == m.opened.push(config.key.id)
            &&& after.ready == m.ready
            &&& after.control == m.control
            &&& other != config.key.id ==> after.channels.contains_key(other) == m.channels.contains_key(
                other,
            ) && after.channels[other] == m.channels[other]
        }),
{
}

/// Cancelling a channel drops its frames alone, and emptying a multiplexer drops all of
/// them and no channel.
pub proof fn only_the_cancelled_channel_loses_frames(m: MuxView, id: u32, other: u32)
    requires
        m.wf(),
        m.channels.contains_key(id),
        other != id,
    ensures
        m.cancelled(id).channels[id].queue.len() == 0,
        m.cancelled(id).channels[id].cancelled,
        m.cancelled(id).channels[id].config == m.channels[id].config,
        m.cancelled(id).channels[other] == m.channels[other],
        m.cancelled(id).control == m.control,
        !m.cancelled(id).ready.contains(id),
        m.ready.contains(other) ==> m.cancelled(id).ready.contains(other),
        m.emptied().control.len() == 0,
        m.emptied().ready.len() == 0,
        m.emptied().channels.dom() == m.channels.dom(),
        m.emptied().channels[id].queue.len() == 0,
        m.emptied().channels[id].config == m.channels[id].config,
        m.emptied().channels[id].cancelled == m.channels[id].cancelled,
{
    assert(m.emptied().channels.dom() =~= m.channels.dom());
    if m.ready.contains(id) {
        let at = m.ready.index_of(id);
        let rest = m.ready.remove(at);
        if rest.contains(id) {
            let j = rest.index_of(id);
            let from = if j < at {
                j
            } else {
                j + 1
            };
            assert(m.ready[from] == id && m.ready[at] == id && from != at);
        }
        if m.ready.contains(other) {
            let k = m.ready.index_of(other);
            if k < at {
                assert(rest[k] == other);
            } else {
                assert(rest[k - 1] == other);
            }
        }
    }
}

/// The channels of a protocol are those that were opened with its name and version, in
/// order.
pub proof fn channels_are_found_by_protocol(
    m: MuxView,
    namespace: Seq<char>,
    version: ProtocolVersion,
    id: u32,
)
    requires
        m.wf(),
    ensures
        m.channels_of(namespace, version).contains(id) <==> m.channels.contains_key(id)
            && m.channels[id].config.key.namespace == namespace && m.channels[id].config.key.version
            == version,
{
    lemma_filter_members(m.opened, m.belongs(namespace, version), id);
    assert(m.opened.contains(id) == m.channels.contains_key(id));
}

} // verus!
