//! What a multiplexer holds, and what each operation makes of it.
//!
//! Control frames go first. Data channels share what is left by weighted fair
//! queueing: each channel has a virtual finish time, the one with the least goes
//! next, and a frame moves it on by its length over the weight of the channel.

use vstd::prelude::*;
use crate::channel::{CONTROL_CHANNEL_ID, ChannelMode, EnvelopeFlags};
use crate::error::{LimitKind, LinkError};
use crate::identity::ProtocolVersion;

verus! {

pub const PRIORITY_BANDS: u8 = 8;

/// How many priority hints share a band.
pub const PRIORITY_BAND_WIDTH: u8 = 32;

/// What identifies a channel.
#[verifier::ext_equal]
pub struct KeyView {
    pub namespace: Seq<char>,
    pub version: ProtocolVersion,
    pub id: u32,
}

/// How a channel was opened.
#[verifier::ext_equal]
pub struct ConfigView {
    pub key: KeyView,
    pub mode: ChannelMode,
    pub priority_hint: u8,
    pub capacity: usize,
}

/// What a data frame says.
#[verifier::ext_equal]
pub struct EnvelopeView {
    pub session_id: Seq<u8>,
    pub channel: KeyView,
    pub sequence: u64,
    pub nesting_depth: u16,
    pub flags: EnvelopeFlags,
    pub payload: Seq<u8>,
}

/// The state of a channel.
#[verifier::ext_equal]
pub struct ChannelView {
    pub config: ConfigView,
    pub queue: Seq<EnvelopeView>,
    pub cancelled: bool,
    pub virtual_finish: u128,
}

/// How much a multiplexer may hold.
#[derive(Clone, Copy, Debug, Eq, PartialEq, Structural)]
pub struct MultiplexerLimits {
    pub max_frame_bytes: usize,
    pub max_nesting_depth: u16,
    pub max_channels: usize,
    pub control_queue_capacity: usize,
    pub max_total_pending_frames: usize,
}

impl Default for MultiplexerLimits {
    fn default() -> (limits: Self)
        ensures
            limits == (MultiplexerLimits {
                max_frame_bytes: 1048576,
                max_nesting_depth: 32,
                max_channels: 64,
                control_queue_capacity: 32,
                max_total_pending_frames: 512,
            }),
    {
        MultiplexerLimits {
            max_frame_bytes: 1048576,
            max_nesting_depth: 32,
            max_channels: 64,
            control_queue_capacity: 32,
            max_total_pending_frames: 512,
        }
    }
}

impl MultiplexerLimits {
    /// Whether nothing is limited to none.
    pub open spec fn positive(self) -> bool {
        &&& self.max_frame_bytes > 0
        &&& self.max_channels > 0
        &&& self.control_queue_capacity > 0
        &&& self.max_total_pending_frames > 0
    }
}

/// Where an admitted or refused discardable frame went.
#[derive(Clone, Copy, Debug, Eq, PartialEq, Structural)]
pub enum QueueAdmission {
    Enqueued,
    DroppedDiscardable,
}

/// What a multiplexer sends next.
#[verifier::ext_equal]
pub enum FrameView {
    Control(Seq<u8>),
    Data(EnvelopeView),
}

/// The state of a multiplexer.
#[verifier::ext_equal]
pub struct MuxView {
    pub limits: MultiplexerLimits,
    /// The channels by number.
    pub channels: Map<u32, ChannelView>,
    /// The numbers of the channels in the order in which they were opened.
    pub opened: Seq<u32>,
    pub control: Seq<Seq<u8>>,
    /// The numbers of the channels with frames.
    pub ready: Seq<u32>,
    pub virtual_time: u128,
    /// The protocols whose channels may be opened, if not all.
    pub allowed: Option<Seq<(Seq<char>, ProtocolVersion)>>,
}

/// How many frames wait in the channels with a number below `n`.
pub open spec fn queued_below(channels: Map<u32, ChannelView>, n: nat) -> nat
    decreases n,
{
    if n == 0 {
        0
    } else {
        let id = (n - 1) as u32;
        queued_below(channels, (n - 1) as nat) + if channels.contains_key(id) {
            channels[id].queue.len()
        } else {
            0
        }
    }
}

/// How many channel numbers there are.
pub open spec fn channel_numbers() -> nat {
    0x1_0000_0000
}

/// The share of a channel.
pub open spec fn weight(priority_hint: u8) -> int {
    priority_hint as int / PRIORITY_BAND_WIDTH as int + 1
}

/// What sending a payload costs a channel: its length by its share, rounded up.
pub open spec fn cost(payload_len: nat, priority_hint: u8) -> int {
    let bytes = if payload_len == 0 {
        1
    } else {
        payload_len as int
    };
    (bytes * PRIORITY_BANDS + weight(priority_hint) - 1) / weight(priority_hint)
}

/// A virtual time moved on.
pub open spec fn moved_on(from: u128, by: int) -> u128 {
    if from + by > u128::MAX {
        u128::MAX
    } else {
        (from + by) as u128
    }
}

pub open spec fn later(a: u128, b: u128) -> u128 {
    if a >= b {
        a
    } else {
        b
    }
}

impl MuxView {
    /// A multiplexer without channels.
    pub open spec fn empty(
        limits: MultiplexerLimits,
        allowed: Option<Seq<(Seq<char>, ProtocolVersion)>>,
    ) -> MuxView {
        MuxView {
            limits,
            channels: Map::empty(),
            opened: Seq::empty(),
            control: Seq::empty(),
            ready: Seq::empty(),
            virtual_time: 0,
            allowed,
        }
    }

    /// How many data frames wait.
    pub open spec fn queued(self) -> nat {
        queued_below(self.channels, channel_numbers())
    }

    /// How many frames wait.
    pub open spec fn pending(self) -> nat {
        self.control.len() + self.queued()
    }

    /// Whether channels of a protocol may be opened.
    pub open spec fn allows(self, namespace: Seq<char>, version: ProtocolVersion) -> bool {
        match self.allowed {
            Some(protocols) => protocols.contains((namespace, version)),
            None => true,
        }
    }

    /// Why a channel may not be opened.
    pub open spec fn open_fault(self, config: ConfigView) -> Option<LinkError> {
        if config.key.id == CONTROL_CHANNEL_ID {
            Some(LinkError::InvalidInput("channel zero is reserved for control"))
        } else if config.key.namespace.len() == 0 || config.capacity == 0 {
            Some(LinkError::InvalidInput("channel namespace and capacity must be non-empty"))
        } else if !self.allows(config.key.namespace, config.key.version) {
            Some(LinkError::NamespaceConflict)
        } else if self.channels.dom().len() >= self.limits.max_channels {
            Some(LinkError::LimitExceeded { kind: LimitKind::Channels, limit: self.limits.max_channels })
        } else if self.channels.contains_key(config.key.id) {
            Some(LinkError::NamespaceConflict)
        } else {
            None
        }
    }

    /// With one more channel.
    pub open spec fn with_channel(self, config: ConfigView) -> MuxView {
        MuxView {
            channels: self.channels.insert(
                config.key.id,
                ChannelView {
                    config,
                    queue: Seq::empty(),
                    cancelled: false,
                    virtual_finish: self.virtual_time,
                },
            ),
            opened: self.opened.push(config.key.id),
            ..self
        }
    }

    /// Why a payload is not carried at all.
    pub open spec fn payload_fault(self, payload_len: nat, nesting_depth: u16) -> Option<LinkError> {
        if payload_len > self.limits.max_frame_bytes {
            Some(
                LinkError::LimitExceeded {
                    kind: LimitKind::FrameBytes,
                    limit: self.limits.max_frame_bytes,
                },
            )
        } else if nesting_depth > self.limits.max_nesting_depth {
            Some(
                LinkError::LimitExceeded {
                    kind: LimitKind::NestingDepth,
                    limit: self.limits.max_nesting_depth as usize,
                },
            )
        } else {
            None
        }
    }

    /// Why a control frame is not taken.
    pub open spec fn control_fault(self, payload_len: nat) -> Option<LinkError> {
        match self.payload_fault(payload_len, 0) {
            Some(e) => Some(e),
            None => if self.control.len() >= self.limits.control_queue_capacity {
                Some(
                    LinkError::Backpressure {
                        channel: CONTROL_CHANNEL_ID,
                        capacity: self.limits.control_queue_capacity,
                    },
                )
            } else {
                None
            },
        }
    }

    /// Why a data frame is not taken.
    pub open spec fn data_fault(self, e: EnvelopeView) -> Option<LinkError> {
        let id = e.channel.id;
        let state = self.channels[id];
        match self.payload_fault(e.payload.len(), e.nesting_depth) {
            Some(fault) => Some(fault),
            None => if self.pending() >= self.limits.max_total_pending_frames {
                Some(
                    LinkError::LimitExceeded {
                        kind: LimitKind::PendingFrames,
                        limit: self.limits.max_total_pending_frames,
                    },
                )
            } else if !self.channels.contains_key(id) {
                Some(LinkError::UnknownChannel(id))
            } else if state.config.key != e.channel {
                Some(LinkError::NamespaceConflict)
            } else if state.cancelled {
                Some(LinkError::ChannelCancelled(id))
            } else if state.queue.len() >= state.config.capacity {
                Some(LinkError::Backpressure { channel: id, capacity: state.config.capacity })
            } else {
                None
            },
        }
    }

    /// Why a discardable frame is refused. That there is no room for it is no
    /// fault.
    pub open spec fn discardable_fault(self, e: EnvelopeView) -> Option<LinkError> {
        let id = e.channel.id;
        let state = self.channels[id];
        match self.payload_fault(e.payload.len(), e.nesting_depth) {
            Some(fault) => Some(fault),
            None => if !self.channels.contains_key(id) {
                Some(LinkError::UnknownChannel(id))
            } else if state.config.key != e.channel {
                Some(LinkError::NamespaceConflict)
            } else if state.config.mode != ChannelMode::Event {
                Some(
                    LinkError::InvalidInput("only event channels may discard frames under pressure"),
                )
            } else if state.cancelled {
                Some(LinkError::ChannelCancelled(id))
            } else {
                None
            },
        }
    }

    /// Whether there is room for a frame of a channel.
    pub open spec fn has_room(self, id: u32) -> bool {
        &&& self.pending() < self.limits.max_total_pending_frames
        &&& self.channels[id].queue.len() < self.channels[id].config.capacity
    }

    /// With a data frame behind those of its channel.
    pub open spec fn with_frame(self, e: EnvelopeView) -> MuxView {
        let id = e.channel.id;
        let state = self.channels[id];
        let idle = state.queue.len() == 0;
        MuxView {
            channels: self.channels.insert(
                id,
                ChannelView {
                    queue: state.queue.push(e),
                    virtual_finish: if idle {
                        later(state.virtual_finish, self.virtual_time)
                    } else {
                        state.virtual_finish
                    },
                    ..state
                },
            ),
            ready: if idle {
                self.ready.push(id)
            } else {
                self.ready
            },
            ..self
        }
    }

    /// Whether the channel at place `i` of the ready ones goes next: its virtual
    /// finish time is the least, and of equal ones it became ready first.
    pub open spec fn is_turn(self, i: int) -> bool {
        &&& 0 <= i < self.ready.len()
        &&& forall|j: int|
            0 <= j < self.ready.len() ==> {
                let mine = self.channels[self.ready[i]].virtual_finish;
                let other = self.channels[#[trigger] self.ready[j]].virtual_finish;
                mine < other || (mine == other && i <= j)
            }
    }

    /// Without the first frame of the channel at place `i` of the ready ones.
    pub open spec fn served(self, i: int) -> MuxView {
        let id = self.ready[i];
        let state = self.channels[id];
        let start = later(state.virtual_finish, self.virtual_time);
        let rest = self.ready.remove(i);
        MuxView {
            channels: self.channels.insert(
                id,
                ChannelView {
                    queue: state.queue.drop_first(),
                    virtual_finish: moved_on(
                        start,
                        cost(state.queue[0].payload.len(), state.config.priority_hint),
                    ),
                    ..state
                },
            ),
            ready: if state.queue.len() > 1 {
                rest.push(id)
            } else {
                rest
            },
            virtual_time: start,
            ..self
        }
    }

    /// What is sent next, and what remains.
    pub open spec fn sends(self, frame: Option<FrameView>, after: MuxView) -> bool {
        if self.control.len() > 0 {
            &&& frame == Some(FrameView::Control(self.control[0]))
            &&& after == (MuxView { control: self.control.drop_first(), ..self })
        } else if self.ready.len() > 0 {
            exists|i: int| #[trigger]
                self.is_turn(i) && frame == Some(
                    FrameView::Data(self.channels[self.ready[i]].queue[0]),
                ) && after == self.served(i)
        } else {
            frame is None && after == self
        }
    }

    /// Without the frames of a channel, which takes no more.
    pub open spec fn cancelled(self, id: u32) -> MuxView {
        MuxView {
            channels: self.channels.insert(
                id,
                ChannelView { queue: Seq::empty(), cancelled: true, ..self.channels[id] },
            ),
            ready: if self.ready.contains(id) {
                self.ready.remove(self.ready.index_of(id))
            } else {
                self.ready
            },
            ..self
        }
    }

    /// Without any frame.
    pub open spec fn emptied(self) -> MuxView {
        MuxView {
            channels: self.channels.map_values(
                |state: ChannelView| ChannelView { queue: Seq::empty(), ..state },
            ),
            control: Seq::empty(),
            ready: Seq::empty(),
            ..self
        }
    }

    /// The channels of a protocol, in the order in which they were opened.
    pub open spec fn channels_of(self, namespace: Seq<char>, version: ProtocolVersion) -> Seq<u32> {
        self.opened.filter(self.belongs(namespace, version))
    }

    /// Which channels are those of a protocol.
    pub open spec fn belongs(self, namespace: Seq<char>, version: ProtocolVersion) -> spec_fn(u32) -> bool {
        |id: u32|
            self.channels[id].config.key.namespace == namespace && self.channels[id].config.key.version
                == version
    }

    /// Whether a channel keeps to the limits.
    pub open spec fn channel_wf(self, id: u32) -> bool {
        let state = self.channels[id];
        &&& id != CONTROL_CHANNEL_ID
        &&& state.config.key.id == id
        &&& state.config.key.namespace.len() > 0
        &&& state.config.capacity > 0
        &&& self.allows(state.config.key.namespace, state.config.key.version)
        &&& state.queue.len() <= state.config.capacity
        &&& state.cancelled ==> state.queue.len() == 0
        &&& forall|i: int|
            0 <= i < state.queue.len() ==> {
                let e = #[trigger] state.queue[i];
                &&& e.channel == state.config.key
                &&& e.payload.len() <= self.limits.max_frame_bytes
                &&& e.nesting_depth <= self.limits.max_nesting_depth
            }
    }

    /// Whether the multiplexer is valid.
    pub open spec fn wf(self) -> bool {
        &&& self.limits.positive()
        &&& self.channels.dom().finite()
        &&& self.channels.dom().len() <= self.limits.max_channels
        &&& forall|id: u32| #[trigger] self.channels.contains_key(id) ==> self.channel_wf(id)
        &&& self.opened.no_duplicates()
        &&& forall|id: u32| #[trigger] self.opened.contains(id) <==> self.channels.contains_key(id)
        &&& self.control.len() <= self.limits.control_queue_capacity
        &&& forall|i: int|
            0 <= i < self.control.len() ==> (#[trigger] self.control[i]).len()
                <= self.limits.max_frame_bytes
        &&& self.ready.no_duplicates()
        &&& forall|id: u32| #[trigger]
            self.ready.contains(id) <==> self.channels.contains_key(id) && self.channels[id].queue.len() > 0
        &&& forall|i: int|
            0 <= i < self.ready.len() ==> self.channels[#[trigger] self.ready[i]].virtual_finish
                >= self.virtual_time
        &&& self.queued() <= self.limits.max_total_pending_frames
    }
}

/// Changing one channel changes the count by what it has more or less.
pub proof fn lemma_queued_update(channels: Map<u32, ChannelView>, id: u32, state: ChannelView, n: nat)
    requires
        n <= channel_numbers(),
    ensures
        queued_below(channels.insert(id, state), n) == queued_below(channels, n) + if id < n {
            state.queue.len() - if channels.contains_key(id) {
                channels[id].queue.len() as int
            } else {
                0
            }
        } else {
            0
        },
    decreases n,
{
    if n > 0 {
        lemma_queued_update(channels, id, state, (n - 1) as nat);
    }
}

/// A channel has at most as many frames as there are.
pub proof fn lemma_queued_at_least(channels: Map<u32, ChannelView>, id: u32, n: nat)
    requires
        n <= channel_numbers(),
        id < n,
        channels.contains_key(id),
    ensures
        channels[id].queue.len() <= queued_below(channels, n),
    decreases n,
{
    if n - 1 > id {
        lemma_queued_at_least(channels, id, (n - 1) as nat);
    }
}

/// Empty channels have no frames.
pub proof fn lemma_none_queued(channels: Map<u32, ChannelView>, n: nat)
    requires
        n <= channel_numbers(),
        forall|id: u32| #[trigger] channels.contains_key(id) ==> channels[id].queue.len() == 0,
    ensures
        queued_below(channels, n) == 0,
    decreases n,
{
    if n > 0 {
        lemma_none_queued(channels, (n - 1) as nat);
    }
}

/// Sending a frame costs something.
pub proof fn lemma_cost(payload_len: nat, priority_hint: u8)
    ensures
        1 <= weight(priority_hint) <= PRIORITY_BANDS,
        1 <= cost(payload_len, priority_hint),
        payload_len <= usize::MAX ==> cost(payload_len, priority_hint) <= usize::MAX * 8,
{
    let w = weight(priority_hint);
    let bytes = if payload_len == 0 {
        1
    } else {
        payload_len as int
    };
    assert(1 <= w <= 8);
    assert(1 <= (bytes * 8 + w - 1) / w <= bytes * 8) by (nonlinear_arith)
        requires
            1 <= w <= 8,
            bytes >= 1,
    ;
}

pub proof fn lemma_with_channel(m: MuxView, config: ConfigView)
    requires
        m.wf(),
        m.open_fault(config) is None,
    ensures
        m.with_channel(config).wf(),
        m.with_channel(config).queued() == m.queued(),
{
    let after = m.with_channel(config);
    let id = config.key.id;
    lemma_queued_update(m.channels, id, after.channels[id], channel_numbers());
    assert forall|k: u32| #[trigger] after.channels.contains_key(k) implies after.channel_wf(k) by {
        if k != id {
            assert(m.channels.contains_key(k));
            assert(m.channel_wf(k));
        }
    }
    assert(!m.opened.contains(id));
    assert forall|k: u32| #[trigger] after.opened.contains(k) <==> after.channels.contains_key(k) by {
        assert(m.opened.contains(k) == m.channels.contains_key(k));
        if m.opened.contains(k) {
            assert(after.opened[m.opened.index_of(k)] == k);
        }
        assert(after.opened[m.opened.len() as int] == id);
        if after.opened.contains(k) && k != id {
            let at = after.opened.index_of(k);
            assert(m.opened[at] == k);
        }
    }
    assert forall|k: u32| #[trigger] after.ready.contains(k) <==> after.channels.contains_key(k)
        && after.channels[k].queue.len() > 0 by {
        assert(m.ready.contains(k) == (m.channels.contains_key(k) && m.channels[k].queue.len() > 0));
    }
    assert forall|i: int| 0 <= i < after.ready.len() implies after.channels[#[trigger] after.ready[i]].virtual_finish
        >= after.virtual_time by {
        assert(m.ready.contains(m.ready[i]));
        assert(m.channels[m.ready[i]].virtual_finish >= m.virtual_time);
    }
}

pub proof fn lemma_with_frame(m: MuxView, e: EnvelopeView)
    requires
        m.wf(),
        m.payload_fault(e.payload.len(), e.nesting_depth) is None,
        m.channels.contains_key(e.channel.id),
        m.channels[e.channel.id].config.key == e.channel,
        !m.channels[e.channel.id].cancelled,
        m.has_room(e.channel.id),
    ensures
        m.with_frame(e).wf(),
        m.with_frame(e).queued() == m.queued() + 1,
{
    let after = m.with_frame(e);
    let id = e.channel.id;
    let state = m.channels[id];
    assert(m.channel_wf(id));
    lemma_queued_update(m.channels, id, after.channels[id], channel_numbers());
    assert(after.channels.dom() =~= m.channels.dom());
    assert forall|k: u32| #[trigger] after.channels.contains_key(k) implies after.channel_wf(k) by {
        assert(m.channels.contains_key(k));
        assert(m.channel_wf(k));
    }
    assert(m.ready.contains(id) == (state.queue.len() > 0));
    assert forall|k: u32| #[trigger] after.ready.contains(k) <==> after.channels.contains_key(k)
        && after.channels[k].queue.len() > 0 by {
        assert(m.ready.contains(k) == (m.channels.contains_key(k) && m.channels[k].queue.len() > 0));
        if state.queue.len() == 0 {
            assert(after.ready[m.ready.len() as int] == id);
            if m.ready.contains(k) {
                assert(after.ready[m.ready.index_of(k)] == k);
            }
            if after.ready.contains(k) && k != id {
                assert(m.ready[after.ready.index_of(k)] == k);
            }
        }
    }
    assert forall|i: int| 0 <= i < after.ready.len() implies after.channels[#[trigger] after.ready[i]].virtual_finish
        >= after.virtual_time by {
        if i < m.ready.len() {
            assert(m.ready.contains(m.ready[i]));
            assert(m.channels[m.ready[i]].virtual_finish >= m.virtual_time);
        }
    }
    assert forall|k: u32| #[trigger] after.opened.contains(k) <==> after.channels.contains_key(k) by {
        assert(m.opened.contains(k) == m.channels.contains_key(k));
    }
}

proof fn lemma_removed_members(row: Seq<u32>, i: int, k: u32)
    requires
        row.no_duplicates(),
        0 <= i < row.len(),
    ensures
        row.remove(i).no_duplicates(),
        row.remove(i).contains(k) <==> row.contains(k) && k != row[i],
{
    let rest = row.remove(i);
    if row.contains(k) && k != row[i] {
        let at = row.index_of(k);
        if at < i {
            assert(rest[at] == k);
        } else {
            assert(rest[at - 1] == k);
        }
    }
    if rest.contains(k) {
        let at = rest.index_of(k);
        if at < i {
            assert(row[at] == k);
        } else {
            assert(row[at + 1] == k);
        }
    }
}

pub proof fn lemma_served(m: MuxView, i: int)
    requires
        m.wf(),
        m.is_turn(i),
    ensures
        m.served(i).wf(),
        m.served(i).queued() == m.queued() - 1,
        m.channels.contains_key(m.ready[i]),
        m.channels[m.ready[i]].queue.len() > 0,
        m.served(i).virtual_time == m.channels[m.ready[i]].virtual_finish,
{
    let after = m.served(i);
    let id = m.ready[i];
    let state = m.channels[id];
    assert(m.ready.contains(id));
    assert(m.channel_wf(id));
    lemma_queued_update(m.channels, id, after.channels[id], channel_numbers());
    lemma_queued_at_least(m.channels, id, channel_numbers());
    lemma_cost(state.queue[0].payload.len(), state.config.priority_hint);
    assert(after.channels.dom() =~= m.channels.dom());
    assert forall|k: u32| #[trigger] after.channels.contains_key(k) implies after.channel_wf(k) by {
        assert(m.channels.contains_key(k));
        assert(m.channel_wf(k));
        if k == id {
            let rest = state.queue.drop_first();
            assert forall|j: int| 0 <= j < rest.len() implies {
                let e = #[trigger] rest[j];
                &&& e.channel == state.config.key
                &&& e.payload.len() <= m.limits.max_frame_bytes
                &&& e.nesting_depth <= m.limits.max_nesting_depth
            } by {
                assert(rest[j] == state.queue[j + 1]);
            }
        }
    }
    let rest = m.ready.remove(i);
    assert(rest.no_duplicates() && !rest.contains(id)) by {
        lemma_removed_members(m.ready, i, id);
    }
    assert forall|k: u32| #[trigger] after.ready.contains(k) <==> after.channels.contains_key(k)
        && after.channels[k].queue.len() > 0 by {
        assert(m.ready.contains(k) == (m.channels.contains_key(k) && m.channels[k].queue.len() > 0));
        lemma_removed_members(m.ready, i, k);
        let more = rest.push(id);
        assert(more[rest.len() as int] == id);
        if rest.contains(k) {
            assert(more[rest.index_of(k)] == k);
        }
        if more.contains(k) && k != id {
            assert(rest[more.index_of(k)] == k);
        }
    }
    assert forall|j: int| 0 <= j < after.ready.len() implies after.channels[#[trigger] after.ready[j]].virtual_finish
        >= after.virtual_time by {
        if j < rest.len() {
            let from = if j < i {
                j
            } else {
                j + 1
            };
            assert(rest[j] == m.ready[from]);
            assert(m.channels[m.ready[from]].virtual_finish >= state.virtual_finish);
            assert(rest.contains(rest[j]));
        }
    }
    assert forall|k: u32| #[trigger] after.opened.contains(k) <==> after.channels.contains_key(k) by {
        assert(m.opened.contains(k) == m.channels.contains_key(k));
    }
}

pub proof fn lemma_cancelled(m: MuxView, id: u32)
    requires
        m.wf(),
        m.channels.contains_key(id),
    ensures
        m.cancelled(id).wf(),
        m.cancelled(id).queued() == m.queued() - m.channels[id].queue.len(),
{
    let after = m.cancelled(id);
    assert(m.channel_wf(id));
    lemma_queued_update(m.channels, id, after.channels[id], channel_numbers());
    assert(after.channels.dom() =~= m.channels.dom());
    assert forall|k: u32| #[trigger] after.channels.contains_key(k) implies after.channel_wf(k) by {
        assert(m.channels.contains_key(k));
        assert(m.channel_wf(k));
    }
    if m.ready.contains(id) {
        lemma_removed_members(m.ready, m.ready.index_of(id), id);
    }
    assert forall|k: u32| #[trigger] after.ready.contains(k) <==> after.channels.contains_key(k)
        && after.channels[k].queue.len() > 0 by {
        assert(m.ready.contains(k) == (m.channels.contains_key(k) && m.channels[k].queue.len() > 0));
        if m.ready.contains(id) {
            lemma_removed_members(m.ready, m.ready.index_of(id), k);
        }
    }
    assert forall|j: int| 0 <= j < after.ready.len() implies after.channels[#[trigger] after.ready[j]].virtual_finish
        >= after.virtual_time by {
        if m.ready.contains(id) {
            let at = m.ready.index_of(id);
            let from = if j < at {
                j
            } else {
                j + 1
            };
            assert(after.ready[j] == m.ready[from]);
            assert(m.channels[m.ready[from]].virtual_finish >= m.virtual_time);
        } else {
            assert(m.channels[m.ready[j]].virtual_finish >= m.virtual_time);
            assert(m.ready.contains(m.ready[j]));
        }
    }
    assert forall|k: u32| #[trigger] after.opened.contains(k) <==> after.channels.contains_key(k) by {
        assert(m.opened.contains(k) == m.channels.contains_key(k));
    }
}

pub proof fn lemma_emptied(m: MuxView)
    requires
        m.wf(),
    ensures
        m.emptied().wf(),
        m.emptied().pending() == 0,
{
    let after = m.emptied();
    assert(after.channels.dom() =~= m.channels.dom());
    lemma_none_queued(after.channels, channel_numbers());
    assert forall|k: u32| #[trigger] after.channels.contains_key(k) implies after.channel_wf(k) by {
        assert(m.channels.contains_key(k));
        assert(m.channel_wf(k));
    }
    assert forall|k: u32| #[trigger] after.opened.contains(k) <==> after.channels.contains_key(k) by {
        assert(m.opened.contains(k) == m.channels.contains_key(k));
    }
}

} // verus!
