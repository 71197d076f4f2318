//! The multiplexer of a session: bounded queues of control and data frames.

use std::collections::VecDeque;
use vstd::prelude::*;
use crate::channel::{CONTROL_CHANNEL_ID, ChannelId, ChannelMode, EnvelopeFlags};
use crate::error::{LimitKind, LinkError};
use crate::identity::{ProtocolVersion, SessionId};
use crate::mux_model::{
    ChannelView, ConfigView, EnvelopeView, FrameView, KeyView, MultiplexerLimits, MuxView, PRIORITY_BANDS,
    PRIORITY_BAND_WIDTH, QueueAdmission, channel_numbers, cost, lemma_cancelled, lemma_cost, lemma_emptied,
    lemma_none_queued, lemma_queued_at_least, lemma_queued_update, lemma_served, lemma_with_channel,
    lemma_with_frame, queued_below, weight,
};
use crate::realtime_model::lemma_filter_prefix;
use crate::sorted_map::SortedMap;
use crate::text::{is_empty_text, text_equal};

verus! {

/// What identifies a channel: its protocol and its number.
#[derive(Clone, Debug, Eq, Hash, Ord, PartialEq, PartialOrd)]
pub struct ChannelKey {
    pub namespace: String,
    pub version: ProtocolVersion,
    pub id: ChannelId,
}

impl View for ChannelKey {
    type V = KeyView;

    open spec fn view(&self) -> KeyView {
        KeyView { namespace: self.namespace@, version: self.version, id: self.id.0 }
    }
}

impl ChannelKey {
    /// Whether both keys identify the same channel.
    pub fn same(&self, other: &Self) -> (same: bool)
        ensures
            same == (self@ == other@),
    {
        self.version == other.version && self.id == other.id && text_equal(
            self.namespace.as_str(),
            other.namespace.as_str(),
        )
    }

    /// A copy of the key.
    pub fn duplicate(&self) -> (copy: Self)
        ensures
            copy@ == self@,
    {
        ChannelKey { namespace: self.namespace.clone(), version: self.version, id: self.id }
    }
}

/// How a channel is opened. Priority hints fall into eight bands of equal width:
/// `0` has the least weight and `255` the greatest. Control traffic has its own
/// queue.
#[derive(Clone, Debug, Eq, PartialEq)]
pub struct ChannelConfig {
    pub key: ChannelKey,
    pub mode: ChannelMode,
    pub priority_hint: u8,
    pub capacity: usize,
}

impl View for ChannelConfig {
    type V = ConfigView;

    open spec fn view(&self) -> ConfigView {
        ConfigView {
            key: self.key@,
            mode: self.mode,
            priority_hint: self.priority_hint,
            capacity: self.capacity,
        }
    }
}

/// A data frame. The owner of the namespace chooses how the payload is written.
#[derive(Clone, Debug, Eq, PartialEq)]
pub struct Envelope {
    pub session_id: SessionId,
    pub channel: ChannelKey,
    pub sequence: u64,
    pub nesting_depth: u16,
    pub flags: EnvelopeFlags,
    pub payload: Vec<u8>,
}

impl View for Envelope {
    type V = EnvelopeView;

    open spec fn view(&self) -> EnvelopeView {
        EnvelopeView {
            session_id: self.session_id@,
            channel: self.channel@,
            sequence: self.sequence,
            nesting_depth: self.nesting_depth,
            flags: self.flags,
            payload: self.payload@,
        }
    }
}

/// A frame to be sent.
#[derive(Clone, Debug, Eq, PartialEq)]
pub enum OutboundFrame {
    Control(Vec<u8>),
    Data(Envelope),
}

impl View for OutboundFrame {
    type V = FrameView;

    open spec fn view(&self) -> FrameView {
        match self {
            OutboundFrame::Control(payload) => FrameView::Control(payload@),
            OutboundFrame::Data(envelope) => FrameView::Data(envelope@),
        }
    }
}

/// How much storage the queues retain.
#[derive(Clone, Copy, Debug, Eq, PartialEq, Structural)]
pub struct MultiplexerStorageSnapshot {
    pub channel_count: usize,
    pub pending_frames: usize,
    pub control_queue_slots: usize,
    pub ready_queue_slots: usize,
    pub data_queue_slots: usize,
}

#[derive(Debug)]
struct ChannelState {
    config: ChannelConfig,
    queue: VecDeque<Envelope>,
    cancelled: bool,
    virtual_finish: u128,
}

impl View for ChannelState {
    type V = ChannelView;

    closed spec fn view(&self) -> ChannelView {
        ChannelView {
            config: self.config@,
            queue: self.queue@.map_values(|e: Envelope| e@),
            cancelled: self.cancelled,
            virtual_finish: self.virtual_finish,
        }
    }
}

/// Bounded queues of control and data frames, and the order in which they are
/// sent.
#[derive(Debug)]
pub struct Multiplexer {
    limits: MultiplexerLimits,
    channels: SortedMap<ChannelId, ChannelState>,
    opened: Vec<ChannelId>,
    control: VecDeque<Vec<u8>>,
    ready: VecDeque<ChannelId>,
    virtual_time: u128,
    total_pending: usize,
    allowed_protocols: Option<Vec<(String, ProtocolVersion)>>,
}

/// The names of protocols.
pub open spec fn protocol_names(protocols: Seq<(String, ProtocolVersion)>) -> Seq<(
    Seq<char>,
    ProtocolVersion,
)> {
    protocols.map_values(|p: (String, ProtocolVersion)| (p.0@, p.1))
}

impl View for Multiplexer {
    type V = MuxView;

    closed spec fn view(&self) -> MuxView {
        MuxView {
            limits: self.limits,
            channels: self.channels@.map_values(|state: ChannelState| state@),
            opened: self.opened@.map_values(|id: ChannelId| id.0),
            control: self.control@.map_values(|payload: Vec<u8>| payload@),
            ready: self.ready@.map_values(|id: ChannelId| id.0),
            virtual_time: self.virtual_time,
            allowed: match self.allowed_protocols {
                Some(protocols) => Some(protocol_names(protocols@)),
                None => None,
            },
        }
    }
}

/// How many items a queue can hold without allocating again.
///
/// Trusted: `VecDeque::capacity` reports at least the number of items that the
/// queue holds. How much more depends on the allocator and is left open.
#[verifier::external_body]
fn slots<T>(queue: &VecDeque<T>) -> (n: usize)
    ensures
        n >= queue@.len(),
{
    queue.capacity()
}

/// What sending a payload costs a channel.
fn scheduling_cost(payload_len: usize, priority_hint: u8) -> (units: u128)
    ensures
        units == cost(payload_len as nat, priority_hint),
{
    let bytes: u128 = if payload_len == 0 {
        1
    } else {
        payload_len as u128
    };
    let share: u128 = (priority_hint / PRIORITY_BAND_WIDTH) as u128 + 1;
    proof {
        lemma_cost(payload_len as nat, priority_hint);
        assert(share == weight(priority_hint));
        assert(bytes <= usize::MAX);
    }
    let scaled: u128 = bytes * (PRIORITY_BANDS as u128);
    (scaled + share - 1) / share
}

impl Multiplexer {
    /// Whether the multiplexer is valid: it keeps to its limits, and its counts
    /// are right.
    pub closed spec fn wf(&self) -> bool {
        &&& self.channels.wf()
        &&& self@.wf()
        &&& self.total_pending == self@.pending()
    }

    /// A valid multiplexer keeps to its limits.
    pub proof fn lemma_wf(&self)
        requires
            self.wf(),
        ensures
            self@.wf(),
            self@.pending() <= usize::MAX,
    {
    }

    /// A multiplexer without channels.
    pub fn new(limits: MultiplexerLimits) -> (mux: Result<Self, LinkError>)
        ensures
            match mux {
                Ok(m) => limits.positive() && m.wf() && m@ == MuxView::empty(limits, None),
                Err(e) => !limits.positive() && e == LinkError::InvalidInput(
                    "multiplexer limits must be positive",
                ),
            },
    {
        if limits.max_frame_bytes == 0 || limits.max_channels == 0 || limits.control_queue_capacity == 0
            || limits.max_total_pending_frames == 0 {
            return Err(LinkError::InvalidInput("multiplexer limits must be positive"));
        }
        let mux = Multiplexer {
            limits,
            channels: SortedMap::new(),
            opened: Vec::new(),
            control: VecDeque::new(),
            ready: VecDeque::new(),
            virtual_time: 0,
            total_pending: 0,
            allowed_protocols: None,
        };
        proof {
            assert(mux@ =~= MuxView::empty(limits, None));
            lemma_none_queued(mux@.channels, channel_numbers());
        }
        Ok(mux)
    }

    /// A multiplexer without channels that opens those of some protocols only.
    pub fn restricted(limits: MultiplexerLimits, protocols: Vec<(String, ProtocolVersion)>) -> (mux:
        Result<Self, LinkError>)
        ensures
            match mux {
                Ok(m) => limits.positive() && m.wf() && m@ == MuxView::empty(
                    limits,
                    Some(protocol_names(protocols@)),
                ),
                Err(e) => !limits.positive() && e == LinkError::InvalidInput(
                    "multiplexer limits must be positive",
                ),
            },
    {
        let mut mux = Multiplexer::new(limits)?;
        mux.allowed_protocols = Some(protocols);
        proof {
            lemma_none_queued(mux@.channels, channel_numbers());
        }
        Ok(mux)
    }

    proof fn lemma_channels(&self)
        requires
            self.channels.wf(),
        ensures
            self@.channels.dom() == self.channels@.dom(),
            self.channels.keys().len() == self@.channels.dom().len(),
    {
        self.channels.lemma_entries();
        assert(self@.channels.dom() =~= self.channels@.dom());
    }

    /// Whether channels of a protocol may be opened.
    fn is_allowed(&self, namespace: &str, version: ProtocolVersion) -> (allowed: bool)
        ensures
            allowed == self@.allows(namespace@, version),
    {
        match &self.allowed_protocols {
            None => true,
            Some(protocols) => {
                let ghost names = protocol_names(protocols@);
                let mut i: usize = 0;
                while i < protocols.len()
                    invariant
                        names == protocol_names(protocols@),
                        self@.allowed == Some(names),
                        i <= protocols@.len(),
                        forall|j: int| 0 <= j < i ==> #[trigger] names[j] != (namespace@, version),
                    decreases protocols@.len() - i,
                {
                    assert(names[i as int] == (protocols@[i as int].0@, protocols@[i as int].1));
                    if protocols[i].1 == version && text_equal(protocols[i].0.as_str(), namespace) {
                        assert(names.contains((namespace@, version)));
                        return true;
                    }
                    i = i + 1;
                }
                false
            },
        }
    }

    /// Opens a channel.
    pub fn open_channel(&mut self, config: ChannelConfig) -> (opened: Result<(), LinkError>)
        requires
            old(self).wf(),
        ensures
            final(self).wf(),
            match old(self)@.open_fault(config@) {
                None => opened is Ok && final(self)@ == old(self)@.with_channel(config@),
                Some(fault) => opened == Err::<(), LinkError>(fault) && final(self)@ == old(self)@,
            },
    {
        let ghost before = self@;
        if config.key.id.0 == CONTROL_CHANNEL_ID {
            return Err(LinkError::InvalidInput("channel zero is reserved for control"));
        }
        if is_empty_text(config.key.namespace.as_str()) || config.capacity == 0 {
            return Err(LinkError::InvalidInput("channel namespace and capacity must be non-empty"));
        }
        if !self.is_allowed(config.key.namespace.as_str(), config.key.version) {
            return Err(LinkError::NamespaceConflict);
        }
        proof {
            self.lemma_channels();
        }
        if self.channels.len() >= self.limits.max_channels {
            return Err(
                LinkError::LimitExceeded { kind: LimitKind::Channels, limit: self.limits.max_channels },
            );
        }
        if self.channels.contains_key(&config.key.id) {
            return Err(LinkError::NamespaceConflict);
        }
        proof {
            lemma_with_channel(before, config@);
        }
        let id = config.key.id;
        let state = ChannelState {
            config,
            queue: VecDeque::new(),
            cancelled: false,
            virtual_finish: self.virtual_time,
        };
        assert(state@.queue =~= Seq::empty());
        self.opened.push(id);
        self.channels.insert(id, state);
        proof {
            let after = before.with_channel(config@);
            assert(self@.channels =~= after.channels);
            assert(self@.opened =~= after.opened);
            assert(self@ =~= after);
        }
        Ok(())
    }

    fn validate_payload(&self, payload: &[u8], nesting_depth: u16) -> (valid: Result<(), LinkError>)
        ensures
            match self@.payload_fault(payload@.len(), nesting_depth) {
                None => valid is Ok,
                Some(fault) => valid == Err::<(), LinkError>(fault),
            },
    {
        if payload.len() > self.limits.max_frame_bytes {
            return Err(
                LinkError::LimitExceeded {
                    kind: LimitKind::FrameBytes,
                    limit: self.limits.max_frame_bytes,
                },
            );
        }
        if nesting_depth > self.limits.max_nesting_depth {
            return Err(
                LinkError::LimitExceeded {
                    kind: LimitKind::NestingDepth,
                    limit: self.limits.max_nesting_depth as usize,
                },
            );
        }
        Ok(())
    }

    /// Takes a control frame. The control queue has its own bound, so data frames
    /// never keep it from being taken.
    pub fn enqueue_control(&mut self, payload: Vec<u8>) -> (taken: Result<(), LinkError>)
        requires
            old(self).wf(),
            old(self)@.pending() < usize::MAX,
        ensures
            final(self).wf(),
            match old(self)@.control_fault(payload@.len()) {
                None => taken is Ok && final(self)@ == (MuxView {
                    control: old(self)@.control.push(payload@),
                    ..old(self)@
                }),
                Some(fault) => taken == Err::<(), LinkError>(fault) && final(self)@ == old(self)@,
            },
    {
        let ghost before = self@;
        self.validate_payload(payload.as_slice(), 0)?;
        if self.control.len() >= self.limits.control_queue_capacity {
            return Err(
                LinkError::Backpressure {
                    channel: CONTROL_CHANNEL_ID,
                    capacity: self.limits.control_queue_capacity,
                },
            );
        }
        self.control.push_back(payload);
        self.total_pending = self.total_pending + 1;
        assert(self@.control =~= before.control.push(payload@));
        Ok(())
    }

    /// Puts an admitted frame behind those of its channel.
    fn push_frame(&mut self, envelope: Envelope)
        requires
            old(self).wf(),
            old(self)@.payload_fault(envelope@.payload.len(), envelope@.nesting_depth) is None,
            old(self)@.channels.contains_key(envelope@.channel.id),
            old(self)@.channels[envelope@.channel.id].config.key == envelope@.channel,
            !old(self)@.channels[envelope@.channel.id].cancelled,
            old(self)@.has_room(envelope@.channel.id),
        ensures
            final(self).wf(),
            final(self)@ == old(self)@.with_frame(envelope@),
    {
        let ghost before = self@;
        let id = envelope.channel.id;
        proof {
            self.lemma_channels();
            lemma_with_frame(before, envelope@);
        }
        match self.channels.get_mut(&id) {
            None => {},
            Some(state) => {
                let ghost was = *state;
                assert(was@ == before.channels[id@]);
                assert(was@.queue.len() == was.queue@.len());
                if state.queue.len() == 0 {
                    if state.virtual_finish < self.virtual_time {
                        state.virtual_finish = self.virtual_time;
                    }
                    self.ready.push_back(id);
                }
                state.queue.push_back(envelope);
                assert(state@.queue =~= was@.queue.push(envelope@));
            },
        }
        self.total_pending = self.total_pending + 1;
        proof {
            let after = before.with_frame(envelope@);
            assert(self@.channels =~= after.channels);
            assert(self@.ready =~= after.ready);
            assert(self@ =~= after);
        }
    }

    /// Takes a data frame.
    pub fn enqueue(&mut self, envelope: Envelope) -> (taken: Result<(), LinkError>)
        requires
            old(self).wf(),
        ensures
            final(self).wf(),
            match old(self)@.data_fault(envelope@) {
                None => taken is Ok && final(self)@ == old(self)@.with_frame(envelope@),
                Some(fault) => taken == Err::<(), LinkError>(fault) && final(self)@ == old(self)@,
            },
    {
        self.validate_payload(envelope.payload.as_slice(), envelope.nesting_depth)?;
        if self.total_pending >= self.limits.max_total_pending_frames {
            return Err(
                LinkError::LimitExceeded {
                    kind: LimitKind::PendingFrames,
                    limit: self.limits.max_total_pending_frames,
                },
            );
        }
        let id = envelope.channel.id;
        proof {
            self.lemma_channels();
        }
        match self.channels.get(&id) {
            None => {
                return Err(LinkError::UnknownChannel(id.0));
            },
            Some(state) => {
                assert(state@ == self@.channels[id@]);
                assert(state@.queue.len() == state.queue@.len());
                if !state.config.key.same(&envelope.channel) {
                    return Err(LinkError::NamespaceConflict);
                }
                if state.cancelled {
                    return Err(LinkError::ChannelCancelled(id.0));
                }
                if state.queue.len() >= state.config.capacity {
                    return Err(
                        LinkError::Backpressure { channel: id.0, capacity: state.config.capacity },
                    );
                }
            },
        }
        self.push_frame(envelope);
        Ok(())
    }

    /// Takes a discardable frame of an event channel. Where there is no room it is
    /// dropped, so that it never stands in the way of other traffic.
    pub fn enqueue_discardable(&mut self, envelope: Envelope) -> (taken: Result<
        QueueAdmission,
        LinkError,
    >)
        requires
            old(self).wf(),
        ensures
            final(self).wf(),
            match old(self)@.discardable_fault(envelope@) {
                None => if old(self)@.has_room(envelope@.channel.id) {
                    &&& taken == Ok::<_, LinkError>(QueueAdmission::Enqueued)
                    &&& final(self)@ == old(self)@.with_frame(envelope@)
                } else {
                    &&& taken == Ok::<_, LinkError>(QueueAdmission::DroppedDiscardable)
                    &&& final(self)@ == old(self)@
                },
                Some(fault) => {
                    &&& taken == Err::<QueueAdmission, LinkError>(fault)
                    &&& final(self)@ == old(self)@
                },
            },
    {
        self.validate_payload(envelope.payload.as_slice(), envelope.nesting_depth)?;
        let id = envelope.channel.id;
        proof {
            self.lemma_channels();
        }
        match self.channels.get(&id) {
            None => {
                return Err(LinkError::UnknownChannel(id.0));
            },
            Some(state) => {
                assert(state@ == self@.channels[id@]);
                assert(state@.queue.len() == state.queue@.len());
                if !state.config.key.same(&envelope.channel) {
                    return Err(LinkError::NamespaceConflict);
                }
                if state.config.mode != ChannelMode::Event {
                    return Err(
                        LinkError::InvalidInput(
                            "only event channels may discard frames under pressure",
                        ),
                    );
                }
                if state.cancelled {
                    return Err(LinkError::ChannelCancelled(id.0));
                }
                if self.total_pending >= self.limits.max_total_pending_frames || state.queue.len()
                    >= state.config.capacity {
                    return Ok(QueueAdmission::DroppedDiscardable);
                }
            },
        }
        self.push_frame(envelope);
        Ok(QueueAdmission::Enqueued)
    }

    /// The place of the ready channel whose turn it is.
    fn next_turn(&self) -> (turn: usize)
        requires
            self.wf(),
            self@.ready.len() > 0,
        ensures
            self@.is_turn(turn as int),
    {
        let ghost m = self@;
        let mut best: usize = 0;
        let mut i: usize = 1;
        let mut least: u128 = self.finish_at(0);
        while i < self.ready.len()
            invariant
                self.wf(),
                m == self@,
                self.ready@.len() == m.ready.len(),
                best < i <= m.ready.len(),
                least == m.channels[m.ready[best as int]].virtual_finish,
                forall|j: int|
                    0 <= j < i ==> {
                        let other = m.channels[#[trigger] m.ready[j]].virtual_finish;
                        least < other || (least == other && best <= j)
                    },
            decreases self.ready@.len() - i,
        {
            let finish: u128 = self.finish_at(i);
            if finish < least {
                least = finish;
                best = i;
            }
            i = i + 1;
        }
        best
    }

    /// The virtual finish time of the channel at a place of the ready ones.
    fn finish_at(&self, i: usize) -> (finish: u128)
        requires
            self.wf(),
            i < self@.ready.len(),
        ensures
            finish == self@.channels[self@.ready[i as int]].virtual_finish,
    {
        let id = self.ready[i];
        proof {
            self.lemma_channels();
            assert(self@.ready[i as int] == id.0);
            assert(self@.ready.contains(self@.ready[i as int]));
            assert(self@.channels.contains_key(id.0));
        }
        match self.channels.get(&id) {
            Some(state) => state.virtual_finish,
            None => 0,
        }
    }

    /// Takes the next frame out: a control frame while there is one, then the
    /// first data frame of the channel whose turn it is.
    pub fn next_outbound(&mut self) -> (frame: Option<OutboundFrame>)
        requires
            old(self).wf(),
        ensures
            final(self).wf(),
            old(self)@.sends(
                match frame {
                    Some(f) => Some(f@),
                    None => None,
                },
                final(self)@,
            ),
    {
        let ghost before = self@;
        match self.control.pop_front() {
            Some(control) => {
                proof {
                    assert(before.control[0] == control@);
                    assert(self@.control =~= before.control.drop_first());
                }
                self.total_pending = self.total_pending - 1;
                return Some(OutboundFrame::Control(control));
            },
            None => {},
        }
        if self.ready.len() == 0 {
            return None;
        }
        let turn: usize = self.next_turn();
        let id = self.ready[turn];
        proof {
            self.lemma_channels();
            lemma_served(before, turn as int);
            assert(before.ready[turn as int] == id.0);
            lemma_queued_at_least(before.channels, id.0, channel_numbers());
        }
        let ghost after = before.served(turn as int);
        self.ready.remove(turn);
        let ghost rest = self@.ready;
        assert(rest =~= before.ready.remove(turn as int));
        match self.channels.get_mut(&id) {
            None => {
                assert(false);
                None
            },
            Some(state) => {
                let ghost was = *state;
                assert(was@ == before.channels[id@]);
                assert(was@.queue.len() == was.queue@.len());
                match state.queue.pop_front() {
                    None => {
                        assert(false);
                        None
                    },
                    Some(envelope) => {
                        assert(envelope@ == was@.queue[0]);
                        assert(state@.queue =~= was@.queue.drop_first());
                        assert(state@.queue.len() == state.queue@.len());
                        let start: u128 = if state.virtual_finish >= self.virtual_time {
                            state.virtual_finish
                        } else {
                            self.virtual_time
                        };
                        self.virtual_time = start;
                        state.virtual_finish = start.saturating_add(
                            scheduling_cost(envelope.payload.len(), state.config.priority_hint),
                        );
                        if state.queue.len() > 0 {
                            self.ready.push_back(id);
                        }
                        self.total_pending = self.total_pending - 1;
                        proof {
                            assert(self@.channels =~= after.channels);
                            assert(self@.ready =~= after.ready);
                            assert(self@ =~= after);
                        }
                        Some(OutboundFrame::Data(envelope))
                    },
                }
            },
        }
    }

    /// Drops the frames of a channel, which takes no more, and tells how many they
    /// were.
    pub fn cancel_channel(&mut self, id: ChannelId) -> (discarded: Result<usize, LinkError>)
        requires
            old(self).wf(),
        ensures
            final(self).wf(),
            match discarded {
                Ok(n) => {
                    &&& old(self)@.channels.contains_key(id@)
                    &&& n == old(self)@.channels[id@].queue.len()
                    &&& final(self)@ == old(self)@.cancelled(id@)
                },
                Err(e) => {
                    &&& !old(self)@.channels.contains_key(id@)
                    &&& e == LinkError::UnknownChannel(id@)
                    &&& final(self)@ == old(self)@
                },
            },
    {
        let ghost before = self@;
        proof {
            self.lemma_channels();
            if before.channels.contains_key(id@) {
                lemma_cancelled(before, id@);
            }
        }
        match self.channels.get_mut(&id) {
            None => {
                assert(self@.channels =~= before.channels);
                Err(LinkError::UnknownChannel(id.0))
            },
            Some(state) => {
                let ghost was = *state;
                assert(was@ == before.channels[id@]);
                assert(was@.queue.len() == was.queue@.len());
                state.cancelled = true;
                let discarded: usize = state.queue.len();
                state.queue.clear();
                assert(state@.queue =~= Seq::empty());
                proof {
                    lemma_queued_at_least(before.channels, id@, channel_numbers());
                }
                self.forget_ready(id);
                self.total_pending = self.total_pending - discarded;
                proof {
                    assert(self@.channels =~= before.cancelled(id@).channels);
                    assert(self@ =~= before.cancelled(id@));
                }
                Ok(discarded)
            },
        }
    }

    /// Takes a channel out of the ready ones.
    fn forget_ready(&mut self, id: ChannelId)
        requires
            old(self)@.ready.no_duplicates(),
        ensures
            final(self).limits == old(self).limits,
            final(self).channels == old(self).channels,
            final(self).opened == old(self).opened,
            final(self).control == old(self).control,
            final(self).virtual_time == old(self).virtual_time,
            final(self).total_pending == old(self).total_pending,
            final(self).allowed_protocols == old(self).allowed_protocols,
            final(self)@.ready == (if old(self)@.ready.contains(id@) {
                old(self)@.ready.remove(old(self)@.ready.index_of(id@))
            } else {
                old(self)@.ready
            }),
    {
        let ghost before = *self;
        let mut i: usize = 0;
        while i < self.ready.len()
            invariant
                *self == before,
                before == *old(self),
                before@.ready.no_duplicates(),
                i <= self.ready@.len(),
                forall|j: int| 0 <= j < i ==> #[trigger] before@.ready[j] != id@,
            decreases self.ready@.len() - i,
        {
            assert(before@.ready[i as int] == self.ready@[i as int].0);
            if self.ready[i] == id {
                proof {
                    assert(before@.ready.contains(id@));
                    let at = before@.ready.index_of(id@);
                    assert(before@.ready[at] == before@.ready[i as int]);
                }
                self.ready.remove(i);
                assert(self@.ready =~= before@.ready.remove(i as int));
                return;
            }
            i = i + 1;
        }
        assert(!before@.ready.contains(id@));
    }

    /// How many frames wait.
    pub fn pending_frames(&self) -> (n: usize)
        requires
            self.wf(),
        ensures
            n == self@.pending(),
    {
        self.total_pending
    }

    /// How much storage the queues retain. How many slots a queue keeps beyond its
    /// frames depends on the allocator.
    pub fn storage_snapshot(&self) -> (snapshot: MultiplexerStorageSnapshot)
        requires
            self.wf(),
        ensures
            snapshot.channel_count == self@.channels.dom().len(),
            snapshot.pending_frames == self@.pending(),
            snapshot.control_queue_slots >= self@.control.len(),
            snapshot.ready_queue_slots >= self@.ready.len(),
            snapshot.data_queue_slots >= self@.queued(),
    {
        proof {
            self.lemma_channels();
        }
        let len: usize = self.channels.len();
        let mut data_queue_slots: usize = 0;
        let mut i: usize = 0;
        let ghost mut counted: Map<u32, ChannelView> = Map::empty();
        proof {
            lemma_none_queued(counted, channel_numbers());
        }
        while i < len
            invariant
                self.wf(),
                len == self.channels.keys().len(),
                i <= len,
                counted == self@.channels.restrict(self.channels.keys().subrange(0, i as int).to_set()),
                data_queue_slots >= queued_below(counted, channel_numbers()) || data_queue_slots
                    == usize::MAX,
            decreases len - i,
        {
            let state = self.channels.value_at(i);
            let ghost id = self.channels.keys()[i as int];
            data_queue_slots = data_queue_slots.saturating_add(slots(&state.queue));
            proof {
                self.channels.lemma_entries();
                let keys = self.channels.keys();
                let done = keys.subrange(0, i as int);
                assert(self.channels@.contains_key(id));
                assert(state@ == self@.channels[id]);
                assert(state@.queue.len() == state.queue@.len());
                lemma_queued_update(counted, id, state@, channel_numbers());
                assert(!done.contains(id)) by {
                    if done.contains(id) {
                        assert(keys[done.index_of(id)] == keys[i as int]);
                    }
                }
                assert(done.to_set().contains(id) == done.contains(id));
                let more = keys.subrange(0, i + 1);
                assert forall|k: u32| more.contains(k) <==> done.contains(k) || k == id by {
                    if more.contains(k) && k != id {
                        assert(done[more.index_of(k)] == k);
                    }
                    if done.contains(k) {
                        assert(more[done.index_of(k)] == k);
                    }
                    assert(more[i as int] == id);
                }
                let next = counted.insert(id, state@);
                assert(next =~= self@.channels.restrict(more.to_set())) by {
                    assert forall|k: u32| more.to_set().contains(k) <==> done.to_set().contains(k) || k
                        == id by {
                        assert(more.to_set().contains(k) == more.contains(k));
                        assert(done.to_set().contains(k) == done.contains(k));
                    }
                }
                counted = next;
            }
            i = i + 1;
        }
        proof {
            self.channels.lemma_entries();
            self.lemma_channels();
            let keys = self.channels.keys();
            assert(keys.subrange(0, i as int) =~= keys);
            assert(counted =~= self@.channels);
        }
        MultiplexerStorageSnapshot {
            channel_count: len,
            pending_frames: self.total_pending,
            control_queue_slots: slots(&self.control),
            ready_queue_slots: slots(&self.ready),
            data_queue_slots,
        }
    }

    /// Drops every frame and tells how many they were.
    pub fn discard_all(&mut self) -> (discarded: usize)
        requires
            old(self).wf(),
        ensures
            final(self).wf(),
            discarded == old(self)@.pending(),
            final(self)@ == old(self)@.emptied(),
    {
        let ghost before = self@;
        let discarded: usize = self.total_pending;
        proof {
            self.lemma_channels();
            self.channels.lemma_entries();
            lemma_emptied(before);
        }
        self.control.clear();
        self.ready.clear();
        let len: usize = self.channels.len();
        let mut i: usize = 0;
        let ghost keys = self.channels.keys();
        let ghost kept = *self;
        while i < len
            invariant
                self.channels.wf(),
                self.channels.keys() == keys,
                len == keys.len(),
                i <= len,
                self.limits == kept.limits,
                self.opened == kept.opened,
                self.control == kept.control,
                self.ready == kept.ready,
                self.virtual_time == kept.virtual_time,
                self.allowed_protocols == kept.allowed_protocols,
                keys.no_duplicates(),
                self@.channels.dom() == before.channels.dom(),
                forall|j: int|
                    0 <= j < len ==> self@.channels[#[trigger] keys[j]] == (if j < i {
                        ChannelView { queue: Seq::empty(), ..before.channels[keys[j]] }
                    } else {
                        before.channels[keys[j]]
                    }),
            decreases len - i,
        {
            proof {
                self.channels.lemma_entries();
                assert(self.channels@.contains_key(keys[i as int]));
            }
            let ghost at = self@;
            let state = self.channels.value_mut(i);
            let ghost was = *state;
            state.queue.clear();
            assert(state@.queue =~= Seq::empty());
            proof {
                assert(was@ == at.channels[keys[i as int]]);
                assert(self@.channels =~= at.channels.insert(
                    keys[i as int],
                    ChannelView { queue: Seq::empty(), ..was@ },
                ));
                assert(self@.channels.dom() =~= before.channels.dom());
            }
            i = i + 1;
        }
        self.total_pending = 0;
        proof {
            self.channels.lemma_entries();
            self.lemma_channels();
            let after = before.emptied();
            assert forall|k: u32| #[trigger] self@.channels.contains_key(k) implies self@.channels[k]
                == after.channels[k] by {
                assert(keys.to_set().contains(k));
                let j = keys.index_of(k);
                assert(keys[j] == k);
            }
            assert(self@.channels =~= after.channels);
            assert(self@.control =~= after.control);
            assert(self@.ready =~= after.ready);
            assert(self@ =~= after);
        }
        discarded
    }

    /// The channels of a protocol, in the order in which they were opened.
    pub fn channels_for(&self, namespace: &str, version: ProtocolVersion) -> (ids: Vec<ChannelId>)
        requires
            self.wf(),
        ensures
            ids@.map_values(|id: ChannelId| id.0) == self@.channels_of(namespace@, version),
    {
        let mut ids: Vec<ChannelId> = Vec::new();
        let ghost pass = self@.belongs(namespace@, version);
        let ghost opened = self@.opened;
        let mut i: usize = 0;
        proof {
            reveal(Seq::filter);
            assert(ids@.map_values(|id: ChannelId| id.0) =~= opened.subrange(0, 0).filter(pass));
        }
        while i < self.opened.len()
            invariant
                self.wf(),
                pass == self@.belongs(namespace@, version),
                opened == self@.opened,
                i <= self.opened@.len(),
                ids@.map_values(|id: ChannelId| id.0) == opened.subrange(0, i as int).filter(pass),
            decreases self.opened@.len() - i,
        {
            let id = self.opened[i];
            proof {
                self.lemma_channels();
                lemma_filter_prefix(opened, pass, i as int);
                assert(opened[i as int] == id.0);
                assert(opened.contains(opened[i as int]));
                assert(self@.channels.contains_key(id.0));
            }
            match self.channels.get(&id) {
                Some(state) => {
                    assert(state@ == self@.channels[id.0]);
                    if state.config.key.version == version && text_equal(
                        state.config.key.namespace.as_str(),
                        namespace,
                    ) {
                        let ghost was = ids@;
                        ids.push(id);
                        assert(ids@.map_values(|id: ChannelId| id.0) =~= was.map_values(
                            |id: ChannelId| id.0,
                        ).push(id.0));
                    }
                },
                None => {},
            }
            i = i + 1;
        }
        assert(opened.subrange(0, i as int) =~= opened);
        ids
    }
}

/// Cancelling a channel tells how many frames were dropped, and dropping everything how many
/// waited in all; after that nothing waits any more.
pub proof fn dropped_frames_are_counted(before: Multiplexer, id: ChannelId)
    requires
        before.wf(),
    ensures
        forall|lent: &mut Multiplexer, discarded: Result<usize, LinkError>|
            *lent == before && #[trigger] call_ensures(
                Multiplexer::cancel_channel,
                (lent, id),
                discarded,
            ) ==> {
                &&& discarded is Ok <==> before@.channels.contains_key(id@)
                &&& discarded matches Ok(n) ==> {
                    &&& n == before@.channels[id@].queue.len()
                    &&& final(lent)@.channels[id@].queue.len() == 0
                    &&& final(lent)@.control == before@.control
                }
                &&& discarded matches Err(e) ==> e == LinkError::UnknownChannel(id@) && final(lent)@
                    == before@
            },
        forall|lent: &mut Multiplexer, discarded: usize|
            *lent == before && #[trigger] call_ensures(Multiplexer::discard_all, (lent,), discarded)
                ==> {
                &&& discarded == before@.control.len() + before@.queued()
                &&& final(lent)@.control.len() == 0
                &&& final(lent)@.ready.len() == 0
                &&& forall|key: u32| #[trigger]
                    before@.channels.contains_key(key) ==> final(lent)@.channels[key].queue.len() == 0
            },
{
}

/// A frame that may be dropped is dropped only where there is no room for it, which is told
/// and no fault.
pub proof fn discardable_frames_are_dropped_for_want_of_room(before: Multiplexer, envelope: Envelope)
    ensures
        forall|lent: &mut Multiplexer, taken: Result<QueueAdmission, LinkError>|
            *lent == before && #[trigger] call_ensures(
                Multiplexer::enqueue_discardable,
                (lent, envelope),
                taken,
            ) ==> {
                &&& taken matches Ok(QueueAdmission::DroppedDiscardable) ==> final(lent)@ == before@
                    && !before@.has_room(envelope@.channel.id)
                &&& taken matches Ok(QueueAdmission::Enqueued) ==> before@.has_room(
                    envelope@.channel.id,
                ) && final(lent)@ == before@.with_frame(envelope@)
                &&& taken is Err ==> final(lent)@ == before@
            },
{
}

/// An empty multiplexer has no channel and nothing that waits.
pub proof fn multiplexers_begin_empty(limits: MultiplexerLimits)
    ensures
        forall|mux: Result<Multiplexer, LinkError>| #[trigger]
            call_ensures(Multiplexer::new, (limits,), mux) ==> {
                &&& mux is Ok <==> limits.positive()
                &&& mux matches Ok(m) ==> {
                    &&& m@.limits == limits
                    &&& m@.channels == Map::<u32, crate::mux_model::ChannelView>::empty()
                    &&& m@.opened.len() == 0
                    &&& m@.control.len() == 0
                    &&& m@.ready.len() == 0
                    &&& m@.virtual_time == 0
                    &&& m@.allowed is None
                }
            },
{
}

} // verus!
