//! Sessions: what peers agreed on, and how it ends.

use vstd::prelude::*;
use crate::channel_map::{ChannelMapView, MAX_SESSION_CHANNEL_MAPPINGS, SessionChannelMap};
use crate::control::{AcceptChannel, ControlIdentityMode, ControlModeGuard, LinkControlError, LinkControlOpcode};
use crate::error::LinkError;
use crate::identity::{PeerId, ProtocolVersion, SessionId};
use crate::liveness::ConnectionQuality;
use crate::mux::{Multiplexer, protocol_names};
use crate::mux_model::{ConfigView, MultiplexerLimits, MuxView};
use crate::negotiation::{NegotiatedSession, ProtocolSelection};
use crate::protocol_ids::wire_namespace_text;
use crate::resume::{NewSessionReason, SessionContinuity};
use crate::session_events::{BusView, CloseReason, SessionEvent, SessionEventBus, SessionState};

verus! {

#[derive(Clone, Debug, Eq, PartialEq)]
pub struct SessionInfo {
    pub session_id: SessionId,
    pub peer_id: PeerId,
    pub protocols: Vec<ProtocolSelection>,
    pub continuity: SessionContinuity,
    pub quality: ConnectionQuality,
    pub close_reason: Option<CloseReason>,
}

/// A session between two peers.
#[derive(Debug)]
pub struct Session {
    state: SessionState,
    info: SessionInfo,
    events: SessionEventBus,
    multiplexer: Multiplexer,
    control_mode: ControlModeGuard,
    channel_mappings: SessionChannelMap,
}

#[verifier::ext_equal]
pub struct SessionView {
    pub state: SessionState,
    pub info: SessionInfo,
    pub bus: BusView,
    pub mux: MuxView,
    pub mode: ControlIdentityMode,
    pub channels: ChannelMapView,
}

impl View for Session {
    type V = SessionView;

    closed spec fn view(&self) -> SessionView {
        SessionView {
            state: self.state,
            info: self.info,
            bus: self.events@,
            mux: self.multiplexer@,
            mode: self.control_mode.mode,
            channels: self.channel_mappings@,
        }
    }
}

/// The namespaces and versions of the protocols that were settled on.
pub open spec fn negotiated_names(protocols: Seq<ProtocolSelection>) -> Seq<(Seq<char>, ProtocolVersion)> {
    protocols.map_values(|p: ProtocolSelection| (wire_namespace_text(p.stable_id@), p.version))
}

/// Whether a protocol was settled on.
pub open spec fn is_negotiated(protocols: Seq<ProtocolSelection>, id: Seq<u8>) -> bool {
    exists|i: int| 0 <= i < protocols.len() && (#[trigger] protocols[i]).stable_id@ == id
}

impl SessionView {
    /// A session as a handshake leaves it.
    pub open spec fn begun(
        negotiated: NegotiatedSession,
        mux_limits: MultiplexerLimits,
        max_event_subscribers: usize,
    ) -> SessionView {
        SessionView {
            state: SessionState::Established,
            info: SessionInfo {
                session_id: negotiated.session_id,
                peer_id: negotiated.remote.peer_id,
                protocols: negotiated.protocols,
                continuity: SessionContinuity::NewSession {
                    reason: NewSessionReason::NoResumeRequested,
                },
                quality: ConnectionQuality {
                    round_trip_millis: None,
                    jitter_millis: None,
                    loss_per_million: None,
                    retransmit_per_million: None,
                    send_queue_pressure_per_million: 0,
                    transmit_bytes_per_second: 0,
                    receive_bytes_per_second: 0,
                    consecutive_failures: 0,
                    transport: None,
                    liveness: crate::liveness::LivenessState::Healthy,
                },
                close_reason: None,
            },
            bus: BusView::empty(max_event_subscribers),
            mux: MuxView::empty(mux_limits, Some(negotiated_names(negotiated.protocols@))),
            mode: ControlIdentityMode::negotiate(negotiated.link_capabilities),
            channels: ChannelMapView {
                maximum: MAX_SESSION_CHANNEL_MAPPINGS,
                by_protocol: Map::empty(),
                by_session: Map::empty(),
                retired: Set::empty(),
            },
        }
    }

    /// Whether the session is in use.
    pub open spec fn active(self) -> bool {
        self.state == SessionState::Established || self.state == SessionState::Draining
    }

    /// Whether the session has ended.
    pub open spec fn ended(self) -> bool {
        self.state == SessionState::Closed || self.state == SessionState::Failed
    }

    /// Why a channel mapping is refused.
    pub open spec fn mapping_fault(self, accepted: AcceptChannel) -> Option<LinkControlError> {
        if !self.active() {
            Some(LinkControlError::session_not_active(LinkControlOpcode::ChannelAccepted))
        } else if self.mode != ControlIdentityMode::TypedV1 {
            Some(LinkControlError::mode_mismatch())
        } else if !is_negotiated(self.info.protocols@, accepted.protocol_id@) {
            Some(LinkControlError::unnegotiated_protocol())
        } else {
            self.channels.refusal(accepted)
        }
    }

    /// With another quality, and all told.
    pub open spec fn with_quality(self, quality: ConnectionQuality) -> SessionView {
        SessionView {
            info: SessionInfo { quality, ..self.info },
            bus: self.bus.published(SessionEvent::QualityChanged(quality)),
            ..self
        }
    }

    /// With another continuity, and all told.
    pub open spec fn with_continuity(self, continuity: SessionContinuity) -> SessionView {
        SessionView {
            info: SessionInfo { continuity, ..self.info },
            bus: self.bus.published(SessionEvent::ContinuityChanged(continuity)),
            ..self
        }
    }

    /// Draining, and all told.
    pub open spec fn draining(self) -> SessionView {
        SessionView {
            state: SessionState::Draining,
            bus: self.bus.published(SessionEvent::StateChanged(SessionState::Draining)),
            ..self
        }
    }

    /// Whether a drain can finish: nothing waits any more.
    pub open spec fn drained(self) -> bool {
        self.state == SessionState::Draining && self.mux.pending() == 0
    }

    /// Ended for a reason, and all told.
    pub open spec fn closed(self, reason: CloseReason, state: SessionState) -> SessionView {
        SessionView {
            state,
            info: SessionInfo { close_reason: Some(reason), ..self.info },
            bus: self.bus.published(SessionEvent::StateChanged(state)).published(
                SessionEvent::Closed(reason),
            ),
            ..self
        }
    }

    /// Ended at once: what waits is dropped.
    pub open spec fn cut(self, reason: CloseReason, state: SessionState) -> SessionView {
        if self.ended() {
            self
        } else {
            SessionView { mux: self.mux.emptied(), ..self }.closed(reason, state)
        }
    }
}

impl Session {
    /// Whether the parts of the session are valid.
    pub closed spec fn wf(&self) -> bool {
        self.events.wf() && self.multiplexer.wf() && self.channel_mappings.wf()
    }

    /// Begins a session that was negotiated.
    pub fn established(
        negotiated: NegotiatedSession,
        mux_limits: MultiplexerLimits,
        max_event_subscribers: usize,
    ) -> (session: Result<Self, LinkError>)
        ensures
            match session {
                Ok(s) => {
                    &&& max_event_subscribers > 0
                    &&& mux_limits.positive()
                    &&& s.wf()
                    &&& s@ == SessionView::begun(negotiated, mux_limits, max_event_subscribers)
                },
                Err(e) => e == (if max_event_subscribers == 0 {
                    LinkError::InvalidInput("event subscriber limit must be positive")
                } else {
                    LinkError::InvalidInput("multiplexer limits must be positive")
                }) && (max_event_subscribers == 0 || !mux_limits.positive()),
            },
    {
        let control_mode = negotiated.control_mode_guard();
        let mut allowed: Vec<(String, ProtocolVersion)> = Vec::new();
        let mut i: usize = 0;
        while i < negotiated.protocols.len()
            invariant
                i <= negotiated.protocols@.len(),
                allowed@.len() == i,
                forall|j: int|
                    0 <= j < i ==> (#[trigger] allowed@[j]).0@ == wire_namespace_text(
                        negotiated.protocols@[j].stable_id@,
                    ) && allowed@[j].1 == negotiated.protocols@[j].version,
            decreases negotiated.protocols@.len() - i,
        {
            let protocol = &negotiated.protocols[i];
            allowed.push((protocol.stable_id.wire_namespace(), protocol.version));
            i = i + 1;
        }
        assert(protocol_names(allowed@) =~= negotiated_names(negotiated.protocols@));
        let events = SessionEventBus::new(max_event_subscribers)?;
        let multiplexer = Multiplexer::restricted(mux_limits, allowed)?;
        let channel_mappings = match SessionChannelMap::new(MAX_SESSION_CHANNEL_MAPPINGS) {
            Ok(mappings) => mappings,
            Err(_) => {
                return Err(LinkError::InvalidInput("session channel mapping limits are invalid"));
            },
        };
        Ok(
            Session {
                state: SessionState::Established,
                info: SessionInfo {
                    session_id: negotiated.session_id,
                    peer_id: negotiated.remote.peer_id,
                    protocols: negotiated.protocols,
                    continuity: SessionContinuity::default(),
                    quality: ConnectionQuality::default(),
                    close_reason: None,
                },
                events,
                multiplexer,
                control_mode,
                channel_mappings,
            },
        )
    }

    pub fn state(&self) -> (state: SessionState)
        ensures
            state == self@.state,
    {
        self.state
    }

    pub fn info(&self) -> (info: &SessionInfo)
        ensures
            *info == self@.info,
    {
        &self.info
    }

    /// The events, to follow them.
    pub fn events(&mut self) -> (events: &mut SessionEventBus)
        requires
            old(self).wf(),
        ensures
            events.wf(),
            events@ == old(self)@.bus,
            final(events).wf() ==> final(self).wf(),
            final(self)@ == (SessionView { bus: final(events)@, ..old(self)@ }),
    {
        &mut self.events
    }

    /// The multiplexer, to send.
    pub fn multiplexer(&mut self) -> (mux: &mut Multiplexer)
        requires
            old(self).wf(),
        ensures
            mux.wf(),
            mux@ == old(self)@.mux,
            final(mux).wf() ==> final(self).wf(),
            final(self)@ == (SessionView { mux: final(mux)@, ..old(self)@ }),
    {
        &mut self.multiplexer
    }

    pub fn control_mode(&self) -> (guard: ControlModeGuard)
        ensures
            guard.mode == self@.mode,
    {
        self.control_mode
    }

    /// Binds a channel that the remote peer accepted.
    pub fn accept_channel_mapping(&mut self, accepted: AcceptChannel) -> (bound: Result<
        (),
        LinkControlError,
    >)
        requires
            old(self).wf(),
        ensures
            final(self).wf(),
            match old(self)@.mapping_fault(accepted) {
                None => bound is Ok && final(self)@ == (SessionView {
                    channels: old(self)@.channels.bound(accepted),
                    ..old(self)@
                }),
                Some(fault) => bound == Err::<(), LinkControlError>(fault) && final(self)@ == old(
                    self,
                )@,
            },
    {
        if !(self.state == SessionState::Established || self.state == SessionState::Draining) {
            return Err(LinkControlError::session_not_active(LinkControlOpcode::ChannelAccepted));
        }
        self.control_mode.validate_typed()?;
        if !self.negotiated(&accepted) {
            return Err(LinkControlError::unnegotiated_protocol());
        }
        match self.channel_mappings.bind(accepted) {
            Ok(_) => Ok(()),
            Err(fault) => Err(fault),
        }
    }

    fn negotiated(&self, accepted: &AcceptChannel) -> (negotiated: bool)
        ensures
            negotiated == is_negotiated(self@.info.protocols@, accepted.protocol_id@),
    {
        let mut i: usize = 0;
        while i < self.info.protocols.len()
            invariant
                i <= self.info.protocols@.len(),
                forall|j: int|
                    0 <= j < i ==> (#[trigger] self.info.protocols@[j]).stable_id@
                        != accepted.protocol_id@,
            decreases self.info.protocols@.len() - i,
        {
            if self.info.protocols[i].stable_id.same(&accepted.protocol_id) {
                return true;
            }
            i = i + 1;
        }
        false
    }

    pub fn channel_mappings(&self) -> (mappings: &SessionChannelMap)
        requires
            self.wf(),
        ensures
            mappings.wf(),
            mappings@ == self@.channels,
    {
        &self.channel_mappings
    }

    /// Notes how well the connection does.
    pub fn update_quality(&mut self, quality: ConnectionQuality) -> (updated: Result<(), LinkError>)
        requires
            old(self).wf(),
        ensures
            final(self).wf(),
            if old(self)@.active() {
                updated is Ok && final(self)@ == old(self)@.with_quality(quality)
            } else {
                updated == Err::<(), LinkError>(LinkError::Closed) && final(self)@ == old(self)@
            },
    {
        self.ensure_active()?;
        self.info.quality = quality;
        self.events.publish(SessionEvent::QualityChanged(quality));
        Ok(())
    }

    /// Notes whether the session goes on from an earlier one.
    pub fn report_continuity(&mut self, continuity: SessionContinuity) -> (reported: Result<(), LinkError>)
        requires
            old(self).wf(),
        ensures
            final(self).wf(),
            if old(self)@.active() {
                reported is Ok && final(self)@ == old(self)@.with_continuity(continuity)
            } else {
                reported == Err::<(), LinkError>(LinkError::Closed) && final(self)@ == old(self)@
            },
    {
        self.ensure_active()?;
        self.info.continuity = continuity;
        self.events.publish(SessionEvent::ContinuityChanged(continuity));
        Ok(())
    }

    /// Begins to drain: what waits is still sent.
    pub fn begin_drain(&mut self) -> (begun: Result<(), LinkError>)
        requires
            old(self).wf(),
        ensures
            final(self).wf(),
            if old(self)@.state == SessionState::Established {
                begun is Ok && final(self)@ == old(self)@.draining()
            } else {
                begun == Err::<(), LinkError>(
                    LinkError::InvalidState("only an established session can begin draining"),
                ) && final(self)@ == old(self)@
            },
    {
        if self.state != SessionState::Established {
            return Err(LinkError::InvalidState("only an established session can begin draining"));
        }
        self.state = SessionState::Draining;
        self.events.publish(SessionEvent::StateChanged(SessionState::Draining));
        Ok(())
    }

    /// Ends a session that has drained.
    pub fn finish_drain(&mut self) -> (finished: Result<(), LinkError>)
        requires
            old(self).wf(),
        ensures
            final(self).wf(),
            if old(self)@.drained() {
                finished is Ok && final(self)@ == old(self)@.closed(
                    CloseReason::Graceful,
                    SessionState::Closed,
                )
            } else {
                finished == Err::<(), LinkError>(
                    LinkError::InvalidState("drain can finish only after all queued frames are sent"),
                ) && final(self)@ == old(self)@
            },
    {
        if self.state != SessionState::Draining || self.multiplexer.pending_frames() != 0 {
            return Err(
                LinkError::InvalidState("drain can finish only after all queued frames are sent"),
            );
        }
        self.close(CloseReason::Graceful, SessionState::Closed);
        Ok(())
    }

    /// Ends the session at once.
    pub fn abort(&mut self)
        requires
            old(self).wf(),
        ensures
            final(self).wf(),
            final(self)@ == old(self)@.cut(CloseReason::LocalAbort, SessionState::Closed),
    {
        if self.state == SessionState::Closed || self.state == SessionState::Failed {
            return ;
        }
        self.multiplexer.discard_all();
        self.close(CloseReason::LocalAbort, SessionState::Closed);
    }

    /// Ends the session at once, as failed.
    pub fn fail(&mut self, reason: CloseReason)
        requires
            old(self).wf(),
        ensures
            final(self).wf(),
            final(self)@ == old(self)@.cut(reason, SessionState::Failed),
    {
        if self.state == SessionState::Closed || self.state == SessionState::Failed {
            return ;
        }
        self.multiplexer.discard_all();
        self.close(reason, SessionState::Failed);
    }

    fn close(&mut self, reason: CloseReason, state: SessionState)
        requires
            old(self).wf(),
        ensures
            final(self).wf(),
            final(self)@ == old(self)@.closed(reason, state),
    {
        self.state = state;
        self.info.close_reason = Some(reason);
        self.events.publish(SessionEvent::StateChanged(state));
        self.events.publish(SessionEvent::Closed(reason));
    }

    fn ensure_active(&self) -> (active: Result<(), LinkError>)
        ensures
            active == (if self@.active() {
                Ok::<(), LinkError>(())
            } else {
                Err(LinkError::Closed)
            }),
    {
        if self.state == SessionState::Established || self.state == SessionState::Draining {
            Ok(())
        } else {
            Err(LinkError::Closed)
        }
    }
}

/// A session that has ended keeps its state and its reason: it can neither be ended
/// again for another reason, nor drain, nor take a channel.
pub proof fn ended_sessions_stay_ended(session: SessionView, reason: CloseReason, accepted: AcceptChannel)
    requires
        session.ended(),
    ensures
        session.cut(CloseReason::LocalAbort, SessionState::Closed) == session,
        session.cut(reason, SessionState::Failed) == session,
        session.state != SessionState::Established,
        !session.drained(),
        !session.active(),
        session.mapping_fault(accepted) == Some(
            LinkControlError::session_not_active(LinkControlOpcode::ChannelAccepted),
        ),
{
}

/// A session that drained, one that was aborted and one that failed tell different
/// reasons, whatever the failure was, unless the failure names one of theirs.
pub proof fn endings_are_told_apart(session: SessionView, reason: CloseReason)
    requires
        session.active(),
        reason != CloseReason::Graceful,
        reason != CloseReason::LocalAbort,
    ensures
        ({
            let drained = session.closed(CloseReason::Graceful, SessionState::Closed);
            let aborted = session.cut(CloseReason::LocalAbort, SessionState::Closed);
            let failed = session.cut(reason, SessionState::Failed);
            &&& drained.info.close_reason != aborted.info.close_reason
            &&& drained.info.close_reason != failed.info.close_reason
            &&& aborted.info.close_reason != failed.info.close_reason
            &&& aborted.mux.pending() == 0
            &&& failed.mux.pending() == 0
        }),
{
    let emptied = session.mux.emptied();
    assert forall|id: u32| #[trigger] emptied.channels.contains_key(id) implies emptied.channels[id].queue
        == Seq::<crate::mux_model::EnvelopeView>::empty() by {
        assert(session.mux.channels.contains_key(id));
    }
    crate::mux_model::lemma_none_queued(emptied.channels, crate::mux_model::channel_numbers());
}

/// A channel of a protocol that was not negotiated cannot be opened.
pub proof fn unnegotiated_channels_are_refused(
    negotiated: NegotiatedSession,
    mux_limits: MultiplexerLimits,
    max_event_subscribers: usize,
    config: ConfigView,
)
    requires
        forall|i: int|
            0 <= i < negotiated.protocols@.len() ==> config.key.namespace != wire_namespace_text(
                (#[trigger] negotiated.protocols@[i]).stable_id@,
            ) || config.key.version != negotiated.protocols@[i].version,
    ensures
        SessionView::begun(negotiated, mux_limits, max_event_subscribers).mux.open_fault(config) is Some,
{
    let names = negotiated_names(negotiated.protocols@);
    if names.contains((config.key.namespace, config.key.version)) {
        let i = names.index_of((config.key.namespace, config.key.version));
        assert(names[i] == (
            wire_namespace_text(negotiated.protocols@[i].stable_id@),
            negotiated.protocols@[i].version,
        ));
    }
}

/// A session begins established, with the peer, the protocols and the number that were
/// negotiated, with nothing to send, no channel, and nobody who follows it.
pub proof fn sessions_begin_established(
    negotiated: NegotiatedSession,
    mux_limits: MultiplexerLimits,
    max_event_subscribers: usize,
)
    ensures
        ({
            let session = SessionView::begun(negotiated, mux_limits, max_event_subscribers);
            &&& session.state == SessionState::Established
            &&& session.info.session_id == negotiated.session_id
            &&& session.info.peer_id == negotiated.remote.peer_id
            &&& session.info.protocols == negotiated.protocols
            &&& session.info.continuity is NewSession
            &&& session.info.close_reason is None
            &&& session.active()
            &&& session.mux.channels =~= Map::empty()
            &&& session.mux.control.len() == 0
            &&& session.mux.limits == mux_limits
            &&& session.channels.by_session =~= Map::empty()
            &&& session.channels.by_protocol =~= Map::empty()
            &&& session.channels.maximum == 128
            &&& session.bus.subscribers =~= Map::empty()
        }),
{
}

/// A session is in use while it is established and while it drains, and in no other state;
/// it has ended when it is closed or failed.
pub proof fn sessions_are_active_until_they_end(session: SessionView)
    ensures
        session.state == SessionState::Established ==> session.active() && !session.ended(),
        session.state == SessionState::Draining ==> session.active() && !session.ended(),
        session.state == SessionState::Closed ==> !session.active() && session.ended(),
        session.state == SessionState::Failed ==> !session.active() && session.ended(),
        session.state == SessionState::Connecting || session.state == SessionState::Handshaking
            ==> !session.active() && !session.ended(),
{
}

/// Whoever follows a session hears of its end last, with the reason for it; the reason is
/// kept, and an aborted or failed session has nothing more to send.
pub proof fn endings_are_told(session: SessionView, reason: CloseReason, id: u64)
    requires
        session.active(),
        session.bus.subscribers.contains_key(id),
        session.bus.subscribers[id].capacity > 0,
        session.bus.subscribers[id].queue.len() <= session.bus.subscribers[id].capacity,
    ensures
        ({
            let failed = session.cut(reason, SessionState::Failed);
            let aborted = session.cut(CloseReason::LocalAbort, SessionState::Closed);
            let closed = session.closed(CloseReason::Graceful, SessionState::Closed);
            &&& failed.state == SessionState::Failed
            &&& failed.info.close_reason == Some(reason)
            &&& failed.bus.subscribers[id].queue.last() == SessionEvent::Closed(reason)
            &&& aborted.state == SessionState::Closed
            &&& aborted.info.close_reason == Some(CloseReason::LocalAbort)
            &&& aborted.bus.subscribers[id].queue.last() == SessionEvent::Closed(CloseReason::LocalAbort)
            &&& closed.state == SessionState::Closed
            &&& closed.info.close_reason == Some(CloseReason::Graceful)
            &&& closed.bus.subscribers[id].queue.last() == SessionEvent::Closed(CloseReason::Graceful)
            &&& closed.mux == session.mux
            &&& failed.mux.control.len() == 0
            &&& failed.mux.ready.len() == 0
            &&& failed.info.peer_id == session.info.peer_id
            &&& failed.info.session_id == session.info.session_id
        }),
{
}

/// A change of quality or continuity, and the beginning of a drain, are told to whoever
/// follows, and change nothing else; a session is drained once it has nothing to send.
pub proof fn changes_are_told(
    session: SessionView,
    quality: ConnectionQuality,
    continuity: SessionContinuity,
    id: u64,
)
    requires
        session.bus.subscribers.contains_key(id),
        session.bus.subscribers[id].capacity > 0,
        session.bus.subscribers[id].queue.len() <= session.bus.subscribers[id].capacity,
    ensures
        ({
            let better = session.with_quality(quality);
            let carried = session.with_continuity(continuity);
            let draining = session.draining();
            &&& better.info.quality == quality
            &&& better.info.continuity == session.info.continuity
            &&& better.state == session.state
            &&& better.bus.subscribers[id].queue.last() == SessionEvent::QualityChanged(quality)
            &&& carried.info.continuity == continuity
            &&& carried.info.quality == session.info.quality
            &&& carried.state == session.state
            &&& carried.bus.subscribers[id].queue.last() == SessionEvent::ContinuityChanged(continuity)
            &&& draining.state == SessionState::Draining
            &&& draining.info == session.info
            &&& draining.mux == session.mux
            &&& draining.bus.subscribers[id].queue.last() == SessionEvent::StateChanged(
                SessionState::Draining,
            )
            &&& draining.drained() <==> session.mux.pending() == 0
        }),
{
}

/// A channel is bound exactly in a session that is in use and that speaks of protocols by
/// their identities, for a protocol that was negotiated, where the channels allow for it.
pub proof fn negotiated_channels_are_bound(session: SessionView, accepted: AcceptChannel, k: int)
    requires
        session.state == SessionState::Established || session.state == SessionState::Draining,
        session.mode == ControlIdentityMode::TypedV1,
        0 <= k < session.info.protocols@.len(),
        session.info.protocols@[k].stable_id@ == accepted.protocol_id@,
    ensures
        session.mapping_fault(accepted) == session.channels.refusal(accepted),
{
}

/// No channel is bound for a protocol that was not negotiated, nor in a session that speaks
/// of protocols by their names.
pub proof fn other_channels_are_not_bound(session: SessionView, accepted: AcceptChannel)
    ensures
        session.mode != ControlIdentityMode::TypedV1 ==> session.mapping_fault(accepted) is Some,
        (forall|i: int|
            0 <= i < session.info.protocols@.len() ==> (
            #[trigger] session.info.protocols@[i]).stable_id@ != accepted.protocol_id@)
            ==> session.mapping_fault(accepted) is Some,
{
}

/// Only an established session begins to drain, and a drain is finished only once nothing
/// waits to be sent; what may not be done changes nothing.
pub proof fn drains_begin_once_and_finish_empty(before: Session)
    ensures
        forall|lent: &mut Session, begun: Result<(), LinkError>|
            *lent == before && #[trigger] call_ensures(Session::begin_drain, (lent,), begun) ==> {
                &&& begun is Ok <==> before@.state is Established
                &&& begun is Ok ==> final(lent)@.state is Draining && final(lent)@.mux == before@.mux
                &&& begun matches Err(e) ==> e is InvalidState && final(lent)@ == before@
            },
        forall|lent: &mut Session, finished: Result<(), LinkError>|
            *lent == before && #[trigger] call_ensures(
                Session::finish_drain,
                (lent,),
                finished,
            ) ==> {
                &&& finished is Ok <==> before@.state is Draining && before@.mux.pending() == 0
                &&& finished is Ok ==> {
                    &&& final(lent)@.state is Closed
                    &&& final(lent)@.info.close_reason == Some(CloseReason::Graceful)
                }
                &&& finished matches Err(e) ==> e is InvalidState && final(lent)@ == before@
            },
{
}

/// An abort closes a session that has not ended, a failure fails it, each for its reason;
/// one that has ended stays as it is.
pub proof fn ended_sessions_stay_as_they_are(before: Session, reason: CloseReason)
    ensures
        forall|lent: &mut Session, done: ()|
            *lent == before && #[trigger] call_ensures(Session::abort, (lent,), done) ==> {
                let ended = before@.state is Closed || before@.state is Failed;
                &&& ended ==> final(lent)@ == before@
                &&& !ended ==> {
                    &&& final(lent)@.state is Closed
                    &&& final(lent)@.info.close_reason == Some(CloseReason::LocalAbort)
                    &&& final(lent)@.mux.control.len() == 0
                }
            },
        forall|lent: &mut Session, done: ()|
            *lent == before && #[trigger] call_ensures(Session::fail, (lent, reason), done) ==> {
                let ended = before@.state is Closed || before@.state is Failed;
                &&& ended ==> final(lent)@ == before@
                &&& !ended ==> {
                    &&& final(lent)@.state is Failed
                    &&& final(lent)@.info.close_reason == Some(reason)
                    &&& final(lent)@.mux.control.len() == 0
                }
            },
{
}

/// A quality and a continuity are taken while the session is in use, and are the session's
/// from then on; after it has ended they are refused.
pub proof fn reports_are_taken_while_in_use(
    before: Session,
    quality: ConnectionQuality,
    continuity: SessionContinuity,
)
    ensures
        forall|lent: &mut Session, updated: Result<(), LinkError>|
            *lent == before && #[trigger] call_ensures(
                Session::update_quality,
                (lent, quality),
                updated,
            ) ==> {
                &&& updated is Ok <==> before@.state is Established || before@.state is Draining
                &&& updated is Ok ==> {
                    &&& final(lent)@.info.quality == quality
                    &&& final(lent)@.info.continuity == before@.info.continuity
                    &&& final(lent)@.state == before@.state
                    &&& final(lent)@.mux == before@.mux
                }
                &&& updated matches Err(e) ==> e is Closed && final(lent)@ == before@
            },
        forall|lent: &mut Session, reported: Result<(), LinkError>|
            *lent == before && #[trigger] call_ensures(
                Session::report_continuity,
                (lent, continuity),
                reported,
            ) ==> {
                &&& reported is Ok <==> before@.state is Established || before@.state is Draining
                &&& reported is Ok ==> {
                    &&& final(lent)@.info.continuity == continuity
                    &&& final(lent)@.info.quality == before@.info.quality
                    &&& final(lent)@.state == before@.state
                    &&& final(lent)@.mux == before@.mux
                }
                &&& reported matches Err(e) ==> e is Closed && final(lent)@ == before@
            },
{
}

} // verus!
