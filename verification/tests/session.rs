use mutsuki_link::channel::{ChannelId, ChannelMode};
use mutsuki_link::control::{AcceptChannel, ErrorCode, LinkControlError};
use mutsuki_link::error::{LimitKind, LinkError};
use mutsuki_link::identity::{
    ConnectionId, EndpointId, Identity, PeerId, ProtocolVersion, SessionId,
};
use mutsuki_link::liveness::ConnectionQuality;
use mutsuki_link::mux::{ChannelConfig, ChannelKey};
use mutsuki_link::mux_model::MultiplexerLimits;
use mutsuki_link::negotiation::{AuthPath, NegotiatedSession, ProtocolSelection};
use mutsuki_link::protocol_ids::{
    LinkCapabilities, ProtocolCapabilitySet, ProtocolChannelId, ProtocolDebugIdentity,
    ProtocolStableId, SchemaRef,
};
use mutsuki_link::resume::SessionContinuity;
use mutsuki_link::session::Session;
use mutsuki_link::session_events::{CloseReason, SessionEvent, SessionEventBus, SessionState};

fn negotiated() -> NegotiatedSession {
    NegotiatedSession {
        session_id: SessionId::from_bytes([3; 16]),
        local: Identity {
            peer_id: PeerId::from_bytes([1; 32]),
            endpoint_id: EndpointId::from_bytes([1; 16]),
            connection_id: ConnectionId::from_bytes([1; 16]),
        },
        remote: Identity {
            peer_id: PeerId::from_bytes([2; 32]),
            endpoint_id: EndpointId::from_bytes([2; 16]),
            connection_id: ConnectionId::from_bytes([2; 16]),
        },
        link_version: ProtocolVersion::new(1, 0),
        link_capabilities: LinkCapabilities::typed_control(),
        protocols: vec![{
            let identity = ProtocolDebugIdentity::new("local", "test");
            let stable_id = identity.stable_id();
            ProtocolSelection {
                stable_id,
                version: ProtocolVersion::new(1, 0),
                schema: SchemaRef::for_contract("local", "test", 1, b"test"),
                capabilities: ProtocolCapabilitySet::empty(stable_id),
            }
        }],
        auth_path: AuthPath::FirstPairing,
    }
}

#[test]
fn slow_event_subscriber_never_blocks_publisher() {
    let mut bus = SessionEventBus::new(1).unwrap();
    let subscriber = bus.subscribe(1).unwrap();
    for failures in 1..=100 {
        bus.publish(SessionEvent::QualityChanged(ConnectionQuality {
            consecutive_failures: failures,
            ..ConnectionQuality::default()
        }));
    }
    assert_eq!(bus.next(subscriber), Some(SessionEvent::EventsDropped(99)));
    assert!(matches!(
        bus.next(subscriber),
        Some(SessionEvent::QualityChanged(ConnectionQuality {
            consecutive_failures: 100,
            ..
        }))
    ));
}

#[test]
fn drain_and_abort_have_distinct_reasons() {
    let mut drained =
        Session::established(negotiated(), MultiplexerLimits::default(), 2).unwrap();
    drained.begin_drain().unwrap();
    drained.finish_drain().unwrap();
    assert_eq!(drained.state(), SessionState::Closed);
    assert_eq!(drained.info().close_reason, Some(CloseReason::Graceful));

    let mut aborted =
        Session::established(negotiated(), MultiplexerLimits::default(), 2).unwrap();
    aborted.abort();
    assert_eq!(aborted.info().close_reason, Some(CloseReason::LocalAbort));
}

#[test]
fn session_rejects_channels_outside_negotiated_protocols() {
    let mut session =
        Session::established(negotiated(), MultiplexerLimits::default(), 1).unwrap();
    let error = session
        .multiplexer()
        .open_channel(ChannelConfig {
            key: ChannelKey {
                namespace: "sensitive.unadvertised".to_owned(),
                version: ProtocolVersion::new(1, 0),
                id: ChannelId(1),
            },
            mode: ChannelMode::Event,
            priority_hint: 0,
            capacity: 1,
        })
        .unwrap_err();
    assert_eq!(error, LinkError::NamespaceConflict);
}

#[test]
fn authenticated_session_owns_typed_channel_mapping() {
    let negotiated = negotiated();
    let protocol_id = negotiated.protocols[0].stable_id;
    let mut session =
        Session::established(negotiated, MultiplexerLimits::default(), 1).unwrap();
    session
        .accept_channel_mapping(AcceptChannel {
            protocol_id,
            protocol_channel_id: ProtocolChannelId(1),
            session_channel_id: ChannelId(7),
        })
        .unwrap();
    assert_eq!(
        session
            .channel_mappings()
            .session_channel(protocol_id, ProtocolChannelId(1)),
        Some(ChannelId(7))
    );
    session.abort();
    let error = session
        .accept_channel_mapping(AcceptChannel {
            protocol_id,
            protocol_channel_id: ProtocolChannelId(2),
            session_channel_id: ChannelId(8),
        })
        .unwrap_err();
    assert_eq!(error.code, ErrorCode(9));
}

#[test]
fn subscribers_are_bounded_and_told_in_order() {
    assert!(matches!(
        SessionEventBus::new(0),
        Err(LinkError::InvalidInput(_))
    ));
    let mut bus = SessionEventBus::new(1).unwrap();
    assert!(matches!(bus.subscribe(0), Err(LinkError::InvalidInput(_))));
    let subscriber = bus.subscribe(2).unwrap();
    assert_eq!(
        bus.subscribe(2),
        Err(LinkError::LimitExceeded {
            kind: LimitKind::EventSubscribers,
            limit: 1
        })
    );
    bus.publish(SessionEvent::StateChanged(SessionState::Draining));
    bus.publish(SessionEvent::Closed(CloseReason::Graceful));
    assert_eq!(
        bus.next(subscriber),
        Some(SessionEvent::StateChanged(SessionState::Draining))
    );
    assert_eq!(
        bus.next(subscriber),
        Some(SessionEvent::Closed(CloseReason::Graceful))
    );
    assert_eq!(bus.next(subscriber), None);
    assert!(bus.unsubscribe(subscriber));
    assert!(!bus.unsubscribe(subscriber));
}

#[test]
fn ended_sessions_refuse_everything() {
    let mut session = Session::established(negotiated(), MultiplexerLimits::default(), 1).unwrap();
    let subscriber = session.events().subscribe(8).unwrap();
    session.multiplexer().enqueue_control(vec![1]).unwrap();
    session.begin_drain().unwrap();
    assert!(matches!(
        session.begin_drain(),
        Err(LinkError::InvalidState(_))
    ));
    assert!(matches!(
        session.finish_drain(),
        Err(LinkError::InvalidState(_))
    ));
    session.fail(CloseReason::Timeout);
    session.abort();
    assert_eq!(session.state(), SessionState::Failed);
    assert_eq!(session.info().close_reason, Some(CloseReason::Timeout));
    assert_eq!(
        session.update_quality(ConnectionQuality::default()),
        Err(LinkError::Closed)
    );
    assert_eq!(
        session.report_continuity(SessionContinuity::default()),
        Err(LinkError::Closed)
    );
    assert_eq!(session.multiplexer().pending_frames(), 0);
    assert_eq!(
        session.events().next(subscriber),
        Some(SessionEvent::StateChanged(SessionState::Draining))
    );
    assert_eq!(
        session.events().next(subscriber),
        Some(SessionEvent::StateChanged(SessionState::Failed))
    );
    assert_eq!(
        session.events().next(subscriber),
        Some(SessionEvent::Closed(CloseReason::Timeout))
    );
}

#[test]
fn mappings_of_other_protocols_are_refused() {
    let mut session = Session::established(negotiated(), MultiplexerLimits::default(), 1).unwrap();
    assert_eq!(
        session.accept_channel_mapping(AcceptChannel {
            protocol_id: ProtocolStableId::derive("local", "other"),
            protocol_channel_id: ProtocolChannelId(1),
            session_channel_id: ChannelId(7),
        }),
        Err(LinkControlError::unnegotiated_protocol())
    );
    let mut legacy = negotiated();
    legacy.link_capabilities = LinkCapabilities::default();
    let protocol_id = legacy.protocols[0].stable_id;
    let mut session = Session::established(legacy, MultiplexerLimits::default(), 1).unwrap();
    assert_eq!(
        session.accept_channel_mapping(AcceptChannel {
            protocol_id,
            protocol_channel_id: ProtocolChannelId(1),
            session_channel_id: ChannelId(7),
        }),
        Err(LinkControlError::mode_mismatch())
    );
}
