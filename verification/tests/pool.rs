use mutsuki_link::identity::{EndpointId, PeerId};
use mutsuki_link::liveness::{
    ConnectionActivityProfile, HeartbeatAction, HeartbeatPolicy, LivenessState,
};
use mutsuki_link::pool::{
    connection_id_of, DuplicatePeerPolicy, IpAddress, LinkEndpointConfig, PeerSessionPool,
    PoolError, PoolEvent, SocketAddress,
};
use mutsuki_link::reconnect::{
    ReconnectAction, ReconnectFailure, ReconnectPolicy, ReconnectStopReason, RetryLimit,
};
use mutsuki_link::transport_error::{TransportError, TransportErrorKind};

fn peer(value: u8) -> PeerId {
    PeerId::from_bytes([value; 32])
}

fn endpoint(value: u8) -> EndpointId {
    EndpointId::from_bytes([value; 16])
}

fn address() -> SocketAddress {
    SocketAddress {
        ip: IpAddress::V4([127, 0, 0, 1]),
        port: 4433,
    }
}

#[test]
fn peers_over_the_limit_are_refused() {
    let mut pool = PeerSessionPool::new(LinkEndpointConfig {
        max_peers: 2,
        ..LinkEndpointConfig::default()
    })
    .unwrap();
    for value in [2, 1] {
        assert!(pool
            .insert_session(peer(value), endpoint(value), address(), "link", 0)
            .unwrap()
            .is_none());
    }
    assert_eq!(
        pool.insert_session(peer(3), endpoint(3), address(), "link", 0)
            .unwrap_err(),
        PoolError::PeerLimit
    );
    assert_eq!(pool.session_count(), 2);
    assert_eq!(pool.active_peers(), vec![peer(1), peer(2)]);
    assert!(pool.remove(&peer(1)).is_some());
    assert!(pool.remove(&peer(1)).is_none());
    assert!(pool.ensure_capacity_for(&peer(3)).is_ok());
}

#[test]
fn second_sessions_replace_or_are_refused() {
    let mut pool = PeerSessionPool::new(LinkEndpointConfig::default()).unwrap();
    pool.insert_session(peer(1), endpoint(1), address(), "first", 0)
        .unwrap();
    let replaced = pool
        .insert_session(peer(1), endpoint(2), address(), "second", 0)
        .unwrap()
        .unwrap();
    assert_eq!(*replaced.connection(), "first");
    assert_eq!(*pool.get(&peer(1)).unwrap().connection(), "second");
    assert_eq!(pool.session_count(), 1);

    let mut pool = PeerSessionPool::new(LinkEndpointConfig {
        duplicate_peer: DuplicatePeerPolicy::Reject,
        ..LinkEndpointConfig::default()
    })
    .unwrap();
    pool.insert_session(peer(1), endpoint(1), address(), "first", 0)
        .unwrap();
    assert_eq!(
        pool.insert_session(peer(1), endpoint(2), address(), "second", 0)
            .unwrap_err(),
        PoolError::DuplicatePeer(peer(1))
    );
    assert_eq!(*pool.get(&peer(1)).unwrap().connection(), "first");
}

#[test]
fn heartbeats_and_reconnects_belong_to_one_peer() {
    let mut pool = PeerSessionPool::new(LinkEndpointConfig {
        heartbeat: HeartbeatPolicy {
            idle_interval_ms: 10,
            active_interval_ms: 5,
            mobile_interval_ms: 20,
            background_interval_ms: 100,
            local_ipc_interval_ms: 50,
            unreachable_after_ms: 30,
            dead_after_ms: 60,
        },
        reconnect: ReconnectPolicy::Immediate(RetryLimit {
            max_attempts: 1,
            max_elapsed_ms: 1_000,
        }),
        ..LinkEndpointConfig::default()
    })
    .unwrap();
    pool.insert_session(peer(1), endpoint(1), address(), (), 0)
        .unwrap();
    pool.insert_session(peer(2), endpoint(2), address(), (), 0)
        .unwrap();
    pool.get_mut(&peer(1)).unwrap().observe_transport_ack(39);
    let events = pool.maintenance_tick(40, ConnectionActivityProfile::Idle);
    assert_eq!(
        events,
        vec![
            PoolEvent::Heartbeat {
                peer_id: peer(1),
                action: HeartbeatAction::SuppressedByTransport,
                profile: ConnectionActivityProfile::Idle,
            },
            PoolEvent::Heartbeat {
                peer_id: peer(2),
                action: HeartbeatAction::StateChanged(LivenessState::TemporarilyUnreachable),
                profile: ConnectionActivityProfile::Idle,
            },
        ]
    );
    assert_eq!(
        pool.note_transport_failure(&peer(1), ReconnectFailure::TransportClosed, 50, 0)
            .unwrap(),
        vec![PoolEvent::ReconnectScheduled {
            peer_id: peer(1),
            unix_ms: 50,
            attempt: 1
        }]
    );
    let exhausted = ReconnectAction::Stop(ReconnectStopReason::AttemptsExhausted);
    assert_eq!(
        pool.note_transport_failure(&peer(1), ReconnectFailure::TransportClosed, 51, 0)
            .unwrap(),
        vec![PoolEvent::ReconnectStopped {
            peer_id: peer(1),
            action: exhausted
        }]
    );
    assert!(matches!(
        pool.note_transport_failure(&peer(2), ReconnectFailure::TransportClosed, 52, 0)
            .unwrap()[0],
        PoolEvent::ReconnectScheduled { attempt: 1, .. }
    ));
    assert_eq!(
        pool.note_transport_failure(&peer(9), ReconnectFailure::TransportClosed, 52, 0)
            .unwrap_err(),
        PoolError::UnknownPeer(peer(9))
    );
}

#[test]
fn setups_and_errors_are_told() {
    assert_eq!(
        PeerSessionPool::<()>::new(LinkEndpointConfig {
            server_name: String::new(),
            ..LinkEndpointConfig::default()
        })
        .unwrap_err(),
        PoolError::InvalidConfig("server_name must not be empty")
    );
    assert_eq!(
        PoolError::UnknownPeer(peer(0xab)).display_text(),
        "unknown peer session: abababab\u{2026}"
    );
    let closed = TransportError::new(TransportErrorKind::Closed, "gone");
    let error = PoolError::from(closed);
    assert_eq!(error.kind(), Some(TransportErrorKind::Closed));
    assert_eq!(error.display_text(), "transport error: gone");
    assert_eq!(
        PoolError::PeerLimit.kind(),
        Some(TransportErrorKind::WouldBlock)
    );
    let id = connection_id_of(1, 2);
    assert_eq!(id.as_bytes()[7], 1);
    assert_eq!(id.as_bytes()[15], 2);
}
