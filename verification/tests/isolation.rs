use mutsuki_link::channel::{ChannelId, ChannelMode, EnvelopeFlags};
use mutsuki_link::error::{LimitKind, LinkError};
use mutsuki_link::identity::{ProtocolVersion, SessionId, VersionRange};
use mutsuki_link::liveness::{
    ConnectionActivityProfile, HeartbeatAction, HeartbeatController, HeartbeatPolicy,
};
use mutsuki_link::mux::{ChannelConfig, ChannelKey, Envelope, Multiplexer};
use mutsuki_link::mux_model::MultiplexerLimits;
use mutsuki_link::negotiation::{ProtocolOffer, ProtocolSelection};
use mutsuki_link::protocol::{
    ChannelOpenRequest, ProtocolChannel, ProtocolDescriptor, ProtocolRegistry,
    ProtocolRegistryErrorKind, ProtocolRegistryLimits,
};
use mutsuki_link::protocol_ids::{
    ProtocolCapabilitySet, ProtocolChannelId, ProtocolDebugIdentity, SchemaRef,
};
use mutsuki_link::reconnect::{
    ExponentialBackoff, ReconnectAction, ReconnectController, ReconnectFailure, ReconnectPolicy,
    ReconnectStopReason, RetryLimit,
};
use mutsuki_link::transport::CancellationToken;

/// An offer of a protocol whose authority is all that stands before the last dot.
fn offer_of(namespace: &str, supported: VersionRange) -> ProtocolOffer {
    let (authority, name) = namespace.rsplit_once('.').unwrap();
    let identity = ProtocolDebugIdentity::new(authority, name);
    let stable_id = identity.stable_id();
    ProtocolOffer {
        stable_id,
        debug_identity: Some(identity),
        versions: supported,
        schema: SchemaRef::for_contract(authority, name, 1, namespace.as_bytes()),
        capabilities: ProtocolCapabilitySet::empty(stable_id),
    }
}

fn version(major: u16, minor: u16) -> ProtocolVersion {
    ProtocolVersion::new(major, minor)
}

fn range(major: u16, minimum: u16, maximum: u16) -> VersionRange {
    VersionRange::new(version(major, minimum), version(major, maximum))
}

fn release_offer() -> ProtocolOffer {
    offer_of("example.release", range(1, 0, 1))
}

fn release_selection(version: ProtocolVersion) -> ProtocolSelection {
    let offer = release_offer();
    ProtocolSelection {
        stable_id: offer.stable_id,
        version,
        schema: offer.schema,
        capabilities: offer.capabilities,
    }
}


#[test]
fn unknown_protocol_channel_and_malformed_envelopes_are_isolated() {
    let mut registry = ProtocolRegistry::new(ProtocolRegistryLimits::default()).unwrap();
    let offer = release_offer();
    registry
        .register(ProtocolDescriptor {
            stable_id: offer.stable_id,
            debug_identity: offer.debug_identity,
            versions: range(1, 0, 1),
            schema: offer.schema,
            capabilities: offer.capabilities,
            channels: vec![ProtocolChannel {
                id: ProtocolChannelId(1),
                debug_name: Some("control".to_owned()),
                mode: ChannelMode::RequestResponse,
                priority: 0,
                max_frame_bytes: 8,
                max_stream_bytes: None,
                max_in_flight_frames: 1,
                discardable: false,
            }],
        })
        .unwrap();
    let registry = registry.freeze();
    let active = registry
        .activate(&[release_selection(version(1, 1))])
        .unwrap();
    assert_eq!(
        active
            .open_channel(ChannelOpenRequest {
                protocol_id: release_offer().stable_id,
                protocol_channel_id: ProtocolChannelId(99),
                channel_id: ChannelId(1),
                capacity: 1,
            })
            .unwrap_err()
            .kind,
        ProtocolRegistryErrorKind::ChannelNotDefined
    );
    assert_eq!(
        registry
            .activate(&[{
                let offer = offer_of("example.unknown", range(1, 0, 0));
                ProtocolSelection {
                    stable_id: offer.stable_id,
                    version: version(1, 0),
                    schema: offer.schema,
                    capabilities: offer.capabilities,
                }
            }])
            .unwrap_err()
            .kind,
        ProtocolRegistryErrorKind::UnknownProtocol
    );

    let mut mux = Multiplexer::restricted(
        MultiplexerLimits {
            max_frame_bytes: 8,
            max_nesting_depth: 2,
            max_channels: 1,
            control_queue_capacity: 1,
            max_total_pending_frames: 1,
        },
        vec![("example.release".to_owned(), version(1, 1))],
    )
    .unwrap();
    let config = ChannelConfig {
        key: ChannelKey {
            namespace: "example.release".to_owned(),
            version: version(1, 1),
            id: ChannelId(1),
        },
        mode: ChannelMode::RequestResponse,
        priority_hint: 0,
        capacity: 1,
    };
    mux.open_channel(config.clone()).unwrap();
    let malformed = |sequence, nesting_depth, payload: Vec<u8>| Envelope {
        session_id: SessionId::from_bytes([1; 16]),
        channel: config.key.clone(),
        sequence,
        nesting_depth,
        flags: EnvelopeFlags::default(),
        payload,
    };
    assert!(matches!(
        mux.enqueue(malformed(1, 3, vec![])),
        Err(LinkError::LimitExceeded {
            kind: LimitKind::NestingDepth,
            ..
        })
    ));
    assert!(matches!(
        mux.enqueue(malformed(2, 0, vec![0; 9])),
        Err(LinkError::LimitExceeded {
            kind: LimitKind::FrameBytes,
            ..
        })
    ));
    mux.enqueue(malformed(3, 0, vec![1])).unwrap();
    assert!(matches!(
        mux.enqueue(malformed(3, 0, vec![2])),
        Err(LinkError::LimitExceeded {
            kind: LimitKind::PendingFrames,
            ..
        })
    ));
    assert_eq!(mux.pending_frames(), 1);
}

#[test]
fn lifecycle_and_reconnect_storms_remain_quiet_and_bounded() {
    let policy = HeartbeatPolicy::default();
    let mut heartbeat = HeartbeatController::new(policy, 0).unwrap();
    for now in 0..policy.idle_interval_ms {
        assert_eq!(
            heartbeat.tick(now, ConnectionActivityProfile::Idle),
            HeartbeatAction::Quiet
        );
    }
    heartbeat.pause();
    assert_eq!(
        heartbeat.tick(u64::MAX, ConnectionActivityProfile::Background),
        HeartbeatAction::Quiet
    );
    heartbeat.resume(1_000, ConnectionActivityProfile::Mobile);
    assert_eq!(
        heartbeat.tick(1_001, ConnectionActivityProfile::Mobile),
        HeartbeatAction::Quiet
    );

    let mut reconnect = ReconnectController::new(
        ReconnectPolicy::ExponentialBackoff(ExponentialBackoff {
            initial_delay_ms: 10,
            maximum_delay_ms: 1_000,
            multiplier_per_thousand: 2_000,
            jitter_per_thousand: 100,
            limit: RetryLimit {
                max_attempts: 8,
                max_elapsed_ms: 30_000,
            },
        }),
        CancellationToken::default(),
    )
    .unwrap();
    for attempt in 1..=8 {
        assert!(matches!(
            reconnect.after_failure(ReconnectFailure::NetworkChanged, u64::from(attempt), 500),
            ReconnectAction::AttemptAt { attempt: observed, .. } if observed == attempt
        ));
    }
    for _ in 0..10_000 {
        assert_eq!(
            reconnect.after_failure(ReconnectFailure::TransportClosed, 100, 500),
            ReconnectAction::Stop(ReconnectStopReason::AttemptsExhausted)
        );
    }
}

