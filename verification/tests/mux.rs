use mutsuki_link::channel::{ChannelId, ChannelMode, EnvelopeFlags};
use mutsuki_link::error::{LimitKind, LinkError};
use mutsuki_link::identity::{ProtocolVersion, SessionId};
use mutsuki_link::mux::{ChannelConfig, ChannelKey, Envelope, Multiplexer, OutboundFrame};
use mutsuki_link::mux_model::{MultiplexerLimits, QueueAdmission};

fn channel(id: u32, namespace: &str, capacity: usize) -> ChannelConfig {
    ChannelConfig {
        key: ChannelKey {
            namespace: namespace.to_owned(),
            version: ProtocolVersion::new(1, 0),
            id: ChannelId(id),
        },
        mode: ChannelMode::Stream,
        priority_hint: 0,
        capacity,
    }
}

fn prioritized_channel(
    id: u32,
    namespace: &str,
    capacity: usize,
    priority_hint: u8,
) -> ChannelConfig {
    ChannelConfig {
        priority_hint,
        ..channel(id, namespace, capacity)
    }
}

fn envelope(config: &ChannelConfig, payload: &[u8]) -> Envelope {
    Envelope {
        session_id: SessionId::from_bytes([1; 16]),
        channel: config.key.clone(),
        sequence: 1,
        nesting_depth: 0,
        flags: EnvelopeFlags::default(),
        payload: payload.to_vec(),
    }
}

#[test]
fn slow_data_channel_does_not_block_control_or_other_namespace() {
    let mut mux = Multiplexer::new(MultiplexerLimits::default()).unwrap();
    let slow = channel(1, "mutsuki.files", 1);
    let control_plane = channel(2, "mutsuki.distributed", 2);
    mux.open_channel(slow.clone()).unwrap();
    mux.open_channel(control_plane.clone()).unwrap();
    mux.enqueue(envelope(&slow, b"large")).unwrap();
    assert!(matches!(
        mux.enqueue(envelope(&slow, b"blocked")),
        Err(LinkError::Backpressure { channel: 1, .. })
    ));
    mux.enqueue(envelope(&control_plane, b"health")).unwrap();
    mux.enqueue_control(b"drain".to_vec()).unwrap();

    assert_eq!(
        mux.next_outbound(),
        Some(OutboundFrame::Control(b"drain".to_vec()))
    );
    assert!(
        matches!(mux.next_outbound(), Some(OutboundFrame::Data(value)) if value.payload == b"large")
    );
    assert!(
        matches!(mux.next_outbound(), Some(OutboundFrame::Data(value)) if value.payload == b"health")
    );
}

#[test]
fn namespace_and_version_are_part_of_channel_identity() {
    let mut mux = Multiplexer::new(MultiplexerLimits::default()).unwrap();
    let lilia = channel(1, "mutsuki.lilia", 2);
    let distributed = channel(2, "mutsuki.distributed", 2);
    mux.open_channel(lilia).unwrap();
    mux.open_channel(distributed).unwrap();
    assert_eq!(
        mux.channels_for("mutsuki.lilia", ProtocolVersion::new(1, 0)),
        vec![ChannelId(1)]
    );
    assert_eq!(
        mux.channels_for("mutsuki.distributed", ProtocolVersion::new(1, 0)),
        vec![ChannelId(2)]
    );
}

#[test]
fn priority_hint_changes_data_share_without_starving_low_priority() {
    let mut mux = Multiplexer::new(MultiplexerLimits::default()).unwrap();
    let low = prioritized_channel(1, "example.low", 64, 0);
    let high = prioritized_channel(2, "example.high", 64, u8::MAX);
    mux.open_channel(low.clone()).unwrap();
    mux.open_channel(high.clone()).unwrap();
    for sequence in 0..64 {
        let mut low_frame = envelope(&low, &[1; 64]);
        low_frame.sequence = sequence;
        mux.enqueue(low_frame).unwrap();
        let mut high_frame = envelope(&high, &[2; 64]);
        high_frame.sequence = sequence;
        mux.enqueue(high_frame).unwrap();
    }

    let mut low_count = 0;
    let mut high_count = 0;
    for _ in 0..18 {
        match mux.next_outbound().unwrap() {
            OutboundFrame::Data(frame) if frame.channel.id == low.key.id => low_count += 1,
            OutboundFrame::Data(frame) if frame.channel.id == high.key.id => high_count += 1,
            frame => panic!("unexpected frame: {frame:?}"),
        }
    }
    assert_eq!(low_count, 2);
    assert_eq!(high_count, 16);
}

#[test]
fn weighted_fair_scheduler_accounts_for_payload_bytes() {
    let mut mux = Multiplexer::new(MultiplexerLimits::default()).unwrap();
    let low = prioritized_channel(1, "example.low", 8, 0);
    let high = prioritized_channel(2, "example.high", 8, u8::MAX);
    mux.open_channel(low.clone()).unwrap();
    mux.open_channel(high.clone()).unwrap();
    for sequence in 0..8 {
        let mut low_frame = envelope(&low, &[1; 64]);
        low_frame.sequence = sequence;
        mux.enqueue(low_frame).unwrap();
        let mut high_frame = envelope(&high, &[2; 512]);
        high_frame.sequence = sequence;
        mux.enqueue(high_frame).unwrap();
    }

    let channels = (0..8)
        .map(|_| match mux.next_outbound().unwrap() {
            OutboundFrame::Data(frame) => frame.channel.id,
            OutboundFrame::Control(frame) => panic!("unexpected control frame: {frame:?}"),
        })
        .collect::<Vec<_>>();
    assert_eq!(
        channels,
        vec![
            low.key.id,
            high.key.id,
            low.key.id,
            high.key.id,
            low.key.id,
            high.key.id,
            low.key.id,
            high.key.id,
        ]
    );
}

#[test]
fn each_refusal_of_a_frame_has_its_error() {
    let limits = MultiplexerLimits {
        max_frame_bytes: 4,
        max_nesting_depth: 1,
        max_channels: 1,
        control_queue_capacity: 1,
        max_total_pending_frames: 2,
    };
    assert!(matches!(
        Multiplexer::new(MultiplexerLimits {
            max_channels: 0,
            ..limits
        }),
        Err(LinkError::InvalidInput(_))
    ));
    let mut mux = Multiplexer::new(limits).unwrap();
    assert!(matches!(
        mux.open_channel(channel(0, "example.a", 1)),
        Err(LinkError::InvalidInput(_))
    ));
    let one = channel(1, "example.a", 4);
    mux.open_channel(one.clone()).unwrap();
    assert_eq!(
        mux.open_channel(channel(2, "example.b", 1)),
        Err(LinkError::LimitExceeded {
            kind: LimitKind::Channels,
            limit: 1
        })
    );
    assert_eq!(
        mux.enqueue(envelope(&channel(9, "example.a", 1), b"x")),
        Err(LinkError::UnknownChannel(9))
    );
    assert_eq!(
        mux.enqueue(envelope(&one, b"large")),
        Err(LinkError::LimitExceeded {
            kind: LimitKind::FrameBytes,
            limit: 4
        })
    );
    let mut deep = envelope(&one, b"x");
    deep.nesting_depth = 2;
    assert_eq!(
        mux.enqueue(deep),
        Err(LinkError::LimitExceeded {
            kind: LimitKind::NestingDepth,
            limit: 1
        })
    );
    mux.enqueue(envelope(&one, b"a")).unwrap();
    mux.enqueue(envelope(&one, b"b")).unwrap();
    assert_eq!(mux.pending_frames(), 2);
    assert_eq!(mux.cancel_channel(ChannelId(1)), Ok(2));
    assert_eq!(mux.pending_frames(), 0);
    assert_eq!(
        mux.enqueue(envelope(&one, b"c")),
        Err(LinkError::ChannelCancelled(1))
    );
    mux.enqueue_control(b"x".to_vec()).unwrap();
    assert!(matches!(
        mux.enqueue_control(b"y".to_vec()),
        Err(LinkError::Backpressure { channel: 0, .. })
    ));
    assert_eq!(mux.discard_all(), 1);
    assert_eq!(mux.storage_snapshot().pending_frames, 0);
    assert_eq!(mux.storage_snapshot().channel_count, 1);
}

#[test]
fn discardable_frames_are_dropped_instead_of_refused() {
    let mut mux = Multiplexer::new(MultiplexerLimits::default()).unwrap();
    let mut one = channel(1, "example.a", 1);
    mux.open_channel(channel(2, "example.b", 1)).unwrap();
    assert!(matches!(
        mux.enqueue_discardable(envelope(&channel(2, "example.b", 1), b"a")),
        Err(LinkError::InvalidInput(_))
    ));
    one.mode = ChannelMode::Event;
    mux.open_channel(one.clone()).unwrap();
    assert_eq!(
        mux.enqueue_discardable(envelope(&one, b"a")),
        Ok(QueueAdmission::Enqueued)
    );
    assert_eq!(
        mux.enqueue_discardable(envelope(&one, b"b")),
        Ok(QueueAdmission::DroppedDiscardable)
    );
    assert_eq!(mux.pending_frames(), 1);
}

#[test]
fn channels_of_equal_cost_take_turns() {
    let mut mux = Multiplexer::new(MultiplexerLimits::default()).unwrap();
    let first = channel(1, "example.first", 4);
    let second = channel(2, "example.second", 4);
    mux.open_channel(first.clone()).unwrap();
    mux.open_channel(second.clone()).unwrap();
    for _ in 0..3 {
        mux.enqueue(envelope(&first, b"same")).unwrap();
    }
    for _ in 0..3 {
        mux.enqueue(envelope(&second, b"size")).unwrap();
    }
    let mut order = Vec::new();
    while let Some(OutboundFrame::Data(value)) = mux.next_outbound() {
        order.push(value.channel.id.0);
    }
    assert_eq!(order, vec![1, 2, 1, 2, 1, 2]);
}

#[test]
fn errors_of_a_link_are_shown_with_what_they_carry() {
    let errors = [
        LinkError::InvalidInput("a \"name\" is missing"),
        LinkError::InvalidState("closed\n"),
        LinkError::LimitExceeded {
            kind: LimitKind::FrameBytes,
            limit: 1024,
        },
        LinkError::LimitExceeded {
            kind: LimitKind::EventSubscribers,
            limit: 0,
        },
        LinkError::Backpressure {
            channel: 1,
            capacity: 20,
        },
        LinkError::UnknownChannel(7),
        LinkError::ChannelCancelled(u32::MAX),
        LinkError::NamespaceConflict,
        LinkError::Closed,
    ];
    for error in errors {
        assert_eq!(error.display_text(), format!("{error:?}"));
    }
    assert_eq!(
        LinkError::InvalidInput("empty").display_text(),
        "InvalidInput(\"empty\")"
    );
    for kind in [
        LimitKind::NestingDepth,
        LimitKind::Channels,
        LimitKind::PendingFrames,
        LimitKind::ProtocolOffers,
        LimitKind::IdentityProofBytes,
    ] {
        assert_eq!(kind.name(), format!("{kind:?}"));
    }
}
