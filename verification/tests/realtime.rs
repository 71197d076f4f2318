use mutsuki_link::realtime::{
    QueuedRealtimeDatagram, RealtimeDatagram, RealtimeFlowId, RealtimePriority,
    RealtimeQueueConfig, SendOutcome, decode_realtime_datagram, encode_realtime_datagram,
    realtime_flow_from_wire,
};
use mutsuki_link::realtime_queue::RealtimeSendQueue;
use mutsuki_link::transport_error::TransportErrorKind;

/// Some moment, in nanoseconds.
const NOW: u64 = 1_000_000_000_000;

fn secs(n: u64) -> u64 {
    n * 1_000_000_000
}

fn millis(n: u64) -> u64 {
    n * 1_000_000
}

fn config(max_flows: usize) -> RealtimeQueueConfig {
    RealtimeQueueConfig {
        max_flows,
        max_datagrams_per_group: 8,
        max_group_bytes: 1024,
    }
}

fn datagram(
    flow: u16,
    generation: u32,
    sequence: u64,
    deadline: u64,
    priority: RealtimePriority,
    payload: &[u8],
) -> RealtimeDatagram<'_> {
    RealtimeDatagram {
        flow: RealtimeFlowId(flow),
        generation,
        sequence,
        deadline,
        priority,
        payload,
    }
}

#[test]
fn newer_sequence_replaces_the_whole_unsent_group() {
    let now = NOW;
    let deadline = now + secs(1);
    let mut queue = RealtimeSendQueue::new(config(2), 100).unwrap();
    assert_eq!(
        queue
            .enqueue(
                datagram(1, 1, 1, deadline, RealtimePriority::Normal, b"old-a"),
                now,
            )
            .unwrap(),
        SendOutcome::Enqueued
    );
    queue
        .enqueue(
            datagram(1, 1, 1, deadline, RealtimePriority::Normal, b"old-b"),
            now,
        )
        .unwrap();
    assert_eq!(
        queue
            .enqueue(
                datagram(1, 1, 2, deadline, RealtimePriority::Normal, b"new"),
                now,
            )
            .unwrap(),
        SendOutcome::ReplacedOlder
    );
    let next = queue.pop_next(now).unwrap();
    assert_eq!(next.sequence, 2);
    assert_eq!(next.payload, b"new");
    assert_eq!(queue.telemetry().replaced, 2);
}

#[test]
fn deadlines_drop_before_enqueue_and_before_transport() {
    let now = NOW;
    let mut queue = RealtimeSendQueue::new(config(2), 100).unwrap();
    assert_eq!(
        queue
            .enqueue(
                datagram(1, 1, 1, now, RealtimePriority::Normal, b"late"),
                now,
            )
            .unwrap(),
        SendOutcome::DroppedExpired
    );
    queue
        .enqueue(
            datagram(
                1,
                1,
                2,
                now + millis(5),
                RealtimePriority::Normal,
                b"pending",
            ),
            now,
        )
        .unwrap();
    assert!(queue.pop_next(now + millis(6)).is_none());
    assert_eq!(queue.telemetry().expired, 2);
}

#[test]
fn flows_are_independent_and_priority_controls_drain_order() {
    let now = NOW;
    let deadline = now + secs(1);
    let mut queue = RealtimeSendQueue::new(config(2), 100).unwrap();
    queue
        .enqueue(
            datagram(1, 1, 1, deadline, RealtimePriority::Disposable, b"media"),
            now,
        )
        .unwrap();
    queue
        .enqueue(
            datagram(2, 1, 1, deadline, RealtimePriority::Critical, b"sensor"),
            now,
        )
        .unwrap();
    assert_eq!(queue.pop_next(now).unwrap().flow, RealtimeFlowId(2));
    assert_eq!(queue.pop_next(now).unwrap().flow, RealtimeFlowId(1));

    let mut saturated = RealtimeSendQueue::new(config(1), 100).unwrap();
    saturated
        .enqueue(
            datagram(1, 1, 1, deadline, RealtimePriority::Disposable, b"old"),
            now,
        )
        .unwrap();
    assert_eq!(
        saturated
            .enqueue(
                datagram(2, 1, 1, deadline, RealtimePriority::Critical, b"critical",),
                now,
            )
            .unwrap(),
        SendOutcome::Enqueued
    );
    assert_eq!(saturated.pop_next(now).unwrap().flow, RealtimeFlowId(2));
    assert_eq!(saturated.telemetry().congestion_dropped, 1);
}

#[test]
fn mtu_and_group_limits_are_structured_and_bounded() {
    let now = NOW;
    let deadline = now + secs(1);
    let mut queue = RealtimeSendQueue::new(config(2), 8).unwrap();
    assert_eq!(
        queue
            .enqueue(
                datagram(1, 1, 1, deadline, RealtimePriority::Normal, &[0; 9],),
                now,
            )
            .unwrap_err()
            .kind,
        TransportErrorKind::MessageTooLarge
    );
    queue
        .enqueue(
            datagram(1, 1, 1, deadline, RealtimePriority::Normal, &[0; 8]),
            now,
        )
        .unwrap();
    queue.set_max_payload(4).unwrap();
    assert_eq!(queue.pending_datagrams(), 0);
    assert_eq!(queue.telemetry().congestion_dropped, 1);
    assert_eq!(queue.telemetry().mtu_change_count, 1);
}

#[test]
fn reconnect_clears_pending_data_and_requires_a_new_generation() {
    let now = NOW;
    let deadline = now + secs(1);
    let mut queue = RealtimeSendQueue::new(config(2), 100).unwrap();
    queue
        .enqueue(
            datagram(1, 7, 9, deadline, RealtimePriority::Normal, b"old"),
            now,
        )
        .unwrap();
    queue.reset_for_reconnect();
    assert_eq!(queue.pending_datagrams(), 0);
    assert_eq!(queue.telemetry().reconnect_count, 1);
    queue
        .enqueue(
            datagram(1, 8, 1, deadline, RealtimePriority::Normal, b"new"),
            now,
        )
        .unwrap();
    assert_eq!(queue.pop_next(now).unwrap().generation, 8);
}

#[test]
fn sustained_congestion_keeps_only_latest_sequence_without_memory_growth() {
    let now = NOW;
    let deadline = now + secs(10);
    let mut queue = RealtimeSendQueue::new(config(1), 100).unwrap();
    for sequence in 0..10_000 {
        queue
            .enqueue(
                datagram(
                    1,
                    1,
                    sequence,
                    deadline,
                    RealtimePriority::Disposable,
                    &[1; 100],
                ),
                now,
            )
            .unwrap();
        assert_eq!(queue.pending_datagrams(), 1);
    }
    let latest = queue.pop_next(now).unwrap();
    assert_eq!(latest.sequence, 9_999);
    assert_eq!(queue.telemetry().replaced, 9_999);
}

#[test]
fn simulated_loss_rtt_and_bandwidth_drop_never_trigger_retransmit_or_backlog() {
    let now = NOW;
    for loss_percent in [0u64, 1, 5] {
        let mut queue = RealtimeSendQueue::new(config(1), 100).unwrap();
        let mut delivered = 0;
        for sequence in 0..100u64 {
            queue
                .enqueue(
                    datagram(
                        1,
                        1,
                        sequence,
                        now + secs(1),
                        RealtimePriority::Disposable,
                        &[1; 32],
                    ),
                    now,
                )
                .unwrap();
            let sent_once = queue.pop_next(now).unwrap();
            if sequence % 100 >= loss_percent {
                delivered += 1;
            }
            queue.note_sent(&sent_once);
            assert_eq!(queue.pending_datagrams(), 0);
        }
        assert_eq!(delivered, 100 - loss_percent);
        assert_eq!(queue.telemetry().sent, 100);
    }

    for rtt_ms in [5, 50, 100] {
        let mut queue = RealtimeSendQueue::new(config(1), 100).unwrap();
        queue
            .enqueue(
                datagram(
                    1,
                    1,
                    1,
                    now + millis(75),
                    RealtimePriority::Normal,
                    b"deadline",
                ),
                now,
            )
            .unwrap();
        assert_eq!(
            queue
                .pop_next(now + millis(rtt_ms))
                .is_some(),
            rtt_ms < 75
        );
    }

    let mut throttled = RealtimeSendQueue::new(config(1), 100).unwrap();
    for sequence in 0..1_000u64 {
        throttled
            .enqueue(
                datagram(
                    1,
                    1,
                    sequence,
                    now + secs(1),
                    RealtimePriority::Disposable,
                    &[2; 100],
                ),
                now,
            )
            .unwrap();
        if sequence < 100 || sequence % 10 == 0 {
            throttled.pop_next(now);
        }
        assert!(throttled.pending_datagrams() <= 1);
    }
    assert_eq!(throttled.pop_next(now).unwrap().sequence, 999);
}

#[test]
fn realtime_wire_preserves_datagram_boundaries_and_metadata() {
    let now = NOW;
    let queued = QueuedRealtimeDatagram {
        flow: RealtimeFlowId(7),
        generation: 11,
        sequence: 42,
        deadline: now + secs(1),
        priority: RealtimePriority::High,
        payload: b"opaque application data".to_vec(),
    };
    let encoded = encode_realtime_datagram(&queued).unwrap();
    assert_eq!(realtime_flow_from_wire(&encoded), Some(RealtimeFlowId(7)));
    let decoded = decode_realtime_datagram(&encoded, now).unwrap();
    assert_eq!(decoded.flow, queued.flow);
    assert_eq!(decoded.generation, queued.generation);
    assert_eq!(decoded.sequence, queued.sequence);
    assert_eq!(decoded.priority, queued.priority);
    assert_eq!(decoded.payload, queued.payload);
}

#[test]
fn wire_simulation_allows_loss_and_reordering_without_hidden_retransmit() {
    let now = NOW;
    for loss_percent in [1u64, 5] {
        let mut wire = Vec::new();
        let mut expected = Vec::new();
        for sequence in 0..100u64 {
            if sequence % 100 < loss_percent {
                continue;
            }
            let queued = QueuedRealtimeDatagram {
                flow: RealtimeFlowId(9),
                generation: 3,
                sequence,
                deadline: now + secs(1),
                priority: RealtimePriority::Disposable,
                payload: sequence.to_be_bytes().to_vec(),
            };
            wire.push(encode_realtime_datagram(&queued).unwrap());
            expected.push(sequence);
        }
        for window in wire.chunks_mut(7) {
            window.reverse();
        }
        let received: Vec<_> = wire
            .iter()
            .map(|encoded| decode_realtime_datagram(encoded, now).unwrap().sequence)
            .collect();
        assert_eq!(received.len(), expected.len());
        let mut reordered = received.clone();
        reordered.sort_unstable();
        assert_eq!(reordered, expected);
        assert_ne!(received, expected);
    }
}

#[test]
fn lower_priorities_make_room_and_wait_behind() {
    let deadline = NOW + secs(1);
    let mut queue = RealtimeSendQueue::new(config(1), 100).unwrap();
    queue
        .enqueue(
            datagram(1, 1, 1, deadline, RealtimePriority::Critical, b"first"),
            NOW,
        )
        .unwrap();
    assert_eq!(
        queue
            .enqueue(
                datagram(2, 1, 1, deadline, RealtimePriority::Normal, b"second"),
                NOW,
            )
            .unwrap(),
        SendOutcome::DroppedCongested
    );
    assert_eq!(queue.congestion_dropped_for_flow(RealtimeFlowId(2)), 1);
    assert_eq!(queue.peek_next_wire_len(NOW), Some(25));
    assert!(queue.pop_next_fitting(NOW, 24).is_none());
    assert_eq!(
        queue.pop_next_fitting(NOW, 25).unwrap().payload,
        b"first".to_vec()
    );
}

#[test]
fn malformed_realtime_datagrams_are_refused() {
    assert!(decode_realtime_datagram(b"short", NOW).is_err());
    assert_eq!(realtime_flow_from_wire(b"short"), None);
    let encoded = encode_realtime_datagram(&QueuedRealtimeDatagram {
        flow: RealtimeFlowId(7),
        generation: 11,
        sequence: 42,
        deadline: NOW,
        priority: RealtimePriority::High,
        payload: Vec::new(),
    })
    .unwrap();
    for at in [0, 4, 5] {
        let mut wire = encoded.clone();
        wire[at] = 0xff;
        assert!(decode_realtime_datagram(&wire, NOW).is_err());
    }
    assert!(RealtimeSendQueue::new(config(0), 100).is_err());
    assert!(RealtimeSendQueue::new(config(1), 0).is_err());
}

#[test]
fn every_datagram_waits_was_taken_or_was_dropped_once() {
    let mut queue = RealtimeSendQueue::new(config(2), 100).unwrap();
    let normal = RealtimePriority::Normal;
    let soon = NOW + millis(1);
    let late = NOW + secs(1);
    let handed_in = [
        datagram(1, 1, 1, late, normal, b"replaced"),
        datagram(1, 1, 2, late, normal, b"taken"),
        datagram(1, 1, 2, late, normal, b"waits"),
        datagram(1, 1, 1, late, normal, b"older"),
        datagram(2, 1, 1, soon, normal, b"expires"),
        datagram(3, 1, 1, late, normal, b"no room"),
        datagram(3, 1, 1, NOW, normal, b"too late"),
    ];
    let count = handed_in.len();
    for one in handed_in {
        queue.enqueue(one, NOW).unwrap();
    }
    assert!(
        queue
            .enqueue(datagram(1, 1, 2, late, normal, &[0; 101]), NOW)
            .is_err()
    );
    let taken = queue.pop_next(NOW + millis(1)).unwrap();
    assert_eq!(taken.payload, b"taken".to_vec());
    let counted = queue.telemetry();
    assert_eq!(counted.pending, 1);
    assert_eq!(counted.replaced, 1);
    assert_eq!(counted.expired, 2);
    assert_eq!(counted.congestion_dropped, 2);
    assert_eq!(
        counted.pending as u64
            + 1
            + counted.replaced
            + counted.expired
            + counted.congestion_dropped,
        count as u64
    );
    assert_eq!(counted.clone(), counted);
}
