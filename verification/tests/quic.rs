use mutsuki_link::datagram_receive::DatagramReceiveState;
use mutsuki_link::quic::{
    connection_error, control_is_first, datagram_error, estimated_rate,
    no_datagram, payload_limit, quality_of, raw_datagram_limit, transport_limits,
    DatagramFailure, IdleLimits, PathReport, PollStep, QuicDatagrams, QuicFailure, QuicOptions,
    StreamKind,
};
use mutsuki_link::realtime::{
    decode_realtime_datagram, encode_realtime_datagram, QueuedRealtimeDatagram, RealtimeDatagram,
    RealtimeFlowId, RealtimePriority, SendOutcome,
};
use mutsuki_link::transport::{connect_time, TransportBudget};
use mutsuki_link::transport_error::TransportErrorKind;

/// Some moment, in nanoseconds.
const NOW: u64 = 1_000_000_000_000;

fn secs(n: u64) -> u64 {
    n * 1_000_000_000
}

#[test]
fn zero_rtt_control_is_rejected() {
    let error = QuicOptions {
        enable_zero_rtt: true,
        ..QuicOptions::default()
    }
    .validate()
    .unwrap_err();
    assert_eq!(error.kind, TransportErrorKind::Unsupported);
}

#[test]
fn bounded_receive_queue_drops_oldest_datagram_and_tracks_flow() {
    let now = NOW;
    let mut receive = DatagramReceiveState::new(2);
    for sequence in 0..8 {
        let queued = QueuedRealtimeDatagram {
            flow: RealtimeFlowId(5),
            generation: 1,
            sequence,
            deadline: now + secs(1),
            priority: RealtimePriority::Disposable,
            payload: vec![u8::try_from(sequence).unwrap()],
        };
        receive.push(encode_realtime_datagram(&queued).unwrap(), now);
    }
    assert_eq!(receive.overflow(), 6);
    assert_eq!(
        receive
            .flow_stats(RealtimeFlowId(5))
            .unwrap()
            .receive_queue_overflow,
        6
    );
    let remaining: Vec<_> = [receive.pop().unwrap(), receive.pop().unwrap()]
        .into_iter()
        .map(|message| {
            decode_realtime_datagram(&message.payload, message.received_at)
                .unwrap()
                .sequence
        })
        .collect();
    assert_eq!(remaining, vec![6, 7]);
}

#[test]
fn prefaces_name_their_streams() {
    for kind in [StreamKind::Control, StreamKind::Data] {
        assert_eq!(StreamKind::from_preface(&kind.preface()).unwrap(), kind);
    }
    assert_ne!(StreamKind::Control.preface(), StreamKind::Data.preface());
    let mut bent = StreamKind::Control.preface();
    bent[0] ^= 1;
    assert_eq!(
        StreamKind::from_preface(&bent).unwrap_err().kind,
        TransportErrorKind::Other
    );
    assert!(control_is_first(StreamKind::Control, StreamKind::Data).unwrap());
    assert!(!control_is_first(StreamKind::Data, StreamKind::Control).unwrap());
    assert_eq!(
        control_is_first(StreamKind::Data, StreamKind::Data)
            .unwrap_err()
            .kind,
        TransportErrorKind::Other
    );
}

#[test]
fn budgets_become_limits_of_the_protocol() {
    let limits = transport_limits(QuicOptions::default()).unwrap();
    assert_eq!(limits.bidirectional_streams, 64);
    assert_eq!(limits.datagram_buffer, Some(1_048_576 * 128));
    assert_eq!(
        limits.idle,
        Some(IdleLimits {
            timeout: secs(60),
            keep_alive: secs(20)
        })
    );
    let few = QuicOptions {
        budget: TransportBudget {
            max_concurrent_streams: 1,
            ..TransportBudget::default()
        },
        ..QuicOptions::default()
    };
    assert_eq!(
        transport_limits(few).unwrap_err().kind,
        TransportErrorKind::Other
    );
    assert_eq!(connect_time(None, NOW, secs(10)), secs(10));
    assert_eq!(connect_time(Some(NOW + secs(3)), NOW, secs(10)), secs(3));
    assert_eq!(connect_time(Some(NOW - 1), NOW, secs(10)), 0);
}

#[test]
fn failures_are_told_by_their_kind() {
    assert_eq!(
        datagram_error(DatagramFailure::TooLarge).kind,
        TransportErrorKind::MessageTooLarge
    );
    assert_eq!(
        datagram_error(DatagramFailure::Disabled).kind,
        TransportErrorKind::Unsupported
    );
    assert_eq!(
        datagram_error(DatagramFailure::ConnectionLost).kind,
        TransportErrorKind::Closed
    );
    assert_eq!(
        connection_error(QuicFailure::TimedOut).kind,
        TransportErrorKind::TimedOut
    );
    assert_eq!(
        connection_error(QuicFailure::LocallyClosed).kind,
        TransportErrorKind::Closed
    );
    assert_eq!(
        connection_error(QuicFailure::Other).kind,
        TransportErrorKind::Aborted
    );
    assert_eq!(no_datagram(false).kind, TransportErrorKind::WouldBlock);
    assert_eq!(no_datagram(true).kind, TransportErrorKind::Closed);
}

#[test]
fn paths_bound_what_a_datagram_carries() {
    assert_eq!(raw_datagram_limit(Some(1_200), 1_000), 1_000);
    assert_eq!(raw_datagram_limit(None, 1_000), 0);
    assert_eq!(payload_limit(10), 0);
    // One window of 12 500 bytes in 100 milliseconds is a megabit a second.
    assert_eq!(estimated_rate(12_500, 100_000), Some(1_000_000));
    assert_eq!(estimated_rate(12_500, 0), None);
    assert_eq!(quality_of(20).round_trip_millis, Some(20));
    assert_eq!(quality_of(u128::MAX).round_trip_millis, Some(u32::MAX));
}

#[test]
fn datagrams_are_offered_polled_and_settled() {
    let path = PathReport {
        max_datagram_size: Some(1_200),
        remote: vec![127, 0, 0, 1],
        rtt_us: 20_000,
        congestion_window: 12_000,
        congestion_events: 0,
    };
    let mut datagrams =
        QuicDatagrams::new(QuicOptions::default(), Some(1_200), vec![127, 0, 0, 1]).unwrap();
    assert!(datagrams.enabled());
    datagrams.refresh(&path).unwrap();
    let offered = datagrams
        .offer(
            RealtimeDatagram {
                flow: RealtimeFlowId(3),
                generation: 1,
                sequence: 9,
                deadline: NOW + secs(1),
                priority: RealtimePriority::Critical,
                payload: b"voice",
            },
            NOW,
        )
        .unwrap();
    let PollStep::Send { datagram, wire } = datagrams.next_step(NOW, 4_096, 0) else {
        panic!("the datagram is not sent");
    };
    assert_eq!(
        decode_realtime_datagram(&wire, NOW).unwrap().payload,
        b"voice".to_vec()
    );
    datagrams.note_sent(&datagram);
    assert_eq!(datagrams.settle(offered), SendOutcome::Enqueued);
    assert!(matches!(
        datagrams.next_step(NOW, 4_096, 1),
        PollStep::Done
    ));
    assert_eq!(
        datagrams.check_raw(2_000, Some(1_200)).unwrap_err().kind,
        TransportErrorKind::MessageTooLarge
    );
    let without = QuicOptions {
        enable_datagrams: false,
        ..QuicOptions::default()
    };
    let datagrams = QuicDatagrams::new(without, Some(1_200), vec![]).unwrap();
    assert_eq!(
        datagrams.check_raw(1, Some(1_200)).unwrap_err().kind,
        TransportErrorKind::Unsupported
    );
}
