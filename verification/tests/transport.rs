use mutsuki_link::identity::EndpointId;
use mutsuki_link::memory_transport::{MemoryTransportConfig, memory_transport_pair};
use mutsuki_link::protocol::ProtocolId;
use mutsuki_link::transport::{
    CancellationToken, ConnectContext, Connection, OperationContext, TransportBudget,
    frame_control_message, unframe_received,
};
use mutsuki_link::transport_error::{TransportError, TransportErrorKind};

/// Some moment, in nanoseconds.
const NOW: u64 = 1_000_000_000_000;

fn endpoint(value: u8) -> EndpointId {
    EndpointId::from_bytes([value; 16])
}

#[test]
fn memory_transport_is_bounded_and_supports_half_close() {
    let config = MemoryTransportConfig {
        queue_capacity: 1,
        max_message_bytes: 4,
        datagram_capacity: 1,
    };
    let (mut left, mut right) = memory_transport_pair(endpoint(1), endpoint(2), config);
    left.try_send(b"ping").unwrap();
    assert_eq!(
        left.try_send(b"more").unwrap_err().kind,
        TransportErrorKind::WouldBlock
    );
    assert_eq!(right.try_receive().unwrap(), Some(b"ping".to_vec()));
    left.close_write().unwrap();
    assert_eq!(right.try_receive().unwrap(), None);
    assert_eq!(
        left.try_send(b"x").unwrap_err().kind,
        TransportErrorKind::Closed
    );
}

#[test]
fn cancellation_and_deadline_are_explicit() {
    let token = CancellationToken::default();
    token.cancel();
    let context = ConnectContext {
        deadline: None,
        cancellation: token,
    };
    assert_eq!(
        context.check(NOW).unwrap_err().kind,
        TransportErrorKind::Cancelled
    );
}

#[test]
fn protocol_bound_control_stream_round_trips_and_rejects_cross_protocol_frames() {
    let (mut left, mut right) =
        memory_transport_pair(endpoint(1), endpoint(2), MemoryTransportConfig::default());
    let protocol = ProtocolId::new("mutsuki.control-test").unwrap();
    left.open_control_stream(protocol.clone())
        .unwrap()
        .try_send(b"hello")
        .unwrap();
    assert_eq!(
        right
            .open_control_stream(protocol)
            .unwrap()
            .try_receive()
            .unwrap(),
        Some(b"hello".to_vec())
    );

    let sender = ProtocolId::new("mutsuki.sender").unwrap();
    let receiver = ProtocolId::new("mutsuki.receiver").unwrap();
    left.open_control_stream(sender)
        .unwrap()
        .try_send(b"wrong namespace")
        .unwrap();
    assert_eq!(
        right
            .open_control_stream(receiver)
            .unwrap()
            .try_receive()
            .unwrap_err()
            .kind,
        TransportErrorKind::Other
    );
}

#[test]
fn datagrams_and_aborts_of_the_memory_transport() {
    let config = MemoryTransportConfig {
        queue_capacity: 1,
        max_message_bytes: 4,
        datagram_capacity: 1,
    };
    let (mut left, mut right) = memory_transport_pair(endpoint(1), endpoint(2), config);
    assert_eq!(
        left.try_send(b"large").unwrap_err().kind,
        TransportErrorKind::MessageTooLarge
    );
    assert_eq!(
        right.try_receive().unwrap_err().kind,
        TransportErrorKind::WouldBlock
    );
    left.try_send_datagram(b"one").unwrap();
    assert_eq!(
        left.try_send_datagram(b"two").unwrap_err().kind,
        TransportErrorKind::WouldBlock
    );
    assert_eq!(
        right.try_receive_datagram().unwrap(),
        Some(b"one".to_vec())
    );
    right.close_read().unwrap();
    assert_eq!(
        right.try_receive().unwrap_err().kind,
        TransportErrorKind::Closed
    );
    right.abort();
    assert_eq!(
        left.try_send(b"x").unwrap_err().kind,
        TransportErrorKind::Aborted
    );
    assert_eq!(
        right.try_receive().unwrap_err().kind,
        TransportErrorKind::Aborted
    );
    right.try_send(b"y").unwrap();
    assert_eq!(left.try_receive().unwrap(), Some(b"y".to_vec()));

    let without = MemoryTransportConfig {
        datagram_capacity: 0,
        ..config
    };
    let (mut left, _right) = memory_transport_pair(endpoint(1), endpoint(2), without);
    assert_eq!(
        left.try_send_datagram(b"x").unwrap_err().kind,
        TransportErrorKind::Unsupported
    );
}

#[test]
fn deadlines_are_checked_against_the_clock() {
    let context = OperationContext {
        deadline: Some(NOW),
        ..OperationContext::default()
    };
    assert!(context.check(NOW - 1).is_ok());
    assert_eq!(
        context.check(NOW).unwrap_err().kind,
        TransportErrorKind::TimedOut
    );
}

#[test]
fn budgets_must_be_positive() {
    assert!(TransportBudget::default().validate().is_ok());
    for budget in [
        TransportBudget {
            max_connections: 0,
            ..TransportBudget::default()
        },
        TransportBudget {
            data_bytes_per_second: Some(0),
            ..TransportBudget::default()
        },
    ] {
        assert_eq!(
            budget.validate().unwrap_err().kind,
            TransportErrorKind::Other
        );
    }
}

#[test]
fn messages_arrive_as_they_were_sent() {
    let config = MemoryTransportConfig {
        queue_capacity: 3,
        max_message_bytes: 8,
        datagram_capacity: 0,
    };
    let (mut left, mut right) = memory_transport_pair(endpoint(1), endpoint(2), config);
    for message in [b"one".as_slice(), b"two", b"three"] {
        left.try_send(message).unwrap();
    }
    right.try_send(b"back").unwrap();
    assert_eq!(right.try_receive().unwrap(), Some(b"one".to_vec()));
    assert_eq!(right.try_receive().unwrap(), Some(b"two".to_vec()));
    assert_eq!(left.try_receive().unwrap(), Some(b"back".to_vec()));
    left.close_write().unwrap();
    assert_eq!(right.try_receive().unwrap(), Some(b"three".to_vec()));
    assert_eq!(right.try_receive().unwrap(), None);
}

#[test]
fn what_came_over_a_connection_is_unframed() {
    let protocol = ProtocolId::new("mutsuki.control-test").unwrap();
    let other = ProtocolId::new("mutsuki.other").unwrap();
    let frame = frame_control_message(&protocol, b"hello").unwrap();
    assert_eq!(
        unframe_received(Ok(Some(frame.clone())), &protocol).unwrap(),
        Some(b"hello".to_vec())
    );
    assert_eq!(
        unframe_received(Ok(Some(frame)), &other).unwrap_err().kind,
        TransportErrorKind::Other
    );
    assert_eq!(unframe_received(Ok(None), &protocol).unwrap(), None);
    let fault = TransportError::new(TransportErrorKind::WouldBlock, "no message is ready");
    assert_eq!(
        unframe_received(Err(fault.clone()), &protocol).unwrap_err(),
        fault
    );
}

#[test]
fn what_an_end_sends_only_the_other_receives() {
    let (mut left, mut right) =
        memory_transport_pair(endpoint(1), endpoint(2), MemoryTransportConfig::default());
    left.try_send(b"to the right").unwrap();
    assert_eq!(
        left.try_receive().unwrap_err().kind,
        TransportErrorKind::WouldBlock
    );
    right.try_send(b"to the left").unwrap();
    assert_eq!(right.try_receive().unwrap(), Some(b"to the right".to_vec()));
    assert_eq!(left.try_receive().unwrap(), Some(b"to the left".to_vec()));
}
