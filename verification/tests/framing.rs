use mutsuki_link::framing::{
    encode_frame, framed_error, pause_nanos, FramedState, IoFailure, ReadStep, WriteStep,
};
use mutsuki_link::local::{local_error, LocalPeerCredentials};
use mutsuki_link::tcp::{tcp_error, TcpConfig};
use mutsuki_link::transport::TransportBudget;
use mutsuki_link::transport_error::TransportErrorKind;

fn small() -> TransportBudget {
    TransportBudget {
        control_queue_capacity: 1,
        data_queue_capacity: 1,
        receive_queue_capacity: 1,
        max_frame_bytes: 8,
        data_bytes_per_second: Some(1_000),
        ..TransportBudget::default()
    }
}

fn frame(step: WriteStep) -> (Vec<u8>, bool, Option<u64>) {
    match step {
        WriteStep::Frame {
            message,
            control,
            pause,
        } => (message, control, pause),
        step => panic!("no frame is to be written: {step:?}"),
    }
}

#[test]
fn control_goes_before_saturated_data() {
    let mut state = FramedState::new(small()).unwrap();
    state.try_send(b"data").unwrap();
    assert_eq!(
        state.try_send(b"more").unwrap_err().kind,
        TransportErrorKind::WouldBlock
    );
    state.try_send_control(b"ctl").unwrap();
    assert_eq!(
        state.try_send_control(b"ctl").unwrap_err().kind,
        TransportErrorKind::WouldBlock
    );
    assert_eq!(frame(state.next_write()), (b"ctl".to_vec(), true, None));
    assert_eq!(
        frame(state.next_write()),
        (b"data".to_vec(), false, pause_nanos(Some(1_000), 4))
    );
    assert!(matches!(state.next_write(), WriteStep::Wait));
    state.close_write().unwrap();
    assert!(matches!(state.next_write(), WriteStep::Shutdown));
    assert_eq!(
        state.try_send(b"late").unwrap_err().kind,
        TransportErrorKind::Closed
    );
}

#[test]
fn oversized_and_truncated_frames_end_the_stream() {
    let mut state = FramedState::new(small()).unwrap();
    assert_eq!(
        state.try_send(b"too large").unwrap_err().kind,
        TransportErrorKind::MessageTooLarge
    );
    assert_eq!(state.note_length(8), ReadStep::Body(8));
    assert_eq!(state.note_length(9), ReadStep::Stop);
    assert_eq!(
        state.try_receive().unwrap_err().kind,
        TransportErrorKind::MessageTooLarge
    );

    let mut state = FramedState::new(small()).unwrap();
    state.note_read_failure(IoFailure::UnexpectedEof, false);
    assert_eq!(
        state.try_receive().unwrap_err().kind,
        TransportErrorKind::Closed
    );
}

#[test]
fn read_messages_are_taken_in_order() {
    let mut state = FramedState::new(small()).unwrap();
    assert_eq!(
        state.try_receive().unwrap_err().kind,
        TransportErrorKind::WouldBlock
    );
    assert!(state.has_room());
    assert_eq!(state.note_message(b"one"), ReadStep::Length);
    assert!(!state.has_room());
    assert_eq!(state.try_receive().unwrap(), Some(b"one".to_vec()));
    state.note_read_failure(IoFailure::UnexpectedEof, true);
    assert_eq!(
        state.try_receive().unwrap_err().public_message,
        "transport read side is closed"
    );
    state.close_read();
    assert_eq!(
        state.try_receive().unwrap_err().kind,
        TransportErrorKind::Closed
    );
    state.abort();
    assert_eq!(
        state.try_send(b"x").unwrap_err().kind,
        TransportErrorKind::Closed
    );
    assert!(matches!(state.next_write(), WriteStep::Stop));
}

#[test]
fn frames_begin_with_their_length() {
    assert_eq!(
        encode_frame(b"abc").unwrap(),
        vec![0, 0, 0, 3, b'a', b'b', b'c']
    );
    assert_eq!(pause_nanos(None, 7), None);
    assert_eq!(pause_nanos(Some(3), 1), Some(333_333_334));
    assert_eq!(pause_nanos(Some(1_000), 500), Some(500_000_000));
}

#[test]
fn failures_of_streams_are_told_by_their_kind() {
    for (failure, framed, tcp, local) in [
        (
            IoFailure::TimedOut,
            TransportErrorKind::TimedOut,
            TransportErrorKind::TimedOut,
            TransportErrorKind::TimedOut,
        ),
        (
            IoFailure::WouldBlock,
            TransportErrorKind::WouldBlock,
            TransportErrorKind::WouldBlock,
            TransportErrorKind::WouldBlock,
        ),
        (
            IoFailure::ConnectionReset,
            TransportErrorKind::Aborted,
            TransportErrorKind::Aborted,
            TransportErrorKind::Other,
        ),
        (
            IoFailure::ConnectionRefused,
            TransportErrorKind::Other,
            TransportErrorKind::Closed,
            TransportErrorKind::Closed,
        ),
        (
            IoFailure::BrokenPipe,
            TransportErrorKind::Closed,
            TransportErrorKind::Closed,
            TransportErrorKind::Other,
        ),
        (
            IoFailure::AddressInUse,
            TransportErrorKind::Other,
            TransportErrorKind::AddressInUse,
            TransportErrorKind::AddressInUse,
        ),
        (
            IoFailure::NotFound,
            TransportErrorKind::Other,
            TransportErrorKind::Other,
            TransportErrorKind::Closed,
        ),
    ] {
        assert_eq!(framed_error(failure).kind, framed);
        assert_eq!(tcp_error(failure).kind, tcp);
        assert_eq!(local_error(failure).kind, local);
    }
    assert!(TcpConfig::default().no_delay);
}

#[test]
fn process_numbers_out_of_range_are_none() {
    let of = |process| LocalPeerCredentials::of(process, Some(7), None).process_id;
    assert_eq!(of(Some(12)), Some(12));
    assert_eq!(of(Some(-1)), None);
    assert_eq!(of(Some(0x1_0000_0000)), None);
    assert_eq!(of(None), None);
}

#[test]
fn what_waits_is_written_before_the_end() {
    let mut state = FramedState::new(small()).unwrap();
    state.try_send(b"data").unwrap();
    state.try_send_control(b"ctl").unwrap();
    state.close_write().unwrap();
    state.close_write().unwrap();
    assert_eq!(frame(state.next_write()).0, b"ctl".to_vec());
    assert_eq!(frame(state.next_write()).0, b"data".to_vec());
    assert!(matches!(state.next_write(), WriteStep::Shutdown));
    assert!(matches!(state.next_write(), WriteStep::Stop));

    let mut state = FramedState::new(small()).unwrap();
    state.try_send(b"data").unwrap();
    frame(state.next_write());
    state.note_write_failure(IoFailure::ConnectionReset, false);
    assert!(matches!(state.next_write(), WriteStep::Stop));
    assert_eq!(
        state.try_send(b"x").unwrap_err().kind,
        TransportErrorKind::Closed
    );
}

#[test]
fn budgets_without_room_are_refused() {
    assert_eq!(
        FramedState::new(TransportBudget {
            receive_queue_capacity: 0,
            ..small()
        })
        .unwrap_err()
        .kind,
        TransportErrorKind::Other
    );
    assert_eq!(
        FramedState::new(small()).unwrap().idle_timeout(),
        Some(60_000_000_000)
    );
}

#[test]
fn a_write_begun_before_the_close_fails_for_good() {
    let mut state = FramedState::new(small()).unwrap();
    state.try_send(b"data").unwrap();
    state.try_send_control(b"ctl").unwrap();
    assert_eq!(frame(state.next_write()).0, b"ctl".to_vec());
    state.close_write().unwrap();
    state.note_write_failure(IoFailure::ConnectionReset, true);
    assert!(matches!(state.next_write(), WriteStep::Stop));
    state.note_read_failure(IoFailure::UnexpectedEof, true);
    assert_eq!(
        state.try_receive().unwrap_err().kind,
        TransportErrorKind::Aborted
    );

    let mut state = FramedState::new(small()).unwrap();
    state.try_send(b"data").unwrap();
    state.try_send_control(b"ctl").unwrap();
    state.close_write().unwrap();
    assert_eq!(frame(state.next_write()).0, b"ctl".to_vec());
    state.note_write_failure(IoFailure::ConnectionReset, true);
    assert_eq!(frame(state.next_write()).0, b"data".to_vec());
    assert!(matches!(state.next_write(), WriteStep::Shutdown));
    state.note_read_failure(IoFailure::UnexpectedEof, true);
    assert_eq!(
        state.try_receive().unwrap_err().kind,
        TransportErrorKind::Closed
    );
}
