//! Connections over TCP, which is plaintext at this layer.

use vstd::prelude::*;
use crate::framing::IoFailure;
use crate::selection::SecurityLevel;
use crate::transport::TransportBudget;
use crate::transport_error::{TransportError, TransportErrorKind};

verus! {

/// How a connection over TCP is made. Times are in nanoseconds.
#[derive(Clone, Copy, Debug, Eq, PartialEq, Structural)]
pub struct TcpConfig {
    pub budget: TransportBudget,
    pub connect_timeout: u64,
    pub keepalive: Option<u64>,
    pub no_delay: bool,
}

impl Default for TcpConfig {
    fn default() -> (config: Self)
        ensures
            config == (TcpConfig {
                budget: TransportBudget {
                    max_connections: 64,
                    max_concurrent_streams: 64,
                    control_queue_capacity: 32,
                    data_queue_capacity: 128,
                    receive_queue_capacity: 128,
                    max_frame_bytes: 1048576,
                    control_bytes_per_second: None,
                    data_bytes_per_second: None,
                    receive_bytes_per_second: None,
                    idle_timeout: Some(60_000_000_000),
                },
                connect_timeout: 10_000_000_000,
                keepalive: Some(30_000_000_000),
                no_delay: true,
            }),
    {
        TcpConfig {
            budget: TransportBudget::default(),
            connect_timeout: 10_000_000_000,
            keepalive: Some(30_000_000_000),
            no_delay: true,
        }
    }
}

/// How secure a connection over TCP is: not at all, by itself.
#[verifier::allow_in_spec]
pub fn security_level() -> SecurityLevel
    returns
        SecurityLevel::Plaintext,
{
    SecurityLevel::Plaintext
}

/// What a failure of TCP is told as.
#[verifier::allow_in_spec]
pub fn tcp_error(failure: IoFailure) -> TransportError
    returns
        TransportError::new(
            match failure {
                IoFailure::AddressInUse => TransportErrorKind::AddressInUse,
                IoFailure::TimedOut => TransportErrorKind::TimedOut,
                IoFailure::WouldBlock => TransportErrorKind::WouldBlock,
                IoFailure::ConnectionAborted
                | IoFailure::ConnectionReset => TransportErrorKind::Aborted,
                IoFailure::BrokenPipe
                | IoFailure::ConnectionRefused
                | IoFailure::UnexpectedEof => TransportErrorKind::Closed,
                _ => TransportErrorKind::Other,
            },
            "TCP transport operation failed",
        ),
{
    TransportError::new(
        match failure {
            IoFailure::AddressInUse => TransportErrorKind::AddressInUse,
            IoFailure::TimedOut => TransportErrorKind::TimedOut,
            IoFailure::WouldBlock => TransportErrorKind::WouldBlock,
            IoFailure::ConnectionAborted
            | IoFailure::ConnectionReset => TransportErrorKind::Aborted,
            IoFailure::BrokenPipe
            | IoFailure::ConnectionRefused
            | IoFailure::UnexpectedEof => TransportErrorKind::Closed,
            _ => TransportErrorKind::Other,
        },
        "TCP transport operation failed",
    )
}

#[verifier::allow_in_spec]
pub fn connection_limit() -> TransportError
    returns
        TransportError::new(TransportErrorKind::WouldBlock, "TCP connection limit reached"),
{
    TransportError::new(TransportErrorKind::WouldBlock, "TCP connection limit reached")
}

#[verifier::allow_in_spec]
pub fn connect_timed_out() -> TransportError
    returns
        TransportError::new(TransportErrorKind::TimedOut, "TCP connection timed out"),
{
    TransportError::new(TransportErrorKind::TimedOut, "TCP connection timed out")
}

/// What failed on a TCP connection is told by what it was; an address that is taken is
/// told as such.
pub proof fn failures_keep_their_kind(failure: IoFailure)
    ensures
        failure == IoFailure::TimedOut ==> tcp_error(failure).kind == TransportErrorKind::TimedOut,
        failure == IoFailure::WouldBlock ==> tcp_error(failure).kind == TransportErrorKind::WouldBlock,
        failure == IoFailure::AddressInUse ==> tcp_error(failure).kind == TransportErrorKind::AddressInUse,
        failure == IoFailure::ConnectionAborted || failure == IoFailure::ConnectionReset ==> tcp_error(
            failure,
        ).kind == TransportErrorKind::Aborted,
        failure == IoFailure::BrokenPipe || failure == IoFailure::ConnectionRefused || failure
            == IoFailure::UnexpectedEof ==> tcp_error(failure).kind == TransportErrorKind::Closed,
        failure == IoFailure::NotFound || failure == IoFailure::Other ==> tcp_error(failure).kind
            == TransportErrorKind::Other,
        security_level() is Plaintext,
{
}

} // verus!
