//! Connections between processes of one machine.

use vstd::prelude::*;
use crate::framing::IoFailure;
use crate::transport_error::{TransportError, TransportErrorKind};

verus! {

/// The name under which a process of this machine can be reached.
#[derive(Clone, Debug, Eq, PartialEq)]
pub struct LocalAddress(pub String);

impl View for LocalAddress {
    type V = Seq<char>;

    open spec fn view(&self) -> Seq<char> {
        self.0@
    }
}

/// Who the other process is, as far as the system tells.
#[derive(Clone, Copy, Debug, Eq, PartialEq, Structural)]
pub struct LocalPeerCredentials {
    pub process_id: Option<u32>,
    pub effective_user_id: Option<u32>,
    pub effective_group_id: Option<u32>,
}

impl LocalPeerCredentials {
    /// What the system tells of the other process. A process number that is negative
    /// or too large is none.
    pub fn of(process: Option<i64>, user: Option<u32>, group: Option<u32>) -> (credentials: Self)
        ensures
            credentials == (LocalPeerCredentials {
                process_id: match process {
                    Some(n) => if 0 <= n <= u32::MAX {
                        Some(n as u32)
                    } else {
                        None
                    },
                    None => None,
                },
                effective_user_id: user,
                effective_group_id: group,
            }),
    {
        LocalPeerCredentials {
            process_id: match process {
                Some(n) => if 0 <= n && n <= 0xffff_ffff {
                    Some(n as u32)
                } else {
                    None
                },
                None => None,
            },
            effective_user_id: user,
            effective_group_id: group,
        }
    }
}

/// What a failure of a local connection is told as.
#[verifier::allow_in_spec]
pub fn local_error(failure: IoFailure) -> TransportError
    returns
        TransportError::new(
            match failure {
                IoFailure::AddressInUse => TransportErrorKind::AddressInUse,
                IoFailure::TimedOut => TransportErrorKind::TimedOut,
                IoFailure::WouldBlock => TransportErrorKind::WouldBlock,
                IoFailure::NotFound | IoFailure::ConnectionRefused => TransportErrorKind::Closed,
                _ => TransportErrorKind::Other,
            },
            "local transport operation failed",
        ),
{
    TransportError::new(
        match failure {
            IoFailure::AddressInUse => TransportErrorKind::AddressInUse,
            IoFailure::TimedOut => TransportErrorKind::TimedOut,
            IoFailure::WouldBlock => TransportErrorKind::WouldBlock,
            IoFailure::NotFound | IoFailure::ConnectionRefused => TransportErrorKind::Closed,
            _ => TransportErrorKind::Other,
        },
        "local transport operation failed",
    )
}

#[verifier::allow_in_spec]
pub fn connection_limit() -> TransportError
    returns
        TransportError::new(TransportErrorKind::WouldBlock, "local connection limit reached"),
{
    TransportError::new(TransportErrorKind::WouldBlock, "local connection limit reached")
}

#[verifier::allow_in_spec]
pub fn connect_timed_out() -> TransportError
    returns
        TransportError::new(TransportErrorKind::TimedOut, "local connection timed out"),
{
    TransportError::new(TransportErrorKind::TimedOut, "local connection timed out")
}

/// What failed on a local connection is told by what it was: a place that nobody listens at
/// is closed, and one that is taken is in use.
pub proof fn failures_keep_their_kind(failure: IoFailure)
    ensures
        failure == IoFailure::TimedOut ==> local_error(failure).kind == TransportErrorKind::TimedOut,
        failure == IoFailure::WouldBlock ==> local_error(failure).kind == TransportErrorKind::WouldBlock,
        failure == IoFailure::AddressInUse ==> local_error(failure).kind
            == TransportErrorKind::AddressInUse,
        failure == IoFailure::NotFound || failure == IoFailure::ConnectionRefused ==> local_error(
            failure,
        ).kind == TransportErrorKind::Closed,
        failure == IoFailure::ConnectionAborted || failure == IoFailure::ConnectionReset || failure
            == IoFailure::BrokenPipe || failure == IoFailure::UnexpectedEof || failure == IoFailure::Other
            ==> local_error(failure).kind == TransportErrorKind::Other,
{
}

} // verus!
