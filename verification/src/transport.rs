//! What the link layer expects of a transport.
//!
//! Moments are nanoseconds on the monotonic clock of the caller, and so are spans of
//! time.

use std::sync::Arc;
use std::sync::atomic::{AtomicBool, Ordering};
use vstd::prelude::*;
use vstd::utf8::encode_utf8;
use crate::bytes::{
    be16, be32, bytes_equal, copy_range, push_bytes, push_u16, push_u32, read_u16, read_u32, value16,
    value32, value_of_be16, value_of_be32,
};
use crate::identity::{EndpointId, PeerId};
use crate::protocol::{ProtocolId, is_protocol_text};
use crate::realtime::{
    RealtimeDatagram, RealtimeEvent, RealtimeTelemetry, ReceivedRealtimeDatagram, SendOutcome,
};
use crate::text::text_equal;
use crate::transport_error::{TransportError, TransportErrorKind};

verus! {

/// Where an endpoint is, in the terms of its transport.
#[derive(Clone, Debug, Eq, PartialEq)]
pub struct EndpointAddress {
    pub scheme: String,
    pub address: String,
}

#[verifier::ext_equal]
pub struct AddressView {
    pub scheme: Seq<char>,
    pub address: Seq<char>,
}

impl View for EndpointAddress {
    type V = AddressView;

    open spec fn view(&self) -> AddressView {
        AddressView { scheme: self.scheme@, address: self.address@ }
    }
}

impl EndpointAddress {
    /// Whether both are the same address.
    pub fn same(&self, other: &Self) -> (same: bool)
        ensures
            same == (self@ == other@),
    {
        text_equal(self.scheme.as_str(), other.scheme.as_str()) && text_equal(
            self.address.as_str(),
            other.address.as_str(),
        )
    }

    /// A copy of the address.
    pub fn duplicate(&self) -> (copy: Self)
        ensures
            copy@ == self@,
            copy == *self,
    {
        EndpointAddress { scheme: self.scheme.clone(), address: self.address.clone() }
    }
}

/// What a connection is.
#[derive(Clone, Copy, Debug, Eq, PartialEq)]
pub struct ConnectionMetadata {
    pub local_endpoint: EndpointId,
    pub remote_endpoint: EndpointId,
    pub peer_hint: Option<PeerId>,
    pub reliable: bool,
    pub datagrams: bool,
}

/// A flag that is shared by all its copies and is never taken back.
#[derive(Debug)]
pub struct CancellationToken(Arc<AtomicBool>);

impl CancellationToken {
    /// Whether the flag was made, and not set.
    pub closed spec fn begins(&self) -> bool {
        call_ensures(AtomicBool::new, (false,), *self.0)
    }

    /// Whether the flag was set.
    pub closed spec fn sets(&self) -> bool {
        call_ensures(AtomicBool::store, (&*self.0, true, Ordering::Release), ())
    }

    /// Whether the flag was read, and found like this.
    pub closed spec fn reads(&self, cancelled: bool) -> bool {
        call_ensures(AtomicBool::load, (&*self.0, Ordering::Acquire), cancelled)
    }

    /// Sets the flag.
    pub fn cancel(&self)
        ensures
            self.sets(),
    {
        self.0.store(true, Ordering::Release);
    }

    /// Whether a copy has set the flag. Another thread may do so at any time.
    pub fn is_cancelled(&self) -> (cancelled: bool)
        ensures
            self.reads(cancelled),
    {
        self.0.load(Ordering::Acquire)
    }
}

impl Default for CancellationToken {
    fn default() -> (token: Self)
        ensures
            token.begins(),
    {
        CancellationToken(Arc::new(AtomicBool::new(false)))
    }
}

impl Clone for CancellationToken {
    fn clone(&self) -> (copy: Self)
        ensures
            copy == *self,
    {
        CancellationToken(Arc::clone(&self.0))
    }
}

/// How long an operation may take, and whether it is still wanted.
#[derive(Debug)]
pub struct OperationContext {
    pub deadline: Option<u64>,
    pub cancellation: CancellationToken,
}

pub type ConnectContext = OperationContext;

/// Why an operation is not begun.
pub open spec fn operation_fault(cancelled: bool, deadline: Option<u64>, now: u64) -> Option<
    TransportError,
> {
    if cancelled {
        Some(TransportError::new(TransportErrorKind::Cancelled, "connection attempt cancelled"))
    } else if deadline is Some && now >= deadline->0 {
        Some(TransportError::new(TransportErrorKind::TimedOut, "connection attempt timed out"))
    } else {
        None
    }
}

/// Whether an operation may be begun.
pub fn check_operation(cancelled: bool, deadline: Option<u64>, now: u64) -> (checked: Result<
    (),
    TransportError,
>)
    ensures
        match operation_fault(cancelled, deadline, now) {
            None => checked is Ok,
            Some(fault) => checked == Err::<(), TransportError>(fault),
        },
{
    if cancelled {
        return Err(
            TransportError::new(TransportErrorKind::Cancelled, "connection attempt cancelled"),
        );
    }
    match deadline {
        Some(deadline) => {
            if now >= deadline {
                return Err(
                    TransportError::new(TransportErrorKind::TimedOut, "connection attempt timed out"),
                );
            }
        },
        None => {},
    }
    Ok(())
}

impl Default for OperationContext {
    fn default() -> (context: Self)
        ensures
            context.deadline is None,
            context.cancellation.begins(),
    {
        OperationContext { deadline: None, cancellation: CancellationToken::default() }
    }
}

impl Clone for OperationContext {
    fn clone(&self) -> (copy: Self)
        ensures
            copy == *self,
    {
        OperationContext { deadline: self.deadline, cancellation: self.cancellation.clone() }
    }
}

impl OperationContext {
    /// Whether the operation may go on: whether it was cancelled is what its token says
    /// when it is asked, and the rest is decided by the deadline.
    pub fn check(&self, now: u64) -> (checked: Result<(), TransportError>)
        ensures
            exists|cancelled: bool|
                {
                    &&& #[trigger] call_ensures(
                        CancellationToken::is_cancelled,
                        (&self.cancellation,),
                        cancelled,
                    )
                    &&& match operation_fault(cancelled, self.deadline, now) {
                        None => checked is Ok,
                        Some(fault) => checked == Err::<(), TransportError>(fault),
                    }
                },
    {
        let cancelled = self.cancellation.is_cancelled();
        assert(call_ensures(CancellationToken::is_cancelled, (&self.cancellation,), cancelled));
        check_operation(cancelled, self.deadline, now)
    }
}

/// How long connecting may take: until the deadline, but no longer than the limit.
pub fn connect_time(deadline: Option<u64>, now: u64, limit: u64) -> (time: u64)
    ensures
        time == (match deadline {
            Some(deadline) => {
                let left = if deadline > now {
                    deadline - now
                } else {
                    0
                };
                if left < limit {
                    left
                } else {
                    limit as int
                }
            },
            None => limit as int,
        }),
{
    match deadline {
        Some(deadline) => {
            let left: u64 = deadline.saturating_sub(now);
            if left < limit {
                left
            } else {
                limit
            }
        },
        None => limit,
    }
}

/// The bytes `MLCS`.
pub const CONTROL_STREAM_MAGIC: u32 = 0x4d4c4353;

pub const CONTROL_STREAM_VERSION: u8 = 1;

pub const CONTROL_STREAM_HEADER_LEN: usize = 7;

/// A message of a protocol on the control stream: the bytes `MLCS`, the version, the
/// length of the protocol, the protocol, and the message.
pub open spec fn control_frame(protocol: Seq<char>, message: Seq<u8>) -> Seq<u8> {
    let name = encode_utf8(protocol);
    be32(CONTROL_STREAM_MAGIC) + seq![CONTROL_STREAM_VERSION] + be16(name.len() as u16) + name + message
}

/// The length of the protocol that a frame names.
pub open spec fn framed_name_len(frame: Seq<u8>) -> int {
    value16(frame.subrange(5, 7)) as int
}

/// Whether a frame has the header of the control stream.
pub open spec fn has_control_header(frame: Seq<u8>) -> bool {
    &&& frame.len() >= CONTROL_STREAM_HEADER_LEN
    &&& value32(frame.subrange(0, 4)) == CONTROL_STREAM_MAGIC
    &&& frame[4] == CONTROL_STREAM_VERSION
}

#[verifier::allow_in_spec]
fn invalid_frame(message: &'static str) -> TransportError
    returns
        TransportError::new(TransportErrorKind::Other, message),
{
    TransportError::new(TransportErrorKind::Other, message)
}

/// Why a frame is not taken as a message of a protocol.
pub open spec fn control_frame_fault(frame: Seq<u8>, protocol: Seq<char>) -> Option<TransportError> {
    let end = CONTROL_STREAM_HEADER_LEN + framed_name_len(frame);
    if !has_control_header(frame) {
        Some(TransportError::new(TransportErrorKind::Other, "control stream frame is invalid"))
    } else if end > frame.len() {
        Some(TransportError::new(TransportErrorKind::Other, "control stream frame is truncated"))
    } else if frame.subrange(CONTROL_STREAM_HEADER_LEN as int, end) != encode_utf8(protocol) {
        Some(TransportError::new(TransportErrorKind::Other, "control stream protocol does not match"))
    } else {
        None
    }
}

/// Frames a message of a protocol.
pub fn frame_control_message(protocol: &ProtocolId, message: &[u8]) -> (framed: Result<
    Vec<u8>,
    TransportError,
>)
    ensures
        match framed {
            Ok(bytes) => {
                &&& CONTROL_STREAM_HEADER_LEN + encode_utf8(protocol@).len() + message@.len() <= usize::MAX
                &&& bytes@ == control_frame(protocol@, message@)
            },
            Err(e) => {
                &&& CONTROL_STREAM_HEADER_LEN + encode_utf8(protocol@).len() + message@.len() > usize::MAX
                &&& e == TransportError::new(
                    TransportErrorKind::MessageTooLarge,
                    "control stream message is too large",
                )
            },
        },
{
    let text = protocol.as_str();
    let name = text.as_bytes();
    let name_len: usize = name.len();
    let capacity = match CONTROL_STREAM_HEADER_LEN.checked_add(name_len) {
        Some(n) => n.checked_add(message.len()),
        None => None,
    };
    if capacity.is_none() {
        return Err(
            TransportError::new(
                TransportErrorKind::MessageTooLarge,
                "control stream message is too large",
            ),
        );
    }
    let mut framed: Vec<u8> = Vec::new();
    push_u32(&mut framed, CONTROL_STREAM_MAGIC);
    framed.push(CONTROL_STREAM_VERSION);
    assert(framed@ =~= be32(CONTROL_STREAM_MAGIC) + seq![CONTROL_STREAM_VERSION]);
    push_u16(&mut framed, name_len as u16);
    push_bytes(&mut framed, name);
    push_bytes(&mut framed, message);
    Ok(framed)
}

/// Takes a message of a protocol out of its frame.
pub fn unframe_control_message(framed: &[u8], protocol: &ProtocolId) -> (message: Result<
    Vec<u8>,
    TransportError,
>)
    ensures
        match control_frame_fault(framed@, protocol@) {
            Some(fault) => message == Err::<Vec<u8>, TransportError>(fault),
            None => message matches Ok(m) && m@ == framed@.subrange(
                CONTROL_STREAM_HEADER_LEN + framed_name_len(framed@),
                framed@.len() as int,
            ),
        },
{
    if framed.len() < CONTROL_STREAM_HEADER_LEN || read_u32(framed, 0) != CONTROL_STREAM_MAGIC || framed[4]
        != CONTROL_STREAM_VERSION {
        return Err(invalid_frame("control stream frame is invalid"));
    }
    let name_len: usize = read_u16(framed, 5) as usize;
    let payload_offset: usize = CONTROL_STREAM_HEADER_LEN + name_len;
    if payload_offset > framed.len() {
        return Err(invalid_frame("control stream frame is truncated"));
    }
    let name = vstd::slice::slice_subrange(framed, CONTROL_STREAM_HEADER_LEN, payload_offset);
    if !bytes_equal(name, protocol.as_str().as_bytes()) {
        return Err(invalid_frame("control stream protocol does not match"));
    }
    Ok(copy_range(framed, payload_offset, framed.len()))
}

/// What is received on the control stream of a protocol, by what came over the connection.
pub open spec fn unframed_as(
    came: Result<Option<Vec<u8>>, TransportError>,
    protocol: Seq<char>,
    received: Result<Option<Vec<u8>>, TransportError>,
) -> bool {
    match came {
        Ok(Some(frame)) => match control_frame_fault(frame@, protocol) {
            Some(fault) => received == Err::<Option<Vec<u8>>, TransportError>(fault),
            None => received matches Ok(Some(m)) && m@ == frame@.subrange(
                CONTROL_STREAM_HEADER_LEN + framed_name_len(frame@),
                frame@.len() as int,
            ),
        },
        Ok(None) => received == Ok::<Option<Vec<u8>>, TransportError>(None),
        Err(fault) => received == Err::<Option<Vec<u8>>, TransportError>(fault),
    }
}

/// Takes the message out of what came over a connection.
pub fn unframe_received(came: Result<Option<Vec<u8>>, TransportError>, protocol: &ProtocolId) -> (received:
    Result<Option<Vec<u8>>, TransportError>)
    ensures
        unframed_as(came, protocol@, received),
{
    match came {
        Ok(Some(frame)) => match unframe_control_message(frame.as_slice(), protocol) {
            Ok(message) => Ok(Some(message)),
            Err(fault) => Err(fault),
        },
        Ok(None) => Ok(None),
        Err(fault) => Err(fault),
    }
}

/// A message that was framed for a protocol is taken out as it was.
pub proof fn control_messages_round_trip(protocol: Seq<char>, message: Seq<u8>)
    requires
        is_protocol_text(protocol),
    ensures
        ({
            let frame = control_frame(protocol, message);
            &&& control_frame_fault(frame, protocol) is None
            &&& frame.subrange(
                CONTROL_STREAM_HEADER_LEN + framed_name_len(frame),
                frame.len() as int,
            ) == message
        }),
{
    let frame = control_frame(protocol, message);
    let name = encode_utf8(protocol);
    value_of_be32(CONTROL_STREAM_MAGIC);
    value_of_be16(name.len() as u16);
    assert(frame.subrange(0, 4) =~= be32(CONTROL_STREAM_MAGIC));
    assert(frame.subrange(5, 7) =~= be16(name.len() as u16));
    assert(frame.subrange(7, 7 + name.len() as int) =~= name);
    assert(frame.subrange(7 + name.len() as int, frame.len() as int) =~= message);
}

/// A message that was framed for one protocol is refused by another.
pub proof fn control_messages_stay_with_their_protocol(
    protocol: Seq<char>,
    other: Seq<char>,
    message: Seq<u8>,
)
    requires
        is_protocol_text(protocol),
        is_protocol_text(other),
        protocol != other,
    ensures
        control_frame_fault(control_frame(protocol, message), other) == Some(
            TransportError::new(TransportErrorKind::Other, "control stream protocol does not match"),
        ),
{
    control_messages_round_trip(protocol, message);
    if encode_utf8(protocol) == encode_utf8(other) {
        vstd::utf8::encode_utf8_decode_utf8(protocol);
        vstd::utf8::encode_utf8_decode_utf8(other);
    }
    let frame = control_frame(protocol, message);
    let name = encode_utf8(protocol);
    assert(frame.subrange(7, 7 + name.len() as int) =~= name);
    value_of_be16(name.len() as u16);
    assert(frame.subrange(5, 7) =~= be16(name.len() as u16));
}

/// How much a transport may take.
#[derive(Clone, Copy, Debug, Eq, PartialEq, Structural)]
pub struct TransportBudget {
    pub max_connections: usize,
    pub max_concurrent_streams: usize,
    pub control_queue_capacity: usize,
    pub data_queue_capacity: usize,
    pub receive_queue_capacity: usize,
    pub max_frame_bytes: usize,
    /// `None` means unlimited. Control and data have budgets of their own.
    pub control_bytes_per_second: Option<u64>,
    pub data_bytes_per_second: Option<u64>,
    pub receive_bytes_per_second: Option<u64>,
    pub idle_timeout: Option<u64>,
}

impl Default for TransportBudget {
    fn default() -> (budget: Self)
        ensures
            budget == (TransportBudget {
                max_connections: 64,
                max_concurrent_streams: 64,
                control_queue_capacity: 32,
                data_queue_capacity: 128,
                receive_queue_capacity: 128,
                max_frame_bytes: 1048576,
                control_bytes_per_second: None,
                data_bytes_per_second: None,
                receive_bytes_per_second: None,
                idle_timeout: Some(60_000_000_000),
            }),
    {
        TransportBudget {
            max_connections: 64,
            max_concurrent_streams: 64,
            control_queue_capacity: 32,
            data_queue_capacity: 128,
            receive_queue_capacity: 128,
            max_frame_bytes: 1048576,
            control_bytes_per_second: None,
            data_bytes_per_second: None,
            receive_bytes_per_second: None,
            idle_timeout: Some(60_000_000_000),
        }
    }
}

impl TransportBudget {
    /// Whether nothing is limited to none.
    pub open spec fn positive(self) -> bool {
        &&& self.max_connections > 0
        &&& self.max_concurrent_streams > 0
        &&& self.control_queue_capacity > 0
        &&& self.data_queue_capacity > 0
        &&& self.receive_queue_capacity > 0
        &&& self.max_frame_bytes > 0
        &&& self.control_bytes_per_second != Some(0u64)
        &&& self.data_bytes_per_second != Some(0u64)
        &&& self.receive_bytes_per_second != Some(0u64)
    }

    /// The budget, if it is one.
    pub fn validate(self) -> (valid: Result<Self, TransportError>)
        ensures
            valid == (if self.positive() {
                Ok::<TransportBudget, TransportError>(self)
            } else {
                Err(
                    TransportError::new(
                        TransportErrorKind::Other,
                        "transport budget values must be positive",
                    ),
                )
            }),
    {
        if self.max_connections == 0 || self.max_concurrent_streams == 0 || self.control_queue_capacity
            == 0 || self.data_queue_capacity == 0 || self.receive_queue_capacity == 0
            || self.max_frame_bytes == 0 || is_zero(self.control_bytes_per_second) || is_zero(
            self.data_bytes_per_second,
        ) || is_zero(self.receive_bytes_per_second) {
            return Err(
                TransportError::new(
                    TransportErrorKind::Other,
                    "transport budget values must be positive",
                ),
            );
        }
        Ok(self)
    }
}

fn is_zero(rate: Option<u64>) -> (zero: bool)
    ensures
        zero == (rate == Some(0u64)),
{
    match rate {
        Some(n) => n == 0,
        None => false,
    }
}

#[verifier::allow_in_spec]
pub fn unsupported(message: &'static str) -> TransportError
    returns
        TransportError::new(TransportErrorKind::Unsupported, message),
{
    TransportError::new(TransportErrorKind::Unsupported, message)
}

/// A connection that never blocks. `WouldBlock` tells that there is no room; the
/// adapter decides how to wait.
pub trait Connection {
    fn metadata(&self) -> &ConnectionMetadata;

    fn try_send(&mut self, message: &[u8]) -> Result<(), TransportError>;

    fn try_receive(&mut self) -> Result<Option<Vec<u8>>, TransportError>;

    /// Sends a control message, with room of its own where the transport has it.
    fn try_send_control(&mut self, message: &[u8]) -> (sent: Result<(), TransportError>)
        default_ensures
            exists|lent: &mut Self|
                {
                    &&& #[trigger] call_ensures(Self::try_send, (lent, message), sent)
                    &&& &*lent == &*old(self)
                    &&& &*final(lent) == &*final(self)
                },
    {
        self.try_send(message)
    }

    fn try_receive_control(&mut self) -> (received: Result<Option<Vec<u8>>, TransportError>)
        default_ensures
            exists|lent: &mut Self|
                {
                    &&& #[trigger] call_ensures(Self::try_receive, (lent,), received)
                    &&& &*lent == &*old(self)
                    &&& &*final(lent) == &*final(self)
                },
    {
        self.try_receive()
    }

    /// The control stream of a protocol.
    fn open_control_stream(&mut self, protocol: ProtocolId) -> (stream: Result<
        ControlStream<'_, Self>,
        TransportError,
    >) where Self: Sized
        default_ensures
            exists|about: &ConnectionMetadata| #[trigger]
                call_ensures(Self::metadata, (&*old(self),), about) && if about.reliable {
                    &&& stream matches Ok(s)
                    &&& s.protocol == protocol
                    &&& *s.connection == *old(self)
                    &&& *final(s.connection) == *final(self)
                } else {
                    &&& stream matches Err(e)
                    &&& e == unsupported("reliable control streams are not supported")
                    &&& *final(self) == *old(self)
                },
    {
        if !self.metadata().reliable {
            return Err(unsupported("reliable control streams are not supported"));
        }
        Ok(ControlStream { protocol, connection: self })
    }

    /// Sends a message, unless the operation is over.
    fn try_send_with_context(&mut self, message: &[u8], context: &OperationContext, now: u64) -> (sent:
        Result<(), TransportError>)
        default_ensures
            exists|cancelled: bool|
                {
                    &&& #[trigger] call_ensures(
                        CancellationToken::is_cancelled,
                        (&context.cancellation,),
                        cancelled,
                    )
                    &&& match operation_fault(cancelled, context.deadline, now) {
                        None => exists|lent: &mut Self|
                            {
                                &&& #[trigger] call_ensures(Self::try_send, (lent, message), sent)
                                &&& &*lent == &*old(self)
                                &&& &*final(lent) == &*final(self)
                            },
                        Some(fault) => sent == Err::<(), TransportError>(fault) && &*final(self)
                            == &*old(self),
                    }
                },
    {
        match context.check(now) {
            Ok(()) => self.try_send(message),
            Err(fault) => Err(fault),
        }
    }

    /// Receives a message, unless the operation is over.
    fn try_receive_with_context(&mut self, context: &OperationContext, now: u64) -> (received: Result<
        Option<Vec<u8>>,
        TransportError,
    >)
        default_ensures
            exists|cancelled: bool|
                {
                    &&& #[trigger] call_ensures(
                        CancellationToken::is_cancelled,
                        (&context.cancellation,),
                        cancelled,
                    )
                    &&& match operation_fault(cancelled, context.deadline, now) {
                        None => exists|lent: &mut Self|
                            {
                                &&& #[trigger] call_ensures(Self::try_receive, (lent,), received)
                                &&& &*lent == &*old(self)
                                &&& &*final(lent) == &*final(self)
                            },
                        Some(fault) => received == Err::<Option<Vec<u8>>, TransportError>(fault)
                            && &*final(self) == &*old(self),
                    }
                },
    {
        match context.check(now) {
            Ok(()) => self.try_receive(),
            Err(fault) => Err(fault),
        }
    }

    fn try_send_datagram(&mut self, message: &[u8]) -> (sent: Result<(), TransportError>)
        default_ensures
            sent == Err::<(), TransportError>(unsupported("datagrams are not supported")),
            &*final(self) == &*old(self),
    {
        Err(unsupported("datagrams are not supported"))
    }

    fn try_receive_datagram(&mut self) -> (received: Result<Option<Vec<u8>>, TransportError>)
        default_ensures
            received == Err::<Option<Vec<u8>>, TransportError>(
                unsupported("datagrams are not supported"),
            ),
            &*final(self) == &*old(self),
    {
        Err(unsupported("datagrams are not supported"))
    }

    fn max_datagram_payload(&self) -> (limit: Option<usize>)
        default_ensures
            limit is None,
    {
        None
    }

    fn try_send_latest(&mut self, datagram: RealtimeDatagram<'_>) -> (outcome: Result<
        SendOutcome,
        TransportError,
    >)
        default_ensures
            outcome == Ok::<SendOutcome, TransportError>(SendOutcome::Unsupported),
            &*final(self) == &*old(self),
    {
        Ok(SendOutcome::Unsupported)
    }

    fn poll_realtime(&mut self, now: u64) -> (sent: Result<usize, TransportError>)
        default_ensures
            sent == Err::<usize, TransportError>(unsupported("realtime datagrams are not supported")),
            &*final(self) == &*old(self),
    {
        Err(unsupported("realtime datagrams are not supported"))
    }

    fn try_receive_realtime(&mut self) -> (received: Result<
        Option<ReceivedRealtimeDatagram>,
        TransportError,
    >)
        default_ensures
            received == Err::<Option<ReceivedRealtimeDatagram>, TransportError>(
                unsupported("realtime datagrams are not supported"),
            ),
            &*final(self) == &*old(self),
    {
        Err(unsupported("realtime datagrams are not supported"))
    }

    fn realtime_telemetry(&self) -> (telemetry: RealtimeTelemetry)
        default_ensures
            telemetry.is_blank(),
    {
        RealtimeTelemetry::default()
    }

    fn take_realtime_events(&mut self) -> (events: Vec<RealtimeEvent>)
        default_ensures
            events@.len() == 0,
            &*final(self) == &*old(self),
    {
        Vec::new()
    }

    fn reset_realtime_session(&mut self)
        default_ensures
            &*final(self) == &*old(self),
    {
    }

    fn close_write(&mut self) -> Result<(), TransportError>;

    fn close_read(&mut self) -> Result<(), TransportError>;

    fn abort(&mut self);
}

/// The control stream of a protocol on a connection.
pub struct ControlStream<'a, C: Connection> {
    pub protocol: ProtocolId,
    pub connection: &'a mut C,
}

impl<'a, C: Connection> ControlStream<'a, C> {
    pub fn protocol(&self) -> (protocol: &ProtocolId)
        ensures
            *protocol == self.protocol,
    {
        &self.protocol
    }

    /// Sends a message in a frame of the protocol.
    pub fn try_send(&mut self, message: &[u8]) -> (sent: Result<(), TransportError>)
        ensures
            final(self).protocol == old(self).protocol,
            if CONTROL_STREAM_HEADER_LEN + encode_utf8(old(self).protocol@).len() + message@.len()
                > usize::MAX {
                &&& sent == Err::<(), TransportError>(
                    TransportError::new(
                        TransportErrorKind::MessageTooLarge,
                        "control stream message is too large",
                    ),
                )
                &&& *final(self).connection == *old(self).connection
            } else {
                exists|connection: &mut C, frame: &[u8]|
                    {
                        &&& #[trigger] call_ensures(C::try_send_control, (connection, frame), sent)
                        &&& frame@ == control_frame(old(self).protocol@, message@)
                        &&& *connection == *old(self).connection
                        &&& *final(connection) == *final(self).connection
                    }
            },
    {
        match frame_control_message(&self.protocol, message) {
            Ok(framed) => self.connection.try_send_control(framed.as_slice()),
            Err(fault) => Err(fault),
        }
    }

    /// Takes the next message out of its frame.
    pub fn try_receive(&mut self) -> (received: Result<Option<Vec<u8>>, TransportError>)
        ensures
            final(self).protocol == old(self).protocol,
            exists|connection: &mut C, came: Result<Option<Vec<u8>>, TransportError>|
                {
                    &&& #[trigger] call_ensures(C::try_receive_control, (connection,), came)
                    &&& *connection == *old(self).connection
                    &&& *final(connection) == *final(self).connection
                    &&& unframed_as(came, old(self).protocol@, received)
                },
    {
        let came = self.connection.try_receive_control();
        unframe_received(came, &self.protocol)
    }
}

/// What accepts connections.
pub trait Listener {
    type Connection: Connection;

    fn local_address(&self) -> &EndpointAddress;

    fn try_accept(&mut self) -> Result<Option<Self::Connection>, TransportError>;

    fn close(&mut self) -> Result<(), TransportError>;
}

/// What makes connections.
pub trait Transport {
    type Connection: Connection;

    type Listener: Listener<Connection = Self::Connection>;

    fn connect(&self, endpoint: &EndpointAddress, context: &ConnectContext) -> Result<
        Self::Connection,
        TransportError,
    >;

    fn listen(&self, endpoint: &EndpointAddress) -> Result<Self::Listener, TransportError>;
}

/// An operation goes on while it is not cancelled and before its deadline, and is told
/// which of the two ended it.
pub proof fn operations_go_on_until_their_deadline(deadline: u64, now: u64)
    ensures
        operation_fault(true, Some(deadline), now) matches Some(e) && e.kind
            == TransportErrorKind::Cancelled,
        operation_fault(true, None, now) matches Some(e) && e.kind == TransportErrorKind::Cancelled,
        operation_fault(false, None, now) is None,
        now < deadline ==> operation_fault(false, Some(deadline), now) is None,
        now >= deadline ==> (operation_fault(false, Some(deadline), now) matches Some(e) && e.kind
            == TransportErrorKind::TimedOut),
{
}

/// A frame of a control stream says that it is one, in its first version, how long the name
/// of its protocol is, and the name; the message is the rest.
pub proof fn control_frames_have_their_places(protocol: Seq<char>, message: Seq<u8>)
    requires
        encode_utf8(protocol).len() <= u16::MAX,
    ensures
        ({
            let frame = control_frame(protocol, message);
            let name = encode_utf8(protocol);
            &&& frame.len() == 7 + name.len() + message.len()
            &&& frame[0] == 'M' as u8
            &&& frame[1] == 'L' as u8
            &&& frame[2] == 'C' as u8
            &&& frame[3] == 'S' as u8
            &&& frame[4] == 1
            &&& frame[5] * 0x100 + frame[6] == name.len()
            &&& frame.subrange(7, 7 + name.len() as int) == name
            &&& frame.skip(7 + name.len() as int) == message
        }),
{
    let frame = control_frame(protocol, message);
    let name = encode_utf8(protocol);
    crate::bytes::numbers_begin_with_their_greatest_byte(name.len() as u16, CONTROL_STREAM_MAGIC, 0);
    assert(be32(CONTROL_STREAM_MAGIC)[0] == 0x4d && be32(CONTROL_STREAM_MAGIC)[1] == 0x4c && be32(
        CONTROL_STREAM_MAGIC,
    )[2] == 0x43 && be32(CONTROL_STREAM_MAGIC)[3] == 0x53) by {
        reveal(be32);
    }
    assert(frame.subrange(7, 7 + name.len() as int) =~= name);
    assert(frame.skip(7 + name.len() as int) =~= message);
}

/// A frame that is shorter than its header, of another kind or version, or shorter than it
/// says is refused.
pub proof fn broken_control_frames_are_refused(frame: Seq<u8>, protocol: Seq<char>)
    ensures
        frame.len() < 7 ==> control_frame_fault(frame, protocol) is Some,
        frame.len() >= 7 && (frame[0] != 'M' as u8 || frame[1] != 'L' as u8 || frame[2] != 'C' as u8
            || frame[3] != 'S' as u8) ==> control_frame_fault(frame, protocol) is Some,
        frame.len() >= 7 && frame[4] != 1 ==> control_frame_fault(frame, protocol) is Some,
        frame.len() >= 7 && frame.len() < 7 + frame[5] * 0x100 + frame[6] ==> control_frame_fault(
            frame,
            protocol,
        ) is Some,
{
    if frame.len() >= 7 {
        let magic = frame.subrange(0, 4);
        let size = frame.subrange(5, 7);
        crate::bytes::bytes_spell_their_weighted_sum(magic);
        crate::bytes::bytes_spell_their_weighted_sum(size);
        assert(magic[0] == frame[0] && magic[1] == frame[1] && magic[2] == frame[2] && magic[3]
            == frame[3]);
        assert(size[0] == frame[5] && size[1] == frame[6]);
    }
}

/// A budget is valid where every limit and every rate that it names is positive.
pub proof fn budgets_allow_for_something(budget: TransportBudget)
    ensures
        budget.positive() <==> {
            &&& budget.max_connections >= 1
            &&& budget.max_concurrent_streams >= 1
            &&& budget.control_queue_capacity >= 1
            &&& budget.data_queue_capacity >= 1
            &&& budget.receive_queue_capacity >= 1
            &&& budget.max_frame_bytes >= 1
            &&& budget.control_bytes_per_second matches Some(rate) ==> rate >= 1
            &&& budget.data_bytes_per_second matches Some(rate) ==> rate >= 1
            &&& budget.receive_bytes_per_second matches Some(rate) ==> rate >= 1
        },
{
}

/// An attempt to connect has the time that is left until its deadline, none once that has
/// passed, and never more than the limit.
pub proof fn connecting_ends_by_the_deadline(deadline: Option<u64>, now: u64, limit: u64)
    ensures
        forall|time: u64| #[trigger]
            call_ensures(connect_time, (deadline, now, limit), time) ==> {
                &&& time <= limit
                &&& deadline is None ==> time == limit
                &&& deadline matches Some(at) ==> {
                    &&& at <= now ==> time == 0
                    &&& at > now ==> now + time <= at
                    &&& now + time < at ==> time == limit
                }
            },
{
}

/// A connection that has nothing, or has failed, is told as that on the control stream; what
/// was framed for its protocol comes out as it went in.
pub proof fn what_came_is_told_on_the_stream(
    came: Result<Option<Vec<u8>>, TransportError>,
    protocol: ProtocolId,
    message: Seq<u8>,
)
    requires
        is_protocol_text(protocol@),
    ensures
        forall|received: Result<Option<Vec<u8>>, TransportError>| #[trigger]
            call_ensures(unframe_received, (came, &protocol), received) ==> {
                &&& came is Err ==> received is Err && received->Err_0 == came->Err_0
                &&& came == Ok::<Option<Vec<u8>>, TransportError>(None) ==> received == came
                &&& came matches Ok(Some(frame)) ==> (frame@ == control_frame(protocol@, message)
                    ==> (received matches Ok(Some(m)) && m@ == message))
            },
{
    control_messages_round_trip(protocol@, message);
}

} // verus!
