//! Frames on a byte stream: a length of four bytes, then the message. Control and data
//! wait in queues of their own, and control goes first.

use std::collections::VecDeque;
use vstd::prelude::*;
use crate::bytes::{be32, push_bytes, push_u32, value32};
use crate::identity::EndpointId;
use crate::transport::{ConnectionMetadata, TransportBudget};
use crate::transport_error::{TransportError, TransportErrorKind};

verus! {

/// How reading, writing or connecting failed.
#[derive(Clone, Copy, Debug, Eq, PartialEq, Structural)]
pub enum IoFailure {
    TimedOut,
    WouldBlock,
    ConnectionAborted,
    ConnectionReset,
    ConnectionRefused,
    BrokenPipe,
    UnexpectedEof,
    AddressInUse,
    NotFound,
    Other,
}

/// What a failure of a framed stream is told as.
#[verifier::allow_in_spec]
pub fn framed_error(failure: IoFailure) -> TransportError
    returns
        TransportError::new(
            match failure {
                IoFailure::TimedOut => TransportErrorKind::TimedOut,
                IoFailure::WouldBlock => TransportErrorKind::WouldBlock,
                IoFailure::ConnectionAborted
                | IoFailure::ConnectionReset => TransportErrorKind::Aborted,
                IoFailure::BrokenPipe | IoFailure::UnexpectedEof => TransportErrorKind::Closed,
                _ => TransportErrorKind::Other,
            },
            "transport I/O failed",
        ),
{
    TransportError::new(
        match failure {
            IoFailure::TimedOut => TransportErrorKind::TimedOut,
            IoFailure::WouldBlock => TransportErrorKind::WouldBlock,
            IoFailure::ConnectionAborted
            | IoFailure::ConnectionReset => TransportErrorKind::Aborted,
            IoFailure::BrokenPipe | IoFailure::UnexpectedEof => TransportErrorKind::Closed,
            _ => TransportErrorKind::Other,
        },
        "transport I/O failed",
    )
}

/// What a connection over a reliable stream without datagrams is.
#[verifier::allow_in_spec]
pub fn stream_metadata(local_endpoint: EndpointId, remote_endpoint: EndpointId) -> ConnectionMetadata
    returns
        (ConnectionMetadata {
            local_endpoint,
            remote_endpoint,
            peer_hint: None,
            reliable: true,
            datagrams: false,
        }),
{
    ConnectionMetadata { local_endpoint, remote_endpoint, peer_hint: None, reliable: true, datagrams: false }
}

/// A message as it stands on the stream.
pub open spec fn frame_of(message: Seq<u8>) -> Seq<u8> {
    be32(message.len() as u32) + message
}

/// The frame of a message, if its length can be written.
pub fn encode_frame(message: &[u8]) -> (frame: Result<Vec<u8>, IoFailure>)
    ensures
        match frame {
            Ok(bytes) => message@.len() <= u32::MAX && bytes@ == frame_of(message@),
            Err(failure) => message@.len() > u32::MAX && failure == IoFailure::Other,
        },
{
    let len: usize = message.len();
    if len > 0xffff_ffff {
        return Err(IoFailure::Other);
    }
    let mut frame: Vec<u8> = Vec::new();
    push_u32(&mut frame, len as u32);
    push_bytes(&mut frame, message);
    assert(frame@ =~= frame_of(message@));
    Ok(frame)
}

/// How long a frame is held back so that a rate is kept: its share of a second,
/// rounded up.
pub open spec fn pause_for(rate: Option<u64>, bytes: nat) -> Option<u64> {
    match rate {
        None => None,
        Some(per_second) => {
            let nanos = (bytes * 1_000_000_000 + per_second - 1) / per_second as int;
            Some(
                if nanos > u64::MAX {
                    u64::MAX
                } else {
                    nanos as u64
                },
            )
        },
    }
}

/// How long a frame is held back, in nanoseconds. Without a rate it is not.
pub fn pause_nanos(rate: Option<u64>, bytes: usize) -> (pause: Option<u64>)
    requires
        rate != Some(0u64),
    ensures
        pause == pause_for(rate, bytes as nat),
{
    match rate {
        None => None,
        Some(per_second) => {
            let share: u128 = (bytes as u128) * 1_000_000_000;
            let whole: u128 = share / (per_second as u128);
            let rest: u128 = share % (per_second as u128);
            proof {
                let d = per_second as int;
                vstd::arithmetic::div_mod::lemma_fundamental_div_mod(share as int, d);
                assert(0 <= rest < d);
                if rest == 0 {
                    vstd::arithmetic::div_mod::lemma_fundamental_div_mod_converse(
                        share + d - 1,
                        d,
                        whole as int,
                        d - 1,
                    );
                } else {
                    assert(d * (whole + 1) == d * whole + d) by (nonlinear_arith);
                    vstd::arithmetic::div_mod::lemma_fundamental_div_mod_converse(
                        share + d - 1,
                        d,
                        whole + 1,
                        rest - 1,
                    );
                }
                vstd::arithmetic::div_mod::lemma_div_is_ordered_by_denominator(share as int, 1, d);
            }
            let nanos: u128 = if rest == 0 {
                whole
            } else {
                whole + 1
            };
            if nanos > u64::MAX as u128 {
                Some(u64::MAX)
            } else {
                Some(nanos as u64)
            }
        },
    }
}

/// What is to be written next.
#[derive(Debug)]
pub enum WriteStep {
    /// A message, after a pause.
    Frame { message: Vec<u8>, control: bool, pause: Option<u64> },
    /// Nothing until a message is taken or the side is closed.
    Wait,
    /// The end of the stream.
    Shutdown,
    /// Nothing any more.
    Stop,
}

#[verifier::ext_equal]
pub enum WriteStepView {
    Frame { message: Seq<u8>, control: bool, pause: Option<u64> },
    Wait,
    Shutdown,
    Stop,
}

impl View for WriteStep {
    type V = WriteStepView;

    open spec fn view(&self) -> WriteStepView {
        match self {
            WriteStep::Frame { message, control, pause } => WriteStepView::Frame {
                message: message@,
                control: *control,
                pause: *pause,
            },
            WriteStep::Wait => WriteStepView::Wait,
            WriteStep::Shutdown => WriteStepView::Shutdown,
            WriteStep::Stop => WriteStepView::Stop,
        }
    }
}

/// What is to be read next.
#[derive(Clone, Copy, Debug, Eq, PartialEq, Structural)]
pub enum ReadStep {
    /// The four bytes of a length.
    Length,
    /// A message of a length.
    Body(usize),
    /// Nothing any more.
    Stop,
}

/// Both directions of a connection over a byte stream.
#[derive(Debug)]
pub struct FramedState {
    budget: TransportBudget,
    control: VecDeque<Vec<u8>>,
    data: VecDeque<Vec<u8>>,
    received: VecDeque<Vec<u8>>,
    write_closed: bool,
    read_closed: bool,
    /// Whether the frame that was handed out last was handed out after the close.
    draining: bool,
    writer_done: bool,
    reader_done: bool,
    terminal: Option<TransportError>,
}

#[verifier::ext_equal]
pub struct FramedView {
    pub budget: TransportBudget,
    pub control: Seq<Seq<u8>>,
    pub data: Seq<Seq<u8>>,
    pub received: Seq<Seq<u8>>,
    pub write_closed: bool,
    pub read_closed: bool,
    pub draining: bool,
    pub writer_done: bool,
    pub reader_done: bool,
    pub terminal: Option<TransportError>,
}

/// What each message of a row says.
pub open spec fn messages(row: Seq<Vec<u8>>) -> Seq<Seq<u8>> {
    row.map_values(|m: Vec<u8>| m@)
}

impl View for FramedState {
    type V = FramedView;

    closed spec fn view(&self) -> FramedView {
        FramedView {
            budget: self.budget,
            control: messages(self.control@),
            data: messages(self.data@),
            received: messages(self.received@),
            write_closed: self.write_closed,
            read_closed: self.read_closed,
            draining: self.draining,
            writer_done: self.writer_done,
            reader_done: self.reader_done,
            terminal: self.terminal,
        }
    }
}

#[verifier::allow_in_spec]
pub fn write_side_closed() -> TransportError
    returns
        TransportError::new(TransportErrorKind::Closed, "transport write side is closed"),
{
    TransportError::new(TransportErrorKind::Closed, "transport write side is closed")
}

#[verifier::allow_in_spec]
pub fn read_side_closed() -> TransportError
    returns
        TransportError::new(TransportErrorKind::Closed, "transport read side is closed"),
{
    TransportError::new(TransportErrorKind::Closed, "transport read side is closed")
}

impl FramedView {
    /// A connection on which nothing has happened.
    pub open spec fn fresh(budget: TransportBudget) -> FramedView {
        FramedView {
            budget,
            control: Seq::empty(),
            data: Seq::empty(),
            received: Seq::empty(),
            write_closed: false,
            read_closed: false,
            draining: false,
            writer_done: false,
            reader_done: false,
            terminal: None,
        }
    }

    /// Whether the queues and the messages are within the budget.
    pub open spec fn wf(self) -> bool {
        &&& self.budget.positive()
        &&& self.control.len() <= self.budget.control_queue_capacity
        &&& self.data.len() <= self.budget.data_queue_capacity
        &&& self.received.len() <= self.budget.receive_queue_capacity
        &&& forall|i: int|
            0 <= i < self.control.len() ==> (#[trigger] self.control[i]).len()
                <= self.budget.max_frame_bytes
        &&& forall|i: int|
            0 <= i < self.data.len() ==> (#[trigger] self.data[i]).len() <= self.budget.max_frame_bytes
    }

    /// Why a message is not taken.
    pub open spec fn send_fault(self, len: nat, waiting: nat, capacity: usize) -> Option<TransportError> {
        if self.write_closed {
            Some(write_side_closed())
        } else if len > self.budget.max_frame_bytes {
            Some(
                TransportError::new(
                    TransportErrorKind::MessageTooLarge,
                    "message exceeds transport frame limit",
                ),
            )
        } else if self.writer_done {
            Some(write_side_closed())
        } else if waiting >= capacity {
            Some(
                TransportError::new(TransportErrorKind::WouldBlock, "transport send queue is full"),
            )
        } else {
            None
        }
    }

    /// The first error, or a fallback.
    pub open spec fn terminal_or(self, fallback: TransportError) -> TransportError {
        match self.terminal {
            Some(error) => error,
            None => fallback,
        }
    }

    /// With an error, unless there was one before.
    pub open spec fn failed_with(self, error: TransportError) -> FramedView {
        FramedView { terminal: Some(self.terminal_or(error)), ..self }
    }

    /// With the next message taken by the writer.
    pub open spec fn written(self) -> (FramedView, WriteStepView) {
        if self.writer_done {
            (self, WriteStepView::Stop)
        } else if self.control.len() > 0 {
            (
                FramedView {
                    control: self.control.drop_first(),
                    draining: self.write_closed,
                    ..self
                },
                WriteStepView::Frame {
                    message: self.control[0],
                    control: true,
                    pause: pause_for(self.budget.control_bytes_per_second, self.control[0].len()),
                },
            )
        } else if self.data.len() > 0 {
            (
                FramedView { data: self.data.drop_first(), draining: self.write_closed, ..self },
                WriteStepView::Frame {
                    message: self.data[0],
                    control: false,
                    pause: pause_for(self.budget.data_bytes_per_second, self.data[0].len()),
                },
            )
        } else if self.write_closed {
            (FramedView { writer_done: true, ..self }, WriteStepView::Shutdown)
        } else {
            (self, WriteStepView::Wait)
        }
    }

    /// After the frame that was handed out last could not be written. Where it was handed
    /// out after the close, the writer goes on with what is left of the other kind; where
    /// it was handed out before, the writer stops, even if the side was closed meanwhile.
    pub open spec fn write_failed(self, failure: IoFailure, control: bool) -> FramedView {
        if self.writer_done {
            self
        } else if self.draining {
            if control {
                FramedView { control: Seq::empty(), ..self }
            } else {
                FramedView { data: Seq::empty(), ..self }
            }
        } else {
            FramedView {
                control: Seq::empty(),
                data: Seq::empty(),
                writer_done: true,
                ..self.failed_with(framed_error(failure))
            }
        }
    }

    /// With the reader at its end, for an error or without one.
    pub open spec fn read_ended(self, error: Option<TransportError>) -> FramedView {
        match error {
            Some(e) => FramedView { reader_done: true, ..self.failed_with(e) },
            None => FramedView { reader_done: true, ..self },
        }
    }

    /// What a length makes of the reader.
    pub open spec fn read_length(self, length: u32) -> (FramedView, ReadStep) {
        if self.reader_done {
            (self, ReadStep::Stop)
        } else if length > self.budget.max_frame_bytes {
            (
                self.read_ended(
                    Some(
                        TransportError::new(
                            TransportErrorKind::MessageTooLarge,
                            "received frame exceeds transport limit",
                        ),
                    ),
                ),
                ReadStep::Stop,
            )
        } else {
            (self, ReadStep::Body(length as usize))
        }
    }

    /// After a length or a message could not be read. A stream that ends between two
    /// messages has not failed.
    pub open spec fn read_failed(self, failure: IoFailure, at_length: bool) -> FramedView {
        if self.reader_done {
            self
        } else if at_length && failure == IoFailure::UnexpectedEof {
            self.read_ended(None)
        } else {
            self.read_ended(Some(framed_error(failure)))
        }
    }

    /// What the next message is, and what is left.
    pub open spec fn taken(self) -> (FramedView, Result<Seq<u8>, TransportError>) {
        if self.read_closed {
            (self, Err(read_side_closed()))
        } else if self.received.len() > 0 {
            (FramedView { received: self.received.drop_first(), ..self }, Ok(self.received[0]))
        } else if self.reader_done {
            (self, Err(self.terminal_or(read_side_closed())))
        } else {
            (
                self,
                Err(
                    TransportError::new(
                        TransportErrorKind::WouldBlock,
                        "no transport message is ready",
                    ),
                ),
            )
        }
    }
}

/// A received message as the model has it.
pub open spec fn receipt(result: Result<Option<Vec<u8>>, TransportError>) -> Result<
    Seq<u8>,
    TransportError,
> {
    match result {
        Ok(Some(message)) => Ok(message@),
        Ok(None) => Ok(Seq::empty()),
        Err(e) => Err(e),
    }
}

/// The first message of a queue, and what is left.
fn pop_message(queue: &mut VecDeque<Vec<u8>>) -> (message: Option<Vec<u8>>)
    ensures
        match message {
            Some(m) => messages(old(queue)@).len() > 0 && m@ == messages(old(queue)@)[0] && messages(
                final(queue)@,
            ) == messages(old(queue)@).drop_first(),
            None => messages(old(queue)@).len() == 0 && final(queue)@ == old(queue)@,
        },
{
    let ghost before = queue@;
    let message = queue.pop_front();
    proof {
        if before.len() > 0 {
            assert(messages(before)[0] == before[0]@);
            assert(messages(queue@) =~= messages(before).drop_first());
        }
    }
    message
}

/// Puts a message behind the others.
fn push_message(queue: &mut VecDeque<Vec<u8>>, message: &[u8])
    ensures
        messages(final(queue)@) == messages(old(queue)@).push(message@),
{
    let ghost before = queue@;
    let mut copy: Vec<u8> = Vec::new();
    push_bytes(&mut copy, message);
    assert(copy@ =~= message@);
    queue.push_back(copy);
    assert(messages(queue@) =~= messages(before).push(message@));
}

impl FramedState {
    /// Whether the state is valid.
    pub closed spec fn wf(&self) -> bool {
        self@.wf()
    }

    /// What is known of a valid state.
    pub proof fn lemma_wf(&self)
        requires
            self.wf(),
        ensures
            self@.wf(),
    {
    }

    pub fn new(budget: TransportBudget) -> (state: Result<Self, TransportError>)
        ensures
            match state {
                Ok(s) => budget.positive() && s.wf() && s@ == FramedView::fresh(budget),
                Err(e) => !budget.positive() && e == TransportError::new(
                    TransportErrorKind::Other,
                    "transport budget values must be positive",
                ),
            },
    {
        let budget = budget.validate()?;
        let state = FramedState {
            budget,
            control: VecDeque::new(),
            data: VecDeque::new(),
            received: VecDeque::new(),
            write_closed: false,
            read_closed: false,
            draining: false,
            writer_done: false,
            reader_done: false,
            terminal: None,
        };
        assert(state@.control =~= Seq::empty());
        assert(state@.data =~= Seq::empty());
        assert(state@.received =~= Seq::empty());
        Ok(state)
    }

    fn check_send(&self, len: usize, waiting: usize, capacity: usize) -> (fault: Option<TransportError>)
        ensures
            fault == self@.send_fault(len as nat, waiting as nat, capacity),
    {
        if self.write_closed {
            Some(write_side_closed())
        } else if len > self.budget.max_frame_bytes {
            Some(
                TransportError::new(
                    TransportErrorKind::MessageTooLarge,
                    "message exceeds transport frame limit",
                ),
            )
        } else if self.writer_done {
            Some(write_side_closed())
        } else if waiting >= capacity {
            Some(
                TransportError::new(TransportErrorKind::WouldBlock, "transport send queue is full"),
            )
        } else {
            None
        }
    }

    /// Takes a data message.
    pub fn try_send(&mut self, message: &[u8]) -> (sent: Result<(), TransportError>)
        requires
            old(self).wf(),
        ensures
            final(self).wf(),
            match old(self)@.send_fault(
                message@.len(),
                old(self)@.data.len(),
                old(self)@.budget.data_queue_capacity,
            ) {
                None => sent is Ok && final(self)@ == (FramedView {
                    data: old(self)@.data.push(message@),
                    ..old(self)@
                }),
                Some(fault) => sent == Err::<(), TransportError>(fault) && final(self)@ == old(self)@,
            },
    {
        assert(self@.data.len() == self.data@.len());
        match self.check_send(message.len(), self.data.len(), self.budget.data_queue_capacity) {
            Some(fault) => Err(fault),
            None => {
                push_message(&mut self.data, message);
                Ok(())
            },
        }
    }

    /// Takes a control message.
    pub fn try_send_control(&mut self, message: &[u8]) -> (sent: Result<(), TransportError>)
        requires
            old(self).wf(),
        ensures
            final(self).wf(),
            match old(self)@.send_fault(
                message@.len(),
                old(self)@.control.len(),
                old(self)@.budget.control_queue_capacity,
            ) {
                None => sent is Ok && final(self)@ == (FramedView {
                    control: old(self)@.control.push(message@),
                    ..old(self)@
                }),
                Some(fault) => sent == Err::<(), TransportError>(fault) && final(self)@ == old(self)@,
            },
    {
        assert(self@.control.len() == self.control@.len());
        match self.check_send(
            message.len(),
            self.control.len(),
            self.budget.control_queue_capacity,
        ) {
            Some(fault) => Err(fault),
            None => {
                push_message(&mut self.control, message);
                Ok(())
            },
        }
    }

    /// The next message that was read.
    pub fn try_receive(&mut self) -> (message: Result<Option<Vec<u8>>, TransportError>)
        requires
            old(self).wf(),
        ensures
            final(self).wf(),
            message matches Ok(m) ==> m is Some,
            (final(self)@, receipt(message)) == old(self)@.taken(),
    {
        if self.read_closed {
            return Err(read_side_closed());
        }
        match pop_message(&mut self.received) {
            Some(message) => Ok(Some(message)),
            None => {
                if self.reader_done {
                    Err(self.terminal_or(read_side_closed()))
                } else {
                    Err(
                        TransportError::new(
                            TransportErrorKind::WouldBlock,
                            "no transport message is ready",
                        ),
                    )
                }
            },
        }
    }

    fn terminal_or(&self, fallback: TransportError) -> (error: TransportError)
        ensures
            error == self@.terminal_or(fallback),
    {
        match &self.terminal {
            Some(error) => error.duplicate(),
            None => fallback,
        }
    }

    fn set_terminal(&mut self, error: TransportError)
        ensures
            final(self)@ == old(self)@.failed_with(error),
            old(self).wf() ==> final(self).wf(),
    {
        if self.terminal.is_none() {
            self.terminal = Some(error);
        }
    }

    /// Takes no more messages. Those that were taken are still written.
    pub fn close_write(&mut self) -> (closed: Result<(), TransportError>)
        requires
            old(self).wf(),
        ensures
            final(self).wf(),
            final(self)@ == (FramedView { write_closed: true, ..old(self)@ }),
            closed == (if old(self)@.write_closed || !old(self)@.writer_done {
                Ok::<(), TransportError>(())
            } else {
                Err(old(self)@.terminal_or(write_side_closed()))
            }),
    {
        if self.write_closed {
            return Ok(());
        }
        self.write_closed = true;
        if self.writer_done {
            Err(self.terminal_or(write_side_closed()))
        } else {
            Ok(())
        }
    }

    /// Reads no more.
    pub fn close_read(&mut self)
        requires
            old(self).wf(),
        ensures
            final(self).wf(),
            final(self)@ == (FramedView { read_closed: true, reader_done: true, ..old(self)@ }),
    {
        self.read_closed = true;
        self.reader_done = true;
    }

    /// Ends both directions at once.
    pub fn abort(&mut self)
        requires
            old(self).wf(),
        ensures
            final(self).wf(),
            final(self)@ == (FramedView {
                write_closed: true,
                read_closed: true,
                writer_done: true,
                reader_done: true,
                ..old(self)@
            }),
    {
        self.write_closed = true;
        self.read_closed = true;
        self.writer_done = true;
        self.reader_done = true;
    }

    /// What the writer does next.
    pub fn next_write(&mut self) -> (step: WriteStep)
        requires
            old(self).wf(),
        ensures
            final(self).wf(),
            (final(self)@, step@) == old(self)@.written(),
    {
        if self.writer_done {
            return WriteStep::Stop;
        }
        match pop_message(&mut self.control) {
            Some(message) => {
                self.draining = self.write_closed;
                let pause = pause_nanos(self.budget.control_bytes_per_second, message.len());
                return WriteStep::Frame { message, control: true, pause };
            },
            None => {},
        }
        match pop_message(&mut self.data) {
            Some(message) => {
                self.draining = self.write_closed;
                let pause = pause_nanos(self.budget.data_bytes_per_second, message.len());
                return WriteStep::Frame { message, control: false, pause };
            },
            None => {},
        }
        if self.write_closed {
            self.writer_done = true;
            WriteStep::Shutdown
        } else {
            WriteStep::Wait
        }
    }

    /// Notes that the frame that was handed out last could not be written.
    pub fn note_write_failure(&mut self, failure: IoFailure, control: bool)
        requires
            old(self).wf(),
        ensures
            final(self).wf(),
            final(self)@ == old(self)@.write_failed(failure, control),
    {
        if self.writer_done {
            return ;
        }
        if self.draining {
            if control {
                self.control.clear();
                assert(self@.control =~= Seq::empty());
            } else {
                self.data.clear();
                assert(self@.data =~= Seq::empty());
            }
            return ;
        }
        self.set_terminal(framed_error(failure));
        self.control.clear();
        self.data.clear();
        self.writer_done = true;
        assert(self@.control =~= Seq::empty());
        assert(self@.data =~= Seq::empty());
    }

    /// Whether one more message has room; the reader waits until it has.
    pub fn has_room(&self) -> (room: bool)
        requires
            self.wf(),
        ensures
            room == (self@.received.len() < self@.budget.receive_queue_capacity),
    {
        assert(self@.received.len() == self.received@.len());
        self.received.len() < self.budget.receive_queue_capacity
    }

    /// What the reader does after the length of a message.
    pub fn note_length(&mut self, length: u32) -> (step: ReadStep)
        requires
            old(self).wf(),
        ensures
            final(self).wf(),
            (final(self)@, step) == old(self)@.read_length(length),
    {
        if self.reader_done {
            return ReadStep::Stop;
        }
        if length as u64 > self.budget.max_frame_bytes as u64 {
            self.set_terminal(
                TransportError::new(
                    TransportErrorKind::MessageTooLarge,
                    "received frame exceeds transport limit",
                ),
            );
            self.reader_done = true;
            return ReadStep::Stop;
        }
        ReadStep::Body(length as usize)
    }

    /// How long a message is held back after it was read.
    pub fn read_pause(&self, length: usize) -> (pause: Option<u64>)
        requires
            self.wf(),
        ensures
            pause == pause_for(self@.budget.receive_bytes_per_second, length as nat),
    {
        pause_nanos(self.budget.receive_bytes_per_second, length)
    }

    /// Puts a message that was read behind the others, if it has room, and tells what
    /// the reader does next.
    pub fn note_message(&mut self, message: &[u8]) -> (step: ReadStep)
        requires
            old(self).wf(),
            old(self)@.received.len() < old(self)@.budget.receive_queue_capacity,
        ensures
            final(self).wf(),
            if old(self)@.reader_done {
                step == ReadStep::Stop && final(self)@ == old(self)@
            } else {
                step == ReadStep::Length && final(self)@ == (FramedView {
                    received: old(self)@.received.push(message@),
                    ..old(self)@
                })
            },
    {
        if self.reader_done {
            return ReadStep::Stop;
        }
        push_message(&mut self.received, message);
        ReadStep::Length
    }

    /// Notes that a length, or the message after it, could not be read.
    pub fn note_read_failure(&mut self, failure: IoFailure, at_length: bool)
        requires
            old(self).wf(),
        ensures
            final(self).wf(),
            final(self)@ == old(self)@.read_failed(failure, at_length),
    {
        if self.reader_done {
            return ;
        }
        if !(at_length && failure == IoFailure::UnexpectedEof) {
            self.set_terminal(framed_error(failure));
        }
        self.reader_done = true;
    }

    /// How long a silent stream is waited for, in nanoseconds.
    pub fn idle_timeout(&self) -> (timeout: Option<u64>)
        ensures
            timeout == self@.budget.idle_timeout,
    {
        self.budget.idle_timeout
    }
}

/// However full the queue of data is, a control message is taken while its own queue
/// has room.
pub proof fn full_data_queues_take_control(state: FramedView, message: Seq<u8>)
    requires
        !state.write_closed,
        !state.writer_done,
        message.len() <= state.budget.max_frame_bytes,
        state.control.len() < state.budget.control_queue_capacity,
    ensures
        state.send_fault(message.len(), state.control.len(), state.budget.control_queue_capacity) is None,
{
}

/// A control message that waits is written before any data, and is held back for the
/// rate of control alone.
pub proof fn waiting_control_is_written_first(state: FramedView)
    requires
        !state.writer_done,
        state.control.len() > 0,
    ensures
        state.written().1 == (WriteStepView::Frame {
            message: state.control[0],
            control: true,
            pause: pause_for(state.budget.control_bytes_per_second, state.control[0].len()),
        }),
        state.written().0.data == state.data,
{
}

/// A stream ends only when all that was taken has been handed to the writer.
pub proof fn closing_writes_what_waits(state: FramedView)
    requires
        state.written().1 is Shutdown,
    ensures
        state.write_closed,
        state.control.len() == 0,
        state.data.len() == 0,
{
}

/// A write that was begun before the close and fails ends the writer, and its error is
/// kept.
pub proof fn begun_writes_fail_for_good(state: FramedView, failure: IoFailure, control: bool)
    requires
        state.written().1 is Frame,
        !state.write_closed,
    ensures
        ({
            let begun = state.written().0;
            let closed = FramedView { write_closed: true, ..begun };
            let failed = closed.write_failed(failure, control);
            &&& failed.terminal == Some(state.terminal_or(framed_error(failure)))
            &&& failed.written().1 is Stop
        }),
{
}

/// What one side writes as a frame the other reads as the same message, if it is
/// within the limit of the reader.
pub proof fn frames_round_trip(reader: FramedView, message: Seq<u8>)
    requires
        !reader.reader_done,
        message.len() <= reader.budget.max_frame_bytes,
        message.len() <= u32::MAX,
    ensures
        ({
            let frame = frame_of(message);
            let length = value32(frame.subrange(0, 4));
            &&& frame.len() == 4 + message.len()
            &&& reader.read_length(length) == (reader, ReadStep::Body(message.len() as usize))
            &&& frame.subrange(4, 4 + message.len() as int) == message
        }),
{
    let frame = frame_of(message);
    crate::bytes::value_of_be32(message.len() as u32);
    assert(frame.subrange(0, 4) =~= be32(message.len() as u32));
    assert(frame.subrange(4, 4 + message.len() as int) =~= message);
}

/// A length beyond the limit ends the reader before anything is set aside for the
/// message.
pub proof fn oversized_frames_are_not_read(reader: FramedView, length: u32)
    requires
        length > reader.budget.max_frame_bytes,
    ensures
        reader.read_length(length).1 == ReadStep::Stop,
        reader.read_length(length).0.received == reader.received,
{
}

/// A message is taken exactly while the side is open and its writer works, if it is no
/// longer than a frame may be and fewer messages wait than there is room for.
pub proof fn fitting_messages_are_taken(state: FramedView, len: nat, waiting: nat, capacity: usize)
    ensures
        state.send_fault(len, waiting, capacity) is None <==> {
            &&& !state.write_closed
            &&& !state.writer_done
            &&& len <= state.budget.max_frame_bytes
            &&& waiting + 1 <= capacity
        },
        state.write_closed ==> (state.send_fault(len, waiting, capacity) matches Some(e) && e.kind
            == TransportErrorKind::Closed),
        !state.write_closed && len > state.budget.max_frame_bytes ==> (state.send_fault(
            len,
            waiting,
            capacity,
        ) matches Some(e) && e.kind == TransportErrorKind::MessageTooLarge),
        !state.write_closed && !state.writer_done && len <= state.budget.max_frame_bytes && waiting
            >= capacity ==> (state.send_fault(len, waiting, capacity) matches Some(e) && e.kind
            == TransportErrorKind::WouldBlock),
{
}

/// Where no control waits, data is written in the order in which it was taken; a side that
/// was closed ends only when all was written, and one that is open waits for more.
pub proof fn data_is_written_in_order(state: FramedView)
    requires
        !state.writer_done,
        state.control.len() == 0,
    ensures
        ({
            let (after, step) = state.written();
            &&& state.data.len() > 0 ==> {
                &&& step is Frame
                &&& step->message == state.data[0]
                &&& !step->control
                &&& step->pause == pause_for(state.budget.data_bytes_per_second, state.data[0].len())
                &&& after.data == state.data.skip(1)
                &&& after.received == state.received
                &&& !after.writer_done
            }
            &&& state.data.len() == 0 && state.write_closed ==> step is Shutdown && after.writer_done
            &&& state.data.len() == 0 && !state.write_closed ==> step is Wait && after == state
        }),
{
    if state.data.len() > 0 {
        assert(state.data.drop_first() =~= state.data.skip(1));
    }
}

/// Nothing is paused for without a rate; with one, the pause is as long as the bytes take,
/// rounded up to a nanosecond.
pub proof fn pauses_keep_to_the_rate(rate: u64, bytes: nat)
    requires
        rate > 0,
        bytes * 1_000_000_000 + rate <= u64::MAX,
    ensures
        pause_for(None, bytes) is None,
        ({
            let pause = pause_for(Some(rate), bytes);
            &&& pause is Some
            &&& pause->0 * rate >= bytes * 1_000_000_000
            &&& (pause->0 - 1) * rate < bytes * 1_000_000_000
        }),
{
    let r = rate as int;
    let n = (bytes * 1_000_000_000 + rate - 1) as int;
    vstd::arithmetic::div_mod::lemma_fundamental_div_mod(n, r);
    vstd::arithmetic::div_mod::lemma_mod_bound(n, r);
    let q = n / r;
    assert(0 <= q <= n) by (nonlinear_arith)
        requires
            n == r * q + n % r,
            0 <= n % r < r,
            0 <= n,
            1 <= r,
    ;
    assert(r * q == q * r && (q - 1) * r == q * r - r) by (nonlinear_arith);
}

/// Messages are handed out in the order in which they came, also after the stream has
/// ended; then the failure that ended it is told, or that the side is closed.
pub proof fn messages_are_handed_out_in_order(state: FramedView)
    requires
        !state.read_closed,
    ensures
        ({
            let (after, message) = state.taken();
            &&& state.received.len() > 0 ==> message == Ok::<Seq<u8>, TransportError>(state.received[0])
                && after.received == state.received.skip(1)
            &&& state.received.len() == 0 && !state.reader_done ==> (message matches Err(e) && e.kind
                == TransportErrorKind::WouldBlock) && after == state
            &&& state.received.len() == 0 && state.reader_done && state.terminal is Some ==> message
                == Err::<Seq<u8>, TransportError>(state.terminal->0)
            &&& state.received.len() == 0 && state.reader_done && state.terminal is None ==> (
            message matches Err(e) && e.kind == TransportErrorKind::Closed)
        }),
        (FramedView { read_closed: true, ..state }).taken().1 matches Err(e) && e.kind
            == TransportErrorKind::Closed,
{
    if state.received.len() > 0 {
        assert(state.received.drop_first() =~= state.received.skip(1));
    }
}

/// A stream that ends between frames ends without a fault; every other failure to read is
/// kept, the first of them for good. What was received stays.
pub proof fn only_clean_ends_are_no_fault(state: FramedView, failure: IoFailure, at_length: bool)
    requires
        !state.reader_done,
    ensures
        ({
            let after = state.read_failed(failure, at_length);
            &&& after.reader_done
            &&& after.received == state.received
            &&& at_length && failure == IoFailure::UnexpectedEof ==> after.terminal == state.terminal
            &&& !(at_length && failure == IoFailure::UnexpectedEof) && state.terminal is None ==> (
            after.terminal matches Some(e) && e == framed_error(failure))
            &&& state.terminal is Some ==> after.terminal == state.terminal
        }),
        (FramedView { reader_done: true, ..state }).read_failed(failure, at_length) == (FramedView {
            reader_done: true,
            ..state
        }),
{
}

/// A failure to write before the close ends the writer and drops what waits; one after it,
/// while the rest is written, drops the rest of its queue alone.
pub proof fn failed_writes_drop_what_waits(state: FramedView, failure: IoFailure, control: bool)
    requires
        !state.writer_done,
    ensures
        ({
            let after = state.write_failed(failure, control);
            &&& !state.draining ==> after.writer_done && after.control.len() == 0 && after.data.len() == 0
                && after.terminal is Some
            &&& state.draining && control ==> after.control.len() == 0 && after.data == state.data
                && !after.writer_done && after.terminal == state.terminal
            &&& state.draining && !control ==> after.data.len() == 0 && after.control == state.control
                && !after.writer_done && after.terminal == state.terminal
            &&& after.received == state.received
        }),
{
}

/// What failed is told by what it was: a time that ran out, a connection that was cut, or
/// one that has ended.
pub proof fn failures_keep_their_kind(failure: IoFailure)
    ensures
        failure == IoFailure::TimedOut ==> framed_error(failure).kind == TransportErrorKind::TimedOut,
        failure == IoFailure::WouldBlock ==> framed_error(failure).kind == TransportErrorKind::WouldBlock,
        failure == IoFailure::ConnectionAborted || failure == IoFailure::ConnectionReset ==> framed_error(
            failure,
        ).kind == TransportErrorKind::Aborted,
        failure == IoFailure::BrokenPipe || failure == IoFailure::UnexpectedEof ==> framed_error(
            failure,
        ).kind == TransportErrorKind::Closed,
        failure == IoFailure::ConnectionRefused || failure == IoFailure::AddressInUse || failure
            == IoFailure::NotFound || failure == IoFailure::Other ==> framed_error(failure).kind
            == TransportErrorKind::Other,
{
}

/// A frame begins with the length of its message, the most significant byte first.
pub proof fn frames_begin_with_their_length(message: Seq<u8>)
    requires
        message.len() <= u32::MAX,
    ensures
        ({
            let frame = frame_of(message);
            &&& frame.len() == 4 + message.len()
            &&& frame[0] * 0x100_0000 + frame[1] * 0x1_0000 + frame[2] * 0x100 + frame[3] == message.len()
            &&& frame.skip(4) == message
        }),
{
    crate::bytes::numbers_begin_with_their_greatest_byte(0, message.len() as u32, 0);
    assert(frame_of(message).skip(4) =~= message);
}

/// A side that was closed for writing takes nothing more; what was taken before is still
/// there to be written, and reading goes on. Closing again is no fault, and neither is
/// closing before the writer has ended.
pub proof fn closed_write_sides_take_nothing_more(before: FramedState, message: &[u8])
    ensures
        forall|
            lent: &mut FramedState,
            again: &mut FramedState,
            closed: Result<(), TransportError>,
            sent: Result<(), TransportError>,
        |
            {
                &&& *lent == before
                &&& #[trigger] call_ensures(FramedState::close_write, (lent,), closed)
                &&& *again == *final(lent)
                &&& #[trigger] call_ensures(FramedState::try_send, (again, message), sent)
            } ==> {
                &&& sent is Err
                &&& final(again)@.data == before@.data
                &&& final(again)@.control == before@.control
                &&& final(again)@.received == before@.received
                &&& final(again)@.read_closed == before@.read_closed
                &&& final(again)@.reader_done == before@.reader_done
                &&& final(again)@.writer_done == before@.writer_done
                &&& closed is Ok <==> before@.write_closed || !before@.writer_done
            },
{
}

/// Closing for reading ends the reader and leaves what waits to be written; an abort ends
/// both sides.
pub proof fn closed_read_sides_end_the_reader(before: FramedState)
    ensures
        forall|lent: &mut FramedState, done: ()|
            *lent == before && #[trigger] call_ensures(FramedState::close_read, (lent,), done) ==> {
                &&& final(lent)@.read_closed
                &&& final(lent)@.reader_done
                &&& final(lent)@.write_closed == before@.write_closed
                &&& final(lent)@.writer_done == before@.writer_done
                &&& final(lent)@.data == before@.data
                &&& final(lent)@.control == before@.control
            },
        forall|lent: &mut FramedState, done: ()|
            *lent == before && #[trigger] call_ensures(FramedState::abort, (lent,), done) ==> {
                &&& final(lent)@.read_closed
                &&& final(lent)@.reader_done
                &&& final(lent)@.write_closed
                &&& final(lent)@.writer_done
                &&& final(lent)@.terminal == before@.terminal
            },
{
}

/// A message that was read waits behind those that were read before it, and the length of
/// the next one is asked for; a reader that has ended keeps nothing.
pub proof fn read_messages_wait_in_order(before: FramedState, message: &[u8])
    ensures
        forall|lent: &mut FramedState, step: ReadStep|
            *lent == before && #[trigger] call_ensures(
                FramedState::note_message,
                (lent, message),
                step,
            ) ==> {
                &&& before@.reader_done ==> step is Stop && final(lent)@ == before@
                &&& !before@.reader_done ==> {
                    &&& step is Length
                    &&& final(lent)@.received == before@.received.push(message@)
                    &&& final(lent)@.data == before@.data
                    &&& final(lent)@.control == before@.control
                    &&& final(lent)@.terminal == before@.terminal
                }
            },
{
}

/// A message that is taken waits behind the others of its queue, and the other queue stays.
pub proof fn taken_messages_wait_in_their_queue(before: FramedState, message: &[u8])
    ensures
        forall|lent: &mut FramedState, sent: Result<(), TransportError>|
            *lent == before && #[trigger] call_ensures(
                FramedState::try_send,
                (lent, message),
                sent,
            ) ==> {
                &&& final(lent)@.control == before@.control
                &&& sent is Ok ==> final(lent)@.data == before@.data.push(message@)
                &&& sent is Err ==> final(lent)@.data == before@.data
            },
        forall|lent: &mut FramedState, sent: Result<(), TransportError>|
            *lent == before && #[trigger] call_ensures(
                FramedState::try_send_control,
                (lent, message),
                sent,
            ) ==> {
                &&& final(lent)@.data == before@.data
                &&& sent is Ok ==> final(lent)@.control == before@.control.push(message@)
                &&& sent is Err ==> final(lent)@.control == before@.control
            },
{
}

} // verus!
