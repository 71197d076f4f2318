//! A transport within one process: two connections with bounded queues between them.

use std::collections::VecDeque;
use std::sync::Arc;
use vstd::prelude::*;
use vstd::rwlock::{ReadHandle, RwLock, RwLockPredicate, WriteHandle};
use crate::bytes::copy_range;
use crate::identity::EndpointId;
use crate::transport::{Connection, ConnectionMetadata, unsupported};
use crate::transport_error::{TransportError, TransportErrorKind};

verus! {

/// How much the queues of a connection hold.
#[derive(Clone, Copy, Debug, Eq, PartialEq, Structural)]
pub struct MemoryTransportConfig {
    pub queue_capacity: usize,
    pub max_message_bytes: usize,
    pub datagram_capacity: usize,
}

impl Default for MemoryTransportConfig {
    fn default() -> (config: Self)
        ensures
            config == (MemoryTransportConfig {
                queue_capacity: 16,
                max_message_bytes: 65536,
                datagram_capacity: 8,
            }),
    {
        MemoryTransportConfig { queue_capacity: 16, max_message_bytes: 65536, datagram_capacity: 8 }
    }
}

/// What one end of a connection has closed.
#[derive(Clone, Copy, Debug, Eq, PartialEq, Structural)]
pub struct ClosedEnd {
    pub write: bool,
    pub read: bool,
    pub aborted: bool,
}

impl ClosedEnd {
    /// An end that has closed nothing.
    #[verifier::allow_in_spec]
    pub fn nothing() -> ClosedEnd
        returns
            (ClosedEnd { write: false, read: false, aborted: false }),
    {
        ClosedEnd { write: false, read: false, aborted: false }
    }

    /// With what is asked for closed as well. What is closed stays closed.
    #[verifier::allow_in_spec]
    pub fn and(self, write: bool, read: bool, abort: bool) -> ClosedEnd
        returns
            (ClosedEnd {
                write: self.write || write,
                read: self.read || read,
                aborted: self.aborted || abort,
            }),
    {
        ClosedEnd {
            write: self.write || write,
            read: self.read || read,
            aborted: self.aborted || abort,
        }
    }

    /// Why an end receives no message.
    pub open spec fn receive_fault(self) -> Option<TransportError> {
        if self.aborted {
            Some(TransportError::new(TransportErrorKind::Aborted, "connection aborted"))
        } else if self.read {
            Some(TransportError::new(TransportErrorKind::Closed, "read side is closed"))
        } else {
            None
        }
    }
}

/// What one side of a connection is to receive, and what it has closed.
#[derive(Debug)]
pub struct MemorySide {
    reliable: VecDeque<Vec<u8>>,
    datagrams: VecDeque<Vec<u8>>,
    closed: ClosedEnd,
}

#[verifier::ext_equal]
pub struct SideView {
    pub reliable: Seq<Seq<u8>>,
    pub datagrams: Seq<Seq<u8>>,
    pub closed: ClosedEnd,
}

/// The bytes of some messages.
pub open spec fn message_views(messages: Seq<Vec<u8>>) -> Seq<Seq<u8>> {
    messages.map_values(|m: Vec<u8>| m@)
}

impl View for MemorySide {
    type V = SideView;

    closed spec fn view(&self) -> SideView {
        SideView {
            reliable: message_views(self.reliable@),
            datagrams: message_views(self.datagrams@),
            closed: self.closed,
        }
    }
}

#[verifier::allow_in_spec]
fn failure(kind: TransportErrorKind, message: &'static str) -> TransportError
    returns
        TransportError::new(kind, message),
{
    TransportError::new(kind, message)
}

impl SideView {
    /// Nothing to receive, and nothing closed.
    pub open spec fn fresh() -> SideView {
        SideView {
            reliable: Seq::empty(),
            datagrams: Seq::empty(),
            closed: ClosedEnd::nothing(),
        }
    }

    /// The messages of a queue.
    pub open spec fn queue(self, datagram: bool) -> Seq<Seq<u8>> {
        if datagram {
            self.datagrams
        } else {
            self.reliable
        }
    }

    /// With other messages in a queue.
    pub open spec fn with_queue(self, datagram: bool, messages: Seq<Seq<u8>>) -> SideView {
        if datagram {
            SideView { datagrams: messages, ..self }
        } else {
            SideView { reliable: messages, ..self }
        }
    }

    /// Whether the queues keep to the limits.
    pub open spec fn wf(self, config: MemoryTransportConfig) -> bool {
        &&& self.reliable.len() <= config.queue_capacity
        &&& self.datagrams.len() <= config.datagram_capacity
        &&& forall|i: int|
            0 <= i < self.reliable.len() ==> (#[trigger] self.reliable[i]).len()
                <= config.max_message_bytes
        &&& forall|i: int|
            0 <= i < self.datagrams.len() ==> (#[trigger] self.datagrams[i]).len()
                <= config.max_message_bytes
    }

    /// Why a side takes no message.
    pub open spec fn accept_fault(self, config: MemoryTransportConfig, datagram: bool) -> Option<
        TransportError,
    > {
        let capacity = if datagram {
            config.datagram_capacity
        } else {
            config.queue_capacity
        };
        if self.closed.aborted {
            Some(TransportError::new(TransportErrorKind::Aborted, "remote connection aborted"))
        } else if self.closed.read {
            Some(TransportError::new(TransportErrorKind::Closed, "remote read side is closed"))
        } else if self.queue(datagram).len() >= capacity {
            Some(TransportError::new(TransportErrorKind::WouldBlock, "transport queue is full"))
        } else {
            None
        }
    }
}

/// Why a message is not sent, whatever the other side says.
pub open spec fn send_fault(config: MemoryTransportConfig, message_len: nat, write_closed: bool) -> Option<
    TransportError,
> {
    if message_len > config.max_message_bytes {
        Some(
            TransportError::new(TransportErrorKind::MessageTooLarge, "message exceeds transport limit"),
        )
    } else if write_closed {
        Some(TransportError::new(TransportErrorKind::Closed, "write side is closed"))
    } else {
        None
    }
}

/// What comes of sending a message, by what both sides have closed and by the room
/// that is left.
pub open spec fn sent_as(
    config: MemoryTransportConfig,
    message_len: nat,
    datagram: bool,
    write_closed: bool,
    remote: SideView,
    sent: Result<(), TransportError>,
) -> bool {
    &&& remote.wf(config)
    &&& match send_fault(config, message_len, write_closed) {
        Some(fault) => sent == Err::<(), TransportError>(fault),
        None => match remote.accept_fault(config, datagram) {
            Some(fault) => sent == Err::<(), TransportError>(fault),
            None => sent is Ok,
        },
    }
}

/// What is received where no message waits: the end, if the other side writes no
/// more.
pub open spec fn empty_outcome(remote_write_closed: bool) -> Result<Option<Vec<u8>>, TransportError> {
    if remote_write_closed {
        Ok(None)
    } else {
        Err(TransportError::new(TransportErrorKind::WouldBlock, "no message is ready"))
    }
}

impl MemorySide {
    /// Whether the queues keep to the limits.
    pub closed spec fn wf(&self, config: MemoryTransportConfig) -> bool {
        self@.wf(config)
    }

    /// A side that has nothing to receive.
    pub fn new(config: MemoryTransportConfig) -> (side: Self)
        ensures
            side.wf(config),
            side@ == SideView::fresh(),
    {
        let side = MemorySide {
            reliable: VecDeque::new(),
            datagrams: VecDeque::new(),
            closed: ClosedEnd::nothing(),
        };
        assert(side@.reliable =~= Seq::empty());
        assert(side@.datagrams =~= Seq::empty());
        side
    }

    /// Takes a message from the other side.
    pub fn accept(&mut self, message: &[u8], datagram: bool, config: MemoryTransportConfig) -> (accepted:
        Result<(), TransportError>)
        requires
            old(self).wf(config),
            message@.len() <= config.max_message_bytes,
        ensures
            final(self).wf(config),
            match old(self)@.accept_fault(config, datagram) {
                None => accepted is Ok && final(self)@ == old(self)@.with_queue(
                    datagram,
                    old(self)@.queue(datagram).push(message@),
                ),
                Some(fault) => accepted == Err::<(), TransportError>(fault) && final(self)@
                    == old(self)@,
            },
    {
        let ghost before = self@;
        if self.closed.aborted {
            return Err(failure(TransportErrorKind::Aborted, "remote connection aborted"));
        }
        if self.closed.read {
            return Err(failure(TransportErrorKind::Closed, "remote read side is closed"));
        }
        let (waiting, capacity) = if datagram {
            (self.datagrams.len(), config.datagram_capacity)
        } else {
            (self.reliable.len(), config.queue_capacity)
        };
        assert(waiting == before.queue(datagram).len());
        if waiting >= capacity {
            return Err(failure(TransportErrorKind::WouldBlock, "transport queue is full"));
        }
        let copy = copy_range(message, 0, message.len());
        assert(copy@ =~= message@);
        if datagram {
            self.datagrams.push_back(copy);
            assert(self@.datagrams =~= before.datagrams.push(message@));
        } else {
            self.reliable.push_back(copy);
            assert(self@.reliable =~= before.reliable.push(message@));
        }
        Ok(())
    }

    /// Takes a message that the other side sends, unless it is too long or the other
    /// side has closed its own end.
    pub fn deliver(
        &mut self,
        message: &[u8],
        datagram: bool,
        write_closed: bool,
        config: MemoryTransportConfig,
    ) -> (sent: Result<(), TransportError>)
        requires
            old(self).wf(config),
        ensures
            final(self).wf(config),
            sent_as(config, message@.len(), datagram, write_closed, old(self)@, sent),
            final(self)@ == (if sent is Ok {
                old(self)@.with_queue(datagram, old(self)@.queue(datagram).push(message@))
            } else {
                old(self)@
            }),
    {
        if message.len() > config.max_message_bytes {
            return Err(
                failure(TransportErrorKind::MessageTooLarge, "message exceeds transport limit"),
            );
        }
        if write_closed {
            return Err(failure(TransportErrorKind::Closed, "write side is closed"));
        }
        self.accept(message, datagram, config)
    }

    /// Closes what is asked for. What is closed stays closed.
    pub fn shut(&mut self, write: bool, read: bool, abort: bool)
        ensures
            final(self)@ == (SideView {
                closed: old(self)@.closed.and(write, read, abort),
                ..old(self)@
            }),
    {
        self.closed = self.closed.and(write, read, abort);
    }

    /// Hands out the next message, if there is one, to an end that has closed what it
    /// says.
    pub fn take(&mut self, datagram: bool, closed: ClosedEnd, config: MemoryTransportConfig) -> (taken:
        Result<Option<Vec<u8>>, TransportError>)
        requires
            old(self).wf(config),
        ensures
            final(self).wf(config),
            match closed.receive_fault() {
                Some(fault) => taken == Err::<Option<Vec<u8>>, TransportError>(fault) && final(self)@
                    == old(self)@,
                None => if old(self)@.queue(datagram).len() > 0 {
                    &&& taken matches Ok(Some(m))
                    &&& m@ == old(self)@.queue(datagram)[0]
                    &&& final(self)@ == old(self)@.with_queue(
                        datagram,
                        old(self)@.queue(datagram).drop_first(),
                    )
                } else {
                    taken == Ok::<Option<Vec<u8>>, TransportError>(None) && final(self)@ == old(self)@
                },
            },
    {
        let ghost before = self@;
        if closed.aborted {
            return Err(failure(TransportErrorKind::Aborted, "connection aborted"));
        }
        if closed.read {
            return Err(failure(TransportErrorKind::Closed, "read side is closed"));
        }
        let message = if datagram {
            assert(before.datagrams.len() == self.datagrams@.len());
            assert(before.datagrams.len() > 0 ==> before.datagrams[0] == self.datagrams@[0]@);
            self.datagrams.pop_front()
        } else {
            assert(before.reliable.len() == self.reliable@.len());
            assert(before.reliable.len() > 0 ==> before.reliable[0] == self.reliable@[0]@);
            self.reliable.pop_front()
        };
        proof {
            if message is Some {
                let rest = before.queue(datagram).drop_first();
                assert(self@.queue(datagram) =~= rest);
                assert(self@ =~= before.with_queue(datagram, rest));
                assert forall|i: int| 0 <= i < rest.len() implies (#[trigger] rest[i]).len()
                    <= config.max_message_bytes by {
                    assert(rest[i] == before.queue(datagram)[i + 1]);
                }
            }
        }
        Ok(message)
    }
}

/// What is received where no message waits.
pub fn receive_nothing(remote_write_closed: bool) -> (outcome: Result<Option<Vec<u8>>, TransportError>)
    ensures
        outcome == empty_outcome(remote_write_closed),
{
    if remote_write_closed {
        Ok(None)
    } else {
        Err(failure(TransportErrorKind::WouldBlock, "no message is ready"))
    }
}

/// What holds of a side whenever it is not being changed, and which of the two it is.
pub struct SideLimits {
    pub config: MemoryTransportConfig,
    pub left: bool,
}

impl RwLockPredicate<MemorySide> for SideLimits {
    closed spec fn inv(self, side: MemorySide) -> bool {
        side.wf(self.config)
    }
}

/// Whether a side that is to be shared was made, with nothing to receive and nothing
/// closed.
pub open spec fn side_begins(side: RwLock<MemorySide, SideLimits>) -> bool {
    exists|first: MemorySide, limits: Ghost<SideLimits>|
        {
            &&& #[trigger] call_ensures(
                RwLock::<MemorySide, SideLimits>::new,
                (first, limits),
                side,
            )
            &&& first@ == SideView::fresh()
        }
}

/// Whether a side that is shared was taken, found like this, and left like that.
pub open spec fn exchanged(side: RwLock<MemorySide, SideLimits>, found: MemorySide, left: MemorySide) -> bool {
    exists|handle: WriteHandle<'_, MemorySide, SideLimits>|
        {
            &&& #[trigger] call_ensures(
                RwLock::<MemorySide, SideLimits>::acquire_write,
                (&side,),
                (found, handle),
            )
            &&& call_ensures(
                WriteHandle::<'_, MemorySide, SideLimits>::release_write,
                (handle, left),
                (),
            )
        }
}

/// Whether a side that is shared was looked at and found like this.
pub open spec fn looked_at(side: RwLock<MemorySide, SideLimits>, found: MemorySide) -> bool {
    exists|handle: ReadHandle<'_, MemorySide, SideLimits>|
        {
            &&& #[trigger] call_ensures(
                RwLock::<MemorySide, SideLimits>::acquire_read,
                (&side,),
                handle,
            )
            &&& found == handle.view()
        }
}

/// One end of a connection within the process. The other end may change what both
/// share at any time; what this end has closed it alone decides, and it tells the other
/// end.
pub struct MemoryConnection {
    metadata: ConnectionMetadata,
    local: Arc<RwLock<MemorySide, SideLimits>>,
    remote: Arc<RwLock<MemorySide, SideLimits>>,
    closed: ClosedEnd,
    config: MemoryTransportConfig,
}

/// Two connections that send to each other, and not to themselves.
pub fn memory_transport_pair(left: EndpointId, right: EndpointId, config: MemoryTransportConfig) -> (pair: (
    MemoryConnection,
    MemoryConnection,
))
    requires
        config.queue_capacity > 0,
        config.max_message_bytes > 0,
    ensures
        pair.0.about() == (ConnectionMetadata {
            local_endpoint: left,
            remote_endpoint: right,
            peer_hint: None,
            reliable: true,
            datagrams: config.datagram_capacity > 0,
        }),
        pair.1.about() == (ConnectionMetadata {
            local_endpoint: right,
            remote_endpoint: left,
            peer_hint: None,
            reliable: true,
            datagrams: config.datagram_capacity > 0,
        }),
        pair.0.limits() == config,
        pair.1.limits() == config,
        pair.0.sends_to(pair.1),
        pair.1.sends_to(pair.0),
        pair.0.sides().0 != pair.0.sides().1,
        side_begins(*pair.0.sides().0),
        side_begins(*pair.0.sides().1),
        pair.0.closed() == ClosedEnd::nothing(),
        pair.1.closed() == ClosedEnd::nothing(),
{
    let left_side: Arc<RwLock<MemorySide, SideLimits>> = Arc::new(
        RwLock::new(MemorySide::new(config), Ghost(SideLimits { config, left: true })),
    );
    let right_side: Arc<RwLock<MemorySide, SideLimits>> = Arc::new(
        RwLock::new(MemorySide::new(config), Ghost(SideLimits { config, left: false })),
    );
    assert(left_side.pred().left != right_side.pred().left);
    let left_connection = MemoryConnection {
        metadata: ConnectionMetadata {
            local_endpoint: left,
            remote_endpoint: right,
            peer_hint: None,
            reliable: true,
            datagrams: config.datagram_capacity > 0,
        },
        local: Arc::clone(&left_side),
        remote: Arc::clone(&right_side),
        closed: ClosedEnd::nothing(),
        config,
    };
    let right_connection = MemoryConnection {
        metadata: ConnectionMetadata {
            local_endpoint: right,
            remote_endpoint: left,
            peer_hint: None,
            reliable: true,
            datagrams: config.datagram_capacity > 0,
        },
        local: right_side,
        remote: left_side,
        closed: ClosedEnd::nothing(),
        config,
    };
    (left_connection, right_connection)
}

impl MemoryConnection {
    #[verifier::type_invariant]
    spec fn inv(self) -> bool {
        self.local.pred().config == self.config && self.remote.pred().config == self.config
    }

    /// What the connection is.
    pub closed spec fn about(&self) -> ConnectionMetadata {
        self.metadata
    }

    /// How much the queues hold.
    pub closed spec fn limits(&self) -> MemoryTransportConfig {
        self.config
    }

    /// What this end has closed.
    pub closed spec fn closed(&self) -> ClosedEnd {
        self.closed
    }

    /// What this end receives from, and what it sends to.
    pub closed spec fn sides(&self) -> (
        Arc<RwLock<MemorySide, SideLimits>>,
        Arc<RwLock<MemorySide, SideLimits>>,
    ) {
        (self.local, self.remote)
    }

    /// Whether what is sent here is received there.
    pub open spec fn sends_to(&self, other: MemoryConnection) -> bool {
        self.sides().1 == other.sides().0
    }

    /// Whether a message was sent: by what this end has closed, and by how the side that
    /// it sends to was found. Where that side took the message, it was left with it.
    pub open spec fn sends(
        &self,
        message: Seq<u8>,
        datagram: bool,
        sent: Result<(), TransportError>,
    ) -> bool {
        exists|found: MemorySide, left: MemorySide|
            {
                &&& #[trigger] exchanged(*self.sides().1, found, left)
                &&& sent_as(
                    self.limits(),
                    message.len(),
                    datagram,
                    self.closed().write,
                    found@,
                    sent,
                )
                &&& left@ == (if sent is Ok {
                    found@.with_queue(datagram, found@.queue(datagram).push(message))
                } else {
                    found@
                })
            }
    }

    /// Whether a message was received: by what this end has closed, and by how the side
    /// that it receives from was found, which was left without the message. Where none
    /// waited, by how the other side was found then.
    pub open spec fn receives(
        &self,
        datagram: bool,
        received: Result<Option<Vec<u8>>, TransportError>,
    ) -> bool {
        exists|found: MemorySide, left: MemorySide|
            {
                &&& #[trigger] exchanged(*self.sides().0, found, left)
                &&& found@.wf(self.limits())
                &&& match self.closed().receive_fault() {
                    Some(fault) => {
                        &&& received == Err::<Option<Vec<u8>>, TransportError>(fault)
                        &&& left@ == found@
                    },
                    None => if found@.queue(datagram).len() > 0 {
                        &&& received matches Ok(Some(m))
                        &&& m@ == found@.queue(datagram)[0]
                        &&& left@ == found@.with_queue(
                            datagram,
                            found@.queue(datagram).drop_first(),
                        )
                    } else {
                        &&& left@ == found@
                        &&& exists|other: MemorySide|
                            #[trigger] looked_at(*self.sides().1, other) && received == empty_outcome(
                                other@.closed.write,
                            )
                    },
                }
            }
    }

    /// Whether this is the end that was before, with what is asked for closed as well, in
    /// its own record and on the side that it shares, and nothing else changed.
    pub open spec fn closes(
        &self,
        before: MemoryConnection,
        write: bool,
        read: bool,
        abort: bool,
    ) -> bool {
        &&& self.closed() == before.closed().and(write, read, abort)
        &&& self.about() == before.about()
        &&& self.limits() == before.limits()
        &&& self.sides() == before.sides()
        &&& exists|found: MemorySide, left: MemorySide| #[trigger]
            exchanged(*before.sides().0, found, left) && left@ == (SideView {
                closed: found@.closed.and(write, read, abort),
                ..found@
            })
    }

    /// Sends a message. What came of it is decided by what this end has closed, and by
    /// what the other side has closed and the room that is left when it is reached.
    fn send_to_remote(&mut self, message: &[u8], datagram: bool) -> (sent: Result<(), TransportError>)
        ensures
            *final(self) == *old(self),
            old(self).sends(message@, datagram, sent),
    {
        proof {
            use_type_invariant(&*self);
        }
        let (mut remote, handle) = self.remote.acquire_write();
        let ghost found = remote;
        let sent = remote.deliver(message, datagram, self.closed.write, self.config);
        let ghost left = remote;
        handle.release_write(remote);
        assert(exchanged(*old(self).sides().1, found, left));
        sent
    }

    /// Receives a message, unless this end has closed its reading. Where none waits, the
    /// outcome is decided by whether the other side still writes.
    fn receive_local(&mut self, datagram: bool) -> (received: Result<Option<Vec<u8>>, TransportError>)
        ensures
            *final(self) == *old(self),
            old(self).receives(datagram, received),
    {
        proof {
            use_type_invariant(&*self);
        }
        let (mut local, handle) = self.local.acquire_write();
        let ghost found = local;
        let taken = local.take(datagram, self.closed, self.config);
        let ghost left = local;
        handle.release_write(local);
        assert(exchanged(*old(self).sides().0, found, left));
        let waits = match &taken {
            Ok(message) => message.is_some(),
            Err(_) => true,
        };
        if waits {
            return taken;
        }
        let remote = self.remote.acquire_read();
        let ghost other = remote.view();
        let write_closed = remote.borrow().closed.write;
        assert(looked_at(*old(self).sides().1, other));
        remote.release_read();
        receive_nothing(write_closed)
    }

    /// Closes what is asked for, and tells the other end.
    fn close(&mut self, write: bool, read: bool, abort: bool)
        ensures
            final(self).closes(*old(self), write, read, abort),
    {
        proof {
            use_type_invariant(&*self);
        }
        let (mut local, handle) = self.local.acquire_write();
        let ghost found = local;
        local.shut(write, read, abort);
        let ghost left = local;
        handle.release_write(local);
        assert(exchanged(*old(self).sides().0, found, left));
        self.closed = self.closed.and(write, read, abort);
    }
}

impl Connection for MemoryConnection {
    fn metadata(&self) -> (metadata: &ConnectionMetadata)
        ensures
            *metadata == self.about(),
    {
        &self.metadata
    }

    fn try_send(&mut self, message: &[u8]) -> (sent: Result<(), TransportError>)
        ensures
            *final(self) == *old(self),
            old(self).sends(message@, false, sent),
    {
        self.send_to_remote(message, false)
    }

    fn try_receive(&mut self) -> (received: Result<Option<Vec<u8>>, TransportError>)
        ensures
            *final(self) == *old(self),
            old(self).receives(false, received),
    {
        self.receive_local(false)
    }

    fn try_send_datagram(&mut self, message: &[u8]) -> (sent: Result<(), TransportError>)
        ensures
            *final(self) == *old(self),
            if old(self).limits().datagram_capacity == 0 {
                sent == Err::<(), TransportError>(unsupported("datagrams are not supported"))
            } else {
                old(self).sends(message@, true, sent)
            },
    {
        if self.config.datagram_capacity == 0 {
            return Err(unsupported("datagrams are not supported"));
        }
        self.send_to_remote(message, true)
    }

    fn try_receive_datagram(&mut self) -> (received: Result<Option<Vec<u8>>, TransportError>)
        ensures
            *final(self) == *old(self),
            if old(self).limits().datagram_capacity == 0 {
                received == Err::<Option<Vec<u8>>, TransportError>(
                    unsupported("datagrams are not supported"),
                )
            } else {
                old(self).receives(true, received)
            },
    {
        if self.config.datagram_capacity == 0 {
            return Err(unsupported("datagrams are not supported"));
        }
        self.receive_local(true)
    }

    fn close_write(&mut self) -> (closed: Result<(), TransportError>)
        ensures
            closed is Ok,
            final(self).closes(*old(self), true, false, false),
    {
        self.close(true, false, false);
        Ok(())
    }

    fn close_read(&mut self) -> (closed: Result<(), TransportError>)
        ensures
            closed is Ok,
            final(self).closes(*old(self), false, true, false),
    {
        self.close(false, true, false);
        Ok(())
    }

    fn abort(&mut self)
        ensures
            final(self).closes(*old(self), false, false, true),
    {
        self.close(false, false, true);
    }
}

/// A message that finds room is received behind those that were sent before it.
pub proof fn messages_arrive_in_order(
    side: SideView,
    config: MemoryTransportConfig,
    datagram: bool,
    message: Seq<u8>,
)
    requires
        side.accept_fault(config, datagram) is None,
    ensures
        ({
            let after = side.with_queue(datagram, side.queue(datagram).push(message));
            &&& after.queue(datagram).last() == message
            &&& after.queue(datagram).drop_last() == side.queue(datagram)
            &&& after.closed.receive_fault() is None
            &&& after.queue(!datagram) == side.queue(!datagram)
        }),
{
    let after = side.with_queue(datagram, side.queue(datagram).push(message));
    assert(after.queue(datagram).drop_last() =~= side.queue(datagram));
}

/// A message goes out where it is short enough and the side is open, and is accepted where
/// the other side listens and has room for it.
pub proof fn open_sides_accept_messages(
    config: MemoryTransportConfig,
    message_len: nat,
    datagram: bool,
    write_closed: bool,
    remote: SideView,
)
    ensures
        send_fault(config, message_len, write_closed) is None <==> message_len
            <= config.max_message_bytes && !write_closed,
        message_len > config.max_message_bytes ==> (send_fault(config, message_len, write_closed) matches
            Some(e) && e.kind == TransportErrorKind::MessageTooLarge),
        message_len <= config.max_message_bytes && write_closed ==> (send_fault(
            config,
            message_len,
            write_closed,
        ) matches Some(e) && e.kind == TransportErrorKind::Closed),
        remote.accept_fault(config, datagram) is None <==> {
            &&& !remote.closed.aborted
            &&& !remote.closed.read
            &&& datagram ==> remote.datagrams.len() + 1 <= config.datagram_capacity
            &&& !datagram ==> remote.reliable.len() + 1 <= config.queue_capacity
        },
        remote.closed.aborted ==> (remote.accept_fault(config, datagram) matches Some(e) && e.kind
            == TransportErrorKind::Aborted),
        !remote.closed.aborted && remote.closed.read ==> (remote.accept_fault(config, datagram) matches
            Some(e) && e.kind == TransportErrorKind::Closed),
{
}

/// What waits is handed out in the order in which it came, datagrams and messages apart from
/// each other.
pub proof fn queues_are_apart_and_in_order(side: SideView, datagram: bool, first: Seq<u8>, second: Seq<u8>)
    requires
        side.queue(datagram).len() == 0,
    ensures
        ({
            let once = side.with_queue(datagram, side.queue(datagram).push(first));
            let twice = once.with_queue(datagram, once.queue(datagram).push(second));
            let rest = twice.with_queue(datagram, twice.queue(datagram).drop_first());
            &&& twice.queue(datagram)[0] == first
            &&& rest.queue(datagram)[0] == second
            &&& rest.queue(datagram).len() == 1
            &&& twice.queue(!datagram) == side.queue(!datagram)
            &&& rest.closed == side.closed
        }),
        side.queue(true) == side.datagrams,
        side.queue(false) == side.reliable,
{
}

/// An end that was aborted receives nothing more, nor does one whose read side is closed;
/// where nothing waits, the end of what the other side writes is told apart from a pause.
pub proof fn closed_ends_receive_nothing(end: ClosedEnd)
    ensures
        end.aborted ==> (end.receive_fault() matches Some(e) && e.kind == TransportErrorKind::Aborted),
        !end.aborted && end.read ==> (end.receive_fault() matches Some(e) && e.kind
            == TransportErrorKind::Closed),
        !end.aborted && !end.read ==> end.receive_fault() is None,
        empty_outcome(true) == Ok::<Option<Vec<u8>>, TransportError>(None),
        empty_outcome(false) matches Err(e) && e.kind == TransportErrorKind::WouldBlock,
{
}

/// Closing one direction leaves the other as it was, and what is closed stays closed.
pub proof fn what_is_closed_stays_closed(end: ClosedEnd, write: bool, read: bool, abort: bool)
    ensures
        end.write ==> end.and(write, read, abort).write,
        end.read ==> end.and(write, read, abort).read,
        end.aborted ==> end.and(write, read, abort).aborted,
        write ==> end.and(write, read, abort).write,
        read ==> end.and(write, read, abort).read,
        abort ==> end.and(write, read, abort).aborted,
        !end.write && !write && !abort ==> !end.and(write, read, abort).write,
        !end.read && !read && !abort ==> !end.and(write, read, abort).read,
        !end.aborted && !abort ==> !end.and(write, read, abort).aborted,
{
}

/// What is delivered to a side is taken from it in the same order and through the same
/// queue; the other queue stays.
pub proof fn delivered_messages_are_taken(
    before: MemorySide,
    message: &[u8],
    datagram: bool,
    config: MemoryTransportConfig,
)
    requires
        before@.queue(datagram).len() == 0,
    ensures
        forall|
            lent: &mut MemorySide,
            again: &mut MemorySide,
            sent: Result<(), TransportError>,
            taken: Result<Option<Vec<u8>>, TransportError>,
        |
            {
                &&& *lent == before
                &&& #[trigger] call_ensures(
                    MemorySide::deliver,
                    (lent, message, datagram, false, config),
                    sent,
                )
                &&& sent is Ok
                &&& *again == *final(lent)
                &&& #[trigger] call_ensures(
                    MemorySide::take,
                    (again, datagram, ClosedEnd { write: false, read: false, aborted: false }, config),
                    taken,
                )
            } ==> {
                &&& taken matches Ok(Some(m))
                &&& m@ == message@
                &&& final(again)@.reliable =~= before@.reliable
                &&& final(again)@.datagrams =~= before@.datagrams
            },
        forall|lent: &mut MemorySide, write: bool, read: bool, abort: bool, done: ()|
            *lent == before && #[trigger] call_ensures(
                MemorySide::shut,
                (lent, write, read, abort),
                done,
            ) ==> {
                &&& final(lent)@.reliable == before@.reliable
                &&& final(lent)@.datagrams == before@.datagrams
                &&& final(lent)@.closed.write <==> before@.closed.write || write
                &&& final(lent)@.closed.read <==> before@.closed.read || read
                &&& final(lent)@.closed.aborted <==> before@.closed.aborted || abort
            },
{
}

} // verus!
