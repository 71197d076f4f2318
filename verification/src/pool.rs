//! The sessions of an endpoint with its peers. The pool trusts nobody by itself: a
//! peer is taken in only after its host has authenticated it.

use vstd::prelude::*;
use vstd::string::StringExecFns;
use crate::bytes::{be64, push_u64, read_16};
use crate::identity::{ConnectionId, EndpointId, PeerId};
use crate::liveness::{ConnectionActivityProfile, HeartbeatAction, HeartbeatController, HeartbeatPolicy, later_by};
use crate::quic::QuicOptions;
use crate::realtime::RealtimeQueueConfig;
use crate::reconnect::{
    ReconnectAction, ReconnectController, ReconnectFailure, ReconnectPolicy, ReconnectView,
};
use crate::session_events::CloseReason;
use crate::sorted_map::{SortedMap, ascending_keys};
use crate::text::{hex_text, is_empty_text};
use crate::transport::{CancellationToken, TransportBudget};
use crate::transport_error::{TransportError, TransportErrorKind};

verus! {

/// An address of the network layer.
#[derive(Clone, Copy, Debug, Eq, PartialEq)]
pub enum IpAddress {
    V4([u8; 4]),
    V6 { octets: [u8; 16], flow: u32, scope: u32 },
}

/// An address and a port.
#[derive(Clone, Copy, Debug, Eq, PartialEq)]
pub struct SocketAddress {
    pub ip: IpAddress,
    pub port: u16,
}

/// What becomes of a second session with the same peer.
#[derive(Clone, Copy, Debug, Eq, PartialEq, Structural)]
pub enum DuplicatePeerPolicy {
    /// The session before it is ended and replaced.
    ReplaceExisting,
    /// The new session is refused.
    Reject,
}

impl Default for DuplicatePeerPolicy {
    fn default() -> (policy: Self)
        ensures
            policy == DuplicatePeerPolicy::ReplaceExisting,
    {
        DuplicatePeerPolicy::ReplaceExisting
    }
}

/// How an endpoint and its pool are set up.
#[derive(Clone, Debug)]
pub struct LinkEndpointConfig {
    pub local_endpoint: EndpointId,
    pub bind: SocketAddress,
    pub quic: QuicOptions,
    pub heartbeat: HeartbeatPolicy,
    pub reconnect: ReconnectPolicy,
    pub max_peers: usize,
    pub duplicate_peer: DuplicatePeerPolicy,
    pub server_name: String,
    /// In nanoseconds.
    pub connect_timeout: u64,
}

impl Default for LinkEndpointConfig {
    fn default() -> (config: Self)
        ensures
            config.local_endpoint@ == Seq::new(16, |i: int| 1u8),
            config.bind.ip == IpAddress::V4([127u8, 0u8, 0u8, 1u8]),
            config.bind.port == 0,
            config.quic == (QuicOptions {
                budget: TransportBudget {
                    max_connections: 64,
                    max_concurrent_streams: 64,
                    control_queue_capacity: 32,
                    data_queue_capacity: 128,
                    receive_queue_capacity: 128,
                    max_frame_bytes: 1048576,
                    control_bytes_per_second: None,
                    data_bytes_per_second: None,
                    receive_bytes_per_second: None,
                    idle_timeout: Some(60_000_000_000),
                },
                connect_timeout: 10_000_000_000,
                enable_datagrams: false,
                realtime_queue: RealtimeQueueConfig {
                    max_flows: 32,
                    max_datagrams_per_group: 2048,
                    max_group_bytes: 8388608,
                },
                enable_zero_rtt: false,
            }),
            config.quic.fault() is None,
            config.heartbeat == (HeartbeatPolicy {
                idle_interval_ms: 30_000,
                active_interval_ms: 10_000,
                mobile_interval_ms: 45_000,
                background_interval_ms: 120_000,
                local_ipc_interval_ms: 60_000,
                unreachable_after_ms: 90_000,
                dead_after_ms: 180_000,
            }),
            config.reconnect == ReconnectPolicy::Disabled,
            config.max_peers == 8,
            config.duplicate_peer == DuplicatePeerPolicy::ReplaceExisting,
            config.server_name@ == "localhost"@,
            config.connect_timeout == 10_000_000_000,
            config.fault() is None,
    {
        proof {
            reveal_strlit("localhost");
        }
        let mut quic = QuicOptions::default();
        quic.enable_datagrams = false;
        let config = LinkEndpointConfig {
            local_endpoint: EndpointId::from_bytes([1; 16]),
            bind: SocketAddress { ip: IpAddress::V4([127, 0, 0, 1]), port: 0 },
            quic,
            heartbeat: HeartbeatPolicy::default(),
            reconnect: ReconnectPolicy::Disabled,
            max_peers: 8,
            duplicate_peer: DuplicatePeerPolicy::ReplaceExisting,
            server_name: "localhost".to_owned(),
            connect_timeout: 10_000_000_000,
        };
        assert(config.local_endpoint@ =~= Seq::new(16, |i: int| 1u8));
        config
    }
}

impl LinkEndpointConfig {
    /// What is wrong with the setup.
    pub open spec fn fault(self) -> Option<&'static str> {
        if self.max_peers == 0 {
            Some("max_peers must be positive")
        } else if !self.heartbeat.is_valid() {
            Some("heartbeat policy is invalid")
        } else if self.server_name@.len() == 0 {
            Some("server_name must not be empty")
        } else if self.connect_timeout == 0 {
            Some("connect_timeout must be positive")
        } else if !self.reconnect.valid() {
            Some("reconnect policy is invalid")
        } else {
            None
        }
    }

    pub fn validate(&self) -> (valid: Result<(), &'static str>)
        ensures
            valid == (match self.fault() {
                None => Ok::<(), &'static str>(()),
                Some(message) => Err(message),
            }),
    {
        if self.max_peers == 0 {
            return Err("max_peers must be positive");
        }
        if !self.heartbeat.is_valid() {
            return Err("heartbeat policy is invalid");
        }
        if is_empty_text(self.server_name.as_str()) {
            return Err("server_name must not be empty");
        }
        if self.connect_timeout == 0 {
            return Err("connect_timeout must be positive");
        }
        let reconnect_valid = match self.reconnect {
            ReconnectPolicy::Disabled | ReconnectPolicy::ApplicationControlled => true,
            ReconnectPolicy::Immediate(limit) => limit.is_valid(),
            ReconnectPolicy::ExponentialBackoff(config) => config.is_valid(),
        };
        if !reconnect_valid {
            return Err("reconnect policy is invalid");
        }
        Ok(())
    }
}

/// Why the pool refused.
#[derive(Clone, Debug, Eq, PartialEq)]
pub enum PoolError {
    InvalidConfig(&'static str),
    Transport(TransportError),
    PeerLimit,
    DuplicatePeer(PeerId),
    UnknownPeer(PeerId),
}

/// The first bytes of a peer as they are shown.
pub open spec fn peer_text(peer: PeerId) -> Seq<char> {
    hex_text(peer@.subrange(0, 4)).push('\u{2026}')
}

impl PoolError {
    /// What the error is as one of a transport.
    pub fn kind(&self) -> (kind: Option<TransportErrorKind>)
        ensures
            kind == (match *self {
                PoolError::Transport(error) => Some(error.kind),
                PoolError::PeerLimit => Some(TransportErrorKind::WouldBlock),
                _ => None,
            }),
    {
        match self {
            PoolError::Transport(error) => Some(error.kind),
            PoolError::PeerLimit => Some(TransportErrorKind::WouldBlock),
            _ => None,
        }
    }

    /// The text that may be shown to a user.
    pub fn display_text(&self) -> (text: String)
        ensures
            text@ == (match *self {
                PoolError::InvalidConfig(reason) => "invalid pool config: "@ + reason@,
                PoolError::Transport(error) => "transport error: "@ + error.public_message@,
                PoolError::PeerLimit => "authenticated peer session limit reached"@,
                PoolError::DuplicatePeer(peer) => "duplicate peer session: "@ + peer_text(peer),
                PoolError::UnknownPeer(peer) => "unknown peer session: "@ + peer_text(peer),
            }),
    {
        match self {
            PoolError::InvalidConfig(reason) => {
                let mut text = "invalid pool config: ".to_owned();
                text.append(reason);
                text
            },
            PoolError::Transport(error) => {
                let mut text = "transport error: ".to_owned();
                text.append(error.public_message);
                text
            },
            PoolError::PeerLimit => "authenticated peer session limit reached".to_owned(),
            PoolError::DuplicatePeer(peer) => {
                let mut text = "duplicate peer session: ".to_owned();
                text.append(peer.display_text().as_str());
                text
            },
            PoolError::UnknownPeer(peer) => {
                let mut text = "unknown peer session: ".to_owned();
                text.append(peer.display_text().as_str());
                text
            },
        }
    }
}

impl From<TransportError> for PoolError {
    fn from(error: TransportError) -> (pool: Self) {
        PoolError::Transport(error)
    }
}

impl vstd::std_specs::convert::FromSpecImpl<TransportError> for PoolError {
    open spec fn obeys_from_spec() -> bool {
        true
    }

    open spec fn from_spec(error: TransportError) -> PoolError {
        PoolError::Transport(error)
    }
}

/// What the pool tells its host. It never carries what applications send.
#[derive(Clone, Copy, Debug, Eq, PartialEq)]
pub enum PoolEvent {
    /// A connection waits for the host to authenticate its peer.
    InboundAwaitingAuth { connection_id: ConnectionId, remote_addr: SocketAddress },
    PeerConnected(PeerId),
    PeerDisconnected { peer_id: PeerId, reason: CloseReason },
    /// The host should connect to the peer again at a time.
    ReconnectScheduled { peer_id: PeerId, unix_ms: u64, attempt: u32 },
    Heartbeat { peer_id: PeerId, action: HeartbeatAction, profile: ConnectionActivityProfile },
    BudgetExceeded,
    ReconnectStopped { peer_id: PeerId, action: ReconnectAction },
}

/// That a connection waits to be authenticated.
#[verifier::allow_in_spec]
pub fn inbound_awaiting_auth_event(connection_id: ConnectionId, remote_addr: SocketAddress) -> PoolEvent
    returns
        (PoolEvent::InboundAwaitingAuth { connection_id, remote_addr }),
{
    PoolEvent::InboundAwaitingAuth { connection_id, remote_addr }
}

/// That a session has ended.
#[verifier::allow_in_spec]
pub fn peer_disconnected_event(peer_id: PeerId, reason: CloseReason) -> PoolEvent
    returns
        (PoolEvent::PeerDisconnected { peer_id, reason }),
{
    PoolEvent::PeerDisconnected { peer_id, reason }
}

/// What is told of a decision after a failure.
#[verifier::allow_in_spec]
pub fn failure_event(peer_id: PeerId, action: ReconnectAction) -> PoolEvent
    returns
        (match action {
            ReconnectAction::AttemptAt { unix_ms, attempt } => PoolEvent::ReconnectScheduled {
                peer_id,
                unix_ms,
                attempt,
            },
            _ => PoolEvent::ReconnectStopped { peer_id, action },
        }),
{
    match action {
        ReconnectAction::AttemptAt { unix_ms, attempt } => PoolEvent::ReconnectScheduled {
            peer_id,
            unix_ms,
            attempt,
        },
        _ => PoolEvent::ReconnectStopped { peer_id, action },
    }
}

/// The identifier of a connection: its number, and the time.
pub fn connection_id_of(number: u64, now_unix_ms: u64) -> (id: ConnectionId)
    ensures
        id@ == be64(number) + be64(now_unix_ms),
{
    let mut bytes: Vec<u8> = Vec::new();
    push_u64(&mut bytes, number);
    push_u64(&mut bytes, now_unix_ms);
    proof {
        crate::bytes::value_of_be64(number);
        crate::bytes::value_of_be64(now_unix_ms);
        assert(bytes@ =~= be64(number) + be64(now_unix_ms));
        assert(bytes@.subrange(0, 16) =~= bytes@);
    }
    ConnectionId::from_bytes(read_16(bytes.as_slice(), 0))
}

/// A session with an authenticated peer. Its heartbeat and its reconnects are its own.
#[derive(Debug)]
pub struct PeerSessionHandle<C> {
    peer_id: PeerId,
    remote_endpoint: EndpointId,
    remote_addr: SocketAddress,
    connection: C,
    heartbeat: HeartbeatController,
    reconnect: ReconnectController,
}

#[verifier::reject_recursive_types(C)]
#[verifier::ext_equal]
pub struct HandleView<C> {
    pub peer_id: PeerId,
    pub remote_endpoint: EndpointId,
    pub remote_addr: SocketAddress,
    pub connection: C,
    pub heartbeat: HeartbeatController,
    pub reconnect: ReconnectView,
}

impl<C> View for PeerSessionHandle<C> {
    type V = HandleView<C>;

    closed spec fn view(&self) -> HandleView<C> {
        HandleView {
            peer_id: self.peer_id,
            remote_endpoint: self.remote_endpoint,
            remote_addr: self.remote_addr,
            connection: self.connection,
            heartbeat: self.heartbeat,
            reconnect: self.reconnect@,
        }
    }
}

impl<C> HandleView<C> {
    /// A session that begins.
    pub open spec fn begun(
        peer_id: PeerId,
        remote_endpoint: EndpointId,
        remote_addr: SocketAddress,
        connection: C,
        heartbeat: HeartbeatPolicy,
        reconnect: ReconnectPolicy,
        now_unix_ms: u64,
    ) -> HandleView<C> {
        HandleView {
            peer_id,
            remote_endpoint,
            remote_addr,
            connection,
            heartbeat: HeartbeatController {
                policy: heartbeat,
                last_liveness_unix_ms: now_unix_ms,
                last_transport_ack_unix_ms: None,
                next_probe_unix_ms: later_by(now_unix_ms, heartbeat.idle_interval_ms),
                state: crate::liveness::LivenessState::Healthy,
                paused: false,
            },
            reconnect: ReconnectView {
                policy: reconnect,
                started_unix_ms: None,
                attempts: 0,
                paused: false,
            },
        }
    }

    /// After a look at the clock.
    pub open spec fn ticked(self, now_unix_ms: u64, profile: ConnectionActivityProfile) -> HandleView<C> {
        HandleView { heartbeat: self.heartbeat.ticked(now_unix_ms, profile).0, ..self }
    }
}

impl<C> PeerSessionHandle<C> {
    fn new(
        peer_id: PeerId,
        remote_endpoint: EndpointId,
        remote_addr: SocketAddress,
        connection: C,
        heartbeat: HeartbeatPolicy,
        reconnect: ReconnectPolicy,
        now_unix_ms: u64,
    ) -> (handle: Result<Self, PoolError>)
        ensures
            match handle {
                Ok(h) => heartbeat.is_valid() && reconnect.valid() && h@ == HandleView::begun(
                    peer_id,
                    remote_endpoint,
                    remote_addr,
                    connection,
                    heartbeat,
                    reconnect,
                    now_unix_ms,
                ),
                Err(e) => e == PoolError::InvalidConfig(
                    if !heartbeat.is_valid() {
                        "heartbeat intervals must be positive and ordered"
                    } else {
                        "reconnect policy limits must be positive and bounded"
                    },
                ) && !(heartbeat.is_valid() && reconnect.valid()),
            },
    {
        let heartbeat = match HeartbeatController::new(heartbeat, now_unix_ms) {
            Ok(controller) => controller,
            Err(message) => {
                return Err(PoolError::InvalidConfig(message));
            },
        };
        let reconnect = match ReconnectController::new(reconnect, CancellationToken::default()) {
            Ok(controller) => controller,
            Err(message) => {
                return Err(PoolError::InvalidConfig(message));
            },
        };
        Ok(PeerSessionHandle { peer_id, remote_endpoint, remote_addr, connection, heartbeat, reconnect })
    }

    pub fn peer_id(&self) -> (peer_id: PeerId)
        ensures
            peer_id == self@.peer_id,
    {
        self.peer_id
    }

    pub fn remote_endpoint(&self) -> (endpoint: EndpointId)
        ensures
            endpoint == self@.remote_endpoint,
    {
        self.remote_endpoint
    }

    pub fn remote_addr(&self) -> (address: SocketAddress)
        ensures
            address == self@.remote_addr,
    {
        self.remote_addr
    }

    pub fn connection(&self) -> (connection: &C)
        ensures
            *connection == self@.connection,
    {
        &self.connection
    }

    pub fn connection_mut(&mut self) -> (connection: &mut C)
        ensures
            *connection == old(self)@.connection,
            final(self)@ == (HandleView { connection: *final(connection), ..old(self)@ }),
    {
        &mut self.connection
    }

    /// Looks at the clock.
    pub fn tick_heartbeat(&mut self, now_unix_ms: u64, profile: ConnectionActivityProfile) -> (action:
        HeartbeatAction)
        ensures
            action == old(self)@.heartbeat.ticked(now_unix_ms, profile).1,
            final(self)@ == old(self)@.ticked(now_unix_ms, profile),
    {
        self.heartbeat.tick(now_unix_ms, profile)
    }

    /// Takes it that the transport was acknowledged.
    pub fn observe_transport_ack(&mut self, now_unix_ms: u64)
        ensures
            final(self)@ == (HandleView {
                heartbeat: HeartbeatController {
                    last_transport_ack_unix_ms: Some(now_unix_ms),
                    last_liveness_unix_ms: now_unix_ms,
                    state: crate::liveness::LivenessState::Healthy,
                    ..old(self)@.heartbeat
                },
                ..old(self)@
            }),
    {
        self.heartbeat.observe_transport_ack(now_unix_ms);
    }

    /// Takes it that a probe was answered.
    pub fn observe_probe_ack(&mut self, now_unix_ms: u64)
        ensures
            final(self)@ == (HandleView {
                heartbeat: HeartbeatController {
                    last_liveness_unix_ms: now_unix_ms,
                    state: crate::liveness::LivenessState::Healthy,
                    ..old(self)@.heartbeat
                },
                ..old(self)@
            }),
    {
        self.heartbeat.observe_probe_ack(now_unix_ms);
    }

    /// Decides after a failure of the transport. A session is given up by taking it out
    /// of its pool: nobody else holds the token of its attempts.
    pub fn after_transport_failure(
        &mut self,
        failure: ReconnectFailure,
        now_unix_ms: u64,
        jitter_sample: u16,
    ) -> (action: ReconnectAction)
        ensures
            action == old(self)@.reconnect.failed(false, failure, now_unix_ms, jitter_sample).1,
            final(self)@ == (HandleView {
                reconnect: old(self)@.reconnect.failed(
                    false,
                    failure,
                    now_unix_ms,
                    jitter_sample,
                ).0,
                ..old(self)@
            }),
    {
        self.reconnect.decide(false, failure, now_unix_ms, jitter_sample)
    }

    /// Begins anew, as after a connection that worked.
    pub fn reset_reconnect(&mut self)
        ensures
            final(self)@ == (HandleView {
                reconnect: ReconnectView {
                    started_unix_ms: None,
                    attempts: 0,
                    ..old(self)@.reconnect
                },
                ..old(self)@
            }),
    {
        self.reconnect.reset();
    }
}

/// The sessions of an endpoint with its peers.
#[derive(Debug)]
pub struct PeerSessionPool<C> {
    config: LinkEndpointConfig,
    sessions: SortedMap<PeerId, PeerSessionHandle<C>>,
}

#[verifier::reject_recursive_types(C)]
#[verifier::ext_equal]
pub struct PoolView<C> {
    pub config: LinkEndpointConfig,
    pub sessions: Map<Seq<u8>, HandleView<C>>,
}

impl<C> View for PeerSessionPool<C> {
    type V = PoolView<C>;

    closed spec fn view(&self) -> PoolView<C> {
        PoolView {
            config: self.config,
            sessions: self.sessions@.map_values(|h: PeerSessionHandle<C>| h@),
        }
    }
}

/// The events of a look at the clock, for some peers in their order.
pub open spec fn tick_events<C>(
    sessions: Map<Seq<u8>, HandleView<C>>,
    row: Seq<Seq<u8>>,
    now_unix_ms: u64,
    profile: ConnectionActivityProfile,
) -> Seq<PoolEvent>
    decreases row.len(),
{
    if row.len() == 0 {
        Seq::empty()
    } else {
        let front = tick_events(sessions, row.drop_last(), now_unix_ms, profile);
        let handle = sessions[row.last()];
        let action = handle.heartbeat.ticked(now_unix_ms, profile).1;
        if action == HeartbeatAction::Quiet {
            front
        } else {
            front.push(PoolEvent::Heartbeat { peer_id: handle.peer_id, action, profile })
        }
    }
}

impl<C> PoolView<C> {
    /// Whether each session is with its own peer, and there are not too many.
    pub open spec fn wf(self) -> bool {
        &&& self.config.fault() is None
        &&& self.sessions.dom().finite()
        &&& self.sessions.dom().len() <= self.config.max_peers
        &&& forall|peer: Seq<u8>| #[trigger]
            self.sessions.contains_key(peer) ==> self.sessions[peer].peer_id@ == peer
    }

    /// Why a session with a peer is refused.
    pub open spec fn refusal(self, peer_id: PeerId) -> Option<PoolError> {
        if self.sessions.contains_key(peer_id@) {
            match self.config.duplicate_peer {
                DuplicatePeerPolicy::ReplaceExisting => None,
                DuplicatePeerPolicy::Reject => Some(PoolError::DuplicatePeer(peer_id)),
            }
        } else if self.sessions.dom().len() >= self.config.max_peers {
            Some(PoolError::PeerLimit)
        } else {
            None
        }
    }

    /// What a failure makes of the session with a peer, and what is told of it.
    pub open spec fn failed(
        self,
        peer_id: PeerId,
        failure: ReconnectFailure,
        now_unix_ms: u64,
        jitter_sample: u16,
    ) -> (PoolView<C>, PoolEvent) {
        let handle = self.sessions[peer_id@];
        let (reconnect, action) = handle.reconnect.failed(
            false,
            failure,
            now_unix_ms,
            jitter_sample,
        );
        (
            PoolView {
                sessions: self.sessions.insert(peer_id@, HandleView { reconnect, ..handle }),
                ..self
            },
            failure_event(peer_id, action),
        )
    }

    /// The peers in the order of their identities.
    pub open spec fn peers(self) -> Seq<Seq<u8>> {
        ascending_keys::<PeerId>(self.sessions.dom())
    }
}

impl<C> PeerSessionPool<C> {
    /// Whether the pool is valid.
    pub closed spec fn wf(&self) -> bool {
        self.sessions.wf() && self@.wf()
    }

    /// What is known of a valid pool.
    pub proof fn lemma_wf(&self)
        requires
            self.wf(),
        ensures
            self@.wf(),
    {
    }

    proof fn lemma_sessions(&self)
        requires
            self.sessions.wf(),
        ensures
            self@.sessions.dom() == self.sessions@.dom(),
            self.sessions.keys().len() == self@.sessions.dom().len(),
            self.sessions.keys() == self@.peers(),
            self.sessions.keys().no_duplicates(),
            self@.sessions.dom().finite(),
    {
        self.sessions.lemma_entries();
        self.sessions.lemma_ascending_keys();
        assert(self@.sessions.dom() =~= self.sessions@.dom());
    }

    /// A pool without sessions.
    pub fn new(config: LinkEndpointConfig) -> (pool: Result<Self, PoolError>)
        ensures
            match pool {
                Ok(p) => config.fault() is None && p.wf() && p@ == (PoolView::<C> {
                    config,
                    sessions: Map::empty(),
                }),
                Err(e) => config.fault() matches Some(message) && e == PoolError::InvalidConfig(message),
            },
    {
        match config.validate() {
            Ok(()) => {},
            Err(message) => {
                return Err(PoolError::InvalidConfig(message));
            },
        }
        let pool = PeerSessionPool { config, sessions: SortedMap::new() };
        proof {
            pool.lemma_sessions();
            assert(pool@.sessions =~= Map::empty());
        }
        Ok(pool)
    }

    pub fn config(&self) -> (config: &LinkEndpointConfig)
        ensures
            *config == self@.config,
    {
        &self.config
    }

    pub fn session_count(&self) -> (n: usize)
        requires
            self.wf(),
        ensures
            n == self@.sessions.dom().len(),
    {
        proof {
            self.lemma_sessions();
        }
        self.sessions.len()
    }

    /// The peers in the order of their identities.
    pub fn active_peers(&self) -> (peers: Vec<PeerId>)
        requires
            self.wf(),
        ensures
            peers@.map_values(|p: PeerId| p@) == self@.peers(),
    {
        proof {
            self.lemma_sessions();
        }
        let mut peers: Vec<PeerId> = Vec::new();
        let mut i: usize = 0;
        let ghost keys = self.sessions.keys();
        while i < self.sessions.len()
            invariant
                self.sessions.wf(),
                keys == self.sessions.keys(),
                i <= keys.len(),
                peers@.len() == i,
                forall|j: int| 0 <= j < i ==> (#[trigger] peers@[j])@ == keys[j],
            decreases keys.len() - i,
        {
            peers.push(*self.sessions.key_at(i));
            i = i + 1;
        }
        assert(peers@.map_values(|p: PeerId| p@) =~= keys);
        peers
    }

    pub fn get(&self, peer: &PeerId) -> (handle: Option<&PeerSessionHandle<C>>)
        requires
            self.wf(),
        ensures
            match handle {
                Some(h) => self@.sessions.contains_key(peer@) && h@ == self@.sessions[peer@],
                None => !self@.sessions.contains_key(peer@),
            },
    {
        self.sessions.get(peer)
    }

    /// A session, to be changed in place. Whoever changes it keeps its peer.
    pub fn get_mut(&mut self, peer: &PeerId) -> (handle: Option<&mut PeerSessionHandle<C>>)
        requires
            old(self).wf(),
        ensures
            match handle {
                Some(h) => {
                    &&& old(self)@.sessions.contains_key(peer@)
                    &&& h@ == old(self)@.sessions[peer@]
                    &&& final(h)@.peer_id@ == peer@ ==> final(self).wf()
                    &&& final(self)@ == (PoolView {
                        sessions: old(self)@.sessions.insert(peer@, final(h)@),
                        ..old(self)@
                    })
                },
                None => {
                    &&& !old(self)@.sessions.contains_key(peer@)
                    &&& final(self).wf()
                    &&& final(self)@ == old(self)@
                },
            },
    {
        let ghost before = *self;
        proof {
            self.lemma_sessions();
            assert forall|h: PeerSessionHandle<C>|
                before.sessions@.contains_key(peer@) implies (#[trigger] before.sessions@.insert(peer@, h)).map_values(
                |h: PeerSessionHandle<C>| h@,
            ) == before@.sessions.insert(peer@, h@) && before@.sessions.insert(peer@, h@).dom()
                == before@.sessions.dom() by {
                assert(before.sessions@.insert(peer@, h).map_values(|h: PeerSessionHandle<C>| h@)
                    =~= before@.sessions.insert(peer@, h@));
                assert(before@.sessions.insert(peer@, h@).dom() =~= before@.sessions.dom());
            }
        }
        self.sessions.get_mut(peer)
    }

    /// Whether a session with a peer may begin.
    pub fn ensure_capacity_for(&self, peer_id: &PeerId) -> (capacity: Result<(), PoolError>)
        requires
            self.wf(),
        ensures
            capacity == (match self@.refusal(*peer_id) {
                None => Ok::<(), PoolError>(()),
                Some(e) => Err(e),
            }),
    {
        proof {
            self.lemma_sessions();
        }
        if self.sessions.contains_key(peer_id) {
            return match self.config.duplicate_peer {
                DuplicatePeerPolicy::ReplaceExisting => Ok(()),
                DuplicatePeerPolicy::Reject => Err(PoolError::DuplicatePeer(*peer_id)),
            };
        }
        if self.sessions.len() >= self.config.max_peers {
            return Err(PoolError::PeerLimit);
        }
        Ok(())
    }

    /// Begins a session with a peer that its host has authenticated, and hands back the
    /// one that it replaces.
    pub fn insert_session(
        &mut self,
        peer_id: PeerId,
        remote_endpoint: EndpointId,
        remote_addr: SocketAddress,
        connection: C,
        now_unix_ms: u64,
    ) -> (replaced: Result<Option<PeerSessionHandle<C>>, PoolError>)
        requires
            old(self).wf(),
        ensures
            final(self).wf(),
            match old(self)@.refusal(peer_id) {
                Some(e) => replaced matches Err(error) && error == e && final(self)@ == old(self)@,
                None => {
                    &&& final(self)@ == (PoolView {
                        sessions: old(self)@.sessions.insert(
                            peer_id@,
                            HandleView::begun(
                                peer_id,
                                remote_endpoint,
                                remote_addr,
                                connection,
                                old(self)@.config.heartbeat,
                                old(self)@.config.reconnect,
                                now_unix_ms,
                            ),
                        ),
                        ..old(self)@
                    })
                    &&& match replaced {
                        Ok(Some(previous)) => old(self)@.sessions.contains_key(peer_id@) && previous@
                            == old(self)@.sessions[peer_id@],
                        Ok(None) => !old(self)@.sessions.contains_key(peer_id@),
                        Err(_) => false,
                    }
                },
            },
    {
        self.ensure_capacity_for(&peer_id)?;
        let ghost before = self@;
        let handle = PeerSessionHandle::new(
            peer_id,
            remote_endpoint,
            remote_addr,
            connection,
            self.config.heartbeat,
            self.config.reconnect,
            now_unix_ms,
        )?;
        proof {
            self.lemma_sessions();
        }
        let replaced = self.sessions.insert(peer_id, handle);
        proof {
            self.lemma_sessions();
            let after = before.sessions.insert(peer_id@, handle@);
            assert(self@.sessions =~= after);
            if before.sessions.contains_key(peer_id@) {
                assert(after.dom() =~= before.sessions.dom());
            }
        }
        Ok(replaced)
    }

    /// Takes a session out of the pool, for its connection to be ended.
    pub fn remove(&mut self, peer: &PeerId) -> (removed: Option<PeerSessionHandle<C>>)
        requires
            old(self).wf(),
        ensures
            final(self).wf(),
            final(self)@ == (PoolView {
                sessions: old(self)@.sessions.remove(peer@),
                ..old(self)@
            }),
            match removed {
                Some(h) => old(self)@.sessions.contains_key(peer@) && h@ == old(self)@.sessions[peer@],
                None => !old(self)@.sessions.contains_key(peer@),
            },
    {
        let ghost before = self@;
        proof {
            self.lemma_sessions();
        }
        let removed = self.sessions.remove(peer);
        proof {
            self.lemma_sessions();
            assert(self@.sessions =~= before.sessions.remove(peer@));
        }
        removed
    }

    /// Looks at the clock for every session, and tells what is to be done.
    pub fn maintenance_tick(&mut self, now_unix_ms: u64, profile: ConnectionActivityProfile) -> (events: Vec<
        PoolEvent,
    >)
        requires
            old(self).wf(),
        ensures
            final(self).wf(),
            events@ == tick_events(
                old(self)@.sessions,
                old(self)@.peers(),
                now_unix_ms,
                profile,
            ),
            final(self)@ == (PoolView {
                sessions: old(self)@.sessions.map_values(
                    |h: HandleView<C>| h.ticked(now_unix_ms, profile),
                ),
                ..old(self)@
            }),
    {
        let ghost before = self@;
        proof {
            self.lemma_sessions();
            self.sessions.lemma_entries();
        }
        let len: usize = self.sessions.len();
        let mut events: Vec<PoolEvent> = Vec::new();
        let mut i: usize = 0;
        let ghost keys = self.sessions.keys();
        assert(keys.subrange(0, 0) =~= Seq::empty());
        assert(events@ =~= tick_events(before.sessions, keys.subrange(0, 0), now_unix_ms, profile));
        while i < len
            invariant
                self.sessions.wf(),
                self.sessions.keys() == keys,
                len == keys.len(),
                i <= len,
                self.config == before.config,
                keys.no_duplicates(),
                before.wf(),
                self@.sessions.dom() == before.sessions.dom(),
                events@ == tick_events(before.sessions, keys.subrange(0, i as int), now_unix_ms, profile),
                forall|j: int|
                    0 <= j < len ==> before.sessions.contains_key(#[trigger] keys[j])
                        && self@.sessions[keys[j]] == (if j < i {
                        before.sessions[keys[j]].ticked(now_unix_ms, profile)
                    } else {
                        before.sessions[keys[j]]
                    }),
            decreases len - i,
        {
            proof {
                self.sessions.lemma_entries();
                assert(self.sessions@.contains_key(keys[i as int]));
            }
            let ghost at = self@;
            let ghost key = keys[i as int];
            let handle = self.sessions.value_mut(i);
            let ghost was = *handle;
            assert(was@ == before.sessions[key]);
            let peer_id = handle.peer_id;
            let action = handle.tick_heartbeat(now_unix_ms, profile);
            proof {
                assert(self@.sessions =~= at.sessions.insert(key, was@.ticked(now_unix_ms, profile)));
                assert(self@.sessions.dom() =~= before.sessions.dom());
                let more = keys.subrange(0, i + 1);
                assert(more.drop_last() =~= keys.subrange(0, i as int));
                assert(more.last() == key);
            }
            if action != HeartbeatAction::Quiet {
                events.push(PoolEvent::Heartbeat { peer_id, action, profile });
            }
            i = i + 1;
        }
        proof {
            self.sessions.lemma_entries();
            self.lemma_sessions();
            assert(keys.subrange(0, i as int) =~= keys);
            let after = before.sessions.map_values(|h: HandleView<C>| h.ticked(now_unix_ms, profile));
            assert forall|k: Seq<u8>| #[trigger] self@.sessions.contains_key(k) implies self@.sessions[k]
                == after[k] && self@.sessions[k].peer_id@ == k by {
                assert(keys.to_set().contains(k));
                let j = keys.index_of(k);
                assert(keys[j] == k);
                assert(before.sessions[k].peer_id@ == k);
            }
            assert(self@.sessions =~= after);
        }
        events
    }

    /// Decides after a failure of the connection to a peer.
    pub fn note_transport_failure(
        &mut self,
        peer_id: &PeerId,
        failure: ReconnectFailure,
        now_unix_ms: u64,
        jitter_sample: u16,
    ) -> (events: Result<Vec<PoolEvent>, PoolError>)
        requires
            old(self).wf(),
        ensures
            final(self).wf(),
            if old(self)@.sessions.contains_key(peer_id@) {
                &&& events matches Ok(row)
                &&& row@ == seq![
                    old(self)@.failed(*peer_id, failure, now_unix_ms, jitter_sample).1,
                ]
                &&& final(self)@ == old(self)@.failed(
                    *peer_id,
                    failure,
                    now_unix_ms,
                    jitter_sample,
                ).0
            } else {
                events == Err::<Vec<PoolEvent>, PoolError>(PoolError::UnknownPeer(*peer_id))
                    && final(self)@ == old(self)@
            },
    {
        let ghost before = self@;
        proof {
            self.lemma_sessions();
        }
        match self.sessions.get_mut(peer_id) {
            None => Err(PoolError::UnknownPeer(*peer_id)),
            Some(handle) => {
                let ghost was = handle@;
                let action = handle.after_transport_failure(failure, now_unix_ms, jitter_sample);
                let ghost now_is = handle@;
                let mut events: Vec<PoolEvent> = Vec::new();
                events.push(failure_event(*peer_id, action));
                proof {
                    self.lemma_sessions();
                    assert(was == before.sessions[peer_id@]);
                    assert(self@.sessions =~= before.sessions.insert(peer_id@, now_is));
                    assert(self@.sessions.dom() =~= before.sessions.dom());
                    let noted = old(self)@.failed(*peer_id, failure, now_unix_ms, jitter_sample);
                    assert(noted.1 == failure_event(*peer_id, action));
                    assert(events@ =~= seq![noted.1]);
                    assert(self@ =~= noted.0);
                }
                Ok(events)
            },
        }
    }
}

/// A second session with a peer replaces the first or is refused; it never adds to the
/// number of sessions.
pub proof fn peers_have_one_session<C>(pool: PoolView<C>, peer_id: PeerId, handle: HandleView<C>)
    requires
        pool.wf(),
        pool.sessions.contains_key(peer_id@),
    ensures
        pool.refusal(peer_id) == (match pool.config.duplicate_peer {
            DuplicatePeerPolicy::ReplaceExisting => None::<PoolError>,
            DuplicatePeerPolicy::Reject => Some(PoolError::DuplicatePeer(peer_id)),
        }),
        pool.sessions.insert(peer_id@, handle).dom().len() == pool.sessions.dom().len(),
{
    assert(pool.sessions.insert(peer_id@, handle).dom() =~= pool.sessions.dom());
}

/// Looking at the clock changes the heartbeat of each session by itself: what the
/// others did makes no difference.
pub proof fn heartbeats_are_independent<C>(
    pool: PoolView<C>,
    other: PoolView<C>,
    peer: Seq<u8>,
    now_unix_ms: u64,
    profile: ConnectionActivityProfile,
)
    requires
        pool.sessions.contains_key(peer),
        other.sessions.contains_key(peer),
        pool.sessions[peer] == other.sessions[peer],
    ensures
        pool.sessions.map_values(|h: HandleView<C>| h.ticked(now_unix_ms, profile))[peer]
            == other.sessions.map_values(|h: HandleView<C>| h.ticked(now_unix_ms, profile))[peer],
{
}

/// A failure of the connection to one peer leaves the sessions with the others alone.
pub proof fn failures_are_independent<C>(
    pool: PoolView<C>,
    peer_id: PeerId,
    other: Seq<u8>,
    failure: ReconnectFailure,
    now_unix_ms: u64,
    jitter_sample: u16,
)
    requires
        other != peer_id@,
        pool.sessions.contains_key(other),
    ensures
        pool.failed(peer_id, failure, now_unix_ms, jitter_sample).0.sessions[other]
            == pool.sessions[other],
{
}

/// A session is refused only for a peer that has one, where the policy is to refuse that,
/// and for another peer where there is no room for it.
pub proof fn peers_are_admitted_up_to_the_limit<C>(pool: PoolView<C>, peer_id: PeerId)
    ensures
        !pool.sessions.contains_key(peer_id@) && pool.sessions.dom().len() + 1 <= pool.config.max_peers
            ==> pool.refusal(peer_id) is None,
        !pool.sessions.contains_key(peer_id@) && pool.sessions.dom().len() >= pool.config.max_peers
            ==> pool.refusal(peer_id) == Some(PoolError::PeerLimit),
        pool.sessions.contains_key(peer_id@) && pool.config.duplicate_peer is ReplaceExisting
            ==> pool.refusal(peer_id) is None,
        pool.sessions.contains_key(peer_id@) && pool.config.duplicate_peer is Reject ==> pool.refusal(
            peer_id,
        ) == Some(PoolError::DuplicatePeer(peer_id)),
{
}

/// A session begins healthy and unpaused, with its first probe an idle interval later and
/// no attempt to reconnect made.
pub proof fn sessions_begin_healthy<C>(
    peer_id: PeerId,
    remote_endpoint: EndpointId,
    remote_addr: SocketAddress,
    connection: C,
    heartbeat: HeartbeatPolicy,
    reconnect: ReconnectPolicy,
    now_unix_ms: u64,
)
    requires
        now_unix_ms + heartbeat.idle_interval_ms <= u64::MAX,
    ensures
        ({
            let handle = HandleView::begun(
                peer_id,
                remote_endpoint,
                remote_addr,
                connection,
                heartbeat,
                reconnect,
                now_unix_ms,
            );
            &&& handle.peer_id == peer_id
            &&& handle.remote_endpoint == remote_endpoint
            &&& handle.remote_addr == remote_addr
            &&& handle.connection == connection
            &&& handle.heartbeat.state is Healthy
            &&& !handle.heartbeat.paused
            &&& handle.heartbeat.last_liveness_unix_ms == now_unix_ms
            &&& handle.heartbeat.last_transport_ack_unix_ms is None
            &&& handle.heartbeat.next_probe_unix_ms == now_unix_ms + heartbeat.idle_interval_ms
            &&& handle.heartbeat.policy == heartbeat
            &&& handle.reconnect.policy == reconnect
            &&& handle.reconnect.attempts == 0
            &&& handle.reconnect.started_unix_ms is None
            &&& !handle.reconnect.paused
        }),
{
}

/// A tick tells of each session what its heartbeat asks for, and nothing of one that is
/// quiet.
pub proof fn ticks_tell_what_heartbeats_ask_for<C>(
    sessions: Map<Seq<u8>, HandleView<C>>,
    row: Seq<Seq<u8>>,
    now_unix_ms: u64,
    profile: ConnectionActivityProfile,
    k: int,
    event: PoolEvent,
)
    ensures
        0 <= k < row.len() && sessions[row[k]].heartbeat.ticked(now_unix_ms, profile).1
            != HeartbeatAction::Quiet ==> tick_events(sessions, row, now_unix_ms, profile).contains(
            PoolEvent::Heartbeat {
                peer_id: sessions[row[k]].peer_id,
                action: sessions[row[k]].heartbeat.ticked(now_unix_ms, profile).1,
                profile,
            },
        ),
        tick_events(sessions, row, now_unix_ms, profile).contains(event) ==> event is Heartbeat
            && event->Heartbeat_action != HeartbeatAction::Quiet,
        tick_events(sessions, row, now_unix_ms, profile).len() <= row.len(),
    decreases row.len(),
{
    if row.len() > 0 {
        let front = tick_events(sessions, row.drop_last(), now_unix_ms, profile);
        let all = tick_events(sessions, row, now_unix_ms, profile);
        ticks_tell_what_heartbeats_ask_for(
            sessions,
            row.drop_last(),
            now_unix_ms,
            profile,
            k,
            event,
        );
        if 0 <= k < row.len() && sessions[row[k]].heartbeat.ticked(now_unix_ms, profile).1
            != HeartbeatAction::Quiet {
            let told = PoolEvent::Heartbeat {
                peer_id: sessions[row[k]].peer_id,
                action: sessions[row[k]].heartbeat.ticked(now_unix_ms, profile).1,
                profile,
            };
            if k == row.len() - 1 {
                assert(all.last() == told);
            } else {
                assert(all[front.index_of(told)] == told);
            }
        }
        if all.contains(event) {
            let i = all.index_of(event);
            if i < front.len() {
                assert(front[i] == event);
            }
        }
    }
}

/// A failure leads to an event that says when the peer is to be connected to again, or that
/// it is not.
pub proof fn failures_lead_to_an_event(peer_id: PeerId, action: ReconnectAction)
    ensures
        action matches ReconnectAction::AttemptAt { unix_ms, attempt } ==> failure_event(peer_id, action) == (
        PoolEvent::ReconnectScheduled { peer_id, unix_ms, attempt }),
        !(action is AttemptAt) ==> failure_event(peer_id, action) == (PoolEvent::ReconnectStopped {
            peer_id,
            action,
        }),
{
}

/// A configuration is refused without peers, name or time to connect, and for an invalid
/// policy; else it is taken.
pub proof fn sound_configurations_are_taken(config: LinkEndpointConfig)
    ensures
        config.fault() is None <==> config.max_peers >= 1 && config.heartbeat.is_valid()
            && config.server_name@.len() >= 1 && config.connect_timeout >= 1 && config.reconnect.valid(),
{
}

/// A session that was let in is found under its peer with what it was let in with; one that
/// was there before is handed back. A removed session is handed back and found no more.
/// The other sessions stay.
pub proof fn sessions_are_found_until_removed<C>(
    before: PeerSessionPool<C>,
    peer_id: PeerId,
    remote_endpoint: EndpointId,
    remote_addr: SocketAddress,
    connection: C,
    now_unix_ms: u64,
)
    ensures
        forall|
            lent: &mut PeerSessionPool<C>,
            replaced: Result<Option<PeerSessionHandle<C>>, PoolError>,
        |
            *lent == before && #[trigger] call_ensures(
                PeerSessionPool::<C>::insert_session,
                (lent, peer_id, remote_endpoint, remote_addr, connection, now_unix_ms),
                replaced,
            ) ==> {
                let after = final(lent)@;
                &&& replaced is Err ==> after == before@
                &&& replaced matches Ok(previous) ==> {
                    &&& after.config == before@.config
                    &&& after.sessions.contains_key(peer_id@)
                    &&& after.sessions[peer_id@].peer_id == peer_id
                    &&& after.sessions[peer_id@].remote_endpoint == remote_endpoint
                    &&& after.sessions[peer_id@].remote_addr == remote_addr
                    &&& after.sessions[peer_id@].connection == connection
                    &&& after.sessions[peer_id@].heartbeat.last_liveness_unix_ms == now_unix_ms
                    &&& previous is Some <==> before@.sessions.contains_key(peer_id@)
                    &&& previous is Some ==> previous->0@ == before@.sessions[peer_id@]
                    &&& after.sessions.remove(peer_id@) =~= before@.sessions.remove(peer_id@)
                }
            },
        forall|lent: &mut PeerSessionPool<C>, removed: Option<PeerSessionHandle<C>>|
            *lent == before && #[trigger] call_ensures(
                PeerSessionPool::<C>::remove,
                (lent, &peer_id),
                removed,
            ) ==> {
                let after = final(lent)@;
                &&& removed is Some <==> before@.sessions.contains_key(peer_id@)
                &&& removed matches Some(handle) ==> handle@ == before@.sessions[peer_id@]
                &&& !after.sessions.contains_key(peer_id@)
                &&& after.sessions =~= before@.sessions.remove(peer_id@)
                &&& after.config == before@.config
            },
{
}

/// A look at the clock ticks the heartbeat of every session and changes nothing else of any.
pub proof fn ticks_touch_heartbeats_alone<C>(
    before: PeerSessionPool<C>,
    now_unix_ms: u64,
    profile: ConnectionActivityProfile,
    peer: Seq<u8>,
)
    requires
        before@.sessions.contains_key(peer),
    ensures
        forall|lent: &mut PeerSessionPool<C>, events: Vec<PoolEvent>|
            *lent == before && #[trigger] call_ensures(
                PeerSessionPool::<C>::maintenance_tick,
                (lent, now_unix_ms, profile),
                events,
            ) ==> {
                let session = before@.sessions[peer];
                let after = final(lent)@.sessions[peer];
                &&& final(lent)@.sessions.dom() =~= before@.sessions.dom()
                &&& after.heartbeat == session.heartbeat.ticked(now_unix_ms, profile).0
                &&& after.peer_id == session.peer_id
                &&& after.connection == session.connection
                &&& after.reconnect == session.reconnect
                &&& after.remote_addr == session.remote_addr
                &&& after.remote_endpoint == session.remote_endpoint
            },
{
}

/// A sign of the peer reaches the heartbeat of its session, and a success its reconnection.
pub proof fn signs_reach_the_heartbeat<C>(before: PeerSessionHandle<C>, now_unix_ms: u64)
    ensures
        forall|lent: &mut PeerSessionHandle<C>, done: ()|
            *lent == before && #[trigger] call_ensures(
                PeerSessionHandle::<C>::observe_transport_ack,
                (lent, now_unix_ms),
                done,
            ) ==> {
                let after = final(lent)@;
                &&& after.heartbeat.last_transport_ack_unix_ms == Some(now_unix_ms)
                &&& after.heartbeat.last_liveness_unix_ms == now_unix_ms
                &&& after.heartbeat.state is Healthy
                &&& after.heartbeat.next_probe_unix_ms == before@.heartbeat.next_probe_unix_ms
                &&& after.reconnect == before@.reconnect
                &&& after.connection == before@.connection
                &&& after.peer_id == before@.peer_id
            },
        forall|lent: &mut PeerSessionHandle<C>, done: ()|
            *lent == before && #[trigger] call_ensures(
                PeerSessionHandle::<C>::observe_probe_ack,
                (lent, now_unix_ms),
                done,
            ) ==> {
                let after = final(lent)@;
                &&& after.heartbeat.last_transport_ack_unix_ms
                    == before@.heartbeat.last_transport_ack_unix_ms
                &&& after.heartbeat.last_liveness_unix_ms == now_unix_ms
                &&& after.heartbeat.state is Healthy
                &&& after.reconnect == before@.reconnect
                &&& after.connection == before@.connection
                &&& after.peer_id == before@.peer_id
            },
        forall|lent: &mut PeerSessionHandle<C>, done: ()|
            *lent == before && #[trigger] call_ensures(
                PeerSessionHandle::<C>::reset_reconnect,
                (lent,),
                done,
            ) ==> {
                let after = final(lent)@;
                &&& after.reconnect.attempts == 0
                &&& after.reconnect.started_unix_ms is None
                &&& after.reconnect.policy == before@.reconnect.policy
                &&& after.reconnect.paused == before@.reconnect.paused
                &&& after.heartbeat == before@.heartbeat
                &&& after.connection == before@.connection
                &&& after.peer_id == before@.peer_id
            },
{
}

} // verus!
