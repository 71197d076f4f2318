//! What becomes of the services that a local network tells of.

use vstd::prelude::*;
use vstd::string::StringExecFns;
use vstd::utf8::encode_utf8;
use crate::bytes::{be64, push_u64, read_16};
use crate::discovery::{
    AttemptRateLimiter, DiscoveredEndpoint, DiscoveredPeer, DiscoveryError, DiscoveryErrorKind, DiscoveryEvent,
    DiscoveryEventView, DiscoveryId, DiscoveryRequest, FoundEndpointView, FoundPeerView, RateLimit,
    RateLimiterView, RequestView, found_endpoints, request_view, validate_request,
};
use crate::selection::SecurityLevel;
use crate::sorted_map::SortedMap;
use crate::text::{decimal_text, push_decimal, text_equal};
use crate::transport::{AddressView, EndpointAddress};

verus! {

/// What a hash is multiplied by for each byte.
pub const HASH_PRIME: u64 = 0x100_0000_01b3;

/// Where the first half of a hash begins.
pub const HASH_LEFT: u64 = 0xcbf2_9ce4_8422_2325;

/// Where the second half of a hash begins.
pub const HASH_RIGHT: u64 = 0x8422_2325_cbf2_9ce4;

/// A byte with its bits moved up by one, the highest becoming the lowest.
#[verifier::allow_in_spec]
pub fn turned(b: u8) -> u8
    returns
        (if b < 128 {
            (b * 2) as u8
        } else {
            (b * 2 - 255) as u8
        }),
{
    if b < 128 {
        b * 2
    } else {
        (b - 128) * 2 + 1
    }
}

/// One half of the hash of a name: each byte is mixed in, and the number multiplied.
pub open spec fn name_hash(bytes: Seq<u8>, start: u64, turn: bool) -> u64
    decreases bytes.len(),
{
    if bytes.len() == 0 {
        start
    } else {
        let before = name_hash(bytes.drop_last(), start, turn);
        let b = if turn {
            turned(bytes.last())
        } else {
            bytes.last()
        };
        (before ^ (b as u64)).wrapping_mul(HASH_PRIME)
    }
}

/// The identifier of the service with a name.
pub open spec fn named_id(name: Seq<char>) -> Seq<u8> {
    let bytes = encode_utf8(name);
    be64(name_hash(bytes, HASH_LEFT, false)) + be64(name_hash(bytes, HASH_RIGHT, true))
}

/// The identifier of the service with a name. It tells services apart while they are
/// known, and proves nothing.
pub fn id_from_name(name: &str) -> (id: DiscoveryId)
    ensures
        id@ == named_id(name@),
{
    let bytes = name.as_bytes();
    let ghost all = encode_utf8(name@);
    let mut left: u64 = HASH_LEFT;
    let mut right: u64 = HASH_RIGHT;
    let mut i: usize = 0;
    while i < bytes.len()
        invariant
            bytes@ == all,
            i <= all.len(),
            left == name_hash(all.subrange(0, i as int), HASH_LEFT, false),
            right == name_hash(all.subrange(0, i as int), HASH_RIGHT, true),
        decreases all.len() - i,
    {
        let b: u8 = bytes[i];
        left = (left ^ (b as u64)).wrapping_mul(HASH_PRIME);
        right = (right ^ (turned(b) as u64)).wrapping_mul(HASH_PRIME);
        proof {
            let more = all.subrange(0, i + 1);
            assert(more.drop_last() =~= all.subrange(0, i as int));
            assert(more.last() == b);
        }
        i = i + 1;
    }
    assert(all.subrange(0, i as int) =~= all);
    let mut out: Vec<u8> = Vec::new();
    push_u64(&mut out, left);
    push_u64(&mut out, right);
    proof {
        crate::bytes::value_of_be64(left);
        crate::bytes::value_of_be64(right);
        assert(out@ =~= be64(left) + be64(right));
        assert(out@.subrange(0, 16) =~= out@);
    }
    DiscoveryId::from_bytes(read_16(out.as_slice(), 0))
}

/// What is made known of an endpoint: the version of the protocol and the transport.
/// Nothing else can be.
pub fn advertised_properties(protocol_major: u16, transport: &str) -> (properties: Vec<(String, String)>)
    ensures
        properties@.len() == 2,
        properties@[0].0@ == "v"@,
        properties@[0].1@ == decimal_text(protocol_major as nat),
        properties@[1].0@ == "t"@,
        properties@[1].1@ == transport@,
{
    let mut version = String::new();
    push_decimal(&mut version, protocol_major as u64);
    assert(version@ =~= decimal_text(protocol_major as nat));
    let mut properties: Vec<(String, String)> = Vec::new();
    properties.push(("v".to_owned(), version));
    properties.push(("t".to_owned(), transport.to_owned()));
    properties
}

/// A service that the network tells of, with its addresses as text.
#[derive(Debug)]
pub struct ResolvedService {
    pub fullname: String,
    pub service_type: String,
    pub addresses: Vec<String>,
    pub port: u16,
    pub transport: Option<String>,
}

/// What the network tells.
#[derive(Debug)]
pub enum MdnsEvent {
    Resolved(ResolvedService),
    Removed(String),
    SearchStopped,
    Other,
}

/// The transport that a service names, or TCP.
pub open spec fn named_transport(transport: Option<String>) -> Seq<char> {
    match transport {
        Some(t) => t@,
        None => "tcp"@,
    }
}

/// An endpoint of a service. Only QUIC is taken to be encrypted, and even that is only
/// what the service says of itself.
pub open spec fn endpoint_at(address: Seq<char>, port: u16, transport: Seq<char>) -> FoundEndpointView {
    FoundEndpointView {
        address: AddressView {
            scheme: transport,
            address: address + ":"@ + decimal_text(port as nat),
        },
        priority: 100,
        advertised_security: if transport == "quic"@ {
            SecurityLevel::AuthenticatedEncrypted
        } else {
            SecurityLevel::Plaintext
        },
    }
}

/// The candidate that a service is.
pub open spec fn candidate(service: ResolvedService, expires_at: u64) -> FoundPeerView {
    FoundPeerView {
        discovery_id: named_id(service.fullname@),
        service_type: service.service_type@,
        endpoints: service.addresses@.map_values(
            |a: String| endpoint_at(a@, service.port, named_transport(service.transport)),
        ),
        expires_at,
    }
}

/// Follows the services of a local network.
#[derive(Debug)]
pub struct MdnsState {
    request: Option<DiscoveryRequest>,
    ttl: u64,
    limiter: AttemptRateLimiter,
    resolved: SortedMap<String, DiscoveryId>,
}

#[verifier::ext_equal]
pub struct MdnsView {
    pub request: Option<RequestView>,
    pub ttl: u64,
    pub limiter: RateLimiterView,
    pub resolved: Map<Seq<char>, Seq<u8>>,
}

impl View for MdnsState {
    type V = MdnsView;

    closed spec fn view(&self) -> MdnsView {
        MdnsView {
            request: request_view(self.request),
            ttl: self.ttl,
            limiter: self.limiter@,
            resolved: self.resolved@.map_values(|id: DiscoveryId| id@),
        }
    }
}

#[verifier::allow_in_spec]
pub fn not_running() -> DiscoveryError
    returns
        DiscoveryError::new(DiscoveryErrorKind::NotRunning, "mDNS discovery is not running"),
{
    DiscoveryError::new(DiscoveryErrorKind::NotRunning, "mDNS discovery is not running")
}

#[verifier::allow_in_spec]
pub fn provider_failed() -> DiscoveryError
    returns
        DiscoveryError::new(DiscoveryErrorKind::ProviderFailure, "mDNS provider operation failed"),
{
    DiscoveryError::new(DiscoveryErrorKind::ProviderFailure, "mDNS provider operation failed")
}

impl MdnsView {
    /// Why nothing is looked for, and what asking makes of the limiter.
    pub open spec fn asked(self, request: RequestView, now: u64) -> (MdnsView, Option<DiscoveryError>) {
        if self.request is Some {
            (
                self,
                Some(
                    DiscoveryError::new(
                        DiscoveryErrorKind::AlreadyRunning,
                        "mDNS discovery is already running",
                    ),
                ),
            )
        } else if !request.valid() {
            (
                self,
                Some(
                    DiscoveryError::new(
                        DiscoveryErrorKind::InvalidInput,
                        "discovery request is invalid",
                    ),
                ),
            )
        } else {
            let (limiter, allowed) = self.limiter.asked(request.service_type, now);
            (
                MdnsView { limiter, ..self },
                if allowed {
                    None
                } else {
                    Some(
                        DiscoveryError::new(
                            DiscoveryErrorKind::RateLimited,
                            "mDNS discovery request was rate limited",
                        ),
                    )
                },
            )
        }
    }

    /// What is told of an event, and what is remembered of it.
    pub open spec fn heard(self, event: MdnsEvent, now: u64) -> (MdnsView, Option<DiscoveryEventView>) {
        match event {
            MdnsEvent::Resolved(service) => (
                MdnsView {
                    resolved: self.resolved.insert(service.fullname@, named_id(service.fullname@)),
                    ..self
                },
                Some(DiscoveryEventView::Found(candidate(service, (now + self.ttl) as u64))),
            ),
            MdnsEvent::Removed(fullname) => if self.resolved.contains_key(fullname@) {
                (
                    MdnsView { resolved: self.resolved.remove(fullname@), ..self },
                    Some(DiscoveryEventView::Expired(self.resolved[fullname@])),
                )
            } else {
                (self, None)
            },
            MdnsEvent::SearchStopped => (self, Some(DiscoveryEventView::Stopped)),
            MdnsEvent::Other => (self, None),
        }
    }
}

/// What an optional event says.
pub open spec fn told(event: Option<DiscoveryEvent>) -> Option<DiscoveryEventView> {
    match event {
        Some(e) => Some(e@),
        None => None,
    }
}

fn endpoints_of(service: &ResolvedService) -> (endpoints: Vec<DiscoveredEndpoint>)
    ensures
        found_endpoints(endpoints@) == service.addresses@.map_values(
            |a: String| endpoint_at(a@, service.port, named_transport(service.transport)),
        ),
{
    let transport: String = match &service.transport {
        Some(text) => text.clone(),
        None => "tcp".to_owned(),
    };
    let advertised_security = if text_equal(transport.as_str(), "quic") {
        SecurityLevel::AuthenticatedEncrypted
    } else {
        SecurityLevel::Plaintext
    };
    let mut endpoints: Vec<DiscoveredEndpoint> = Vec::new();
    let mut i: usize = 0;
    while i < service.addresses.len()
        invariant
            i <= service.addresses@.len(),
            endpoints@.len() == i,
            transport@ == named_transport(service.transport),
            advertised_security == (if transport@ == "quic"@ {
                SecurityLevel::AuthenticatedEncrypted
            } else {
                SecurityLevel::Plaintext
            }),
            forall|j: int|
                0 <= j < i ==> (#[trigger] endpoints@[j])@ == endpoint_at(
                    service.addresses@[j]@,
                    service.port,
                    transport@,
                ),
        decreases service.addresses@.len() - i,
    {
        let mut address = service.addresses[i].clone();
        address.append(":");
        push_decimal(&mut address, service.port as u64);
        let endpoint = DiscoveredEndpoint {
            address: EndpointAddress { scheme: transport.clone(), address },
            priority: 100,
            advertised_security,
        };
        assert(endpoint@ =~= endpoint_at(service.addresses@[i as int]@, service.port, transport@));
        endpoints.push(endpoint);
        i = i + 1;
    }
    assert(found_endpoints(endpoints@) =~= service.addresses@.map_values(
        |a: String| endpoint_at(a@, service.port, named_transport(service.transport)),
    ));
    endpoints
}

impl MdnsState {
    /// Whether the state is valid.
    pub closed spec fn wf(&self) -> bool {
        &&& self.resolved.wf()
        &&& self.limiter.wf()
        &&& self.ttl > 0
        &&& request_view(self.request) matches Some(request) ==> request.valid()
    }

    pub fn new(ttl: u64, limit: RateLimit) -> (state: Result<Self, DiscoveryError>)
        ensures
            match state {
                Ok(s) => {
                    &&& ttl > 0
                    &&& limit.positive()
                    &&& s.wf()
                    &&& s@ == (MdnsView {
                        request: None,
                        ttl,
                        limiter: RateLimiterView { limit, attempts: Map::empty() },
                        resolved: Map::empty(),
                    })
                },
                Err(e) => if ttl == 0 {
                    e == DiscoveryError::new(
                        DiscoveryErrorKind::InvalidInput,
                        "mDNS TTL must be positive",
                    )
                } else {
                    !limit.positive() && e == DiscoveryError::new(
                        DiscoveryErrorKind::InvalidInput,
                        "rate limit must be positive",
                    )
                },
            },
    {
        if ttl == 0 {
            return Err(
                DiscoveryError::new(DiscoveryErrorKind::InvalidInput, "mDNS TTL must be positive"),
            );
        }
        let limiter = AttemptRateLimiter::new(limit)?;
        let state = MdnsState { request: None, ttl, limiter, resolved: SortedMap::new() };
        assert(state@.resolved =~= Map::empty());
        Ok(state)
    }

    /// Whether something may be looked for.
    pub fn check_start(&mut self, request: &DiscoveryRequest, now: u64) -> (checked: Result<
        (),
        DiscoveryError,
    >)
        requires
            old(self).wf(),
        ensures
            final(self).wf(),
            ({
                let (after, fault) = old(self)@.asked(request@, now);
                &&& final(self)@ == after
                &&& checked == (match fault {
                    None => Ok::<(), DiscoveryError>(()),
                    Some(e) => Err(e),
                })
            }),
    {
        if self.request.is_some() {
            return Err(
                DiscoveryError::new(
                    DiscoveryErrorKind::AlreadyRunning,
                    "mDNS discovery is already running",
                ),
            );
        }
        validate_request(request)?;
        if !self.limiter.allow(request.service_type.as_str(), now) {
            return Err(
                DiscoveryError::new(
                    DiscoveryErrorKind::RateLimited,
                    "mDNS discovery request was rate limited",
                ),
            );
        }
        Ok(())
    }

    /// Notes what is looked for.
    pub fn note_started(&mut self, request: DiscoveryRequest)
        requires
            old(self).wf(),
            request@.valid(),
        ensures
            final(self).wf(),
            final(self)@ == (MdnsView { request: Some(request@), ..old(self)@ }),
    {
        self.request = Some(request);
    }

    /// Whether anything is looked for.
    pub fn check_running(&self) -> (running: Result<(), DiscoveryError>)
        ensures
            running == (match self@.request {
                Some(_) => Ok::<(), DiscoveryError>(()),
                None => Err(not_running()),
            }),
    {
        match &self.request {
            Some(_) => Ok(()),
            None => Err(not_running()),
        }
    }

    /// Whether more is told at once, after so many events.
    pub fn wants_more(&self, told: usize) -> (more: bool)
        ensures
            more == (self@.request matches Some(request) && told < request.max_results_per_poll),
    {
        match &self.request {
            Some(request) => told < request.max_results_per_poll,
            None => false,
        }
    }

    /// What is told of something that the network tells. The clock must not run out
    /// before a candidate does.
    pub fn hear(&mut self, event: MdnsEvent, now: u64) -> (heard: Option<DiscoveryEvent>)
        requires
            old(self).wf(),
            event is Resolved ==> now + old(self)@.ttl <= u64::MAX,
        ensures
            final(self).wf(),
            (final(self)@, told(heard)) == old(self)@.heard(event, now),
    {
        let ghost before = self@;
        match event {
            MdnsEvent::Resolved(service) => {
                let id = id_from_name(service.fullname.as_str());
                let endpoints = endpoints_of(&service);
                let expires_at: u64 = now + self.ttl;
                self.resolved.insert(service.fullname, id);
                assert(self@.resolved =~= before.resolved.insert(service.fullname@, id@));
                let peer = DiscoveredPeer {
                    discovery_id: id,
                    service_type: service.service_type,
                    endpoints,
                    expires_at,
                };
                assert(peer@ =~= candidate(service, expires_at));
                Some(DiscoveryEvent::Found(peer))
            },
            MdnsEvent::Removed(fullname) => {
                match self.resolved.remove(&fullname) {
                    Some(id) => {
                        assert(self@.resolved =~= before.resolved.remove(fullname@));
                        Some(DiscoveryEvent::Expired(id))
                    },
                    None => {
                        assert(self@.resolved =~= before.resolved);
                        None
                    },
                }
            },
            MdnsEvent::SearchStopped => Some(DiscoveryEvent::Stopped),
            MdnsEvent::Other => None,
        }
    }

    /// Looks for nothing any more, and tells what was looked for.
    pub fn begin_stop(&mut self) -> (request: Result<DiscoveryRequest, DiscoveryError>)
        requires
            old(self).wf(),
        ensures
            final(self).wf(),
            final(self)@ == (MdnsView { request: None, ..old(self)@ }),
            match old(self)@.request {
                Some(r) => request matches Ok(given) && given@ == r,
                None => request == Err::<DiscoveryRequest, DiscoveryError>(not_running()),
            },
    {
        match self.request.take() {
            Some(request) => Ok(request),
            None => Err(not_running()),
        }
    }

    /// Forgets what was found.
    pub fn finish_stop(&mut self)
        requires
            old(self).wf(),
        ensures
            final(self).wf(),
            final(self)@ == (MdnsView { resolved: Map::empty(), ..old(self)@ }),
    {
        self.resolved.clear();
        assert(self@.resolved =~= Map::empty());
    }
}

/// A service that was found and then withdrawn is told of under the same name.
pub proof fn withdrawn_services_expire(state: MdnsView, service: ResolvedService, withdrawn: String, now: u64)
    requires
        withdrawn@ == service.fullname@,
    ensures
        ({
            let (found, first) = state.heard(MdnsEvent::Resolved(service), now);
            let (gone, second) = found.heard(MdnsEvent::Removed(withdrawn), now);
            &&& first matches Some(DiscoveryEventView::Found(peer)) && second == Some(
                DiscoveryEventView::Expired(peer.discovery_id),
            )
            &&& !gone.resolved.contains_key(service.fullname@)
        }),
{
}

/// A service that is resolved is told as found, with one endpoint for each of its addresses,
/// until its time to live is over; what is encrypted by its transport is told as such.
pub proof fn resolved_services_are_found(state: MdnsView, service: ResolvedService, now: u64, i: int)
    requires
        now + state.ttl <= u64::MAX,
        0 <= i < service.addresses@.len(),
    ensures
        ({
            let (after, event) = state.heard(MdnsEvent::Resolved(service), now);
            let peer = event->0->Found_0;
            let scheme = match service.transport {
                Some(transport) => transport@,
                None => "tcp"@,
            };
            &&& event is Some
            &&& event->0 is Found
            &&& peer.expires_at == now + state.ttl
            &&& peer.service_type == service.service_type@
            &&& peer.endpoints.len() == service.addresses@.len()
            &&& peer.endpoints[i].address.scheme == scheme
            &&& peer.endpoints[i].address.address == service.addresses@[i]@ + ":"@ + decimal_text(
                service.port as nat,
            )
            &&& peer.endpoints[i].priority == 100
            &&& peer.endpoints[i].advertised_security is AuthenticatedEncrypted <==> scheme == "quic"@
            &&& peer.endpoints[i].advertised_security is Plaintext <==> scheme != "quic"@
            &&& after.resolved.contains_key(service.fullname@)
            &&& after.resolved[service.fullname@] == peer.discovery_id
            &&& after.request == state.request
        }),
{
}

/// A service that was never resolved is not told as expired, and an event of no concern
/// changes nothing.
pub proof fn unknown_services_do_not_expire(state: MdnsView, fullname: String, now: u64)
    requires
        !state.resolved.contains_key(fullname@),
    ensures
        state.heard(MdnsEvent::Removed(fullname), now) == (state, None::<DiscoveryEventView>),
        state.heard(MdnsEvent::Other, now) == (state, None::<DiscoveryEventView>),
        state.heard(MdnsEvent::SearchStopped, now).1 == Some(DiscoveryEventView::Stopped),
{
}

/// A search begins where none runs, for a valid request and a service that may be asked for
/// once more.
pub proof fn searches_begin_once(state: MdnsView, request: RequestView, now: u64)
    ensures
        ({
            let (after, fault) = state.asked(request, now);
            &&& state.request is Some ==> (fault matches Some(e) && e.kind
                == DiscoveryErrorKind::AlreadyRunning) && after == state
            &&& state.request is None && !request.valid() ==> (fault matches Some(e) && e.kind
                == DiscoveryErrorKind::InvalidInput) && after == state
            &&& state.request is None && request.valid() ==> {
                &&& fault is None <==> state.limiter.asked(request.service_type, now).1
                &&& fault matches Some(e) ==> e.kind == DiscoveryErrorKind::RateLimited
            }
        }),
{
}

/// A name is hashed byte by byte: each is mixed in by its bits, and the whole is then
/// multiplied by the prime, within 64 bits. The second half has each byte turned by a bit.
pub proof fn names_are_hashed_byte_by_byte(bytes: Seq<u8>, b: u8, start: u64)
    ensures
        name_hash(Seq::empty(), start, false) == start,
        name_hash(bytes.push(b), start, false) as int == ((name_hash(bytes, start, false) ^ (b as u64))
            * 0x100_0000_01b3) % 0x1_0000_0000_0000_0000,
        name_hash(bytes.push(b), start, true) as int == ((name_hash(bytes, start, true) ^ (turned(
            b,
        ) as u64)) * 0x100_0000_01b3) % 0x1_0000_0000_0000_0000,
        b < 128 ==> turned(b) == 2 * b,
        b >= 128 ==> turned(b) == 2 * b - 255,
{
    assert(bytes.push(b).drop_last() =~= bytes);
}

/// A search that was begun runs until it is stopped, which hands back what was searched for;
/// when it has stopped, nothing that was resolved is remembered.
pub proof fn searches_run_until_they_are_stopped(before: MdnsState, request: DiscoveryRequest)
    ensures
        forall|
            lent: &mut MdnsState,
            again: &mut MdnsState,
            begun: (),
            stopped: Result<DiscoveryRequest, DiscoveryError>,
        |
            {
                &&& *lent == before
                &&& #[trigger] call_ensures(MdnsState::note_started, (lent, request), begun)
                &&& *again == *final(lent)
                &&& #[trigger] call_ensures(MdnsState::begin_stop, (again,), stopped)
            } ==> {
                &&& final(lent)@.request == Some(request@)
                &&& stopped matches Ok(given)
                &&& given@ == request@
                &&& final(again)@.request is None
                &&& final(again)@.resolved == before@.resolved
            },
        forall|lent: &mut MdnsState, stopped: Result<DiscoveryRequest, DiscoveryError>|
            {
                &&& *lent == before
                &&& before@.request is None
                &&& #[trigger] call_ensures(MdnsState::begin_stop, (lent,), stopped)
            } ==> (stopped matches Err(e) && e.kind is NotRunning),
        forall|lent: &mut MdnsState, done: ()|
            *lent == before && #[trigger] call_ensures(MdnsState::finish_stop, (lent,), done) ==> {
                &&& final(lent)@.resolved.dom() =~= Set::<Seq<char>>::empty()
                &&& final(lent)@.request == before@.request
                &&& final(lent)@.limiter == before@.limiter
            },
{
}

} // verus!
