//! Endpoints that were found but are not trusted. Discovery creates no peer identity,
//! writes no trust record and opens no channel.

use std::collections::VecDeque;
use vstd::prelude::*;
use crate::attempt_log::{
    Attempt, AttemptLog, Call, attempt_step, is_history, live_attempts_alone_refuse, live_calls, live_sources,
    log_after, sources_stay_bounded,
};
use crate::bytes::bytes_equal;
use crate::ordering::{MapKey, Position, byte_position, byte_rank, byte_rank_injective};
use crate::realtime_model::{lemma_filter_members, lemma_filter_prefix};
use crate::selection::SecurityLevel;
use crate::sorted_map::{SortedMap, ascending_keys};
use crate::text::is_empty_text;
use crate::transport::{AddressView, EndpointAddress};

verus! {

/// A name for a candidate while it is known. It is no peer identity.
#[derive(Clone, Copy, Debug, Eq, Hash, Ord, PartialEq, PartialOrd)]
pub struct DiscoveryId(pub [u8; 16]);

impl View for DiscoveryId {
    type V = Seq<u8>;

    open spec fn view(&self) -> Seq<u8> {
        self.0@
    }
}

impl DiscoveryId {
    #[verifier::allow_in_spec]
    pub fn from_bytes(bytes: [u8; 16]) -> Self
        returns
            DiscoveryId(bytes),
    {
        DiscoveryId(bytes)
    }

    /// Whether both identifiers hold the same bytes.
    pub fn same(&self, other: &Self) -> (same: bool)
        ensures
            same == (self@ == other@),
    {
        bytes_equal(&self.0, &other.0)
    }
}

/// Ordered by its bytes.
impl MapKey for DiscoveryId {
    open spec fn rank(v: Seq<u8>) -> Seq<int> {
        byte_rank(v)
    }

    proof fn rank_injective(a: Seq<u8>, b: Seq<u8>) {
        byte_rank_injective(a, b);
    }

    fn position(&self, other: &Self) -> (p: Position) {
        byte_position(&self.0, &other.0)
    }
}

#[derive(Clone, Debug, Eq, PartialEq)]
pub struct DiscoveredEndpoint {
    pub address: EndpointAddress,
    pub priority: u16,
    pub advertised_security: SecurityLevel,
}

#[verifier::ext_equal]
pub struct FoundEndpointView {
    pub address: AddressView,
    pub priority: u16,
    pub advertised_security: SecurityLevel,
}

impl View for DiscoveredEndpoint {
    type V = FoundEndpointView;

    open spec fn view(&self) -> FoundEndpointView {
        FoundEndpointView {
            address: self.address@,
            priority: self.priority,
            advertised_security: self.advertised_security,
        }
    }
}

/// What each endpoint of a row says.
pub open spec fn found_endpoints(endpoints: Seq<DiscoveredEndpoint>) -> Seq<FoundEndpointView> {
    endpoints.map_values(|e: DiscoveredEndpoint| e@)
}

/// A candidate, known until it expires.
#[derive(Clone, Debug, Eq, PartialEq)]
pub struct DiscoveredPeer {
    pub discovery_id: DiscoveryId,
    pub service_type: String,
    pub endpoints: Vec<DiscoveredEndpoint>,
    pub expires_at: u64,
}

#[verifier::ext_equal]
pub struct FoundPeerView {
    pub discovery_id: Seq<u8>,
    pub service_type: Seq<char>,
    pub endpoints: Seq<FoundEndpointView>,
    pub expires_at: u64,
}

impl View for DiscoveredPeer {
    type V = FoundPeerView;

    open spec fn view(&self) -> FoundPeerView {
        FoundPeerView {
            discovery_id: self.discovery_id@,
            service_type: self.service_type@,
            endpoints: found_endpoints(self.endpoints@),
            expires_at: self.expires_at,
        }
    }
}

#[derive(Clone, Debug, Eq, PartialEq)]
pub enum DiscoveryEvent {
    Found(DiscoveredPeer),
    Expired(DiscoveryId),
    Stopped,
}

#[verifier::ext_equal]
pub enum DiscoveryEventView {
    Found(FoundPeerView),
    Expired(Seq<u8>),
    Stopped,
}

impl View for DiscoveryEvent {
    type V = DiscoveryEventView;

    open spec fn view(&self) -> DiscoveryEventView {
        match self {
            DiscoveryEvent::Found(peer) => DiscoveryEventView::Found(peer@),
            DiscoveryEvent::Expired(id) => DiscoveryEventView::Expired(id@),
            DiscoveryEvent::Stopped => DiscoveryEventView::Stopped,
        }
    }
}

/// What each event of a row says.
pub open spec fn event_views(events: Seq<DiscoveryEvent>) -> Seq<DiscoveryEventView> {
    events.map_values(|e: DiscoveryEvent| e@)
}

#[derive(Clone, Debug, Eq, PartialEq)]
pub struct DiscoveryRequest {
    pub service_type: String,
    pub max_results_per_poll: usize,
}

#[verifier::ext_equal]
pub struct RequestView {
    pub service_type: Seq<char>,
    pub max_results_per_poll: usize,
}

impl View for DiscoveryRequest {
    type V = RequestView;

    open spec fn view(&self) -> RequestView {
        RequestView {
            service_type: self.service_type@,
            max_results_per_poll: self.max_results_per_poll,
        }
    }
}

impl RequestView {
    /// Whether something is asked for.
    pub open spec fn valid(self) -> bool {
        self.service_type.len() > 0 && self.max_results_per_poll > 0
    }
}

/// What an optional request says.
pub open spec fn request_view(request: Option<DiscoveryRequest>) -> Option<RequestView> {
    match request {
        Some(r) => Some(r@),
        None => None,
    }
}

#[derive(Clone, Copy, Debug, Eq, PartialEq, Structural)]
pub enum DiscoveryErrorKind {
    InvalidInput,
    RateLimited,
    AlreadyRunning,
    NotRunning,
    ProviderFailure,
}

#[derive(Clone, Debug, Eq, PartialEq)]
pub struct DiscoveryError {
    pub kind: DiscoveryErrorKind,
    pub public_message: &'static str,
}

impl DiscoveryError {
    #[verifier::allow_in_spec]
    pub fn new(kind: DiscoveryErrorKind, public_message: &'static str) -> Self
        returns
            (DiscoveryError { kind, public_message }),
    {
        DiscoveryError { kind, public_message }
    }

    /// The text that may be shown to a user.
    pub fn display_text(&self) -> (text: String)
        ensures
            text@ == self.public_message@,
    {
        self.public_message.to_owned()
    }
}

/// A source of candidates. Times are nanoseconds of a clock that never goes back.
pub trait DiscoveryProvider: Sized {
    /// Whether the provider is in a valid state.
    spec fn valid(&self) -> bool;

    fn start(&mut self, request: DiscoveryRequest, now: u64) -> (started: Result<(), DiscoveryError>)
        requires
            old(self).valid(),
        ensures
            final(self).valid(),
    ;

    fn poll(&mut self, now: u64) -> (events: Result<Vec<DiscoveryEvent>, DiscoveryError>)
        requires
            old(self).valid(),
        ensures
            final(self).valid(),
    ;

    fn stop(&mut self) -> (stopped: Result<(), DiscoveryError>)
        requires
            old(self).valid(),
        ensures
            final(self).valid(),
    ;
}

/// How often a source may be heard in a time, how many sources, how many candidates.
#[derive(Clone, Copy, Debug, Eq, PartialEq, Structural)]
pub struct RateLimit {
    pub attempts: usize,
    pub window: u64,
    pub max_sources: usize,
    pub max_candidates: usize,
}

impl RateLimit {
    /// Whether nothing is limited to none.
    pub open spec fn positive(self) -> bool {
        &&& self.attempts > 0
        &&& self.window > 0
        &&& self.max_sources > 0
        &&& self.max_candidates > 0
    }
}

/// Bounds the attempts of each source, and the number of sources.
#[derive(Debug)]
pub struct AttemptRateLimiter {
    limit: RateLimit,
    attempts: AttemptLog<String>,
}

#[verifier::ext_equal]
pub struct RateLimiterView {
    pub limit: RateLimit,
    pub attempts: Map<Seq<char>, Seq<u64>>,
}

impl View for AttemptRateLimiter {
    type V = RateLimiterView;

    closed spec fn view(&self) -> RateLimiterView {
        RateLimiterView { limit: self.limit, attempts: self.attempts@ }
    }
}

impl RateLimiterView {
    /// Whether no more sources are remembered than may be.
    pub open spec fn wf(self) -> bool {
        &&& self.limit.positive()
        &&& self.attempts.dom().finite()
        &&& self.attempts.dom().len() <= self.limit.max_sources
    }

    /// What an attempt makes of the limiter, and whether it is allowed.
    pub open spec fn asked(self, source: Seq<char>, now: u64) -> (RateLimiterView, bool) {
        let (attempts, outcome) = attempt_step(
            self.attempts,
            source,
            self.limit.attempts,
            self.limit.max_sources,
            self.limit.window,
            now,
        );
        (RateLimiterView { attempts, ..self }, outcome == Attempt::Taken)
    }
}

impl AttemptRateLimiter {
    /// Whether the limiter is valid.
    pub closed spec fn wf(&self) -> bool {
        self.attempts.wf() && self@.wf()
    }

    /// What is known of a valid limiter.
    pub proof fn lemma_wf(&self)
        requires
            self.wf(),
        ensures
            self@.wf(),
    {
    }

    pub fn new(limit: RateLimit) -> (limiter: Result<Self, DiscoveryError>)
        ensures
            match limiter {
                Ok(l) => limit.positive() && l.wf() && l@ == (RateLimiterView {
                    limit,
                    attempts: Map::empty(),
                }),
                Err(e) => !limit.positive() && e == DiscoveryError::new(
                    DiscoveryErrorKind::InvalidInput,
                    "rate limit must be positive",
                ),
            },
    {
        if limit.attempts == 0 || limit.window == 0 || limit.max_sources == 0 || limit.max_candidates
            == 0 {
            return Err(
                DiscoveryError::new(DiscoveryErrorKind::InvalidInput, "rate limit must be positive"),
            );
        }
        Ok(AttemptRateLimiter { limit, attempts: AttemptLog::new() })
    }

    /// Takes an attempt of a source, unless there were too many.
    pub fn allow(&mut self, source: &str, now: u64) -> (allowed: bool)
        requires
            old(self).wf(),
        ensures
            final(self).wf(),
            (final(self)@, allowed) == old(self)@.asked(source@, now),
    {
        proof {
            sources_stay_bounded(
                self.attempts@,
                source@,
                self.limit.attempts,
                self.limit.max_sources,
                self.limit.window,
                now,
            );
        }
        let outcome = self.attempts.attempt(
            source.to_owned(),
            self.limit.attempts,
            self.limit.max_sources,
            self.limit.window,
            now,
        );
        outcome == Attempt::Taken
    }

    /// How many candidates may be known at a time.
    pub fn max_candidates(&self) -> (n: usize)
        ensures
            n == self@.limit.max_candidates,
    {
        self.limit.max_candidates
    }
}

impl RateLimiterView {
    /// Whether the limiter has seen these attempts since it was new, in this order.
    pub open spec fn has_seen(self, calls: Seq<Call<Seq<char>>>) -> bool {
        &&& is_history(calls, self.limit.attempts, self.limit.max_sources, self.limit.window)
        &&& self.attempts == log_after(
            calls,
            self.limit.attempts,
            self.limit.max_sources,
            self.limit.window,
        )
    }
}

/// Where moments never go back, a source is allowed an attempt exactly where fewer of its
/// attempts than the limit were allowed of late, and it has such an attempt or fewer
/// sources than the limit have one. Attempts that were refused delay nobody.
pub proof fn attempts_are_allowed_by_live_ones(
    limiter: RateLimiterView,
    calls: Seq<Call<Seq<char>>>,
    source: Seq<char>,
    now: u64,
)
    requires
        limiter.limit.positive(),
        limiter.has_seen(calls),
        calls.len() > 0 ==> calls.last().at <= now,
    ensures
        ({
            let (after, allowed) = limiter.asked(source, now);
            let own = live_calls(calls, source, now, limiter.limit.window).len();
            let sources = live_sources(calls, now, limiter.limit.window).len();
            &&& allowed == (own < limiter.limit.attempts && (own > 0 || sources
                < limiter.limit.max_sources))
            &&& after.has_seen(calls.push(Call { source, at: now, taken: allowed }))
        }),
{
    live_attempts_alone_refuse(
        calls,
        limiter.limit.attempts,
        limiter.limit.max_sources,
        limiter.limit.window,
        source,
        now,
    );
    let call = Call { source, at: now, taken: limiter.asked(source, now).1 };
    assert(calls.push(call).drop_last() =~= calls);
}

/// Refuses a request that asks for nothing.
pub fn validate_request(request: &DiscoveryRequest) -> (valid: Result<(), DiscoveryError>)
    ensures
        valid == (if request@.valid() {
            Ok::<(), DiscoveryError>(())
        } else {
            Err(
                DiscoveryError::new(DiscoveryErrorKind::InvalidInput, "discovery request is invalid"),
            )
        }),
{
    if is_empty_text(request.service_type.as_str()) || request.max_results_per_poll == 0 {
        return Err(
            DiscoveryError::new(DiscoveryErrorKind::InvalidInput, "discovery request is invalid"),
        );
    }
    Ok(())
}

/// Candidates that are entered by hand.
#[derive(Debug)]
pub struct ManualDiscovery {
    request: Option<DiscoveryRequest>,
    pending: VecDeque<DiscoveryEvent>,
    active: SortedMap<DiscoveryId, u64>,
    limiter: AttemptRateLimiter,
}

/// What is asked for, what is still to be told, and when each candidate expires.
#[verifier::ext_equal]
pub struct ManualView {
    pub request: Option<RequestView>,
    pub pending: Seq<DiscoveryEventView>,
    pub active: Map<Seq<u8>, u64>,
    pub limiter: RateLimiterView,
}

impl View for ManualDiscovery {
    type V = ManualView;

    closed spec fn view(&self) -> ManualView {
        ManualView {
            request: request_view(self.request),
            pending: event_views(self.pending@),
            active: self.active@,
            limiter: self.limiter@,
        }
    }
}

/// Whether an event tells of none of some candidates.
pub open spec fn announces_none(ids: Seq<Seq<u8>>) -> spec_fn(DiscoveryEventView) -> bool {
    |event: DiscoveryEventView| !(event matches DiscoveryEventView::Found(peer) && ids.contains(
        peer.discovery_id,
    ))
}

/// The first of a row, at most so many.
pub open spec fn first_of<A>(row: Seq<A>, most: nat) -> Seq<A> {
    if row.len() <= most {
        row
    } else {
        row.subrange(0, most as int)
    }
}

impl ManualView {
    /// Whether what is to be told is still true, told once, and within the bounds.
    pub open spec fn wf(self) -> bool {
        &&& self.limiter.wf()
        &&& self.active.dom().finite()
        &&& self.active.dom().len() <= self.limiter.limit.max_candidates
        &&& self.request matches Some(request) ==> request.valid()
        &&& self.request is None ==> self.pending.len() == 0 && self.active.dom().len() == 0
        &&& forall|i: int|
            0 <= i < self.pending.len() ==> (#[trigger] self.pending[i] matches DiscoveryEventView::Found(
                peer,
            ) && self.active.contains_key(peer.discovery_id) && self.active[peer.discovery_id]
                == peer.expires_at)
        &&& forall|i: int, j: int|
            0 <= i < j < self.pending.len() ==> (#[trigger] self.pending[i])->Found_0.discovery_id != (
            #[trigger] self.pending[j])->Found_0.discovery_id
    }

    /// Why a candidate is refused, the limit on attempts aside.
    pub open spec fn refused(self, id: Seq<u8>, ttl: u64) -> Option<DiscoveryErrorKind> {
        if ttl == 0 {
            Some(DiscoveryErrorKind::InvalidInput)
        } else if !self.active.contains_key(id) && self.active.dom().len()
            >= self.limiter.limit.max_candidates {
            Some(DiscoveryErrorKind::RateLimited)
        } else {
            None
        }
    }

    /// With a candidate that replaces what was to be told of it.
    pub open spec fn with_candidate(self, peer: FoundPeerView) -> ManualView {
        ManualView {
            pending: self.pending.filter(announces_none(seq![peer.discovery_id])).push(
                DiscoveryEventView::Found(peer),
            ),
            active: self.active.insert(peer.discovery_id, peer.expires_at),
            ..self
        }
    }

    /// What becomes of a candidate.
    pub open spec fn added(
        self,
        source: Seq<char>,
        id: Seq<u8>,
        endpoint: FoundEndpointView,
        ttl: u64,
        now: u64,
    ) -> (ManualView, Option<DiscoveryError>) {
        if self.request is None {
            (
                self,
                Some(
                    DiscoveryError::new(
                        DiscoveryErrorKind::NotRunning,
                        "manual discovery is not running",
                    ),
                ),
            )
        } else if self.refused(id, ttl) is Some {
            (
                self,
                Some(
                    DiscoveryError::new(
                        self.refused(id, ttl)->Some_0,
                        "manual discovery candidate was rejected",
                    ),
                ),
            )
        } else {
            let (limiter, allowed) = self.limiter.asked(source, now);
            let asked = ManualView { limiter, ..self };
            if allowed {
                (
                    asked.with_candidate(
                        FoundPeerView {
                            discovery_id: id,
                            service_type: self.request->Some_0.service_type,
                            endpoints: seq![endpoint],
                            expires_at: (now + ttl) as u64,
                        },
                    ),
                    None,
                )
            } else {
                (
                    asked,
                    Some(
                        DiscoveryError::new(
                            DiscoveryErrorKind::RateLimited,
                            "manual discovery candidate was rejected",
                        ),
                    ),
                )
            }
        }
    }

    /// The candidates that have expired, in the order of their names.
    pub open spec fn due(self, now: u64) -> Seq<Seq<u8>> {
        ascending_keys::<DiscoveryId>(self.active.dom()).filter(
            |id: Seq<u8>| self.active[id] <= now,
        )
    }

    /// The candidates whose expiry is told at once.
    pub open spec fn expiring(self, now: u64, most: usize) -> Seq<Seq<u8>> {
        first_of(self.due(now), most as nat)
    }

    /// What is told at once: first what has expired, then what was found.
    pub open spec fn told(self, now: u64, most: usize) -> Seq<DiscoveryEventView> {
        let expired = self.expiring(now, most);
        let left = self.pending.filter(announces_none(expired));
        expired.map_values(|id: Seq<u8>| DiscoveryEventView::Expired(id)) + first_of(
            left,
            (most - expired.len()) as nat,
        )
    }

    /// What is left to be told.
    pub open spec fn after_poll(self, now: u64, most: usize) -> ManualView {
        let expired = self.expiring(now, most);
        let left = self.pending.filter(announces_none(expired));
        let n = first_of(left, (most - expired.len()) as nat).len();
        ManualView {
            pending: left.subrange(n as int, left.len() as int),
            active: self.active.remove_keys(expired.to_set()),
            ..self
        }
    }
}

/// The bytes of each identifier of a row.
pub open spec fn id_views(ids: Seq<DiscoveryId>) -> Seq<Seq<u8>> {
    ids.map_values(|id: DiscoveryId| id@)
}

fn holds(ids: &Vec<DiscoveryId>, id: &DiscoveryId) -> (held: bool)
    ensures
        held == id_views(ids@).contains(id@),
{
    let ghost views = id_views(ids@);
    let mut i: usize = 0;
    while i < ids.len()
        invariant
            views == id_views(ids@),
            i <= ids@.len(),
            forall|j: int| 0 <= j < i ==> #[trigger] views[j] != id@,
        decreases ids@.len() - i,
    {
        assert(views[i as int] == ids@[i as int]@);
        if ids[i].same(id) {
            return true;
        }
        i = i + 1;
    }
    false
}

/// Drops the events that tell of some candidates.
fn drop_announcements(pending: &mut VecDeque<DiscoveryEvent>, ids: &Vec<DiscoveryId>)
    ensures
        event_views(final(pending)@) == event_views(old(pending)@).filter(
            announces_none(id_views(ids@)),
        ),
{
    let ghost all = event_views(pending@);
    let ghost pass = announces_none(id_views(ids@));
    let mut kept: VecDeque<DiscoveryEvent> = VecDeque::new();
    let ghost mut n: int = 0;
    proof {
        reveal(Seq::filter);
        assert(all.subrange(0, 0).filter(pass) =~= Seq::empty());
        assert(all.subrange(0, all.len() as int) =~= all);
        assert(event_views(kept@) =~= Seq::empty());
    }
    while pending.len() > 0
        invariant
            0 <= n <= all.len(),
            pass == announces_none(id_views(ids@)),
            event_views(pending@) == all.subrange(n, all.len() as int),
            event_views(kept@) == all.subrange(0, n).filter(pass),
        decreases pending@.len(),
    {
        let ghost was = pending@;
        match pending.pop_front() {
            None => {},
            Some(event) => {
                proof {
                    assert(event_views(was).len() == was.len());
                    assert(event_views(was) == all.subrange(n, all.len() as int));
                    assert(event_views(was)[0] == was[0]@);
                    assert(all.subrange(n, all.len() as int)[0] == all[n]);
                    assert(event_views(pending@) =~= all.subrange(n + 1, all.len() as int)) by {
                        assert forall|i: int| 0 <= i < pending@.len() implies event_views(pending@)[i]
                            == all[n + 1 + i] by {
                            assert(pending@[i] == was[i + 1]);
                            assert(event_views(was)[i + 1] == was[i + 1]@);
                            assert(all.subrange(n, all.len() as int)[i + 1] == all[n + 1 + i]);
                        }
                    }
                    lemma_filter_prefix(all, pass, n);
                    n = n + 1;
                }
                let told = match &event {
                    DiscoveryEvent::Found(peer) => holds(ids, &peer.discovery_id),
                    _ => false,
                };
                if !told {
                    let ghost before = kept@;
                    kept.push_back(event);
                    assert(event_views(kept@) =~= event_views(before).push(event@));
                }
            },
        }
    }
    assert(all.subrange(0, n) =~= all);
    *pending = kept;
}

/// What is left of a row of events tells of different candidates still.
proof fn lemma_filtered(before: ManualView, after: ManualView, ids: Seq<Seq<u8>>)
    requires
        before.wf(),
        after.pending == before.pending.filter(announces_none(ids)),
        forall|id: Seq<u8>| #[trigger]
            before.active.contains_key(id) && !ids.contains(id) ==> after.active.contains_key(id)
                && after.active[id] == before.active[id],
    ensures
        forall|i: int|
            0 <= i < after.pending.len() ==> (#[trigger] after.pending[i] matches DiscoveryEventView::Found(
                peer,
            ) && after.active.contains_key(peer.discovery_id) && after.active[peer.discovery_id]
                == peer.expires_at && before.active.contains_key(peer.discovery_id)
                && before.active[peer.discovery_id] == peer.expires_at && !ids.contains(
                peer.discovery_id,
            )),
        forall|i: int, j: int|
            0 <= i < j < after.pending.len() ==> (#[trigger] after.pending[i])->Found_0.discovery_id != (
            #[trigger] after.pending[j])->Found_0.discovery_id,
{
    let pass = announces_none(ids);
    assert forall|i: int| 0 <= i < after.pending.len() implies (#[trigger] after.pending[i] matches DiscoveryEventView::Found(
        peer,
    ) && after.active.contains_key(peer.discovery_id) && after.active[peer.discovery_id]
        == peer.expires_at && before.active.contains_key(peer.discovery_id)
        && before.active[peer.discovery_id] == peer.expires_at && !ids.contains(peer.discovery_id)) by {
        lemma_filter_members(before.pending, pass, after.pending[i]);
        assert(after.pending.contains(after.pending[i]));
        let at = before.pending.index_of(after.pending[i]);
        assert(before.pending[at] == after.pending[i]);
    }
    assert(before.pending.map_values(|e: DiscoveryEventView| e->Found_0.discovery_id).no_duplicates()) by {
        let names = before.pending.map_values(|e: DiscoveryEventView| e->Found_0.discovery_id);
        assert forall|i: int, j: int| 0 <= i < names.len() && 0 <= j < names.len() && i != j implies names[i]
            != names[j] by {
            assert(names[i] == before.pending[i]->Found_0.discovery_id);
            assert(names[j] == before.pending[j]->Found_0.discovery_id);
        }
    }
    lemma_filtered_names(before.pending, pass);
    let names = after.pending.map_values(|e: DiscoveryEventView| e->Found_0.discovery_id);
    assert forall|i: int, j: int| 0 <= i < j < after.pending.len() implies (
    #[trigger] after.pending[i])->Found_0.discovery_id != (
    #[trigger] after.pending[j])->Found_0.discovery_id by {
        assert(names[i] == after.pending[i]->Found_0.discovery_id);
        assert(names[j] == after.pending[j]->Found_0.discovery_id);
    }
}

proof fn lemma_filtered_names(row: Seq<DiscoveryEventView>, pass: spec_fn(DiscoveryEventView) -> bool)
    requires
        row.map_values(|e: DiscoveryEventView| e->Found_0.discovery_id).no_duplicates(),
    ensures
        row.filter(pass).map_values(|e: DiscoveryEventView| e->Found_0.discovery_id).no_duplicates(),
        forall|e: DiscoveryEventView| #[trigger] row.filter(pass).contains(e) ==> row.contains(e),
    decreases row.len(),
{
    reveal(Seq::filter);
    let name = |e: DiscoveryEventView| e->Found_0.discovery_id;
    if row.len() > 0 {
        let front = row.drop_last();
        let names = row.map_values(name);
        assert(front.map_values(name) =~= names.drop_last());
        lemma_filtered_names(front, pass);
        let kept = front.filter(pass);
        assert forall|e: DiscoveryEventView| #[trigger] row.filter(pass).contains(e) implies row.contains(e) by {
            lemma_filter_members(row, pass, e);
        }
        if pass(row.last()) {
            let more = kept.push(row.last());
            assert(more.map_values(name) =~= kept.map_values(name).push(name(row.last())));
            assert forall|i: int| 0 <= i < kept.len() implies kept.map_values(name)[i] != name(row.last()) by {
                assert(kept.contains(kept[i]));
                assert(front.contains(kept[i]));
                let at = front.index_of(kept[i]);
                assert(names[at] == name(kept[i]));
                assert(names[row.len() - 1] == name(row.last()));
            }
        }
    }
}

impl ManualDiscovery {
    /// Whether the provider is valid.
    pub closed spec fn wf(&self) -> bool {
        self.active.wf() && self.limiter.wf() && self@.wf()
    }

    /// What is known of a valid provider.
    pub proof fn lemma_wf(&self)
        requires
            self.wf(),
        ensures
            self@.wf(),
    {
    }

    pub fn new(limit: RateLimit) -> (provider: Result<Self, DiscoveryError>)
        ensures
            match provider {
                Ok(p) => limit.positive() && p.wf() && p@ == (ManualView {
                    request: None,
                    pending: Seq::empty(),
                    active: Map::empty(),
                    limiter: RateLimiterView { limit, attempts: Map::empty() },
                }),
                Err(e) => !limit.positive() && e == DiscoveryError::new(
                    DiscoveryErrorKind::InvalidInput,
                    "rate limit must be positive",
                ),
            },
    {
        let limiter = AttemptRateLimiter::new(limit)?;
        let provider = ManualDiscovery {
            request: None,
            pending: VecDeque::new(),
            active: SortedMap::new(),
            limiter,
        };
        proof {
            provider.limiter.lemma_wf();
            provider.active.lemma_entries();
            assert(provider@.pending =~= Seq::empty());
        }
        Ok(provider)
    }

    /// How many candidates are known, and how many are still to be told of.
    pub fn known_candidates(&self) -> (n: (usize, usize))
        requires
            self.wf(),
        ensures
            n.0 == self@.active.dom().len(),
            n.1 == self@.pending.len(),
    {
        (self.active.len(), self.pending.len())
    }

    /// Enters a candidate. The clock must not run out before the candidate does.
    pub fn add_address(
        &mut self,
        source: &str,
        discovery_id: DiscoveryId,
        endpoint: DiscoveredEndpoint,
        ttl: u64,
        now: u64,
    ) -> (added: Result<(), DiscoveryError>)
        requires
            old(self).wf(),
            now + ttl <= u64::MAX,
        ensures
            final(self).wf(),
            ({
                let (after, fault) = old(self)@.added(source@, discovery_id@, endpoint@, ttl, now);
                &&& final(self)@ == after
                &&& match fault {
                    None => added is Ok,
                    Some(e) => added == Err::<(), DiscoveryError>(e),
                }
            }),
    {
        let ghost before = self@;
        let service_type = match &self.request {
            Some(request) => request.service_type.clone(),
            None => {
                return Err(
                    DiscoveryError::new(
                        DiscoveryErrorKind::NotRunning,
                        "manual discovery is not running",
                    ),
                );
            },
        };
        proof {
            self.active.lemma_entries();
        }
        let at_capacity = !self.active.contains_key(&discovery_id) && self.active.len()
            >= self.limiter.max_candidates();
        if ttl == 0 {
            return Err(
                DiscoveryError::new(
                    DiscoveryErrorKind::InvalidInput,
                    "manual discovery candidate was rejected",
                ),
            );
        }
        if at_capacity {
            return Err(
                DiscoveryError::new(
                    DiscoveryErrorKind::RateLimited,
                    "manual discovery candidate was rejected",
                ),
            );
        }
        let allowed = self.limiter.allow(source, now);
        proof {
            self.limiter.lemma_wf();
        }
        if !allowed {
            return Err(
                DiscoveryError::new(
                    DiscoveryErrorKind::RateLimited,
                    "manual discovery candidate was rejected",
                ),
            );
        }
        let ghost asked = self@;
        let expires_at: u64 = now + ttl;
        let mut replaced: Vec<DiscoveryId> = Vec::new();
        replaced.push(discovery_id);
        assert(id_views(replaced@) =~= seq![discovery_id@]);
        drop_announcements(&mut self.pending, &replaced);
        self.active.insert(discovery_id, expires_at);
        proof {
            self.active.lemma_entries();
            assert(seq![discovery_id@].contains(discovery_id@)) by {
                assert(seq![discovery_id@][0] == discovery_id@);
            }
            lemma_filtered(asked, self@, seq![discovery_id@]);
        }
        let ghost filtered = self@;
        let mut endpoints: Vec<DiscoveredEndpoint> = Vec::new();
        endpoints.push(endpoint);
        let peer = DiscoveredPeer { discovery_id, service_type, endpoints, expires_at };
        assert(peer@.endpoints =~= seq![endpoint@]);
        let ghost waiting = self.pending@;
        self.pending.push_back(DiscoveryEvent::Found(peer));
        proof {
            let after = before.added(source@, discovery_id@, endpoint@, ttl, now).0;
            assert(event_views(self.pending@) =~= event_views(waiting).push(
                DiscoveryEventView::Found(peer@),
            ));
            assert(self@ =~= after);
        }
        Ok(())
    }
}

impl DiscoveryProvider for ManualDiscovery {
    open spec fn valid(&self) -> bool {
        self.wf()
    }

    fn start(&mut self, request: DiscoveryRequest, now: u64) -> (started: Result<(), DiscoveryError>)
        ensures
            old(self)@.request is Some ==> started == Err::<(), DiscoveryError>(
                DiscoveryError::new(
                    DiscoveryErrorKind::AlreadyRunning,
                    "manual discovery is already running",
                ),
            ) && final(self)@ == old(self)@,
            old(self)@.request is None && !request@.valid() ==> started == Err::<(), DiscoveryError>(
                DiscoveryError::new(DiscoveryErrorKind::InvalidInput, "discovery request is invalid"),
            ) && final(self)@ == old(self)@,
            old(self)@.request is None && request@.valid() ==> started is Ok && final(self)@ == (
            ManualView { request: Some(request@), ..old(self)@ }),
    {
        if self.request.is_some() {
            return Err(
                DiscoveryError::new(
                    DiscoveryErrorKind::AlreadyRunning,
                    "manual discovery is already running",
                ),
            );
        }
        validate_request(&request)?;
        self.request = Some(request);
        Ok(())
    }

    fn poll(&mut self, now: u64) -> (events: Result<Vec<DiscoveryEvent>, DiscoveryError>)
        ensures
            match old(self)@.request {
                None => events == Err::<Vec<DiscoveryEvent>, DiscoveryError>(
                    DiscoveryError::new(
                        DiscoveryErrorKind::NotRunning,
                        "manual discovery is not running",
                    ),
                ) && final(self)@ == old(self)@,
                Some(request) => {
                    &&& events matches Ok(told) && event_views(told@) == old(self)@.told(
                        now,
                        request.max_results_per_poll,
                    )
                    &&& final(self)@ == old(self)@.after_poll(now, request.max_results_per_poll)
                },
            },
    {
        let ghost before = self@;
        let most: usize = match &self.request {
            Some(request) => request.max_results_per_poll,
            None => {
                return Err(
                    DiscoveryError::new(
                        DiscoveryErrorKind::NotRunning,
                        "manual discovery is not running",
                    ),
                );
            },
        };
        proof {
            self.active.lemma_entries();
            self.active.lemma_ascending_keys();
        }
        let expired = self.expired_first(now, most);
        let ghost gone = id_views(expired@);
        let mut i: usize = 0;
        while i < expired.len()
            invariant
                i <= expired@.len(),
                gone == id_views(expired@),
                self.active.wf(),
                self.active@ == before.active.remove_keys(gone.subrange(0, i as int).to_set()),
                self.request == old(self).request,
                self.pending == old(self).pending,
                self.limiter == old(self).limiter,
            decreases expired@.len() - i,
        {
            let ghost was = self.active@;
            self.active.remove(&expired[i]);
            proof {
                let some = gone.subrange(0, i as int);
                let more = gone.subrange(0, i + 1);
                assert(more =~= some.push(gone[i as int]));
                assert(gone[i as int] == expired@[i as int]@);
                vstd::seq_lib::lemma_seq_contains_after_push(some, gone[i as int], gone[i as int]);
                assert forall|id: Seq<u8>| #[trigger] more.contains(id) <==> some.contains(id) || id
                    == gone[i as int] by {
                    if some.contains(id) {
                        assert(more[some.index_of(id)] == id);
                    }
                    assert(more[i as int] == gone[i as int]);
                    if more.contains(id) && id != gone[i as int] {
                        assert(some[more.index_of(id)] == id);
                    }
                }
                assert(self.active@ =~= before.active.remove_keys(more.to_set()));
            }
            i = i + 1;
        }
        assert(gone.subrange(0, i as int) =~= gone);
        drop_announcements(&mut self.pending, &expired);
        let ghost left = self@.pending;
        let ghost mid = self@;
        let ghost after_removal = *self;
        proof {
            self.active.lemma_entries();
            assert forall|id: Seq<u8>| #[trigger]
                before.active.contains_key(id) && !gone.contains(id) implies mid.active.contains_key(id)
                && mid.active[id] == before.active[id] by {
                assert(!gone.to_set().contains(id));
            }
            lemma_filtered(before, mid, gone);
            assert(mid.active.dom().subset_of(before.active.dom()));
            vstd::set_lib::lemma_len_subset(mid.active.dom(), before.active.dom());
        }
        let mut events: Vec<DiscoveryEvent> = Vec::new();
        let mut j: usize = 0;
        while j < expired.len()
            invariant
                j <= expired@.len(),
                events@.len() == j,
                forall|k: int|
                    0 <= k < j ==> (#[trigger] events@[k])@ == DiscoveryEventView::Expired(
                        expired@[k]@,
                    ),
            decreases expired@.len() - j,
        {
            events.push(DiscoveryEvent::Expired(expired[j]));
            j = j + 1;
        }
        let ghost head = gone.map_values(|id: Seq<u8>| DiscoveryEventView::Expired(id));
        let ghost mut n: int = 0;
        proof {
            assert(event_views(events@) =~= head + left.subrange(0, 0));
            assert(self@.pending =~= left.subrange(0, left.len() as int));
            assert(gone.len() < most ==> gone == before.due(now));
        }
        while events.len() < most && self.pending.len() > 0
            invariant
                0 <= n <= left.len(),
                gone.len() + n <= most,
                head.len() == gone.len(),
                events@.len() == gone.len() + n,
                event_views(events@) == head + left.subrange(0, n),
                event_views(self.pending@) == left.subrange(n, left.len() as int),
                self.active == after_removal.active,
                self.request == after_removal.request,
                self.limiter == after_removal.limiter,
                gone.len() < most ==> gone == before.due(now),
                forall|k: int|
                    0 <= k < left.len() ==> (#[trigger] left[k] matches DiscoveryEventView::Found(peer)
                        && before.active.contains_key(peer.discovery_id)
                        && before.active[peer.discovery_id] == peer.expires_at && !gone.contains(
                        peer.discovery_id,
                    )),
                before.active.dom().finite(),
            decreases self.pending@.len(),
        {
            let ghost was = self.pending@;
            match self.pending.pop_front() {
                None => {},
                Some(event) => {
                    proof {
                        assert(event_views(was).len() == was.len());
                        assert(event_views(was) == left.subrange(n, left.len() as int));
                        assert(event_views(was)[0] == was[0]@);
                        assert(left.subrange(n, left.len() as int)[0] == left[n]);
                        assert(event_views(self.pending@) =~= left.subrange(n + 1, left.len() as int)) by {
                            assert forall|k: int| 0 <= k < self.pending@.len() implies event_views(
                                self.pending@,
                            )[k] == left[n + 1 + k] by {
                                assert(self.pending@[k] == was[k + 1]);
                                assert(event_views(was)[k + 1] == was[k + 1]@);
                                assert(left.subrange(n, left.len() as int)[k + 1] == left[n + 1 + k]);
                            }
                        }
                        let peer = left[n]->Found_0;
                        before.lemma_due(now, peer.discovery_id);
                    }
                    let ghost told = events@;
                    match event {
                        DiscoveryEvent::Found(peer) => {
                            if peer.expires_at <= now {
                                assert(false);
                                self.active.remove(&peer.discovery_id);
                                events.push(DiscoveryEvent::Expired(peer.discovery_id));
                            } else {
                                events.push(DiscoveryEvent::Found(peer));
                            }
                        },
                        event => {
                            events.push(event);
                        },
                    }
                    proof {
                        assert(event_views(events@) =~= event_views(told).push(left[n]));
                        assert(left.subrange(0, n + 1) =~= left.subrange(0, n).push(left[n]));
                        n = n + 1;
                    }
                },
            }
        }
        proof {
            let shown = first_of(left, (most - gone.len()) as nat);
            assert(n == shown.len());
            assert(left.subrange(0, n) =~= shown);
            let after = before.after_poll(now, most);
            assert(self@ =~= after);
            assert(event_views(events@) =~= before.told(now, most));
        }
        Ok(events)
    }

    fn stop(&mut self) -> (stopped: Result<(), DiscoveryError>)
        ensures
            match old(self)@.request {
                None => stopped == Err::<(), DiscoveryError>(
                    DiscoveryError::new(
                        DiscoveryErrorKind::NotRunning,
                        "manual discovery is not running",
                    ),
                ) && final(self)@ == old(self)@,
                Some(_) => stopped is Ok && final(self)@ == (ManualView {
                    request: None,
                    pending: Seq::empty(),
                    active: Map::empty(),
                    ..old(self)@
                }),
            },
    {
        if self.request.is_none() {
            return Err(
                DiscoveryError::new(
                    DiscoveryErrorKind::NotRunning,
                    "manual discovery is not running",
                ),
            );
        }
        self.request = None;
        self.pending.clear();
        self.active.clear();
        proof {
            self.active.lemma_entries();
            assert(self@.pending =~= Seq::empty());
        }
        Ok(())
    }
}

impl ManualDiscovery {
    /// The candidates that have expired, in the order of their names, at most so many.
    fn expired_first(&self, now: u64, most: usize) -> (expired: Vec<DiscoveryId>)
        requires
            self.wf(),
        ensures
            id_views(expired@) == self@.expiring(now, most),
    {
        let ghost keys = self.active.keys();
        let ghost pass = |id: Seq<u8>| self@.active[id] <= now;
        proof {
            self.active.lemma_entries();
            self.active.lemma_ascending_keys();
            reveal(Seq::filter);
            assert(keys.subrange(0, 0).filter(pass) =~= Seq::empty());
        }
        let mut expired: Vec<DiscoveryId> = Vec::new();
        let mut i: usize = 0;
        assert(id_views(expired@) =~= first_of(keys.subrange(0, 0).filter(pass), most as nat));
        while i < self.active.len()
            invariant
                self.wf(),
                self.active.wf(),
                keys == self.active.keys(),
                pass == (|id: Seq<u8>| self@.active[id] <= now),
                i <= keys.len(),
                id_views(expired@) == first_of(keys.subrange(0, i as int).filter(pass), most as nat),
            decreases keys.len() - i,
        {
            let id = *self.active.key_at(i);
            let late = *self.active.value_at(i) <= now;
            proof {
                lemma_filter_prefix(keys, pass, i as int);
                assert(late == pass(keys[i as int]));
            }
            let ghost was = expired@;
            let ghost some = keys.subrange(0, i as int).filter(pass);
            if late && expired.len() < most {
                expired.push(id);
                assert(id_views(expired@) =~= id_views(was).push(id@));
            }
            proof {
                let more = keys.subrange(0, i + 1).filter(pass);
                assert(id_views(was).len() == was.len());
                assert(id_views(expired@) =~= first_of(more, most as nat));
            }
            i = i + 1;
        }
        assert(keys.subrange(0, i as int) =~= keys);
        expired
    }
}

impl ManualView {
    /// Which candidates have expired.
    pub proof fn lemma_due(self, now: u64, id: Seq<u8>)
        requires
            self.active.dom().finite(),
        ensures
            self.due(now).contains(id) <==> self.active.contains_key(id) && self.active[id] <= now,
    {
        let keys = ascending_keys::<DiscoveryId>(self.active.dom());
        crate::sorted_map::ascending_keys_exist::<DiscoveryId>(self.active.dom());
        lemma_filter_members(keys, |id: Seq<u8>| self.active[id] <= now, id);
        assert(keys.contains(id) == keys.to_set().contains(id));
    }
}

/// However many candidates are entered, no more are known, and no more are to be told
/// of, than the limit allows; and each is told of once.
pub proof fn candidates_stay_bounded(discovery: ManualView)
    requires
        discovery.wf(),
    ensures
        discovery.active.dom().len() <= discovery.limiter.limit.max_candidates,
        discovery.pending.len() <= discovery.active.dom().len(),
        discovery.limiter.attempts.dom().len() <= discovery.limiter.limit.max_sources,
{
    let names = discovery.pending.map_values(|e: DiscoveryEventView| e->Found_0.discovery_id);
    assert(names.no_duplicates()) by {
        assert forall|i: int, j: int| 0 <= i < names.len() && 0 <= j < names.len() && i != j implies names[i]
            != names[j] by {
            assert(names[i] == discovery.pending[i]->Found_0.discovery_id);
            assert(names[j] == discovery.pending[j]->Found_0.discovery_id);
        }
    }
    names.unique_seq_to_set();
    assert forall|id: Seq<u8>| #[trigger] names.to_set().contains(id) implies discovery.active.dom().contains(
        id,
    ) by {
        let i = names.index_of(id);
        assert(discovery.pending[i]->Found_0.discovery_id == id);
    }
    vstd::set_lib::lemma_len_subset(names.to_set(), discovery.active.dom());
}

/// A poll tells no more than was asked for, and of no candidate that has expired but
/// that it has.
pub proof fn polls_are_bounded_and_current(discovery: ManualView, now: u64, most: usize, i: int)
    requires
        discovery.wf(),
        0 <= i < discovery.told(now, most).len(),
    ensures
        discovery.told(now, most).len() <= most,
        discovery.told(now, most)[i] matches DiscoveryEventView::Found(peer) ==> peer.expires_at > now,
        discovery.told(now, most)[i] matches DiscoveryEventView::Expired(id) ==> discovery.active[id]
            <= now,
{
    let expired = discovery.expiring(now, most);
    let left = discovery.pending.filter(announces_none(expired));
    let shown = first_of(left, (most - expired.len()) as nat);
    let event = discovery.told(now, most)[i];
    if i < expired.len() {
        let id = expired[i];
        assert(discovery.due(now)[i] == id);
        assert(discovery.due(now).contains(id));
        discovery.lemma_due(now, id);
    } else {
        let k = i - expired.len();
        assert(event == left[k]);
        assert(left.contains(left[k]));
        lemma_filter_members(discovery.pending, announces_none(expired), left[k]);
        let at = discovery.pending.index_of(left[k]);
        assert(discovery.pending[at] == left[k]);
        let peer = left[k]->Found_0;
        assert(expired.len() < most);
        assert(expired == discovery.due(now));
        discovery.lemma_due(now, peer.discovery_id);
    }
}

/// An address that is added while discovery runs, with a time to live, from a source that
/// may add one, is told as found with the endpoint, until its time is over; its number is
/// known from then on.
pub proof fn added_addresses_are_found(
    discovery: ManualView,
    source: Seq<char>,
    id: Seq<u8>,
    endpoint: FoundEndpointView,
    ttl: u64,
    now: u64,
)
    requires
        discovery.wf(),
        now + ttl <= u64::MAX,
    ensures
        ({
            let (after, fault) = discovery.added(source, id, endpoint, ttl, now);
            let allowed = discovery.limiter.asked(source, now).1;
            let roomy = discovery.active.contains_key(id) || discovery.active.dom().len() + 1
                <= discovery.limiter.limit.max_candidates;
            &&& discovery.request is None ==> (fault matches Some(e) && e.kind
                == DiscoveryErrorKind::NotRunning) && after == discovery
            &&& discovery.request is Some && ttl == 0 ==> (fault matches Some(e) && e.kind
                == DiscoveryErrorKind::InvalidInput) && after == discovery
            &&& discovery.request is Some && ttl > 0 && (!roomy || !allowed) ==> (fault matches Some(e)
                && e.kind == DiscoveryErrorKind::RateLimited) && after.pending == discovery.pending
                && after.active == discovery.active
            &&& discovery.request is Some && ttl > 0 && roomy && allowed ==> {
                &&& fault is None
                &&& after.active.contains_key(id)
                &&& after.active[id] == now + ttl
                &&& after.pending.last() == DiscoveryEventView::Found(
                    FoundPeerView {
                        discovery_id: id,
                        service_type: discovery.request->0.service_type,
                        endpoints: seq![endpoint],
                        expires_at: (now + ttl) as u64,
                    },
                )
            }
        }),
{
}

/// A candidate whose time is over by a poll is told as expired, if there is room, and is
/// known no longer; one whose time is not over stays.
pub proof fn polls_tell_what_has_expired(discovery: ManualView, now: u64, most: usize, id: Seq<u8>)
    requires
        discovery.wf(),
        discovery.active.contains_key(id),
    ensures
        discovery.active[id] > now ==> discovery.after_poll(now, most).active.contains_key(id)
            && discovery.after_poll(now, most).active[id] == discovery.active[id],
        discovery.active[id] <= now && discovery.active.dom().len() <= most ==> {
            &&& discovery.told(now, most).contains(DiscoveryEventView::Expired(id))
            &&& !discovery.after_poll(now, most).active.contains_key(id)
        },
{
    let due = discovery.due(now);
    let expired = discovery.expiring(now, most);
    discovery.lemma_due(now, id);
    if discovery.active[id] > now {
        assert(!due.contains(id));
        assert(!expired.contains(id)) by {
            if expired.contains(id) {
                let i = expired.index_of(id);
                assert(due[i] == id);
            }
        }
    } else if discovery.active.dom().len() <= most {
        let keys = ascending_keys::<DiscoveryId>(discovery.active.dom());
        crate::sorted_map::ascending_keys_exist::<DiscoveryId>(discovery.active.dom());
        keys.unique_seq_to_set();
        lemma_filter_shorter(keys, |key: Seq<u8>| discovery.active[key] <= now);
        assert(due.len() <= most);
        assert(expired == due);
        let i = expired.index_of(id);
        let told = discovery.told(now, most);
        assert(told[i] == DiscoveryEventView::Expired(id));
        assert(expired.to_set().contains(id));
    }
}

proof fn lemma_filter_shorter(row: Seq<Seq<u8>>, pass: spec_fn(Seq<u8>) -> bool)
    ensures
        row.filter(pass).len() <= row.len(),
    decreases row.len(),
{
    reveal(Seq::filter);
    if row.len() > 0 {
        lemma_filter_shorter(row.drop_last(), pass);
    }
}

/// What was found and is not told in a poll, for want of room, is told in a later one; what
/// is told is told once.
pub proof fn polls_tell_everything_once(discovery: ManualView, now: u64, most: usize)
    requires
        discovery.wf(),
        forall|id: Seq<u8>| #[trigger]
            discovery.active.contains_key(id) ==> discovery.active[id] > now,
    ensures
        discovery.told(now, most) + discovery.after_poll(now, most).pending == discovery.pending,
        discovery.told(now, most).len() == (if discovery.pending.len() <= most {
            discovery.pending.len()
        } else {
            most as nat
        }),
        discovery.after_poll(now, most).active == discovery.active,
{
    let due = discovery.due(now);
    let expired = discovery.expiring(now, most);
    assert(due.len() == 0) by {
        if due.len() > 0 {
            discovery.lemma_due(now, due[0]);
            assert(due.contains(due[0]));
        }
    }
    assert(expired.len() == 0);
    lemma_all_pass(discovery.pending, announces_none(expired), expired);
    assert(discovery.active.remove_keys(expired.to_set()) =~= discovery.active);
    assert(discovery.told(now, most) + discovery.after_poll(now, most).pending =~= discovery.pending);
}

proof fn lemma_all_pass(
    row: Seq<DiscoveryEventView>,
    pass: spec_fn(DiscoveryEventView) -> bool,
    ids: Seq<Seq<u8>>,
)
    requires
        pass == announces_none(ids),
        ids.len() == 0,
    ensures
        row.filter(pass) == row,
    decreases row.len(),
{
    reveal(Seq::filter);
    if row.len() > 0 {
        lemma_all_pass(row.drop_last(), pass, ids);
        assert(row.drop_last().push(row.last()) =~= row);
    } else {
        assert(row.filter(pass) =~= row);
    }
}

/// A request names a service and asks for at least one result a poll.
pub proof fn requests_ask_for_something(request: RequestView)
    ensures
        request.valid() <==> request.service_type.len() >= 1 && request.max_results_per_poll >= 1,
{
}

} // verus!
