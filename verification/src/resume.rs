//! Sessions that go on over a new connection, and what becomes of their requests.

use std::collections::VecDeque;
use vstd::prelude::*;
use crate::identity::{PeerId, SessionId};
use crate::mux::ChannelKey;

verus! {

/// What becomes of a request that was not acknowledged. By default it is never sent
/// again; the owner of the namespace may declare it safe to repeat, or decide itself.
#[derive(Clone, Copy, Debug, Eq, PartialEq, Structural)]
pub enum RequestReplay {
    Never,
    Idempotent,
    ApplicationDecides,
}

/// How far a channel had come, in the terms of the owner of its namespace.
#[derive(Clone, Debug, Eq, PartialEq)]
pub struct ChannelCursor {
    pub channel: ChannelKey,
    pub cursor: Vec<u8>,
}

/// What a peer offers to go on with.
#[derive(Clone, Debug, Eq, PartialEq)]
pub struct ResumeOffer {
    pub token: Vec<u8>,
    pub peer_id: PeerId,
    pub previous_session_id: SessionId,
    pub expires_at_unix_ms: u64,
    pub channel_cursors: Vec<ChannelCursor>,
}

/// Verifies that a token is authentic and belongs to the endpoint and the protocols.
pub trait ResumeTokenVerifier {
    fn verify(&self, offer: &ResumeOffer) -> bool;
}

#[derive(Clone, Copy, Debug, Eq, PartialEq, Structural)]
pub struct ResumeLimits {
    pub max_token_bytes: usize,
    pub max_channels: usize,
    pub max_cursor_bytes: usize,
    pub max_pending_requests: usize,
}

impl Default for ResumeLimits {
    fn default() -> (limits: Self)
        ensures
            limits == (ResumeLimits {
                max_token_bytes: 512,
                max_channels: 64,
                max_cursor_bytes: 256,
                max_pending_requests: 128,
            }),
    {
        ResumeLimits {
            max_token_bytes: 512,
            max_channels: 64,
            max_cursor_bytes: 256,
            max_pending_requests: 128,
        }
    }
}

impl ResumeLimits {
    #[verifier::allow_in_spec]
    pub fn is_valid(self) -> bool
        returns
            self.max_token_bytes > 0 && self.max_channels > 0 && self.max_cursor_bytes > 0
                && self.max_pending_requests > 0,
    {
        self.max_token_bytes > 0 && self.max_channels > 0 && self.max_cursor_bytes > 0
            && self.max_pending_requests > 0
    }
}

#[derive(Clone, Copy, Debug, Eq, PartialEq, Structural)]
pub enum NewSessionReason {
    NoResumeRequested,
    TokenRejected,
    TokenExpired,
    PeerMismatch,
    LimitsExceeded,
}

#[derive(Clone, Copy, Debug, Eq, PartialEq)]
pub enum SessionContinuity {
    NewSession { reason: NewSessionReason },
    Resumed { previous_session_id: SessionId },
}

impl Default for SessionContinuity {
    fn default() -> (continuity: Self)
        ensures
            continuity == (SessionContinuity::NewSession {
                reason: NewSessionReason::NoResumeRequested,
            }),
    {
        SessionContinuity::NewSession { reason: NewSessionReason::NoResumeRequested }
    }
}

#[derive(Clone, Copy, Debug, Eq, PartialEq, Structural)]
pub enum ResumeErrorKind {
    InvalidLimits,
    TokenTooLarge,
    TooManyChannels,
    CursorTooLarge,
    TooManyPendingRequests,
    DuplicateRequest,
}

#[derive(Clone, Debug, Eq, PartialEq)]
pub struct ResumeError {
    pub kind: ResumeErrorKind,
    pub public_message: &'static str,
}

impl ResumeError {
    #[verifier::allow_in_spec]
    pub fn of(kind: ResumeErrorKind) -> Self
        returns
            (ResumeError {
                kind,
                public_message: match kind {
                    ResumeErrorKind::InvalidLimits => "resume limits must be positive",
                    ResumeErrorKind::TokenTooLarge => "resume token exceeds configured limit",
                    ResumeErrorKind::TooManyChannels => "resume channel count exceeds configured limit",
                    ResumeErrorKind::CursorTooLarge => "resume cursor exceeds configured limit",
                    ResumeErrorKind::TooManyPendingRequests => "pending request count exceeds configured limit",
                    ResumeErrorKind::DuplicateRequest => "request is already awaiting acknowledgement",
                },
            }),
    {
        ResumeError {
            kind,
            public_message: match kind {
                ResumeErrorKind::InvalidLimits => "resume limits must be positive",
                ResumeErrorKind::TokenTooLarge => "resume token exceeds configured limit",
                ResumeErrorKind::TooManyChannels => "resume channel count exceeds configured limit",
                ResumeErrorKind::CursorTooLarge => "resume cursor exceeds configured limit",
                ResumeErrorKind::TooManyPendingRequests => "pending request count exceeds configured limit",
                ResumeErrorKind::DuplicateRequest => "request is already awaiting acknowledgement",
            },
        }
    }

    /// The text that may be shown to a user.
    pub fn display_text(&self) -> (text: String)
        ensures
            text@ == self.public_message@,
    {
        self.public_message.to_owned()
    }
}

/// A request that was not acknowledged.
#[derive(Clone, Copy, Debug, Eq, PartialEq, Structural)]
pub struct PendingRequest {
    pub id: u64,
    pub replay: RequestReplay,
}

/// What becomes of the requests: those that are sent again, those that the owner
/// decides on, and those that fail.
#[derive(Clone, Debug, Eq, PartialEq)]
pub struct ReplayPlan {
    pub automatically_retry: Vec<u64>,
    pub application_decision: Vec<u64>,
    pub fail_without_retry: Vec<u64>,
}

impl Default for ReplayPlan {
    fn default() -> (plan: Self)
        ensures
            plan.automatically_retry@ == Seq::<u64>::empty(),
            plan.application_decision@ == Seq::<u64>::empty(),
            plan.fail_without_retry@ == Seq::<u64>::empty(),
    {
        ReplayPlan {
            automatically_retry: Vec::new(),
            application_decision: Vec::new(),
            fail_without_retry: Vec::new(),
        }
    }
}

/// Where a request goes after a reconnect.
#[derive(Clone, Copy, Debug, Eq, PartialEq, Structural)]
pub enum Fate {
    Retried,
    Decided,
    Failed,
}

/// Only a request that was declared safe to repeat is sent again, and only in a
/// session that goes on.
pub open spec fn fate(continuity: SessionContinuity, replay: RequestReplay) -> Fate {
    match (continuity, replay) {
        (SessionContinuity::Resumed { .. }, RequestReplay::Idempotent) => Fate::Retried,
        (_, RequestReplay::ApplicationDecides) => Fate::Decided,
        _ => Fate::Failed,
    }
}

/// The requests with a fate, in their order.
pub open spec fn with_fate(requests: Seq<PendingRequest>, continuity: SessionContinuity, f: Fate) -> Seq<u64>
    decreases requests.len(),
{
    if requests.len() == 0 {
        Seq::empty()
    } else {
        let front = with_fate(requests.drop_last(), continuity, f);
        if fate(continuity, requests.last().replay) == f {
            front.push(requests.last().id)
        } else {
            front
        }
    }
}

/// Keeps the requests that were not acknowledged.
#[derive(Debug)]
pub struct ResumeCoordinator {
    limits: ResumeLimits,
    pending: VecDeque<PendingRequest>,
}

#[verifier::ext_equal]
pub struct CoordinatorView {
    pub limits: ResumeLimits,
    pub pending: Seq<PendingRequest>,
}

impl View for ResumeCoordinator {
    type V = CoordinatorView;

    closed spec fn view(&self) -> CoordinatorView {
        CoordinatorView { limits: self.limits, pending: self.pending@ }
    }
}

impl CoordinatorView {
    /// Whether a request waits.
    pub open spec fn awaits(self, id: u64) -> bool {
        exists|i: int| 0 <= i < self.pending.len() && (#[trigger] self.pending[i]).id == id
    }

    /// Whether no request waits twice, and not more than may.
    pub open spec fn wf(self) -> bool {
        &&& self.limits.is_valid()
        &&& self.pending.len() <= self.limits.max_pending_requests
        &&& forall|i: int, j: int|
            0 <= i < j < self.pending.len() ==> (#[trigger] self.pending[i]).id != (
            #[trigger] self.pending[j]).id
    }
}

/// Why an offer leads to a new session, its token aside.
pub open spec fn offer_fault(
    limits: ResumeLimits,
    offer: ResumeOffer,
    expected_peer: PeerId,
    now_unix_ms: u64,
) -> Option<NewSessionReason> {
    if offer.peer_id@ != expected_peer@ {
        Some(NewSessionReason::PeerMismatch)
    } else if now_unix_ms >= offer.expires_at_unix_ms {
        Some(NewSessionReason::TokenExpired)
    } else if offer.token@.len() == 0 || offer.token@.len() > limits.max_token_bytes
        || offer.channel_cursors@.len() > limits.max_channels || exists|i: int|
        0 <= i < offer.channel_cursors@.len() && (#[trigger] offer.channel_cursors@[i]).cursor@.len()
            > limits.max_cursor_bytes {
        Some(NewSessionReason::LimitsExceeded)
    } else {
        None
    }
}

/// What a verified or rejected token leads to.
pub open spec fn continuity_of(offer: ResumeOffer, verified: bool) -> SessionContinuity {
    if verified {
        SessionContinuity::Resumed { previous_session_id: offer.previous_session_id }
    } else {
        SessionContinuity::NewSession { reason: NewSessionReason::TokenRejected }
    }
}

impl ResumeCoordinator {
    /// Whether the coordinator is valid.
    pub closed spec fn wf(&self) -> bool {
        self@.wf()
    }

    /// What is known of a valid coordinator.
    pub proof fn lemma_wf(&self)
        requires
            self.wf(),
        ensures
            self@.wf(),
    {
    }

    pub fn new(limits: ResumeLimits) -> (coordinator: Result<Self, ResumeError>)
        ensures
            match coordinator {
                Ok(c) => limits.is_valid() && c.wf() && c@ == (CoordinatorView {
                    limits,
                    pending: Seq::empty(),
                }),
                Err(e) => !limits.is_valid() && e == ResumeError::of(ResumeErrorKind::InvalidLimits),
            },
    {
        if !limits.is_valid() {
            return Err(ResumeError::of(ResumeErrorKind::InvalidLimits));
        }
        let coordinator = ResumeCoordinator { limits, pending: VecDeque::new() };
        assert(coordinator@.pending =~= Seq::empty());
        Ok(coordinator)
    }

    /// Whether an offer is within its time and its limits.
    pub fn check_offer(&self, offer: &ResumeOffer, expected_peer: PeerId, now_unix_ms: u64) -> (fault: Option<
        NewSessionReason,
    >)
        ensures
            fault == offer_fault(self@.limits, *offer, expected_peer, now_unix_ms),
    {
        if !offer.peer_id.same(&expected_peer) {
            return Some(NewSessionReason::PeerMismatch);
        }
        if now_unix_ms >= offer.expires_at_unix_ms {
            return Some(NewSessionReason::TokenExpired);
        }
        if offer.token.len() == 0 || offer.token.len() > self.limits.max_token_bytes
            || offer.channel_cursors.len() > self.limits.max_channels {
            return Some(NewSessionReason::LimitsExceeded);
        }
        let mut i: usize = 0;
        while i < offer.channel_cursors.len()
            invariant
                i <= offer.channel_cursors@.len(),
                forall|j: int|
                    0 <= j < i ==> (#[trigger] offer.channel_cursors@[j]).cursor@.len()
                        <= self.limits.max_cursor_bytes,
                offer.peer_id@ == expected_peer@,
                now_unix_ms < offer.expires_at_unix_ms,
            decreases offer.channel_cursors@.len() - i,
        {
            if offer.channel_cursors[i].cursor.len() > self.limits.max_cursor_bytes {
                return Some(NewSessionReason::LimitsExceeded);
            }
            i = i + 1;
        }
        None
    }

    /// Whether a session goes on. The token is looked at only where the offer is
    /// within its time and its limits.
    pub fn validate_offer<V: ResumeTokenVerifier>(
        &self,
        offer: &ResumeOffer,
        expected_peer: PeerId,
        now_unix_ms: u64,
        verifier: &V,
    ) -> (continuity: SessionContinuity)
        ensures
            match offer_fault(self@.limits, *offer, expected_peer, now_unix_ms) {
                Some(reason) => continuity == (SessionContinuity::NewSession { reason }),
                None => exists|verified: bool| #[trigger]
                    call_ensures(V::verify, (verifier, offer), verified) && continuity
                        == continuity_of(*offer, verified),
            },
    {
        match self.check_offer(offer, expected_peer, now_unix_ms) {
            Some(reason) => SessionContinuity::NewSession { reason },
            None => {
                let verified = verifier.verify(offer);
                assert(call_ensures(V::verify, (verifier, offer), verified));
                accept_token(offer, verified)
            },
        }
    }

    /// The place of a request among those that wait.
    fn position(&self, request_id: u64) -> (place: Option<usize>)
        ensures
            match place {
                Some(i) => i < self@.pending.len() && self@.pending[i as int].id == request_id
                    && forall|j: int| 0 <= j < i ==> (#[trigger] self@.pending[j]).id != request_id,
                None => !self@.awaits(request_id),
            },
    {
        let mut i: usize = 0;
        while i < self.pending.len()
            invariant
                i <= self.pending@.len(),
                forall|j: int| 0 <= j < i ==> (#[trigger] self.pending@[j]).id != request_id,
            decreases self.pending@.len() - i,
        {
            if self.pending[i].id == request_id {
                return Some(i);
            }
            i = i + 1;
        }
        None
    }

    /// Keeps a request until it is acknowledged.
    pub fn record_unacknowledged(&mut self, request_id: u64, replay: RequestReplay) -> (recorded: Result<
        (),
        ResumeError,
    >)
        requires
            old(self).wf(),
        ensures
            final(self).wf(),
            if old(self)@.awaits(request_id) {
                &&& recorded == Err::<(), ResumeError>(
                    ResumeError::of(ResumeErrorKind::DuplicateRequest),
                )
                &&& final(self)@ == old(self)@
            } else if old(self)@.pending.len() >= old(self)@.limits.max_pending_requests {
                &&& recorded == Err::<(), ResumeError>(
                    ResumeError::of(ResumeErrorKind::TooManyPendingRequests),
                )
                &&& final(self)@ == old(self)@
            } else {
                &&& recorded is Ok
                &&& final(self)@ == (CoordinatorView {
                    pending: old(self)@.pending.push(PendingRequest { id: request_id, replay }),
                    ..old(self)@
                })
            },
    {
        match self.position(request_id) {
            Some(_) => {
                return Err(ResumeError::of(ResumeErrorKind::DuplicateRequest));
            },
            None => {},
        }
        if self.pending.len() >= self.limits.max_pending_requests {
            return Err(ResumeError::of(ResumeErrorKind::TooManyPendingRequests));
        }
        self.pending.push_back(PendingRequest { id: request_id, replay });
        Ok(())
    }

    /// Forgets a request that was acknowledged and tells whether it waited.
    pub fn acknowledge(&mut self, request_id: u64) -> (waited: bool)
        requires
            old(self).wf(),
        ensures
            final(self).wf(),
            waited == old(self)@.awaits(request_id),
            !final(self)@.awaits(request_id),
            if waited {
                exists|i: int|
                    0 <= i < old(self)@.pending.len() && old(self)@.pending[i].id == request_id
                        && final(self)@ == (CoordinatorView {
                        pending: #[trigger] old(self)@.pending.remove(i),
                        ..old(self)@
                    })
            } else {
                final(self)@ == old(self)@
            },
    {
        let ghost before = self@;
        match self.position(request_id) {
            None => false,
            Some(i) => {
                self.pending.remove(i);
                proof {
                    let after = before.pending.remove(i as int);
                    assert(self@.pending =~= after);
                    assert forall|x: int, y: int| 0 <= x < y < after.len() implies (
                    #[trigger] after[x]).id != (#[trigger] after[y]).id by {
                        let ox = if x < i {
                            x
                        } else {
                            x + 1
                        };
                        let oy = if y < i {
                            y
                        } else {
                            y + 1
                        };
                        assert(after[x] == before.pending[ox] && after[y] == before.pending[oy]);
                    }
                    assert forall|x: int| 0 <= x < after.len() implies (#[trigger] after[x]).id
                        != request_id by {
                        let ox = if x < i {
                            x
                        } else {
                            x + 1
                        };
                        assert(after[x] == before.pending[ox]);
                        if x >= i {
                            assert(before.pending[i as int].id != before.pending[ox].id);
                        }
                    }
                }
                true
            },
        }
    }

    /// Decides what becomes of the requests, and forgets them.
    pub fn plan_after_reconnect(&mut self, continuity: SessionContinuity) -> (plan: ReplayPlan)
        requires
            old(self).wf(),
        ensures
            final(self).wf(),
            final(self)@ == (CoordinatorView { pending: Seq::empty(), ..old(self)@ }),
            plan.automatically_retry@ == with_fate(old(self)@.pending, continuity, Fate::Retried),
            plan.application_decision@ == with_fate(old(self)@.pending, continuity, Fate::Decided),
            plan.fail_without_retry@ == with_fate(old(self)@.pending, continuity, Fate::Failed),
    {
        let ghost all = self@.pending;
        let ghost limits = self@.limits;
        let mut plan = ReplayPlan::default();
        let ghost mut n: int = 0;
        proof {
            assert(all.subrange(0, all.len() as int) =~= all);
            assert(with_fate(all.subrange(0, 0), continuity, Fate::Retried) =~= Seq::empty());
            assert(with_fate(all.subrange(0, 0), continuity, Fate::Decided) =~= Seq::empty());
            assert(with_fate(all.subrange(0, 0), continuity, Fate::Failed) =~= Seq::empty());
        }
        while self.pending.len() > 0
            invariant
                0 <= n <= all.len(),
                self@.limits == limits,
                self.pending@ == all.subrange(n, all.len() as int),
                plan.automatically_retry@ == with_fate(all.subrange(0, n), continuity, Fate::Retried),
                plan.application_decision@ == with_fate(all.subrange(0, n), continuity, Fate::Decided),
                plan.fail_without_retry@ == with_fate(all.subrange(0, n), continuity, Fate::Failed),
            decreases self.pending@.len(),
        {
            match self.pending.pop_front() {
                None => {},
                Some(request) => {
                    proof {
                        assert(request == all[n]);
                        let more = all.subrange(0, n + 1);
                        assert(more.drop_last() =~= all.subrange(0, n));
                        assert(more.last() == request);
                        assert(self.pending@ =~= all.subrange(n + 1, all.len() as int));
                        n = n + 1;
                    }
                    match (continuity, request.replay) {
                        (SessionContinuity::Resumed { .. }, RequestReplay::Idempotent) => {
                            plan.automatically_retry.push(request.id);
                        },
                        (_, RequestReplay::ApplicationDecides) => {
                            plan.application_decision.push(request.id);
                        },
                        _ => {
                            plan.fail_without_retry.push(request.id);
                        },
                    }
                },
            }
        }
        assert(all.subrange(0, n) =~= all);
        assert(self@.pending =~= Seq::empty());
        plan
    }

    /// How many requests wait.
    pub fn pending_requests(&self) -> (n: usize)
        ensures
            n == self@.pending.len(),
    {
        self.pending.len()
    }
}

/// What a verified or rejected token leads to.
pub fn accept_token(offer: &ResumeOffer, verified: bool) -> (continuity: SessionContinuity)
    ensures
        continuity == continuity_of(*offer, verified),
{
    if verified {
        SessionContinuity::Resumed { previous_session_id: offer.previous_session_id }
    } else {
        SessionContinuity::NewSession { reason: NewSessionReason::TokenRejected }
    }
}

/// A request is sent again only if its owner has declared it safe to repeat, and only
/// in a session that goes on.
pub proof fn only_idempotent_requests_are_retried(
    requests: Seq<PendingRequest>,
    continuity: SessionContinuity,
    id: u64,
)
    requires
        with_fate(requests, continuity, Fate::Retried).contains(id),
    ensures
        continuity is Resumed,
        exists|i: int|
            0 <= i < requests.len() && (#[trigger] requests[i]).id == id && requests[i].replay
                == RequestReplay::Idempotent,
    decreases requests.len(),
{
    if requests.len() > 0 {
        let front = requests.drop_last();
        let kept = with_fate(front, continuity, Fate::Retried);
        let last = requests.last();
        let all = with_fate(requests, continuity, Fate::Retried);
        if fate(continuity, last.replay) == Fate::Retried && id == last.id {
            assert(requests[requests.len() - 1].id == id);
        } else {
            let at = all.index_of(id);
            assert(all[at] == id);
            assert(kept[at] == id);
            only_idempotent_requests_are_retried(front, continuity, id);
            let i = choose|i: int|
                0 <= i < front.len() && (#[trigger] front[i]).id == id && front[i].replay
                    == RequestReplay::Idempotent;
            assert(requests[i] == front[i]);
        }
    }
}

/// Every request meets one fate.
pub proof fn every_request_meets_one_fate(requests: Seq<PendingRequest>, continuity: SessionContinuity)
    ensures
        with_fate(requests, continuity, Fate::Retried).len() + with_fate(
            requests,
            continuity,
            Fate::Decided,
        ).len() + with_fate(requests, continuity, Fate::Failed).len() == requests.len(),
    decreases requests.len(),
{
    if requests.len() > 0 {
        every_request_meets_one_fate(requests.drop_last(), continuity);
    }
}

/// After a reconnect a request that may be repeated is sent again in a resumed session and
/// failed in a new one; one that may not is failed, and one that the application decides on
/// is left to it, in either.
pub proof fn requests_meet_the_fate_of_their_kind(
    requests: Seq<PendingRequest>,
    continuity: SessionContinuity,
    k: int,
)
    requires
        0 <= k < requests.len(),
    ensures
        requests[k].replay == RequestReplay::Idempotent && continuity is Resumed ==> with_fate(
            requests,
            continuity,
            Fate::Retried,
        ).contains(requests[k].id),
        requests[k].replay == RequestReplay::Idempotent && continuity is NewSession ==> with_fate(
            requests,
            continuity,
            Fate::Failed,
        ).contains(requests[k].id),
        requests[k].replay == RequestReplay::ApplicationDecides ==> with_fate(
            requests,
            continuity,
            Fate::Decided,
        ).contains(requests[k].id),
        requests[k].replay == RequestReplay::Never ==> with_fate(
            requests,
            continuity,
            Fate::Failed,
        ).contains(requests[k].id),
    decreases requests.len(),
{
    let f = fate(continuity, requests[k].replay);
    let all = with_fate(requests, continuity, f);
    let front = with_fate(requests.drop_last(), continuity, f);
    if k == requests.len() - 1 {
        assert(all.last() == requests[k].id);
    } else {
        requests_meet_the_fate_of_their_kind(requests.drop_last(), continuity, k);
        let i = front.index_of(requests[k].id);
        assert(all[i] == requests[k].id);
    }
}

/// A request meets no other fate than that of its kind, and requests of one fate stand in
/// the order in which they were made.
pub proof fn fates_keep_the_order(
    requests: Seq<PendingRequest>,
    continuity: SessionContinuity,
    id: u64,
    replay: RequestReplay,
)
    ensures
        ({
            let more = requests.push(PendingRequest { id, replay });
            let retried = with_fate(requests, continuity, Fate::Retried);
            let decided = with_fate(requests, continuity, Fate::Decided);
            let failed = with_fate(requests, continuity, Fate::Failed);
            let again = replay == RequestReplay::Idempotent && continuity is Resumed;
            let asked = replay == RequestReplay::ApplicationDecides;
            &&& with_fate(more, continuity, Fate::Retried) == (if again {
                retried.push(id)
            } else {
                retried
            })
            &&& with_fate(more, continuity, Fate::Decided) == (if asked {
                decided.push(id)
            } else {
                decided
            })
            &&& with_fate(more, continuity, Fate::Failed) == (if again || asked {
                failed
            } else {
                failed.push(id)
            })
        }),
{
    assert(requests.push(PendingRequest { id, replay }).drop_last() =~= requests);
}

/// An offer of the expected peer is taken to its token until its moment of expiry, if the
/// token has bytes and keeps to the limits, and so do the channels and their cursors; then
/// the token decides.
pub proof fn fitting_offers_are_taken_to_their_token(
    limits: ResumeLimits,
    offer: ResumeOffer,
    expected_peer: PeerId,
    now_unix_ms: u64,
)
    ensures
        offer.peer_id@ != expected_peer@ ==> offer_fault(limits, offer, expected_peer, now_unix_ms)
            == Some(NewSessionReason::PeerMismatch),
        offer.peer_id@ == expected_peer@ && offer.expires_at_unix_ms <= now_unix_ms ==> offer_fault(
            limits,
            offer,
            expected_peer,
            now_unix_ms,
        ) == Some(NewSessionReason::TokenExpired),
        offer.peer_id@ == expected_peer@ && offer.expires_at_unix_ms > now_unix_ms ==> (offer_fault(
            limits,
            offer,
            expected_peer,
            now_unix_ms,
        ) is None <==> {
            &&& 1 <= offer.token@.len() <= limits.max_token_bytes
            &&& offer.channel_cursors@.len() <= limits.max_channels
            &&& forall|i: int|
                0 <= i < offer.channel_cursors@.len() ==> (
                #[trigger] offer.channel_cursors@[i]).cursor@.len() <= limits.max_cursor_bytes
        }),
        offer.peer_id@ == expected_peer@ && offer.expires_at_unix_ms > now_unix_ms ==> (offer_fault(
            limits,
            offer,
            expected_peer,
            now_unix_ms,
        ) is None || offer_fault(limits, offer, expected_peer, now_unix_ms) == Some(
            NewSessionReason::LimitsExceeded,
        )),
        continuity_of(offer, true) == (SessionContinuity::Resumed {
            previous_session_id: offer.previous_session_id,
        }),
        continuity_of(offer, false) is NewSession,
{
}

/// A request is recorded once, after all that were recorded before it, as long as there is
/// room for it.
pub proof fn requests_are_recorded_once(before: ResumeCoordinator, id: u64, replay: RequestReplay)
    ensures
        forall|lent: &mut ResumeCoordinator, recorded: Result<(), ResumeError>|
            *lent == before && #[trigger] call_ensures(
                ResumeCoordinator::record_unacknowledged,
                (lent, id, replay),
                recorded,
            ) ==> {
                let pending = before@.pending;
                let known = exists|i: int| 0 <= i < pending.len() && #[trigger] pending[i].id == id;
                &&& recorded is Ok <==> !known && pending.len() < before@.limits.max_pending_requests
                &&& recorded is Ok ==> final(lent)@.pending == pending.push(
                    PendingRequest { id, replay },
                ) && final(lent)@.limits == before@.limits
                &&& recorded matches Err(e) ==> {
                    &&& final(lent)@ == before@
                    &&& e.kind == if known {
                        ResumeErrorKind::DuplicateRequest
                    } else {
                        ResumeErrorKind::TooManyPendingRequests
                    }
                }
            },
{
}

/// An acknowledged request waits no longer, and the others wait on in their order; a
/// request that did not wait changes nothing.
pub proof fn acknowledged_requests_wait_no_longer(before: ResumeCoordinator, id: u64)
    requires
        before.wf(),
    ensures
        forall|lent: &mut ResumeCoordinator, waited: bool|
            *lent == before && #[trigger] call_ensures(
                ResumeCoordinator::acknowledge,
                (lent, id),
                waited,
            ) ==> {
                let pending = before@.pending;
                let left = final(lent)@.pending;
                &&& waited <==> exists|i: int|
                    0 <= i < pending.len() && #[trigger] pending[i].id == id
                &&& forall|i: int| 0 <= i < left.len() ==> #[trigger] left[i].id != id
                &&& waited ==> left.len() == pending.len() - 1
                &&& !waited ==> left == pending
                &&& final(lent)@.limits == before@.limits
            },
{
}

/// A reconnection settles every request that waited: none waits after it.
pub proof fn reconnections_settle_every_request(
    before: ResumeCoordinator,
    continuity: SessionContinuity,
)
    ensures
        forall|lent: &mut ResumeCoordinator, plan: ReplayPlan|
            *lent == before && #[trigger] call_ensures(
                ResumeCoordinator::plan_after_reconnect,
                (lent, continuity),
                plan,
            ) ==> final(lent)@.pending.len() == 0 && final(lent)@.limits == before@.limits,
{
}

} // verus!
