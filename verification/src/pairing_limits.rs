//! Bounds on pairing attempts: no challenge twice, and not too many in a time.

use std::collections::VecDeque;
use vstd::prelude::*;
use crate::attempt_log::{Attempt, AttemptLog, attempt_step, sources_stay_bounded};
use crate::bytes::bytes_equal;
use crate::digest::{sha256, sha256_digest};
use crate::identity::PeerId;
use crate::pairing::{PairingError, PairingErrorKind};

verus! {

/// Remembers the digests of the latest challenges, the oldest first.
#[derive(Debug)]
pub struct ReplayGuard {
    capacity: usize,
    order: VecDeque<[u8; 32]>,
}

#[verifier::ext_equal]
pub struct GuardView {
    pub capacity: usize,
    pub digests: Seq<Seq<u8>>,
}

impl View for ReplayGuard {
    type V = GuardView;

    closed spec fn view(&self) -> GuardView {
        GuardView {
            capacity: self.capacity,
            digests: self.order@.map_values(|d: [u8; 32]| d@),
        }
    }
}

impl GuardView {
    /// Whether no digest is remembered twice, and not more than there is room for.
    pub open spec fn wf(self) -> bool {
        &&& 0 < self.capacity
        &&& self.digests.len() <= self.capacity
        &&& self.digests.no_duplicates()
    }

    /// With one more digest; the oldest is forgotten where there is no room.
    pub open spec fn remembering(self, digest: Seq<u8>) -> GuardView {
        GuardView {
            digests: if self.digests.len() == self.capacity {
                self.digests.push(digest).drop_first()
            } else {
                self.digests.push(digest)
            },
            ..self
        }
    }
}

impl ReplayGuard {
    /// Whether the guard is valid.
    pub closed spec fn wf(&self) -> bool {
        self@.wf()
    }

    /// What is known of a valid guard.
    pub proof fn lemma_wf(&self)
        requires
            self.wf(),
        ensures
            self@.wf(),
    {
    }

    /// A guard that remembers nothing yet.
    pub fn new(capacity: usize) -> (guard: Result<Self, PairingError>)
        ensures
            match guard {
                Ok(g) => capacity > 0 && g.wf() && g@ == (GuardView { capacity, digests: Seq::empty() }),
                Err(e) => capacity == 0 && e == PairingError::new(
                    PairingErrorKind::InvalidInput,
                    "replay guard capacity must be positive",
                ),
            },
    {
        if capacity == 0 {
            return Err(
                PairingError::new(
                    PairingErrorKind::InvalidInput,
                    "replay guard capacity must be positive",
                ),
            );
        }
        let guard = ReplayGuard { capacity, order: VecDeque::new() };
        assert(guard@.digests =~= Seq::empty());
        Ok(guard)
    }

    /// Remembers a challenge by its digest, unless it was used already.
    pub fn reserve(&mut self, challenge: &[u8; 32]) -> (reserved: Result<[u8; 32], PairingError>)
        requires
            old(self).wf(),
        ensures
            final(self).wf(),
            match reserved {
                Ok(digest) => {
                    &&& digest@ == sha256(challenge@)
                    &&& !old(self)@.digests.contains(sha256(challenge@))
                    &&& final(self)@ == old(self)@.remembering(sha256(challenge@))
                },
                Err(e) => {
                    &&& old(self)@.digests.contains(sha256(challenge@))
                    &&& e == PairingError::new(
                        PairingErrorKind::ReplayDetected,
                        "pairing challenge was already used",
                    )
                    &&& final(self)@ == old(self)@
                },
            },
    {
        let digest = sha256_digest(challenge);
        self.reserve_digest(digest)
    }

    /// Remembers a digest, unless it is remembered already.
    pub fn reserve_digest(&mut self, digest: [u8; 32]) -> (reserved: Result<[u8; 32], PairingError>)
        requires
            old(self).wf(),
        ensures
            final(self).wf(),
            match reserved {
                Ok(d) => {
                    &&& d == digest
                    &&& !old(self)@.digests.contains(digest@)
                    &&& final(self)@ == old(self)@.remembering(digest@)
                },
                Err(e) => {
                    &&& old(self)@.digests.contains(digest@)
                    &&& e == PairingError::new(
                        PairingErrorKind::ReplayDetected,
                        "pairing challenge was already used",
                    )
                    &&& final(self)@ == old(self)@
                },
            },
    {
        let ghost before = self@;
        let mut i: usize = 0;
        while i < self.order.len()
            invariant
                self@ == before,
                self.wf(),
                before == old(self)@,
                i <= self.order@.len(),
                forall|j: int| 0 <= j < i ==> #[trigger] before.digests[j] != digest@,
            decreases self.order@.len() - i,
        {
            assert(before.digests[i as int] == self.order@[i as int]@);
            if bytes_equal(&self.order[i], &digest) {
                assert(before.digests.contains(digest@));
                return Err(
                    PairingError::new(
                        PairingErrorKind::ReplayDetected,
                        "pairing challenge was already used",
                    ),
                );
            }
            i = i + 1;
        }
        assert(!before.digests.contains(digest@));
        self.order.push_back(digest);
        assert(self@.digests =~= before.digests.push(digest@));
        let ghost more = self@.digests;
        if self.order.len() > self.capacity {
            self.order.pop_front();
            assert(self@.digests =~= more.drop_first());
        }
        proof {
            assert(self@ =~= before.remembering(digest@));
            assert(more.no_duplicates());
        }
        Ok(digest)
    }
}

/// A challenge that was just used is refused.
pub proof fn used_challenges_are_refused(guard: GuardView, digest: Seq<u8>)
    requires
        guard.wf(),
        !guard.digests.contains(digest),
    ensures
        guard.remembering(digest).wf(),
        guard.remembering(digest).digests.contains(digest),
        forall|other: Seq<u8>|
            #![trigger guard.remembering(digest).digests.contains(other)]
            guard.digests.contains(other) && other != guard.digests[0] ==> guard.remembering(
                digest,
            ).digests.contains(other),
{
    let more = guard.digests.push(digest);
    let after = guard.remembering(digest);
    assert(more[guard.digests.len() as int] == digest);
    if guard.digests.len() == guard.capacity {
        assert(after.digests[guard.digests.len() - 1] == digest);
    }
    assert forall|other: Seq<u8>|
        #![trigger after.digests.contains(other)]
        guard.digests.contains(other) && other != guard.digests[0] implies after.digests.contains(other) by {
        let at = guard.digests.index_of(other);
        assert(more[at] == other);
        if guard.digests.len() == guard.capacity {
            assert(after.digests[at - 1] == other);
        }
    }
}

/// How often a peer may try in a time.
#[derive(Clone, Copy, Debug, Eq, PartialEq, Structural)]
pub struct PairingRateLimit {
    pub max_attempts: usize,
    pub max_failures: usize,
    pub max_peers: usize,
    pub window_ms: u64,
}

/// That a limit on pairing was reached.
#[verifier::allow_in_spec]
pub fn rate_error(message: &'static str) -> PairingError
    returns
        PairingError::new(PairingErrorKind::RateLimited, message),
{
    PairingError::new(PairingErrorKind::RateLimited, message)
}

/// What a peer is told of an attempt.
pub open spec fn attempt_verdict(outcome: Attempt) -> Result<(), PairingError> {
    match outcome {
        Attempt::Taken => Ok(()),
        Attempt::TooManySources => Err(rate_error("pairing peer limit was reached")),
        Attempt::TooManyAttempts => Err(rate_error("pairing request was rate limited")),
    }
}

fn verdict_of(outcome: Attempt) -> (verdict: Result<(), PairingError>)
    ensures
        verdict == attempt_verdict(outcome),
{
    match outcome {
        Attempt::Taken => Ok(()),
        Attempt::TooManySources => Err(rate_error("pairing peer limit was reached")),
        Attempt::TooManyAttempts => Err(rate_error("pairing request was rate limited")),
    }
}

/// Bounds the attempts and the failures of each peer, and the number of peers.
#[derive(Debug)]
pub struct PairingAttemptLimiter {
    limit: PairingRateLimit,
    attempts: AttemptLog<PeerId>,
    failures: AttemptLog<PeerId>,
}

#[verifier::ext_equal]
pub struct LimiterView {
    pub limit: PairingRateLimit,
    pub attempts: Map<Seq<u8>, Seq<u64>>,
    pub failures: Map<Seq<u8>, Seq<u64>>,
}

impl View for PairingAttemptLimiter {
    type V = LimiterView;

    closed spec fn view(&self) -> LimiterView {
        LimiterView { limit: self.limit, attempts: self.attempts@, failures: self.failures@ }
    }
}

impl PairingRateLimit {
    /// Whether nothing is limited to none.
    pub open spec fn positive(self) -> bool {
        &&& self.max_attempts > 0
        &&& self.max_failures > 0
        &&& self.max_peers > 0
        &&& self.window_ms > 0
    }
}

impl PairingAttemptLimiter {
    /// Whether the limiter is valid.
    pub closed spec fn wf(&self) -> bool {
        &&& self.limit.positive()
        &&& self.attempts.wf()
        &&& self.failures.wf()
        &&& self.attempts@.dom().len() <= self.limit.max_peers
        &&& self.failures@.dom().len() <= self.limit.max_peers
    }

    /// A valid limiter keeps no more peers than it may.
    pub proof fn lemma_wf(&self)
        requires
            self.wf(),
        ensures
            self@.limit.positive(),
            self@.attempts.dom().finite(),
            self@.failures.dom().finite(),
            self@.attempts.dom().len() <= self@.limit.max_peers,
            self@.failures.dom().len() <= self@.limit.max_peers,
    {
        self.attempts.lemma_finite();
        self.failures.lemma_finite();
    }

    /// A limiter that has seen nothing yet.
    pub fn new(limit: PairingRateLimit) -> (limiter: Result<Self, PairingError>)
        ensures
            match limiter {
                Ok(l) => limit.positive() && l.wf() && l@ == (LimiterView {
                    limit,
                    attempts: Map::empty(),
                    failures: Map::empty(),
                }),
                Err(e) => !limit.positive() && e == rate_error("pairing rate limit must be positive"),
            },
    {
        if limit.max_attempts == 0 || limit.max_failures == 0 || limit.max_peers == 0 || limit.window_ms
            == 0 {
            return Err(rate_error("pairing rate limit must be positive"));
        }
        Ok(PairingAttemptLimiter { limit, attempts: AttemptLog::new(), failures: AttemptLog::new() })
    }

    /// Takes an attempt of a peer, unless there were too many.
    pub fn begin(&mut self, peer_id: PeerId, now_unix_ms: u64) -> (taken: Result<(), PairingError>)
        requires
            old(self).wf(),
        ensures
            final(self).wf(),
            ({
                let limit = old(self)@.limit;
                let (after, outcome) = attempt_step(
                    old(self)@.attempts,
                    peer_id@,
                    limit.max_attempts,
                    limit.max_peers,
                    limit.window_ms,
                    now_unix_ms,
                );
                &&& final(self)@ == (LimiterView { attempts: after, ..old(self)@ })
                &&& taken == attempt_verdict(outcome)
            }),
    {
        proof {
            self.attempts.lemma_finite();
            sources_stay_bounded(
                self.attempts@,
                peer_id@,
                self.limit.max_attempts,
                self.limit.max_peers,
                self.limit.window_ms,
                now_unix_ms,
            );
        }
        let outcome = self.attempts.attempt(
            peer_id,
            self.limit.max_attempts,
            self.limit.max_peers,
            self.limit.window_ms,
            now_unix_ms,
        );
        verdict_of(outcome)
    }

    /// Takes a failure of a peer, unless there were too many.
    pub fn record_failure(&mut self, peer_id: PeerId, now_unix_ms: u64) -> (taken: Result<
        (),
        PairingError,
    >)
        requires
            old(self).wf(),
        ensures
            final(self).wf(),
            ({
                let limit = old(self)@.limit;
                let (after, outcome) = attempt_step(
                    old(self)@.failures,
                    peer_id@,
                    limit.max_failures,
                    limit.max_peers,
                    limit.window_ms,
                    now_unix_ms,
                );
                &&& final(self)@ == (LimiterView { failures: after, ..old(self)@ })
                &&& taken == attempt_verdict(outcome)
            }),
    {
        proof {
            self.failures.lemma_finite();
            sources_stay_bounded(
                self.failures@,
                peer_id@,
                self.limit.max_failures,
                self.limit.max_peers,
                self.limit.window_ms,
                now_unix_ms,
            );
        }
        let outcome = self.failures.attempt(
            peer_id,
            self.limit.max_failures,
            self.limit.max_peers,
            self.limit.window_ms,
            now_unix_ms,
        );
        verdict_of(outcome)
    }

    /// How many peers are remembered for attempts, and how many for failures.
    pub fn remembered_peers(&self) -> (n: (usize, usize))
        requires
            self.wf(),
        ensures
            n.0 == self@.attempts.dom().len(),
            n.1 == self@.failures.dom().len(),
    {
        proof {
            self.attempts.lemma_finite();
            self.failures.lemma_finite();
        }
        (self.attempts.len(), self.failures.len())
    }
}

/// The challenge that was remembered first is the one that is forgotten, and only where
/// there is no room; the others stay in their order.
pub proof fn the_oldest_challenge_is_forgotten(guard: GuardView, digest: Seq<u8>)
    requires
        guard.wf(),
    ensures
        ({
            let after = guard.remembering(digest);
            &&& after.digests.last() == digest
            &&& after.capacity == guard.capacity
            &&& guard.digests.len() < guard.capacity ==> after.digests == guard.digests.push(digest)
            &&& guard.digests.len() == guard.capacity ==> after.digests == guard.digests.skip(1).push(
                digest,
            )
        }),
{
    if guard.digests.len() > 0 {
        assert(guard.digests.push(digest).drop_first() =~= guard.digests.skip(1).push(digest));
    }
}

/// An attempt that is taken is accepted, and every other is refused as one too many.
pub proof fn refused_attempts_are_rate_limited(outcome: Attempt)
    ensures
        outcome is Taken ==> attempt_verdict(outcome) is Ok,
        !(outcome is Taken) ==> (attempt_verdict(outcome) matches Err(e) && e.kind
            == PairingErrorKind::RateLimited),
{
}

/// A challenge that was reserved is told apart from the next one: reserving it again at once
/// is a replay, and reserving anything leaves no more digests than there is room for.
pub proof fn reserved_challenges_are_not_reserved_again(before: ReplayGuard, challenge: [u8; 32])
    requires
        before.wf(),
    ensures
        forall|
            lent: &mut ReplayGuard,
            again: &mut ReplayGuard,
            first: Result<[u8; 32], PairingError>,
            second: Result<[u8; 32], PairingError>,
        |
            {
                &&& *lent == before
                &&& #[trigger] call_ensures(ReplayGuard::reserve, (lent, &challenge), first)
                &&& *again == *final(lent)
                &&& #[trigger] call_ensures(ReplayGuard::reserve, (again, &challenge), second)
            } ==> {
                &&& first is Ok <==> !before@.digests.contains(sha256(challenge@))
                &&& first matches Ok(digest) ==> digest@ == sha256(challenge@)
                &&& second matches Err(e)
                &&& e.kind == PairingErrorKind::ReplayDetected
                &&& final(again)@ == final(lent)@
            },
{
    let hash = sha256(challenge@);
    let digests = before@.remembering(hash).digests;
    assert(digests.len() > 0 && digests.last() == hash);
    assert(digests.contains(digests[digests.len() - 1]));
}

/// Attempts and failures are counted apart: beginning leaves the failures as they are, and
/// a failure the attempts.
pub proof fn attempts_and_failures_are_counted_apart(
    before: PairingAttemptLimiter,
    peer_id: PeerId,
    now_unix_ms: u64,
)
    ensures
        forall|lent: &mut PairingAttemptLimiter, taken: Result<(), PairingError>|
            *lent == before && #[trigger] call_ensures(
                PairingAttemptLimiter::begin,
                (lent, peer_id, now_unix_ms),
                taken,
            ) ==> {
                &&& final(lent)@.failures == before@.failures
                &&& final(lent)@.limit == before@.limit
                &&& taken == attempt_verdict(
                    attempt_step(
                        before@.attempts,
                        peer_id@,
                        before@.limit.max_attempts,
                        before@.limit.max_peers,
                        before@.limit.window_ms,
                        now_unix_ms,
                    ).1,
                )
            },
        forall|lent: &mut PairingAttemptLimiter, taken: Result<(), PairingError>|
            *lent == before && #[trigger] call_ensures(
                PairingAttemptLimiter::record_failure,
                (lent, peer_id, now_unix_ms),
                taken,
            ) ==> {
                &&& final(lent)@.attempts == before@.attempts
                &&& final(lent)@.limit == before@.limit
                &&& taken == attempt_verdict(
                    attempt_step(
                        before@.failures,
                        peer_id@,
                        before@.limit.max_failures,
                        before@.limit.max_peers,
                        before@.limit.window_ms,
                        now_unix_ms,
                    ).1,
                )
            },
{
}

} // verus!
