//! Which transport is tried, and in which order.

use std::collections::VecDeque;
use vstd::prelude::*;
use crate::liveness::ConnectionQuality;
use crate::text::text_equal;
use crate::transport::{AddressView, EndpointAddress};

verus! {

/// How well a transport protects what it carries, the least first.
#[derive(Clone, Copy, Debug, Eq, Ord, PartialEq, PartialOrd, Structural)]
pub enum SecurityLevel {
    Plaintext,
    Authenticated,
    AuthenticatedEncrypted,
}

impl SecurityLevel {
    /// The place of the level in the order.
    #[verifier::allow_in_spec]
    pub fn rank(self) -> u8
        returns
            (match self {
                SecurityLevel::Plaintext => 0u8,
                SecurityLevel::Authenticated => 1u8,
                SecurityLevel::AuthenticatedEncrypted => 2u8,
            }),
    {
        match self {
            SecurityLevel::Plaintext => 0,
            SecurityLevel::Authenticated => 1,
            SecurityLevel::AuthenticatedEncrypted => 2,
        }
    }
}

/// Which transport it is.
#[derive(Clone, Copy, Debug, Eq, PartialEq)]
pub enum TransportKind {
    Local,
    Quic,
    Tcp,
    Custom(&'static str),
}

impl TransportKind {
    /// Whether both are the same transport.
    pub open spec fn agrees(self, other: TransportKind) -> bool {
        match (self, other) {
            (TransportKind::Local, TransportKind::Local) => true,
            (TransportKind::Quic, TransportKind::Quic) => true,
            (TransportKind::Tcp, TransportKind::Tcp) => true,
            (TransportKind::Custom(a), TransportKind::Custom(b)) => a@ == b@,
            _ => false,
        }
    }

    /// Whether both are the same transport.
    pub fn same(self, other: TransportKind) -> (same: bool)
        ensures
            same == self.agrees(other),
    {
        match (self, other) {
            (TransportKind::Local, TransportKind::Local) => true,
            (TransportKind::Quic, TransportKind::Quic) => true,
            (TransportKind::Tcp, TransportKind::Tcp) => true,
            (TransportKind::Custom(a), TransportKind::Custom(b)) => text_equal(a, b),
            _ => false,
        }
    }
}

/// A way to reach a peer. Lower priorities are tried first.
#[derive(Clone, Debug, Eq, PartialEq)]
pub struct TransportCandidate {
    pub kind: TransportKind,
    pub endpoint: EndpointAddress,
    pub priority: u16,
    pub security: SecurityLevel,
}

#[verifier::ext_equal]
pub struct CandidateView {
    pub kind: TransportKind,
    pub endpoint: AddressView,
    pub priority: u16,
    pub security: SecurityLevel,
}

impl View for TransportCandidate {
    type V = CandidateView;

    open spec fn view(&self) -> CandidateView {
        CandidateView {
            kind: self.kind,
            endpoint: self.endpoint@,
            priority: self.priority,
            security: self.security,
        }
    }
}

#[derive(Clone, Copy, Debug, Eq, PartialEq, Structural)]
pub enum AttemptFailure {
    Unreachable,
    TimedOut,
    AuthenticationFailed,
    Incompatible,
    ResourceExhausted,
    Cancelled,
    Other,
}

/// A way that was tried, and why it failed.
#[derive(Clone, Debug, Eq, PartialEq)]
pub struct TransportAttempt {
    pub candidate: TransportCandidate,
    pub failure: AttemptFailure,
}

/// What may be tried. Without a downgrade, a way that is less secure than one that
/// was tried is refused, even where it meets the minimum.
#[derive(Clone, Copy, Debug, Eq, PartialEq, Structural)]
pub struct FallbackPolicy {
    pub minimum_security: SecurityLevel,
    pub allow_security_downgrade: bool,
}

#[derive(Clone, Debug, Eq, PartialEq)]
pub enum SelectionError {
    NoCandidates,
    SecurityDowngrade { attempted: SecurityLevel, candidate: SecurityLevel },
    Exhausted(Vec<TransportAttempt>),
}

/// The way that worked, and those that did not.
#[derive(Clone, Debug, Eq, PartialEq)]
pub struct TransportSelection {
    pub selected: TransportCandidate,
    pub quality: ConnectionQuality,
    pub failures: Vec<TransportAttempt>,
}

/// The ways that are yet to be tried, in order.
#[derive(Debug)]
pub struct FallbackPlan {
    policy: FallbackPolicy,
    pending: VecDeque<TransportCandidate>,
    failures: Vec<TransportAttempt>,
    strongest_attempted: Option<SecurityLevel>,
}

#[verifier::ext_equal]
pub struct PlanView {
    pub policy: FallbackPolicy,
    pub pending: Seq<TransportCandidate>,
    pub failures: Seq<TransportAttempt>,
    pub strongest_attempted: Option<SecurityLevel>,
}

impl View for FallbackPlan {
    type V = PlanView;

    closed spec fn view(&self) -> PlanView {
        PlanView {
            policy: self.policy,
            pending: self.pending@,
            failures: self.failures@,
            strongest_attempted: self.strongest_attempted,
        }
    }
}

/// Whether a candidate meets the minimum.
pub open spec fn secure_enough(policy: FallbackPolicy) -> spec_fn(TransportCandidate) -> bool {
    |c: TransportCandidate| c.security.rank() >= policy.minimum_security.rank()
}

/// A row of candidates with one more in its place: behind those of the same or a
/// lower priority number.
pub open spec fn placed_by_priority(row: Seq<TransportCandidate>, c: TransportCandidate) -> Seq<
    TransportCandidate,
>
    decreases row.len(),
{
    if row.len() == 0 || row.last().priority <= c.priority {
        row.push(c)
    } else {
        placed_by_priority(row.drop_last(), c).push(row.last())
    }
}

/// Candidates by priority; those of one priority stay in their order.
pub open spec fn by_priority(row: Seq<TransportCandidate>) -> Seq<TransportCandidate>
    decreases row.len(),
{
    if row.len() == 0 {
        row
    } else {
        placed_by_priority(by_priority(row.drop_last()), row.last())
    }
}

/// Why the next candidate is not tried.
pub open spec fn downgrade_fault(plan: PlanView) -> Option<SelectionError> {
    match plan.strongest_attempted {
        Some(strongest) => if plan.pending[0].security.rank() < strongest.rank()
            && !plan.policy.allow_security_downgrade {
            Some(
                SelectionError::SecurityDowngrade {
                    attempted: strongest,
                    candidate: plan.pending[0].security,
                },
            )
        } else {
            None
        },
        None => None,
    }
}

/// The more secure of what was tried and what is tried now.
pub open spec fn strongest(attempted: Option<SecurityLevel>, now: SecurityLevel) -> SecurityLevel {
    match attempted {
        Some(level) => if level.rank() >= now.rank() {
            level
        } else {
            now
        },
        None => now,
    }
}

impl FallbackPlan {
    /// Plans which candidates are tried.
    pub fn new(candidates: Vec<TransportCandidate>, policy: FallbackPolicy) -> (plan: Result<
        Self,
        SelectionError,
    >)
        ensures
            match plan {
                Ok(p) => {
                    &&& candidates@.filter(secure_enough(policy)).len() > 0
                    &&& p@ == (PlanView {
                        policy,
                        pending: by_priority(candidates@.filter(secure_enough(policy))),
                        failures: Seq::empty(),
                        strongest_attempted: None,
                    })
                },
                Err(e) => {
                    &&& candidates@.filter(secure_enough(policy)).len() == 0
                    &&& e == SelectionError::NoCandidates
                },
            },
    {
        let ghost all = candidates@;
        let ghost pass = secure_enough(policy);
        let mut rest = candidates;
        let mut pending: VecDeque<TransportCandidate> = VecDeque::new();
        let ghost mut n: int = 0;
        proof {
            reveal(Seq::filter);
            assert(all.subrange(0, 0).filter(pass) =~= Seq::empty());
            assert(rest@ =~= all.subrange(0, all.len() as int));
            assert(pending@ =~= by_priority(all.subrange(0, 0).filter(pass)));
        }
        while rest.len() > 0
            invariant
                0 <= n <= all.len(),
                pass == secure_enough(policy),
                rest@ == all.subrange(n, all.len() as int),
                pending@ == by_priority(all.subrange(0, n).filter(pass)),
                pending@.len() == all.subrange(0, n).filter(pass).len(),
            decreases rest@.len(),
        {
            let candidate = rest.remove(0);
            proof {
                assert(candidate == all[n]);
                crate::realtime_model::lemma_filter_prefix(all, pass, n);
                let kept = all.subrange(0, n).filter(pass);
                assert(kept.push(all[n]).drop_last() =~= kept);
            }
            if candidate.security.rank() >= policy.minimum_security.rank() {
                place_by_priority(&mut pending, candidate);
            }
            proof {
                n = n + 1;
                assert(rest@ =~= all.subrange(n, all.len() as int));
            }
        }
        assert(all.subrange(0, n) =~= all);
        if pending.len() == 0 {
            return Err(SelectionError::NoCandidates);
        }
        let plan = FallbackPlan {
            policy,
            pending,
            failures: Vec::new(),
            strongest_attempted: None,
        };
        assert(plan@.failures =~= Seq::empty());
        Ok(plan)
    }

    /// The next candidate, if there is one. One that would be a downgrade is dropped.
    pub fn next_candidate(&mut self) -> (next: Result<Option<TransportCandidate>, SelectionError>)
        ensures
            if old(self)@.pending.len() == 0 {
                &&& next == Ok::<Option<TransportCandidate>, SelectionError>(None)
                &&& final(self)@ == old(self)@
            } else {
                match downgrade_fault(old(self)@) {
                    Some(fault) => {
                        &&& next == Err::<Option<TransportCandidate>, SelectionError>(fault)
                        &&& final(self)@ == (PlanView {
                            pending: old(self)@.pending.drop_first(),
                            ..old(self)@
                        })
                    },
                    None => {
                        let candidate = old(self)@.pending[0];
                        &&& next == Ok::<Option<TransportCandidate>, SelectionError>(Some(candidate))
                        &&& final(self)@ == (PlanView {
                            pending: old(self)@.pending.drop_first(),
                            strongest_attempted: Some(
                                strongest(old(self)@.strongest_attempted, candidate.security),
                            ),
                            ..old(self)@
                        })
                    },
                }
            },
    {
        let ghost before = self@;
        let candidate = match self.pending.pop_front() {
            Some(candidate) => candidate,
            None => {
                return Ok(None);
            },
        };
        assert(self.pending@ =~= before.pending.drop_first());
        let level = match self.strongest_attempted {
            Some(strongest) => {
                if candidate.security.rank() < strongest.rank() && !self.policy.allow_security_downgrade {
                    return Err(
                        SelectionError::SecurityDowngrade {
                            attempted: strongest,
                            candidate: candidate.security,
                        },
                    );
                }
                if strongest.rank() >= candidate.security.rank() {
                    strongest
                } else {
                    candidate.security
                }
            },
            None => candidate.security,
        };
        self.strongest_attempted = Some(level);
        Ok(Some(candidate))
    }

    /// Remembers that a candidate failed.
    pub fn record_failure(&mut self, candidate: TransportCandidate, failure: AttemptFailure)
        ensures
            final(self)@ == (PlanView {
                failures: old(self)@.failures.push(TransportAttempt { candidate, failure }),
                ..old(self)@
            }),
    {
        self.failures.push(TransportAttempt { candidate, failure });
    }

    /// Ends the plan with the candidate that worked.
    pub fn select(self, selected: TransportCandidate, quality: ConnectionQuality) -> (selection:
        TransportSelection)
        ensures
            selection.selected == selected,
            selection.quality == quality,
            selection.failures@ == self@.failures,
    {
        TransportSelection { selected, quality, failures: self.failures }
    }

    /// Ends the plan without one.
    pub fn exhausted(self) -> (error: SelectionError)
        ensures
            error matches SelectionError::Exhausted(failures) && failures@ == self@.failures,
    {
        SelectionError::Exhausted(self.failures)
    }
}

/// Puts a candidate in its place.
fn place_by_priority(row: &mut VecDeque<TransportCandidate>, candidate: TransportCandidate)
    ensures
        final(row)@ == placed_by_priority(old(row)@, candidate),
        final(row)@.len() == old(row)@.len() + 1,
{
    let ghost before = row@;
    let mut i: usize = row.len();
    assert(before.subrange(0, i as int) =~= before);
    assert(before.subrange(i as int, before.len() as int) =~= Seq::empty());
    assert(placed_by_priority(before, candidate) =~= placed_by_priority(
        before.subrange(0, i as int),
        candidate,
    ) + before.subrange(i as int, before.len() as int));
    while i > 0 && row[i - 1].priority > candidate.priority
        invariant
            row@ == before,
            i <= before.len(),
            placed_by_priority(before, candidate) == placed_by_priority(
                before.subrange(0, i as int),
                candidate,
            ) + before.subrange(i as int, before.len() as int),
        decreases i,
    {
        proof {
            let front = before.subrange(0, i as int);
            assert(front.last() == before[i - 1]);
            assert(front.drop_last() =~= before.subrange(0, i - 1));
            let tail = before.subrange(i as int, before.len() as int);
            assert(placed_by_priority(front.drop_last(), candidate).push(front.last()) + tail
                =~= placed_by_priority(front.drop_last(), candidate) + before.subrange(
                i - 1,
                before.len() as int,
            ));
        }
        i = i - 1;
    }
    proof {
        let front = before.subrange(0, i as int);
        if i > 0 {
            assert(front.last() == before[i - 1]);
        }
        assert(placed_by_priority(front, candidate) == front.push(candidate));
        assert(before.insert(i as int, candidate) =~= front.push(candidate) + before.subrange(
            i as int,
            before.len() as int,
        ));
    }
    row.insert(i, candidate);
}

/// Whether priorities never fall.
pub open spec fn ordered(row: Seq<TransportCandidate>) -> bool {
    forall|i: int, j: int|
        0 <= i < j < row.len() ==> (#[trigger] row[i]).priority <= (#[trigger] row[j]).priority
}

proof fn lemma_placed(row: Seq<TransportCandidate>, c: TransportCandidate)
    requires
        ordered(row),
    ensures
        ordered(placed_by_priority(row, c)),
        placed_by_priority(row, c).to_multiset() == row.to_multiset().insert(c),
        forall|i: int|
            0 <= i < placed_by_priority(row, c).len() ==> (#[trigger] placed_by_priority(row, c)[i])
                == c || row.contains(placed_by_priority(row, c)[i]),
    decreases row.len(),
{
    broadcast use vstd::seq_lib::group_to_multiset_ensures;

    let placed = placed_by_priority(row, c);
    if row.len() == 0 || row.last().priority <= c.priority {
        assert forall|i: int| 0 <= i < placed.len() implies (#[trigger] placed[i]) == c || row.contains(
            placed[i],
        ) by {
            if i < row.len() {
                assert(placed[i] == row[i]);
            }
        }
        assert forall|i: int, j: int| 0 <= i < j < placed.len() implies (#[trigger] placed[i]).priority <= (
        #[trigger] placed[j]).priority by {
            if j == row.len() {
                assert(row[i].priority <= row[row.len() - 1].priority || i == row.len() - 1);
            }
        }
    } else {
        let front = row.drop_last();
        lemma_placed(front, c);
        let inner = placed_by_priority(front, c);
        assert(row =~= front.push(row.last()));
        assert(placed =~= inner.push(row.last()));
        assert forall|i: int| 0 <= i < placed.len() implies (#[trigger] placed[i]) == c || row.contains(
            placed[i],
        ) by {
            if i < inner.len() {
                assert(placed[i] == inner[i]);
                if inner[i] != c {
                    let at = front.index_of(inner[i]);
                    assert(row[at] == inner[i]);
                }
            } else {
                assert(row[row.len() - 1] == placed[i]);
            }
        }
        assert forall|i: int, j: int| 0 <= i < j < placed.len() implies (#[trigger] placed[i]).priority <= (
        #[trigger] placed[j]).priority by {
            if j == inner.len() {
                if inner[i] != c {
                    let at = front.index_of(inner[i]);
                    assert(row[at] == inner[i]);
                    assert(row[at].priority <= row[row.len() - 1].priority);
                }
            }
        }
        assert(row.to_multiset() =~= front.to_multiset().insert(row.last()));
        assert(placed.to_multiset() =~= row.to_multiset().insert(c));
    }
}

/// The candidates of one priority.
pub open spec fn of_priority(row: Seq<TransportCandidate>, priority: u16) -> Seq<TransportCandidate> {
    row.filter(|c: TransportCandidate| c.priority == priority)
}

proof fn lemma_of_priority(row: Seq<TransportCandidate>, c: TransportCandidate, priority: u16)
    ensures
        of_priority(row.push(c), priority) == (if c.priority == priority {
            of_priority(row, priority).push(c)
        } else {
            of_priority(row, priority)
        }),
{
    reveal(Seq::filter);
    assert(row.push(c).drop_last() =~= row);
}

proof fn lemma_placed_stable(row: Seq<TransportCandidate>, c: TransportCandidate, priority: u16)
    ensures
        of_priority(placed_by_priority(row, c), priority) == of_priority(row.push(c), priority),
    decreases row.len(),
{
    if row.len() > 0 && row.last().priority > c.priority {
        let front = row.drop_last();
        lemma_placed_stable(front, c, priority);
        lemma_of_priority(placed_by_priority(front, c), row.last(), priority);
        lemma_of_priority(front, c, priority);
        lemma_of_priority(row, c, priority);
        lemma_of_priority(front, row.last(), priority);
        assert(row =~= front.push(row.last()));
    }
}

/// Candidates are tried by priority, those of one priority in the order in which they
/// were given, and none is lost or made up.
pub proof fn candidates_are_tried_by_priority(row: Seq<TransportCandidate>)
    ensures
        ordered(by_priority(row)),
        by_priority(row).to_multiset() == row.to_multiset(),
        forall|priority: u16|
            #[trigger] of_priority(by_priority(row), priority) == of_priority(row, priority),
    decreases row.len(),
{
    broadcast use vstd::seq_lib::group_to_multiset_ensures;

    if row.len() > 0 {
        candidates_are_tried_by_priority(row.drop_last());
        let front = by_priority(row.drop_last());
        lemma_placed(front, row.last());
        assert(row =~= row.drop_last().push(row.last()));
        assert forall|priority: u16| #[trigger] of_priority(by_priority(row), priority) == of_priority(
            row,
            priority,
        ) by {
            lemma_placed_stable(front, row.last(), priority);
            lemma_of_priority(front, row.last(), priority);
            lemma_of_priority(row.drop_last(), row.last(), priority);
            assert(of_priority(front, priority) == of_priority(row.drop_last(), priority));
        }
    }
}

/// Without leave to downgrade, nothing less secure than what was tried before is handed
/// out, and what was tried is remembered for all candidates that follow.
pub proof fn no_silent_downgrade(plan: PlanView, tried: SecurityLevel)
    requires
        plan.pending.len() > 0,
        !plan.policy.allow_security_downgrade,
        plan.strongest_attempted matches Some(level) && level.rank() >= tried.rank(),
    ensures
        plan.pending[0].security.rank() < tried.rank() ==> downgrade_fault(plan) == Some(
            SelectionError::SecurityDowngrade {
                attempted: plan.strongest_attempted->0,
                candidate: plan.pending[0].security,
            },
        ),
        strongest(plan.strongest_attempted, plan.pending[0].security).rank() >= tried.rank(),
        strongest(plan.strongest_attempted, plan.pending[0].security).rank()
            >= plan.pending[0].security.rank(),
{
}

/// Plaintext protects less than authentication, and that less than encryption with it.
pub proof fn encryption_protects_most(level: SecurityLevel)
    ensures
        SecurityLevel::Plaintext.rank() < SecurityLevel::Authenticated.rank(),
        SecurityLevel::Authenticated.rank() < SecurityLevel::AuthenticatedEncrypted.rank(),
        level.rank() <= SecurityLevel::AuthenticatedEncrypted.rank(),
{
}

/// A candidate that encrypts is always secure enough, and plaintext is only where the
/// policy asks for no more.
pub proof fn weak_candidates_are_left_out(policy: FallbackPolicy, candidate: TransportCandidate)
    ensures
        candidate.security == SecurityLevel::AuthenticatedEncrypted ==> secure_enough(policy)(candidate),
        candidate.security == SecurityLevel::Plaintext ==> (secure_enough(policy)(candidate)
            <==> policy.minimum_security == SecurityLevel::Plaintext),
        candidate.security == SecurityLevel::Authenticated ==> (secure_enough(policy)(candidate)
            <==> policy.minimum_security != SecurityLevel::AuthenticatedEncrypted),
{
}

/// Once encryption was tried, the next candidate is refused if it does not encrypt, unless
/// the policy allows for that; a candidate that encrypts is never refused, nor is the first.
pub proof fn weaker_candidates_are_refused_after_stronger(plan: PlanView)
    requires
        plan.pending.len() > 0,
    ensures
        plan.pending[0].security == SecurityLevel::AuthenticatedEncrypted ==> downgrade_fault(plan)
            is None,
        plan.strongest_attempted is None ==> downgrade_fault(plan) is None,
        plan.policy.allow_security_downgrade ==> downgrade_fault(plan) is None,
        plan.strongest_attempted == Some(SecurityLevel::AuthenticatedEncrypted)
            && !plan.policy.allow_security_downgrade && plan.pending[0].security
            != SecurityLevel::AuthenticatedEncrypted ==> downgrade_fault(plan) is Some,
        plan.strongest_attempted == Some(SecurityLevel::Authenticated)
            && !plan.policy.allow_security_downgrade ==> (downgrade_fault(plan) is Some
            <==> plan.pending[0].security == SecurityLevel::Plaintext),
        plan.strongest_attempted == Some(SecurityLevel::Plaintext) ==> downgrade_fault(plan) is None,
        strongest(None, plan.pending[0].security) == plan.pending[0].security,
        strongest(Some(SecurityLevel::AuthenticatedEncrypted), plan.pending[0].security)
            == SecurityLevel::AuthenticatedEncrypted,
        strongest(Some(SecurityLevel::Plaintext), plan.pending[0].security) == plan.pending[0].security,
{
}

/// The candidates of a plan are handed out one after another, the next one first, until none
/// is left; a failure is remembered behind the earlier ones.
pub proof fn candidates_are_handed_out_in_turn(
    before: FallbackPlan,
    candidate: TransportCandidate,
    failure: AttemptFailure,
)
    ensures
        forall|lent: &mut FallbackPlan, next: Result<Option<TransportCandidate>, SelectionError>|
            *lent == before && #[trigger] call_ensures(
                FallbackPlan::next_candidate,
                (lent,),
                next,
            ) ==> {
                let waiting = before@.pending;
                let left = final(lent)@.pending;
                &&& waiting.len() == 0 <==> next == Ok::<Option<TransportCandidate>, SelectionError>(None)
                &&& next matches Ok(Some(given)) ==> {
                    &&& given == waiting[0]
                    &&& final(lent)@.strongest_attempted is Some
                    &&& final(lent)@.strongest_attempted->0.rank() >= given.security.rank()
                    &&& before@.strongest_attempted is Some
                        ==> final(lent)@.strongest_attempted->0.rank()
                        >= before@.strongest_attempted->0.rank()
                }
                &&& next is Err ==> {
                    &&& before@.strongest_attempted is Some
                    &&& waiting[0].security.rank() < before@.strongest_attempted->0.rank()
                    &&& !before@.policy.allow_security_downgrade
                    &&& final(lent)@.strongest_attempted == before@.strongest_attempted
                }
                &&& waiting.len() > 0 ==> {
                    &&& left.len() == waiting.len() - 1
                    &&& forall|i: int| 0 <= i < left.len() ==> #[trigger] left[i] == waiting[i + 1]
                }
                &&& final(lent)@.failures == before@.failures
                &&& final(lent)@.policy == before@.policy
            },
        forall|lent: &mut FallbackPlan, done: ()|
            *lent == before && #[trigger] call_ensures(
                FallbackPlan::record_failure,
                (lent, candidate, failure),
                done,
            ) ==> {
                let failures = final(lent)@.failures;
                &&& failures.len() == before@.failures.len() + 1
                &&& failures.last() == (TransportAttempt { candidate, failure })
                &&& failures.drop_last() =~= before@.failures
                &&& final(lent)@.pending == before@.pending
                &&& final(lent)@.strongest_attempted == before@.strongest_attempted
                &&& final(lent)@.policy == before@.policy
            },
{
}

/// A plan holds every candidate that is secure enough, and no other, in the order of their
/// priorities; there is none where no candidate is.
pub proof fn plans_hold_what_is_secure_enough(
    candidates: Vec<TransportCandidate>,
    policy: FallbackPolicy,
    candidate: TransportCandidate,
)
    ensures
        forall|plan: Result<FallbackPlan, SelectionError>| #[trigger]
            call_ensures(FallbackPlan::new, (candidates, policy), plan) ==> {
                let fits = candidates@.contains(candidate) && candidate.security.rank()
                    >= policy.minimum_security.rank();
                &&& plan matches Ok(p) ==> {
                    &&& fits <==> p@.pending.contains(candidate)
                    &&& forall|i: int, j: int|
                        0 <= i < j < p@.pending.len() ==> (#[trigger] p@.pending[i]).priority <= (
                        #[trigger] p@.pending[j]).priority
                    &&& p@.failures.len() == 0
                    &&& p@.strongest_attempted is None
                    &&& p@.policy == policy
                }
                &&& plan is Err ==> !fits
            },
{
    let kept = candidates@.filter(secure_enough(policy));
    candidates_are_tried_by_priority(kept);
    let row = by_priority(kept);
    kept.to_multiset_ensures();
    row.to_multiset_ensures();
    assert(kept.contains(candidate) <==> row.contains(candidate)) by {
        assert(kept.contains(candidate) <==> kept.to_multiset().count(candidate) > 0);
        assert(row.contains(candidate) <==> row.to_multiset().count(candidate) > 0);
    }
    candidates@.filter_lemma(secure_enough(policy));
    if candidates@.contains(candidate) && candidate.security.rank()
        >= policy.minimum_security.rank() {
        let i = candidates@.index_of(candidate);
        assert(secure_enough(policy)(candidates@[i]));
        assert(kept.contains(candidates@[i]));
    }
    if kept.contains(candidate) {
        let i = kept.index_of(candidate);
        assert(secure_enough(policy)(kept[i]));
        candidates@.lemma_filter_contains_rev(secure_enough(policy), candidate);
    }
}

} // verus!
