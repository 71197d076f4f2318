//! When a lost connection is tried again.

use vstd::prelude::*;
use crate::arith::{at_most, saturating_product};
use crate::liveness::{later_by, since};
use crate::transport::CancellationToken;

verus! {

#[derive(Clone, Copy, Debug, Eq, PartialEq, Structural)]
pub enum ReconnectFailure {
    TemporarilyUnreachable,
    NetworkChanged,
    SleepWake,
    TransportClosed,
    AuthenticationFailed,
    IdentityExpired,
    PairingRevoked,
    ProtocolIncompatible,
    ResourceExhausted,
    Cancelled,
}

impl ReconnectFailure {
    /// Whether another attempt would fail as well.
    #[verifier::allow_in_spec]
    pub fn is_permanent(self) -> bool
        returns
            (match self {
                ReconnectFailure::AuthenticationFailed
                | ReconnectFailure::IdentityExpired
                | ReconnectFailure::PairingRevoked
                | ReconnectFailure::ProtocolIncompatible
                | ReconnectFailure::Cancelled => true,
                _ => false,
            }),
    {
        match self {
            ReconnectFailure::AuthenticationFailed
            | ReconnectFailure::IdentityExpired
            | ReconnectFailure::PairingRevoked
            | ReconnectFailure::ProtocolIncompatible
            | ReconnectFailure::Cancelled => true,
            _ => false,
        }
    }
}

#[derive(Clone, Copy, Debug, Eq, PartialEq, Structural)]
pub struct RetryLimit {
    pub max_attempts: u32,
    pub max_elapsed_ms: u64,
}

impl RetryLimit {
    #[verifier::allow_in_spec]
    pub fn is_valid(self) -> bool
        returns
            self.max_attempts > 0 && self.max_elapsed_ms > 0,
    {
        self.max_attempts > 0 && self.max_elapsed_ms > 0
    }
}

/// Delays that grow. The multiplier is in thousandths; so is the jitter, which goes
/// both ways and is at most the whole delay.
#[derive(Clone, Copy, Debug, Eq, PartialEq, Structural)]
pub struct ExponentialBackoff {
    pub initial_delay_ms: u64,
    pub maximum_delay_ms: u64,
    pub multiplier_per_thousand: u32,
    pub jitter_per_thousand: u16,
    pub limit: RetryLimit,
}

impl ExponentialBackoff {
    #[verifier::allow_in_spec]
    pub fn is_valid(self) -> bool
        returns
            self.initial_delay_ms > 0 && self.maximum_delay_ms >= self.initial_delay_ms
                && self.multiplier_per_thousand >= 1_000 && self.jitter_per_thousand <= 1_000
                && self.limit.is_valid(),
    {
        self.initial_delay_ms > 0 && self.maximum_delay_ms >= self.initial_delay_ms
            && self.multiplier_per_thousand >= 1_000 && self.jitter_per_thousand <= 1_000
            && self.limit.is_valid()
    }
}

#[derive(Clone, Copy, Debug, Eq, PartialEq, Structural)]
pub enum ReconnectPolicy {
    Disabled,
    Immediate(RetryLimit),
    ExponentialBackoff(ExponentialBackoff),
    ApplicationControlled,
}

impl ReconnectPolicy {
    /// Whether the limits of the policy are limits.
    pub open spec fn valid(self) -> bool {
        match self {
            ReconnectPolicy::Disabled | ReconnectPolicy::ApplicationControlled => true,
            ReconnectPolicy::Immediate(limit) => limit.is_valid(),
            ReconnectPolicy::ExponentialBackoff(config) => config.is_valid(),
        }
    }
}

#[derive(Clone, Copy, Debug, Eq, PartialEq, Structural)]
pub enum ReconnectStopReason {
    Disabled,
    PermanentFailure(ReconnectFailure),
    AttemptsExhausted,
    DeadlineExceeded,
    Cancelled,
}

#[derive(Clone, Copy, Debug, Eq, PartialEq, Structural)]
pub enum ReconnectAction {
    AttemptAt { unix_ms: u64, attempt: u32 },
    AwaitApplication,
    Stop(ReconnectStopReason),
}

/// Decides when a lost connection is tried again.
#[derive(Debug)]
pub struct ReconnectController {
    policy: ReconnectPolicy,
    started_unix_ms: Option<u64>,
    attempts: u32,
    cancellation: CancellationToken,
    paused: bool,
}

/// What a controller has seen.
#[derive(Clone, Copy, Debug, Eq, PartialEq, Structural)]
pub struct ReconnectView {
    pub policy: ReconnectPolicy,
    pub started_unix_ms: Option<u64>,
    pub attempts: u32,
    pub paused: bool,
}

impl View for ReconnectController {
    type V = ReconnectView;

    closed spec fn view(&self) -> ReconnectView {
        ReconnectView {
            policy: self.policy,
            started_unix_ms: self.started_unix_ms,
            attempts: self.attempts,
            paused: self.paused,
        }
    }
}

/// The delay after some attempts, without jitter.
pub open spec fn base_delay(config: ExponentialBackoff, attempts: nat) -> u64
    decreases attempts,
{
    if attempts == 0 {
        config.initial_delay_ms
    } else {
        let grown = at_most(
            base_delay(config, (attempts - 1) as nat) * config.multiplier_per_thousand,
            u64::MAX as int,
        ) / 1_000;
        at_most(grown, config.maximum_delay_ms as int) as u64
    }
}

/// A delay moved by jitter: the sample runs from the earliest to the latest moment.
pub open spec fn jittered(base: u64, jitter_per_thousand: u16, sample: u16) -> u64 {
    if jitter_per_thousand == 0 {
        base
    } else {
        let top = u64::MAX as int;
        let span = at_most(base * jitter_per_thousand, top) / 1_000;
        let offset = at_most(at_most(span * sample, top) * 2, top) / 1_000;
        let earliest = if base >= span {
            base - span
        } else {
            0
        };
        at_most(earliest + offset, top) as u64
    }
}

impl ReconnectView {
    /// What a limit makes of an attempt after a delay.
    pub open spec fn scheduled(self, now_unix_ms: u64, started: u64, delay_ms: u64, limit: RetryLimit) -> (
        ReconnectView,
        ReconnectAction,
    ) {
        let elapsed = since(started, now_unix_ms);
        if self.attempts >= limit.max_attempts {
            (self, ReconnectAction::Stop(ReconnectStopReason::AttemptsExhausted))
        } else if elapsed >= limit.max_elapsed_ms || at_most(elapsed + delay_ms, u64::MAX as int)
            > limit.max_elapsed_ms {
            (self, ReconnectAction::Stop(ReconnectStopReason::DeadlineExceeded))
        } else {
            let attempt = (self.attempts + 1) as u32;
            (
                ReconnectView { attempts: attempt, ..self },
                ReconnectAction::AttemptAt { unix_ms: later_by(now_unix_ms, delay_ms), attempt },
            )
        }
    }

    /// What a failure makes of the controller, and what is to be done.
    pub open spec fn failed(
        self,
        cancelled: bool,
        failure: ReconnectFailure,
        now_unix_ms: u64,
        jitter_sample: u16,
    ) -> (ReconnectView, ReconnectAction) {
        let started = match self.started_unix_ms {
            Some(at) => at,
            None => now_unix_ms,
        };
        let running = ReconnectView { started_unix_ms: Some(started), ..self };
        if cancelled || failure == ReconnectFailure::Cancelled {
            (self, ReconnectAction::Stop(ReconnectStopReason::Cancelled))
        } else if failure.is_permanent() {
            (self, ReconnectAction::Stop(ReconnectStopReason::PermanentFailure(failure)))
        } else if self.paused {
            (self, ReconnectAction::AwaitApplication)
        } else {
            match self.policy {
                ReconnectPolicy::Disabled => (
                    running,
                    ReconnectAction::Stop(ReconnectStopReason::Disabled),
                ),
                ReconnectPolicy::ApplicationControlled => (running, ReconnectAction::AwaitApplication),
                ReconnectPolicy::Immediate(limit) => running.scheduled(now_unix_ms, started, 0, limit),
                ReconnectPolicy::ExponentialBackoff(config) => running.scheduled(
                    now_unix_ms,
                    started,
                    jittered(
                        base_delay(config, self.attempts as nat),
                        config.jitter_per_thousand,
                        if jitter_sample > 1_000 {
                            1_000
                        } else {
                            jitter_sample
                        },
                    ),
                    config.limit,
                ),
            }
        }
    }
}

impl ReconnectController {
    /// What the controller is cancelled by.
    pub closed spec fn token(&self) -> CancellationToken {
        self.cancellation
    }

    pub fn new(policy: ReconnectPolicy, cancellation: CancellationToken) -> (controller: Result<
        Self,
        &'static str,
    >)
        ensures
            match controller {
                Ok(c) => policy.valid() && c.token() == cancellation && c@ == (ReconnectView {
                    policy,
                    started_unix_ms: None,
                    attempts: 0,
                    paused: false,
                }),
                Err(message) => !policy.valid() && message
                    == "reconnect policy limits must be positive and bounded",
            },
    {
        let valid = match policy {
            ReconnectPolicy::Disabled | ReconnectPolicy::ApplicationControlled => true,
            ReconnectPolicy::Immediate(limit) => limit.is_valid(),
            ReconnectPolicy::ExponentialBackoff(config) => config.is_valid(),
        };
        if !valid {
            return Err("reconnect policy limits must be positive and bounded");
        }
        Ok(
            ReconnectController {
                policy,
                started_unix_ms: None,
                attempts: 0,
                cancellation,
                paused: false,
            },
        )
    }

    pub fn pause(&mut self)
        ensures
            final(self)@ == (ReconnectView { paused: true, ..old(self)@ }),
            final(self).token() == old(self).token(),
    {
        self.paused = true;
    }

    pub fn resume(&mut self)
        ensures
            final(self)@ == (ReconnectView { paused: false, ..old(self)@ }),
            final(self).token() == old(self).token(),
    {
        self.paused = false;
    }

    /// Begins anew, as after a connection that worked.
    pub fn reset(&mut self)
        ensures
            final(self)@ == (ReconnectView { started_unix_ms: None, attempts: 0, ..old(self)@ }),
            final(self).token() == old(self).token(),
    {
        self.started_unix_ms = None;
        self.attempts = 0;
    }

    /// Decides after a failure. The jitter sample is entropy of the caller, from 0 to
    /// 1000. Whether the controller was cancelled is what its token says when it is asked.
    pub fn after_failure(&mut self, failure: ReconnectFailure, now_unix_ms: u64, jitter_sample: u16) -> (
        action: ReconnectAction)
        ensures
            final(self).token() == old(self).token(),
            exists|cancelled: bool|
                {
                    &&& #[trigger] call_ensures(
                        CancellationToken::is_cancelled,
                        (&old(self).token(),),
                        cancelled,
                    )
                    &&& (final(self)@, action) == old(self)@.failed(
                        cancelled,
                        failure,
                        now_unix_ms,
                        jitter_sample,
                    )
                },
    {
        let cancelled = self.cancellation.is_cancelled();
        assert(call_ensures(
            CancellationToken::is_cancelled,
            (&old(self).token(),),
            cancelled,
        ));
        self.decide(cancelled, failure, now_unix_ms, jitter_sample)
    }

    /// Decides after a failure, where it is known whether the controller was
    /// cancelled.
    pub fn decide(
        &mut self,
        cancelled: bool,
        failure: ReconnectFailure,
        now_unix_ms: u64,
        jitter_sample: u16,
    ) -> (action: ReconnectAction)
        ensures
            (final(self)@, action) == old(self)@.failed(cancelled, failure, now_unix_ms, jitter_sample),
            final(self).token() == old(self).token(),
    {
        if cancelled || failure == ReconnectFailure::Cancelled {
            return ReconnectAction::Stop(ReconnectStopReason::Cancelled);
        }
        if failure.is_permanent() {
            return ReconnectAction::Stop(ReconnectStopReason::PermanentFailure(failure));
        }
        if self.paused {
            return ReconnectAction::AwaitApplication;
        }
        let started: u64 = match self.started_unix_ms {
            Some(at) => at,
            None => now_unix_ms,
        };
        self.started_unix_ms = Some(started);
        match self.policy {
            ReconnectPolicy::Disabled => ReconnectAction::Stop(ReconnectStopReason::Disabled),
            ReconnectPolicy::ApplicationControlled => ReconnectAction::AwaitApplication,
            ReconnectPolicy::Immediate(limit) => self.schedule(now_unix_ms, started, 0, limit),
            ReconnectPolicy::ExponentialBackoff(config) => {
                let base: u64 = exponential_delay(config, self.attempts);
                let sample: u16 = if jitter_sample > 1_000 {
                    1_000
                } else {
                    jitter_sample
                };
                let delay: u64 = jittered_delay(base, config.jitter_per_thousand, sample);
                self.schedule(now_unix_ms, started, delay, config.limit)
            },
        }
    }

    fn schedule(&mut self, now_unix_ms: u64, started_unix_ms: u64, delay_ms: u64, limit: RetryLimit) -> (
        action: ReconnectAction)
        ensures
            (final(self)@, action) == old(self)@.scheduled(
                now_unix_ms,
                started_unix_ms,
                delay_ms,
                limit,
            ),
            final(self).token() == old(self).token(),
    {
        if self.attempts >= limit.max_attempts {
            return ReconnectAction::Stop(ReconnectStopReason::AttemptsExhausted);
        }
        let elapsed: u64 = now_unix_ms.saturating_sub(started_unix_ms);
        if elapsed >= limit.max_elapsed_ms || elapsed.saturating_add(delay_ms) > limit.max_elapsed_ms {
            return ReconnectAction::Stop(ReconnectStopReason::DeadlineExceeded);
        }
        self.attempts = self.attempts.saturating_add(1);
        ReconnectAction::AttemptAt {
            unix_ms: now_unix_ms.saturating_add(delay_ms),
            attempt: self.attempts,
        }
    }
}

fn exponential_delay(config: ExponentialBackoff, attempt: u32) -> (delay: u64)
    ensures
        delay == base_delay(config, attempt as nat),
{
    let mut delay: u64 = config.initial_delay_ms;
    let mut i: u32 = 0;
    while i < attempt
        invariant
            i <= attempt,
            delay == base_delay(config, i as nat),
        decreases attempt - i,
    {
        let grown: u64 = saturating_product(delay, config.multiplier_per_thousand as u64) / 1_000;
        delay = if grown > config.maximum_delay_ms {
            config.maximum_delay_ms
        } else {
            grown
        };
        i = i + 1;
    }
    delay
}

fn jittered_delay(base: u64, jitter: u16, sample: u16) -> (delay: u64)
    ensures
        delay == jittered(base, jitter, sample),
{
    if jitter == 0 {
        return base;
    }
    let span: u64 = saturating_product(base, jitter as u64) / 1_000;
    let offset: u64 = saturating_product(saturating_product(span, sample as u64), 2) / 1_000;
    base.saturating_sub(span).saturating_add(offset)
}

/// However many failures come, no more attempts are made than the limit allows.
pub proof fn attempts_are_bounded(
    controller: ReconnectView,
    limit: RetryLimit,
    cancelled: bool,
    failure: ReconnectFailure,
    now_unix_ms: u64,
    jitter_sample: u16,
)
    requires
        controller.policy == ReconnectPolicy::Immediate(limit) || (controller.policy matches
            ReconnectPolicy::ExponentialBackoff(config) && config.limit == limit),
        controller.attempts <= limit.max_attempts,
    ensures
        ({
            let (after, action) = controller.failed(cancelled, failure, now_unix_ms, jitter_sample);
            &&& after.attempts <= limit.max_attempts
            &&& action is AttemptAt ==> after.attempts == controller.attempts + 1
            &&& !(action is AttemptAt) ==> after.attempts == controller.attempts
        }),
{
}

/// A failure that would come again, or a cancellation, ends the attempts.
pub proof fn permanent_failures_stop(
    controller: ReconnectView,
    cancelled: bool,
    failure: ReconnectFailure,
    now_unix_ms: u64,
    jitter_sample: u16,
)
    requires
        cancelled || failure.is_permanent(),
    ensures
        controller.failed(cancelled, failure, now_unix_ms, jitter_sample).1 is Stop,
{
}

/// The delay without jitter never exceeds its maximum, and jitter at most doubles it.
pub proof fn delays_are_bounded(config: ExponentialBackoff, attempts: nat, sample: u16)
    requires
        config.is_valid(),
        sample <= 1_000,
    ensures
        base_delay(config, attempts) <= config.maximum_delay_ms,
        jittered(base_delay(config, attempts), config.jitter_per_thousand, sample) <= 2 * base_delay(
            config,
            attempts,
        ),
    decreases attempts,
{
    if attempts > 0 {
        delays_are_bounded(config, (attempts - 1) as nat, sample);
    }
    let base = base_delay(config, attempts) as int;
    let jitter = config.jitter_per_thousand as int;
    let span = at_most(base * jitter, u64::MAX as int) / 1_000;
    assert(base * jitter <= base * 1_000) by (nonlinear_arith)
        requires
            0 <= base,
            jitter <= 1_000,
    ;
    assert(0 <= base * jitter) by (nonlinear_arith)
        requires
            0 <= base,
            0 <= jitter,
    ;
    assert(0 <= span <= base);
    assert(span * sample <= span * 1_000) by (nonlinear_arith)
        requires
            0 <= span,
            sample <= 1_000,
    ;
}

/// A failure that may pass is answered by an attempt at once, as long as the attempts and
/// the time that the policy allows for are not used up; the time counts from the first
/// failure.
pub proof fn passing_failures_are_retried_at_once(
    controller: ReconnectView,
    limit: RetryLimit,
    failure: ReconnectFailure,
    now_unix_ms: u64,
    jitter_sample: u16,
)
    requires
        controller.policy == ReconnectPolicy::Immediate(limit),
        !controller.paused,
        failure == ReconnectFailure::TemporarilyUnreachable || failure == ReconnectFailure::NetworkChanged
            || failure == ReconnectFailure::SleepWake || failure == ReconnectFailure::TransportClosed
            || failure == ReconnectFailure::ResourceExhausted,
    ensures
        ({
            let (after, action) = controller.failed(false, failure, now_unix_ms, jitter_sample);
            let started = match controller.started_unix_ms {
                Some(at) => at,
                None => now_unix_ms,
            };
            &&& after.started_unix_ms == Some(started)
            &&& controller.attempts >= limit.max_attempts ==> action == ReconnectAction::Stop(
                ReconnectStopReason::AttemptsExhausted,
            )
            &&& controller.attempts < limit.max_attempts && limit.max_elapsed_ms > 0 && now_unix_ms
                - started < limit.max_elapsed_ms ==> action == ReconnectAction::AttemptAt {
                unix_ms: now_unix_ms,
                attempt: (controller.attempts + 1) as u32,
            }
            &&& controller.attempts < limit.max_attempts && now_unix_ms - started
                >= limit.max_elapsed_ms && limit.max_elapsed_ms > 0 ==> action == ReconnectAction::Stop(
                ReconnectStopReason::DeadlineExceeded,
            )
        }),
{
}

/// A failure that may pass is answered by an attempt after a delay, if the delay ends
/// within the time that the policy allows for.
pub proof fn passing_failures_are_retried_after_a_delay(
    controller: ReconnectView,
    config: ExponentialBackoff,
    failure: ReconnectFailure,
    now_unix_ms: u64,
    jitter_sample: u16,
    delay_ms: u64,
)
    requires
        controller.policy == ReconnectPolicy::ExponentialBackoff(config),
        !controller.paused,
        failure == ReconnectFailure::TemporarilyUnreachable || failure == ReconnectFailure::NetworkChanged
            || failure == ReconnectFailure::SleepWake || failure == ReconnectFailure::TransportClosed
            || failure == ReconnectFailure::ResourceExhausted,
        controller.attempts < config.limit.max_attempts,
        jitter_sample <= 1_000,
        delay_ms == jittered(
            base_delay(config, controller.attempts as nat),
            config.jitter_per_thousand,
            jitter_sample,
        ),
        now_unix_ms + delay_ms <= u64::MAX,
        controller.started_unix_ms matches Some(started) ==> started <= now_unix_ms,
    ensures
        ({
            let (after, action) = controller.failed(false, failure, now_unix_ms, jitter_sample);
            let elapsed = match controller.started_unix_ms {
                Some(started) => now_unix_ms - started,
                None => 0,
            };
            &&& elapsed < config.limit.max_elapsed_ms && elapsed + delay_ms <= config.limit.max_elapsed_ms
                ==> action == ReconnectAction::AttemptAt {
                unix_ms: (now_unix_ms + delay_ms) as u64,
                attempt: (controller.attempts + 1) as u32,
            } && after.attempts == controller.attempts + 1
            &&& elapsed >= config.limit.max_elapsed_ms || elapsed + delay_ms
                > config.limit.max_elapsed_ms ==> action == ReconnectAction::Stop(
                ReconnectStopReason::DeadlineExceeded,
            ) && after.attempts == controller.attempts
        }),
{
}

/// What is lasting is told as such, who is cancelled stops, and a controller that is paused
/// or leaves the decision to the application waits for it.
pub proof fn other_failures_are_not_retried(
    controller: ReconnectView,
    failure: ReconnectFailure,
    now_unix_ms: u64,
    jitter_sample: u16,
)
    ensures
        controller.failed(true, failure, now_unix_ms, jitter_sample) == (
            controller,
            ReconnectAction::Stop(ReconnectStopReason::Cancelled),
        ),
        failure == ReconnectFailure::Cancelled ==> controller.failed(
            false,
            failure,
            now_unix_ms,
            jitter_sample,
        ) == (controller, ReconnectAction::Stop(ReconnectStopReason::Cancelled)),
        failure == ReconnectFailure::AuthenticationFailed || failure == ReconnectFailure::IdentityExpired
            || failure == ReconnectFailure::PairingRevoked || failure
            == ReconnectFailure::ProtocolIncompatible ==> controller.failed(
            false,
            failure,
            now_unix_ms,
            jitter_sample,
        ) == (controller, ReconnectAction::Stop(ReconnectStopReason::PermanentFailure(failure))),
        failure == ReconnectFailure::TemporarilyUnreachable || failure == ReconnectFailure::NetworkChanged
            || failure == ReconnectFailure::SleepWake || failure == ReconnectFailure::TransportClosed
            || failure == ReconnectFailure::ResourceExhausted ==> {
            let (after, action) = controller.failed(false, failure, now_unix_ms, jitter_sample);
            &&& controller.paused ==> (after, action) == (controller, ReconnectAction::AwaitApplication)
            &&& !controller.paused && controller.policy == ReconnectPolicy::ApplicationControlled
                ==> action == ReconnectAction::AwaitApplication
            &&& !controller.paused && controller.policy == ReconnectPolicy::Disabled ==> action
                == ReconnectAction::Stop(ReconnectStopReason::Disabled)
            &&& after.policy == controller.policy
            &&& after.paused == controller.paused
        },
{
}

/// The first delay is the initial one; each that follows is the one before by the
/// multiplier, in thousandths and rounded down, up to the maximum.
pub proof fn delays_grow_by_the_multiplier(config: ExponentialBackoff, attempts: nat)
    requires
        config.initial_delay_ms <= config.maximum_delay_ms,
        config.multiplier_per_thousand >= 1_000,
        base_delay(config, attempts) * config.multiplier_per_thousand <= u64::MAX,
    ensures
        base_delay(config, 0) == config.initial_delay_ms,
        ({
            let now = base_delay(config, attempts) as int;
            let next = base_delay(config, attempts + 1) as int;
            &&& next <= config.maximum_delay_ms
            &&& 1_000 * next <= now * config.multiplier_per_thousand
            &&& next < config.maximum_delay_ms ==> now * config.multiplier_per_thousand < 1_000 * (next
                + 1)
            &&& now <= next
        }),
{
    let now = base_delay(config, attempts) as int;
    lemma_delay_bounded(config, attempts);
    assert(now * config.multiplier_per_thousand >= now * 1_000) by (nonlinear_arith)
        requires
            config.multiplier_per_thousand >= 1_000,
            now >= 0,
    ;
}

proof fn lemma_delay_bounded(config: ExponentialBackoff, attempts: nat)
    requires
        config.initial_delay_ms <= config.maximum_delay_ms,
    ensures
        base_delay(config, attempts) <= config.maximum_delay_ms,
{
}

/// Jitter moves a delay by at most its share, down for the least sample, up for the
/// greatest, and not at all for the one in the middle; a greater sample never makes a delay
/// shorter.
pub proof fn jitter_keeps_to_its_share(base: u64, jitter: u16, sample: u16, greater: u16)
    requires
        base * 2_000 <= u64::MAX,
        jitter <= 1_000,
        sample <= greater <= 1_000,
    ensures
        1_000 * (base - jittered(base, jitter, sample)) <= base * jitter,
        1_000 * (jittered(base, jitter, sample) - base) <= base * jitter,
        jittered(base, jitter, sample) <= jittered(base, jitter, greater),
        1_000 * (base - jittered(base, jitter, 0)) <= base * jitter < 1_000 * (base - jittered(
            base,
            jitter,
            0,
        ) + 1),
        jittered(base, jitter, 500) == base,
        1_000 * (jittered(base, jitter, 1_000) - base) <= base * jitter < 1_000 * (jittered(
            base,
            jitter,
            1_000,
        ) - base + 1),
{
    let full = base * jitter;
    assert(0 <= full <= base * 1_000) by (nonlinear_arith)
        requires
            full == base * jitter,
            jitter <= 1_000,
            base >= 0,
            jitter >= 0,
    ;
    if jitter == 0 {
        assert(base * jitter == 0) by (nonlinear_arith)
            requires
                jitter == 0,
        ;
    }
    let span = full / 1_000;
    assert(span <= base);
    assert(0 <= span * sample <= span * greater <= span * 1_000) by (nonlinear_arith)
        requires
            0 <= sample <= greater <= 1_000,
            0 <= span,
    ;
    assert(span * 0 == 0) by (nonlinear_arith);
}

/// While it is paused, a controller leaves failures that could pass to the application and
/// counts nothing; resumed, it counts on where it was. A reset forgets the attempts.
pub proof fn pauses_and_resets_keep_the_policy(before: ReconnectController)
    ensures
        forall|lent: &mut ReconnectController, done: ()|
            *lent == before && #[trigger] call_ensures(ReconnectController::pause, (lent,), done) ==> {
                &&& final(lent)@.paused
                &&& final(lent)@.attempts == before@.attempts
                &&& final(lent)@.started_unix_ms == before@.started_unix_ms
                &&& final(lent)@.policy == before@.policy
            },
        forall|lent: &mut ReconnectController, done: ()|
            *lent == before && #[trigger] call_ensures(ReconnectController::resume, (lent,), done) ==> {
                &&& !final(lent)@.paused
                &&& final(lent)@.attempts == before@.attempts
                &&& final(lent)@.started_unix_ms == before@.started_unix_ms
                &&& final(lent)@.policy == before@.policy
            },
        forall|lent: &mut ReconnectController, done: ()|
            *lent == before && #[trigger] call_ensures(ReconnectController::reset, (lent,), done) ==> {
                &&& final(lent)@.paused == before@.paused
                &&& final(lent)@.attempts == 0
                &&& final(lent)@.started_unix_ms is None
                &&& final(lent)@.policy == before@.policy
            },
{
}

} // verus!
