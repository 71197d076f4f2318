use mutsuki_link::liveness::ConnectionQuality;
use mutsuki_link::selection::{
    AttemptFailure, FallbackPlan, FallbackPolicy, SecurityLevel, SelectionError,
    TransportCandidate, TransportKind,
};
use mutsuki_link::transport::EndpointAddress;

fn candidate(
    kind: TransportKind,
    priority: u16,
    security: SecurityLevel,
) -> TransportCandidate {
    TransportCandidate {
        kind,
        endpoint: EndpointAddress {
            scheme: "test".to_owned(),
            address: format!("{priority}"),
        },
        priority,
        security,
    }
}

#[test]
fn priority_is_explicit_and_failures_are_retained() {
    let local = candidate(TransportKind::Local, 0, SecurityLevel::Authenticated);
    let quic = candidate(
        TransportKind::Quic,
        10,
        SecurityLevel::AuthenticatedEncrypted,
    );
    let mut plan = FallbackPlan::new(
        vec![quic.clone(), local.clone()],
        FallbackPolicy {
            minimum_security: SecurityLevel::Authenticated,
            allow_security_downgrade: true,
        },
    )
    .unwrap();
    assert_eq!(plan.next_candidate().unwrap(), Some(local.clone()));
    plan.record_failure(local, AttemptFailure::Unreachable);
    assert_eq!(plan.next_candidate().unwrap(), Some(quic.clone()));
    let report = plan.select(quic, ConnectionQuality::default());
    assert_eq!(report.failures.len(), 1);
}

#[test]
fn encrypted_failure_cannot_silently_fall_back_to_plaintext() {
    let quic = candidate(
        TransportKind::Quic,
        0,
        SecurityLevel::AuthenticatedEncrypted,
    );
    let tcp = candidate(TransportKind::Tcp, 1, SecurityLevel::Plaintext);
    let mut plan = FallbackPlan::new(
        vec![quic.clone(), tcp],
        FallbackPolicy {
            minimum_security: SecurityLevel::Plaintext,
            allow_security_downgrade: false,
        },
    )
    .unwrap();
    assert_eq!(plan.next_candidate().unwrap(), Some(quic.clone()));
    plan.record_failure(quic, AttemptFailure::AuthenticationFailed);
    assert!(matches!(
        plan.next_candidate(),
        Err(SelectionError::SecurityDowngrade { .. })
    ));
}

#[test]
fn weak_candidates_are_left_out_and_failures_are_kept_to_the_end() {
    let policy = FallbackPolicy {
        minimum_security: SecurityLevel::Authenticated,
        allow_security_downgrade: false,
    };
    assert_eq!(
        FallbackPlan::new(
            vec![candidate(TransportKind::Tcp, 0, SecurityLevel::Plaintext)],
            policy
        )
        .unwrap_err(),
        SelectionError::NoCandidates
    );
    let local = candidate(TransportKind::Local, 0, SecurityLevel::Authenticated);
    let mut plan = FallbackPlan::new(vec![local.clone()], policy).unwrap();
    assert_eq!(plan.next_candidate().unwrap(), Some(local.clone()));
    plan.record_failure(local, AttemptFailure::TimedOut);
    assert_eq!(plan.next_candidate().unwrap(), None);
    assert!(matches!(plan.exhausted(), SelectionError::Exhausted(failures) if failures.len() == 1));
}

#[test]
fn candidates_of_one_priority_keep_their_order() {
    let first = candidate(TransportKind::Tcp, 5, SecurityLevel::Authenticated);
    let second = candidate(TransportKind::Quic, 5, SecurityLevel::Authenticated);
    let third = candidate(TransportKind::Local, 5, SecurityLevel::Authenticated);
    let ahead = candidate(TransportKind::Quic, 1, SecurityLevel::Authenticated);
    let mut plan = FallbackPlan::new(
        vec![first.clone(), second.clone(), ahead.clone(), third.clone()],
        FallbackPolicy {
            allow_security_downgrade: false,
            minimum_security: SecurityLevel::Authenticated,
        },
    )
    .unwrap();
    for expected in [ahead, first, second, third] {
        assert_eq!(plan.next_candidate().unwrap(), Some(expected));
    }
    assert_eq!(plan.next_candidate().unwrap(), None);
}
