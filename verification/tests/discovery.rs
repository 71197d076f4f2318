use mutsuki_link::discovery::{
    AttemptRateLimiter, DiscoveredEndpoint, DiscoveryErrorKind, DiscoveryEvent, DiscoveryId,
    DiscoveryProvider, DiscoveryRequest, ManualDiscovery, RateLimit,
};
use mutsuki_link::mdns::{advertised_properties, id_from_name, MdnsEvent, MdnsState, ResolvedService};
use mutsuki_link::selection::SecurityLevel;
use mutsuki_link::transport::EndpointAddress;

/// Some moment, in nanoseconds.
const NOW: u64 = 1_000_000_000_000;

fn secs(n: u64) -> u64 {
    n * 1_000_000_000
}

fn millis(n: u64) -> u64 {
    n * 1_000_000
}

#[test]
fn manual_address_is_untrusted_bounded_candidate() {
    let now = NOW;
    let mut provider = ManualDiscovery::new(RateLimit {
        attempts: 1,
        window: secs(60),
        max_sources: 2,
        max_candidates: 2,
    })
    .unwrap();
    provider
        .start(
            DiscoveryRequest {
                service_type: "_mutsuki-link._tcp.local.".to_owned(),
                max_results_per_poll: 4,
            },
            now,
        )
        .unwrap();
    let endpoint = DiscoveredEndpoint {
        address: EndpointAddress {
            scheme: "tcp".to_owned(),
            address: "127.0.0.1:9000".to_owned(),
        },
        priority: 0,
        advertised_security: SecurityLevel::Plaintext,
    };
    provider
        .add_address(
            "local-user",
            DiscoveryId::from_bytes([1; 16]),
            endpoint.clone(),
            secs(30),
            now,
        )
        .unwrap();
    assert_eq!(
        provider
            .add_address(
                "local-user",
                DiscoveryId::from_bytes([2; 16]),
                endpoint,
                secs(30),
                now,
            )
            .unwrap_err()
            .kind,
        DiscoveryErrorKind::RateLimited
    );
    let events = provider.poll(now).unwrap();
    assert!(
        matches!(&events[0], DiscoveryEvent::Found(peer) if peer.discovery_id == DiscoveryId::from_bytes([1; 16]))
    );
    assert_eq!(
        provider.poll(now + secs(31)).unwrap(),
        vec![DiscoveryEvent::Expired(DiscoveryId::from_bytes([1; 16]))]
    );
}

#[test]
fn discovery_storm_is_bounded_by_source_candidate_and_pending_limits() {
    let now = NOW;
    let mut limiter = AttemptRateLimiter::new(RateLimit {
        attempts: 1,
        window: millis(1),
        max_sources: 2,
        max_candidates: 1,
    })
    .unwrap();
    assert!(limiter.allow("one", now));
    assert!(limiter.allow("two", now));
    for index in 0..10_000 {
        assert!(!limiter.allow(&format!("attacker-{index}"), now));
    }
    assert!(limiter.allow("after-expiry", now + millis(1)));

    let mut provider = ManualDiscovery::new(RateLimit {
        attempts: 1,
        window: millis(1),
        max_sources: 1,
        max_candidates: 1,
    })
    .unwrap();
    provider
        .start(
            DiscoveryRequest {
                service_type: "_bounded._tcp.local.".to_owned(),
                max_results_per_poll: 1,
            },
            now,
        )
        .unwrap();
    let endpoint = DiscoveredEndpoint {
        address: EndpointAddress {
            scheme: "tcp".to_owned(),
            address: "127.0.0.1:1".to_owned(),
        },
        priority: 0,
        advertised_security: SecurityLevel::Plaintext,
    };
    for index in 0..1_000 {
        provider
            .add_address(
                "same-source",
                DiscoveryId::from_bytes([1; 16]),
                endpoint.clone(),
                secs(60),
                now + millis(index),
            )
            .unwrap();
        assert_eq!(provider.known_candidates().0, 1);
        assert_eq!(provider.known_candidates().1, 1);
    }
    assert_eq!(
        provider
            .add_address(
                "same-source",
                DiscoveryId::from_bytes([2; 16]),
                endpoint,
                secs(60),
                now + secs(2),
            )
            .unwrap_err()
            .kind,
        DiscoveryErrorKind::RateLimited
    );
}

#[test]
fn requests_and_limits_are_checked() {
    let limit = RateLimit {
        attempts: 1,
        window: secs(1),
        max_sources: 1,
        max_candidates: 1,
    };
    assert_eq!(
        ManualDiscovery::new(RateLimit {
            window: 0,
            ..limit
        })
        .unwrap_err()
        .kind,
        DiscoveryErrorKind::InvalidInput
    );
    let mut provider = ManualDiscovery::new(limit).unwrap();
    assert_eq!(
        provider.poll(NOW).unwrap_err().kind,
        DiscoveryErrorKind::NotRunning
    );
    assert_eq!(
        provider
            .start(
                DiscoveryRequest {
                    service_type: String::new(),
                    max_results_per_poll: 1,
                },
                NOW
            )
            .unwrap_err()
            .kind,
        DiscoveryErrorKind::InvalidInput
    );
    let request = DiscoveryRequest {
        service_type: "_x._tcp.local.".to_owned(),
        max_results_per_poll: 1,
    };
    provider.start(request.clone(), NOW).unwrap();
    assert_eq!(
        provider.start(request, NOW).unwrap_err().kind,
        DiscoveryErrorKind::AlreadyRunning
    );
    provider.stop().unwrap();
    assert_eq!(
        provider.stop().unwrap_err().kind,
        DiscoveryErrorKind::NotRunning
    );
}

#[test]
fn names_are_hashed_from_both_ends() {
    // The left half is the 64-bit FNV-1a hash of the name.
    let id = id_from_name("a");
    assert_eq!(&id.0[..8], &0xaf63_dc4c_8601_ec8c_u64.to_be_bytes());
    assert_eq!(
        &id_from_name("").0[..8],
        &0xcbf2_9ce4_8422_2325_u64.to_be_bytes()
    );
    assert_eq!(
        &id_from_name("").0[8..],
        &0x8422_2325_cbf2_9ce4_u64.to_be_bytes()
    );
    assert_ne!(id_from_name("one"), id_from_name("two"));
}

#[test]
fn resolved_services_are_found_and_withdrawn() {
    let mut state = MdnsState::new(
        secs(30),
        RateLimit {
            attempts: 4,
            window: secs(1),
            max_sources: 4,
            max_candidates: 4,
        },
    )
    .unwrap();
    let request = DiscoveryRequest {
        service_type: "_mutsuki-link._tcp.local.".to_owned(),
        max_results_per_poll: 8,
    };
    assert_eq!(
        state.check_running().unwrap_err().kind,
        DiscoveryErrorKind::NotRunning
    );
    state.check_start(&request, NOW).unwrap();
    state.note_started(request);
    state.check_running().unwrap();
    assert!(state.wants_more(7));
    assert!(!state.wants_more(8));
    let found = state
        .hear(
            MdnsEvent::Resolved(ResolvedService {
                fullname: "peer._mutsuki-link._tcp.local.".to_owned(),
                service_type: "_mutsuki-link._tcp.local.".to_owned(),
                addresses: vec!["192.0.2.1".to_owned()],
                port: 4433,
                transport: Some("quic".to_owned()),
            }),
            NOW,
        )
        .unwrap();
    let DiscoveryEvent::Found(peer) = found else {
        panic!("the service was not found");
    };
    assert_eq!(
        peer.discovery_id,
        id_from_name("peer._mutsuki-link._tcp.local.")
    );
    assert_eq!(peer.expires_at, NOW + secs(30));
    assert_eq!(peer.endpoints.len(), 1);
    assert_eq!(peer.endpoints[0].address.scheme, "quic");
    assert_eq!(peer.endpoints[0].address.address, "192.0.2.1:4433");
    assert_eq!(
        state.hear(
            MdnsEvent::Removed("peer._mutsuki-link._tcp.local.".to_owned()),
            NOW
        ),
        Some(DiscoveryEvent::Expired(peer.discovery_id))
    );
    assert_eq!(
        state.hear(
            MdnsEvent::Removed("peer._mutsuki-link._tcp.local.".to_owned()),
            NOW
        ),
        None
    );
    assert_eq!(
        advertised_properties(1, "quic"),
        vec![
            ("v".to_owned(), "1".to_owned()),
            ("t".to_owned(), "quic".to_owned())
        ]
    );
}

#[test]
fn refused_attempts_delay_nobody() {
    let mut limiter = AttemptRateLimiter::new(RateLimit {
        attempts: 2,
        window: millis(10),
        max_sources: 1,
        max_candidates: 1,
    })
    .unwrap();
    assert!(limiter.allow("one", NOW));
    assert!(limiter.allow("one", NOW + millis(4)));
    assert!(!limiter.allow("one", NOW + millis(8)));
    assert!(!limiter.allow("two", NOW + millis(9)));
    assert!(limiter.allow("one", NOW + millis(10)));
    assert!(!limiter.allow("one", NOW + millis(13)));
    assert!(limiter.allow("one", NOW + millis(14)));
    assert!(limiter.allow("two", NOW + millis(24)));
}
