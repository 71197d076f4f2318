use mutsuki_link::app_endpoint::{
    endpoint_id_for_app, lease_file_name, lists_process, local_address_for_app, process_path,
    reclaims,
    AppEndpointDescriptor, AppEndpointError, AppId, CapabilityOffer, EndpointLease,
    SessionIdentity,
};
use mutsuki_link::identity::EndpointId;
use mutsuki_link::local::LocalAddress;

#[test]
fn app_address_is_stable_for_same_session() {
    let app = AppId::new("lilia.code").unwrap();
    let session = SessionIdentity {
        user_key: "alice".into(),
        session_key: "desktop-1".into(),
    };
    let first = local_address_for_app(&app, &session);
    let second = local_address_for_app(&app, &session);
    assert_eq!(first, second);
    assert!(first.0.starts_with("mutsuki.app.lilia-code."));
    assert_ne!(
        local_address_for_app(
            &app,
            &SessionIdentity {
                user_key: "bob".into(),
                session_key: "desktop-1".into(),
            }
        ),
        first
    );
}

#[test]
fn endpoint_id_differs_from_address_digest_domain() {
    let app = AppId::new("lilia.github").unwrap();
    let session = SessionIdentity {
        user_key: "alice".into(),
        session_key: "s1".into(),
    };
    let endpoint = endpoint_id_for_app(&app, &session);
    let other = endpoint_id_for_app(&AppId::new("lilia.code").unwrap(), &session);
    assert_ne!(endpoint.as_bytes(), other.as_bytes());
}

#[test]
fn capability_ready_requires_exact_match() {
    let descriptor = AppEndpointDescriptor {
        app_id: AppId::new("demo.app").unwrap(),
        instance_id: "i1".into(),
        host_protocol_version: 1,
        endpoint_id: EndpointId::from_bytes([1; 16]),
        address: LocalAddress("x".into()),
        capabilities: vec![CapabilityOffer::new("cap.a", 1, 2, true).unwrap()],
    };
    assert!(descriptor.capability_ready("cap.a", 1, 2));
    assert!(!descriptor.capability_ready("cap.a", 1, 1));
    assert!(!descriptor.capability_ready("cap.b", 1, 2));
}

#[test]
fn addresses_are_named_by_a_digest() {
    let app = AppId::new("lilia.code").unwrap();
    let session = SessionIdentity {
        user_key: "alice".into(),
        session_key: "desktop-1".into(),
    };
    let address = local_address_for_app(&app, &session).0;
    let digest = address.strip_prefix("mutsuki.app.lilia-code.").unwrap();
    assert_eq!(digest.len(), 16);
    assert!(digest.bytes().all(|b| b.is_ascii_hexdigit()));
    let endpoint = endpoint_id_for_app(&app, &session);
    let shown: String = endpoint.as_bytes()[..8]
        .iter()
        .map(|b| format!("{b:02x}"))
        .collect();
    assert_ne!(shown, digest);
}

#[test]
fn names_are_checked() {
    assert_eq!(AppId::new("").unwrap_err(), AppEndpointError::InvalidAppId);
    assert_eq!(
        AppId::new("no spaces").unwrap_err(),
        AppEndpointError::InvalidAppId
    );
    assert_eq!(
        CapabilityOffer::new("", 1, 1, true).unwrap_err(),
        AppEndpointError::InvalidCapability
    );
}

#[test]
fn leases_are_read_back_and_reclaimed() {
    let app = AppId::new("demo.app").unwrap();
    let lease = EndpointLease {
        app_id: AppId::new("demo.app").unwrap(),
        instance_id: "instance-1".to_owned(),
        pid: 77,
        created_unix_ms: 1_234,
    };
    let text = lease.to_text();
    assert_eq!(text, "demo.app\ninstance-1\n77\n1234\n");
    let loaded = EndpointLease::from_text(&text, &app).unwrap();
    assert_eq!(loaded.instance_id, "instance-1");
    assert_eq!(loaded.pid, lease.pid);
    assert_eq!(loaded.created_unix_ms, 1_234);
    assert!(!reclaims(&Some(loaded), true));
    let dead = EndpointLease::from_text("demo.app\ndead\n4294967294\n0\n", &app).unwrap();
    assert!(dead.is_stale(false));
    assert!(reclaims(&Some(dead), false));
    assert!(!reclaims(&None, false));
    assert!(EndpointLease::from_text("other.app\nx\n1\n1\n", &app).is_none());
    assert!(EndpointLease::from_text("demo.app\nx\n4294967296\n1\n", &app).is_none());
    assert_eq!(lease_file_name(&app), "demo-app.lease");
    assert_eq!(process_path(77), "/proc/77");
}

#[test]
fn processes_are_found_in_a_list() {
    assert!(lists_process(b"link.exe   1234 Console", 1234));
    assert!(lists_process(b"1234", 1234));
    assert!(lists_process(b"\xff12345", 1234));
    assert!(!lists_process(b"INFO: No tasks are running", 1234));
    assert!(!lists_process(b"12\xff34", 1234));
    assert!(!lists_process(b"123", 1234));
    assert!(!lists_process(b"", 0));
}
