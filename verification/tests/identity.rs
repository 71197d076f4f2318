use mutsuki_link::identity::{PeerId, ProtocolVersion, VersionRange};
use mutsuki_link::protocol_version_is_compatible;

#[test]
fn version_negotiation_selects_highest_shared_minor() {
    let local = VersionRange::new(ProtocolVersion::new(1, 1), ProtocolVersion::new(1, 4));
    let remote = VersionRange::new(ProtocolVersion::new(1, 2), ProtocolVersion::new(1, 3));
    assert_eq!(local.negotiate(remote), Some(ProtocolVersion::new(1, 3)));
}

#[test]
fn different_major_versions_are_incompatible() {
    let one = VersionRange::new(ProtocolVersion::new(1, 0), ProtocolVersion::new(1, 4));
    let two = VersionRange::new(ProtocolVersion::new(2, 0), ProtocolVersion::new(2, 4));
    assert_eq!(one.negotiate(two), None);
}

#[test]
fn protocol_window_is_explicit() {
    assert!(protocol_version_is_compatible(1));
    assert!(!protocol_version_is_compatible(0));
    assert!(!protocol_version_is_compatible(2));
}

#[test]
fn identifiers_are_shown_by_their_first_bytes() {
    assert_eq!(
        PeerId::from_bytes([0xab; 32]).display_text(),
        "abababab\u{2026}"
    );
}

#[test]
fn both_sides_settle_on_the_same_version() {
    let range = |minimum, maximum| {
        VersionRange::new(ProtocolVersion::new(1, minimum), ProtocolVersion::new(1, maximum))
    };
    for (a, b, shared) in [
        (range(0, 3), range(2, 9), Some(ProtocolVersion::new(1, 3))),
        (range(0, 1), range(2, 3), None),
        (range(3, 2), range(0, 9), None),
    ] {
        assert_eq!(a.negotiate(b), shared);
        assert_eq!(b.negotiate(a), shared);
    }
}
