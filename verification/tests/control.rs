use mutsuki_link::channel::{ChannelGeneration, ChannelId};
use mutsuki_link::channel_map::{MAX_SESSION_CHANNEL_MAPPINGS, SessionChannelMap};
use mutsuki_link::control::{
    AcceptChannel, BeginDrain, CloseChannel, CloseSession, ControlEnvelope, ControlFlags,
    ControlIdentityMode, ControlModeGuard, ControlPayload, ErrorCode, ErrorDomain, HelloControl,
    LinkControlError, LinkControlOpcode, OpenChannel, Ping, Pong, RequestId, Retryability,
};
use mutsuki_link::control_codec::{decode_control_envelope, encode_control_envelope};
use mutsuki_link::identity::{
    ConnectionId, EndpointId, Identity, PeerId, ProtocolVersion, SessionId, VersionRange,
};
use mutsuki_link::negotiation::{AuthPath, ProtocolOffer, ProtocolSelection};
use mutsuki_link::protocol_ids::{
    LinkCapabilities, MAX_PROTOCOL_CAPABILITY_WORDS, ProtocolCapabilitySet, ProtocolChannelId,
    ProtocolDebugIdentity, ProtocolStableId, SchemaId, SchemaRef,
};

fn typed_guard() -> ControlModeGuard {
    ControlModeGuard::new(ControlIdentityMode::TypedV1)
}

fn open_envelope() -> ControlEnvelope {
    ControlEnvelope::typed(
        RequestId(0x0102_0304_0506_0708),
        Some(SessionId::from_bytes([0xaa; 16])),
        ControlFlags::default(),
        ControlPayload::OpenChannel(OpenChannel {
            protocol_id: ProtocolStableId::from_bytes([
                0x00, 0x01, 0x02, 0x03, 0x04, 0x05, 0x06, 0x07, 0x08, 0x09, 0x0a, 0x0b, 0x0c, 0x0d,
                0x0e, 0x0f,
            ]),
            protocol_channel_id: ProtocolChannelId(42),
            requested_session_channel_id: ChannelId(0x0102_0304),
            capacity: 64,
        }),
    )
}

fn hex(bytes: &[u8]) -> String {
    bytes
        .iter()
        .map(|byte| format!("{byte:02x}"))
        .collect::<String>()
}

#[test]
fn stable_ids_are_domain_separated_and_deterministic() {
    let protocol = ProtocolStableId::derive("example.org", "tracking");
    assert_eq!(
        protocol,
        ProtocolStableId::derive("example.org", "tracking")
    );
    assert_ne!(
        protocol.as_bytes(),
        SchemaId::derive("example.org", "tracking").as_bytes()
    );
}

#[test]
fn capability_intersection_is_bounded_and_protocol_scoped() {
    let id = ProtocolStableId::derive("example.org", "tracking");
    let left = ProtocolCapabilitySet {
        protocol_id: id,
        words: vec![0b1011, 0b0101],
    };
    let right = ProtocolCapabilitySet {
        protocol_id: id,
        words: vec![0b0110],
    };
    assert_eq!(left.intersect(&right).unwrap().words, vec![0b0010]);
    assert!(left.is_bounded());
}

#[test]
fn open_channel_codec_matches_golden_wire_vector() {
    let encoded = encode_control_envelope(&typed_guard(), &open_envelope()).unwrap();
    let golden = [
        "4d4c4354000100100000010203040506070801",
        "aaaaaaaaaaaaaaaaaaaaaaaaaaaaaaaa0000001a",
        "000102030405060708090a0b0c0d0e0f002a0102030400000040",
    ];
    assert_eq!(hex(&encoded), golden.join(""));
    assert_eq!(
        decode_control_envelope(&typed_guard(), &encoded).unwrap(),
        open_envelope()
    );
}

#[test]
fn every_control_payload_has_an_explicit_round_trip() {
    let protocol_id = ProtocolStableId::derive("example.org", "tracking");
    let schema = SchemaRef::for_contract("example.org", "tracking", 1, b"contract-v1");
    let capabilities = ProtocolCapabilitySet {
        protocol_id,
        words: vec![0x55aa, 7],
    };
    let offer = ProtocolOffer {
        stable_id: protocol_id,
        debug_identity: Some(ProtocolDebugIdentity::new("example.org", "tracking")),
        versions: VersionRange::new(ProtocolVersion::new(1, 0), ProtocolVersion::new(1, 2)),
        schema,
        capabilities: capabilities.clone(),
    };
    let selection = ProtocolSelection {
        stable_id: protocol_id,
        version: ProtocolVersion::new(1, 2),
        schema,
        capabilities,
    };
    let payloads = vec![
        ControlPayload::Hello(HelloControl {
            identity: Identity {
                peer_id: PeerId::from_bytes([1; 32]),
                endpoint_id: EndpointId::from_bytes([2; 16]),
                connection_id: ConnectionId::from_bytes([3; 16]),
            },
            link_versions: VersionRange::new(
                ProtocolVersion::new(1, 0),
                ProtocolVersion::new(1, 1),
            ),
            link_capabilities: LinkCapabilities::typed_control()
                | LinkCapabilities::compact_channel_id(),
            requested_auth: AuthPath::TrustedReconnect,
        }),
        ControlPayload::OfferProtocols(vec![offer]),
        ControlPayload::SelectProtocols(vec![selection]),
        open_envelope().payload,
        ControlPayload::AcceptChannel(AcceptChannel {
            protocol_id,
            protocol_channel_id: ProtocolChannelId(4),
            session_channel_id: ChannelId(9),
        }),
        ControlPayload::CloseChannel(CloseChannel {
            session_channel_id: ChannelId(9),
        }),
        ControlPayload::Ping(Ping { nonce: 123 }),
        ControlPayload::Pong(Pong { nonce: 123 }),
        ControlPayload::BeginDrain(BeginDrain {
            deadline_millis: 500,
        }),
        ControlPayload::CloseSession(CloseSession { reason_code: 8 }),
    ];

    for payload in payloads {
        let envelope = ControlEnvelope::typed(
            RequestId(7),
            Some(SessionId::from_bytes([9; 16])),
            ControlFlags::response(),
            payload,
        );
        let encoded = encode_control_envelope(&typed_guard(), &envelope).unwrap();
        assert_eq!(
            decode_control_envelope(&typed_guard(), &encoded).unwrap(),
            envelope
        );
    }
}

#[test]
fn structured_error_round_trip_preserves_machine_fields() {
    let envelope = ControlEnvelope::typed(
        RequestId(10),
        None,
        ControlFlags::response(),
        ControlPayload::Error(LinkControlError {
            domain: ErrorDomain::Channel,
            code: ErrorCode(27),
            operation: Some(LinkControlOpcode::OpenChannel),
            retryability: Retryability::Reconnect,
            public_message: "local diagnostic only",
        }),
    );
    let decoded = decode_control_envelope(
        &typed_guard(),
        &encode_control_envelope(&typed_guard(), &envelope).unwrap(),
    )
    .unwrap();
    let ControlPayload::Error(error) = decoded.payload else {
        panic!("expected structured error")
    };
    assert_eq!(error.domain, ErrorDomain::Channel);
    assert_eq!(error.code, ErrorCode(27));
    assert_eq!(error.operation, Some(LinkControlOpcode::OpenChannel));
    assert_eq!(error.retryability, Retryability::Reconnect);
    assert_ne!(error.public_message, "local diagnostic only");
}

#[test]
fn parser_rejects_every_truncation_unknown_opcode_and_trailing_data() {
    let encoded = encode_control_envelope(&typed_guard(), &open_envelope()).unwrap();
    for end in 0..encoded.len() {
        assert!(decode_control_envelope(&typed_guard(), &encoded[..end]).is_err());
    }

    let mut unknown_opcode = encoded.clone();
    unknown_opcode[6..8].copy_from_slice(&0x7777_u16.to_be_bytes());
    let error = decode_control_envelope(&typed_guard(), &unknown_opcode).unwrap_err();
    assert_eq!(error.code, ErrorCode(1));

    let mut trailing = encoded;
    trailing.push(0);
    let error = decode_control_envelope(&typed_guard(), &trailing).unwrap_err();
    assert_eq!(error.code, ErrorCode(8));
}

#[test]
fn bounded_control_fuzz_corpus_never_panics_or_allocates_from_untrusted_lengths() {
    let guard = typed_guard();
    let valid = encode_control_envelope(&guard, &open_envelope()).unwrap();
    for offset in 0..valid.len() {
        let mut mutated = valid.clone();
        mutated[offset] ^= 0xa5;
        let _result = decode_control_envelope(&guard, &mutated);
    }
    for len in 0..512_usize {
        let corpus = (0..len)
            .map(|index| {
                u8::try_from((index.wrapping_mul(31) ^ len) & 0xff).expect("fuzz byte is masked")
            })
            .collect::<Vec<_>>();
        let _result = decode_control_envelope(&guard, &corpus);
    }
}

#[test]
fn typed_and_legacy_modes_cannot_mix_within_a_session() {
    let legacy = ControlModeGuard::new(ControlIdentityMode::LegacyStringV1);
    assert_eq!(
        encode_control_envelope(&legacy, &open_envelope())
            .unwrap_err()
            .code,
        ErrorCode(2)
    );
    assert!(legacy.validate_legacy().is_ok());
    assert!(typed_guard().validate_legacy().is_err());
    assert_eq!(
        ControlIdentityMode::negotiate(LinkCapabilities::typed_control()),
        ControlIdentityMode::TypedV1
    );
    assert_eq!(
        ControlIdentityMode::negotiate(LinkCapabilities::default()),
        ControlIdentityMode::LegacyStringV1
    );
}

#[test]
fn codec_enforces_protocol_capability_and_debug_string_bounds() {
    let protocol_id = ProtocolStableId::derive("example.org", "tracking");
    let schema = SchemaRef::for_contract("example.org", "tracking", 1, b"contract-v1");
    let oversized = ProtocolOffer {
        stable_id: protocol_id,
        debug_identity: None,
        versions: VersionRange::new(ProtocolVersion::new(1, 0), ProtocolVersion::new(1, 0)),
        schema,
        capabilities: ProtocolCapabilitySet {
            protocol_id,
            words: vec![0; MAX_PROTOCOL_CAPABILITY_WORDS + 1],
        },
    };
    let envelope = ControlEnvelope::typed(
        RequestId(1),
        None,
        ControlFlags::default(),
        ControlPayload::OfferProtocols(vec![oversized]),
    );
    assert_eq!(
        encode_control_envelope(&typed_guard(), &envelope)
            .unwrap_err()
            .code,
        ErrorCode(5)
    );
}

#[test]
fn session_channel_mapping_is_bijective_and_never_overwritten() {
    let protocol_id = ProtocolStableId::derive("example.org", "tracking");
    let accepted = AcceptChannel {
        protocol_id,
        protocol_channel_id: ProtocolChannelId(3),
        session_channel_id: ChannelId(17),
    };
    let mut mappings = SessionChannelMap::new(2).unwrap();
    mappings.bind(accepted).unwrap();
    assert_eq!(
        mappings.session_channel(protocol_id, ProtocolChannelId(3)),
        Some(ChannelId(17))
    );
    assert_eq!(
        mappings.protocol_channel(ChannelId(17)),
        Some((protocol_id, ProtocolChannelId(3)))
    );
    assert_eq!(
        mappings.session_binding(ChannelId(17)),
        Some((
            protocol_id,
            ProtocolChannelId(3),
            ChannelGeneration::initial(),
        ))
    );

    assert_eq!(mappings.bind(accepted).unwrap_err().code, ErrorCode(2));
    assert_eq!(
        mappings
            .bind(AcceptChannel {
                protocol_id,
                protocol_channel_id: ProtocolChannelId(4),
                session_channel_id: ChannelId(17),
            })
            .unwrap_err()
            .code,
        ErrorCode(2)
    );
    assert_eq!(
        mappings.unbind(ChannelId(17)),
        Some((protocol_id, ProtocolChannelId(3)))
    );
    assert!(mappings.is_empty());
    assert_eq!(
        mappings
            .bind(AcceptChannel {
                protocol_id,
                protocol_channel_id: ProtocolChannelId(5),
                session_channel_id: ChannelId(17),
            })
            .unwrap_err()
            .code,
        ErrorCode(2)
    );
    mappings
        .bind(AcceptChannel {
            protocol_id,
            protocol_channel_id: ProtocolChannelId(6),
            session_channel_id: ChannelId(18),
        })
        .unwrap();
    mappings.unbind(ChannelId(18));
    let error = mappings
        .bind(AcceptChannel {
            protocol_id,
            protocol_channel_id: ProtocolChannelId(7),
            session_channel_id: ChannelId(19),
        })
        .unwrap_err();
    assert_eq!(error.domain, ErrorDomain::Resource);
    assert_eq!(error.code, ErrorCode(1));
}

#[test]
fn digests_are_those_of_the_hash_function() {
    // SHA-256 of the domain, "example.org", a zero byte and "tracking".
    let schema = SchemaRef::for_contract("example.org", "tracking", 1, b"abc");
    assert_ne!(schema.fingerprint.as_bytes()[..3], *b"abc");
    assert_eq!(
        schema.fingerprint,
        SchemaRef::for_contract("other.org", "other", 2, b"abc").fingerprint
    );
    assert_eq!(
        hex(schema.fingerprint.as_bytes()),
        "ba7816bf8f01cfea414140de5dae2223b00361a396177a9cb410ff61f20015ad"
    );
}

#[test]
fn spelled_protocols_must_agree_with_their_identity() {
    let protocol_id = ProtocolStableId::derive("example.org", "tracking");
    let offer = |debug: ProtocolDebugIdentity| ProtocolOffer {
        stable_id: protocol_id,
        debug_identity: Some(debug),
        versions: VersionRange::new(ProtocolVersion::new(1, 0), ProtocolVersion::new(1, 0)),
        schema: SchemaRef::for_contract("example.org", "tracking", 1, b"contract-v1"),
        capabilities: ProtocolCapabilitySet::empty(protocol_id),
    };
    let send = |payload: ControlPayload| {
        encode_control_envelope(
            &typed_guard(),
            &ControlEnvelope::typed(RequestId(1), None, ControlFlags::default(), payload),
        )
    };
    assert!(
        send(ControlPayload::OfferProtocols(vec![offer(
            ProtocolDebugIdentity::new("example.org", "tracking")
        )]))
        .is_ok()
    );
    assert!(
        send(ControlPayload::OfferProtocols(vec![offer(
            ProtocolDebugIdentity::new("example.org", "other")
        )]))
        .is_err()
    );
}

#[test]
fn mapping_limits_are_checked() {
    assert!(SessionChannelMap::new(0).is_err());
    assert!(SessionChannelMap::new(MAX_SESSION_CHANNEL_MAPPINGS).is_ok());
    assert!(SessionChannelMap::new(MAX_SESSION_CHANNEL_MAPPINGS + 1).is_err());
    let mut mappings = SessionChannelMap::new(1).unwrap();
    let error = mappings
        .bind(AcceptChannel {
            protocol_id: ProtocolStableId::derive("example.org", "tracking"),
            protocol_channel_id: ProtocolChannelId(0),
            session_channel_id: ChannelId(1),
        })
        .unwrap_err();
    assert_eq!(error, LinkControlError::invalid_channel_mapping());
}
