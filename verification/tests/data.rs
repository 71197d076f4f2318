use mutsuki_link::channel::{ChannelGeneration, ChannelId, EnvelopeFlags};
use mutsuki_link::control::ControlIdentityMode;
use mutsuki_link::data::{
    DataCodecErrorKind, DataCodecLimits, DataEnvelope, DataIdentityMode, DataModeGuard,
    decode_data_envelope, encode_data_envelope, encode_data_envelope_into,
};
use mutsuki_link::identity::SessionId;
use mutsuki_link::protocol_ids::LinkCapabilities;

fn guard() -> DataModeGuard {
    DataModeGuard::new(DataIdentityMode::CompactV1)
}

fn frame() -> DataEnvelope {
    DataEnvelope {
        session_id: SessionId::from_bytes([0xaa; 16]),
        channel_id: ChannelId(0x0102_0304),
        generation: ChannelGeneration(0x0506_0708),
        sequence: 0x1112_1314_1516_1718,
        nesting_depth: 2,
        flags: EnvelopeFlags {
            end_of_stream: true,
            cancelled: false,
        },
        payload: vec![0xde, 0xad, 0xbe, 0xef],
    }
}

#[test]
fn compact_data_codec_matches_golden_vector() {
    let encoded = encode_data_envelope(guard(), &frame(), DataCodecLimits::default()).unwrap();
    let hex = encoded
        .iter()
        .map(|byte| format!("{byte:02x}"))
        .collect::<String>();
    let golden = [
        "4d4c4454000101aaaaaaaaaaaaaaaaaaaaaaaaaaaaaaaa",
        "010203040506070811121314151617180002000100000004deadbeef",
    ];
    assert_eq!(hex, golden.join(""));
    let decoded = decode_data_envelope(guard(), &encoded, DataCodecLimits::default()).unwrap();
    assert_eq!(decoded.into_owned(), frame());
}

#[test]
fn decoder_rejects_every_truncation_and_bounded_mutation_corpus() {
    let encoded = encode_data_envelope(guard(), &frame(), DataCodecLimits::default()).unwrap();
    for end in 0..encoded.len() {
        assert!(
            decode_data_envelope(guard(), &encoded[..end], DataCodecLimits::default()).is_err()
        );
    }
    for offset in 0..encoded.len() {
        let mut mutated = encoded.clone();
        mutated[offset] ^= 0x5a;
        let _result = decode_data_envelope(guard(), &mutated, DataCodecLimits::default());
    }
    for len in 0..512_usize {
        let corpus = (0..len)
            .map(|index| {
                u8::try_from((index.wrapping_mul(17) ^ len) & 0xff).expect("fuzz byte is masked")
            })
            .collect::<Vec<_>>();
        let _result = decode_data_envelope(guard(), &corpus, DataCodecLimits::default());
    }
    let mut trailing = encoded;
    trailing.push(0);
    assert_eq!(
        decode_data_envelope(guard(), &trailing, DataCodecLimits::default())
            .unwrap_err()
            .kind,
        DataCodecErrorKind::TrailingBytes
    );
}

#[test]
fn data_mode_requires_both_typed_control_and_compact_capability() {
    assert_eq!(
        DataIdentityMode::negotiate(
            ControlIdentityMode::TypedV1,
            LinkCapabilities::compact_channel_id(),
        ),
        DataIdentityMode::CompactV1
    );
    assert_eq!(
        DataIdentityMode::negotiate(
            ControlIdentityMode::LegacyStringV1,
            LinkCapabilities::compact_channel_id(),
        ),
        DataIdentityMode::LegacyFullChannelKey
    );
    assert!(
        DataModeGuard::new(DataIdentityMode::LegacyFullChannelKey)
            .validate_compact()
            .is_err()
    );
    assert!(guard().validate_legacy().is_err());
}

#[test]
fn caller_owned_buffer_is_reused_after_warmup() {
    let frame = frame();
    let mut output = Vec::new();
    encode_data_envelope_into(guard(), &frame, DataCodecLimits::default(), &mut output).unwrap();
    let capacity = output.capacity();
    for _ in 0..1_000 {
        encode_data_envelope_into(guard(), &frame, DataCodecLimits::default(), &mut output)
            .unwrap();
        assert_eq!(output.capacity(), capacity);
    }
}

#[test]
fn each_refusal_of_a_data_frame_has_its_kind() {
    let limits = DataCodecLimits::default();
    let encoded = encode_data_envelope(guard(), &frame(), limits).unwrap();
    let refused = |at: usize, byte: u8| {
        let mut wire = encoded.clone();
        wire[at] = byte;
        decode_data_envelope(guard(), &wire, limits)
            .unwrap_err()
            .kind
    };
    assert_eq!(refused(0, 0), DataCodecErrorKind::InvalidHeader);
    assert_eq!(refused(5, 9), DataCodecErrorKind::UnsupportedVersion);
    assert_eq!(refused(6, 9), DataCodecErrorKind::UnknownFrameKind);
    assert_eq!(refused(42, 4), DataCodecErrorKind::InvalidFlags);
    let mut zero_channel = frame();
    zero_channel.channel_id = ChannelId(0);
    assert_eq!(
        encode_data_envelope(guard(), &zero_channel, limits)
            .unwrap_err()
            .kind,
        DataCodecErrorKind::InvalidChannel
    );
    let narrow = DataCodecLimits {
        max_payload_bytes: 3,
        max_nesting_depth: 2,
    };
    assert_eq!(
        encode_data_envelope(guard(), &frame(), narrow)
            .unwrap_err()
            .kind,
        DataCodecErrorKind::LimitExceeded
    );
    assert_eq!(
        decode_data_envelope(guard(), &[], limits).unwrap_err().kind,
        DataCodecErrorKind::Truncated
    );
    assert_eq!(
        decode_data_envelope(
            DataModeGuard::new(DataIdentityMode::LegacyFullChannelKey),
            &encoded,
            limits
        )
        .unwrap_err()
        .kind,
        DataCodecErrorKind::ModeMismatch
    );
}
