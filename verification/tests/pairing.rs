use mutsuki_link::identity::{PeerId, ProtocolVersion};
use mutsuki_link::pairing::{
    LongTermIdentity, PairingCrypto, PairingError, PairingErrorKind, PairingId, PairingMethod,
    PairingState,
};
use mutsuki_link::pairing_limits::{PairingAttemptLimiter, PairingRateLimit, ReplayGuard};
use mutsuki_link::pairing_session::PairingSession;
use mutsuki_link::trust::{
    authorize_trusted_reconnect, KeyState, LinkPermission, PermissionSet, TrustRecord, TrustStore,
    TrustStoreError, TrustStoreErrorKind,
};
use mutsuki_link::trust_table::{
    check_index_size, check_keyring_service, keyring_corrupt_error, plan_revocation, KeyStateDto,
    PeerIndex, RecordDto, TrustTable,
};
use sha2::{Digest, Sha256};

#[test]
fn attempts_and_failures_are_independently_bounded() {
    let peer = PeerId::from_bytes([1; 32]);
    let mut limiter = PairingAttemptLimiter::new(PairingRateLimit {
        max_attempts: 1,
        max_failures: 1,
        max_peers: 1,
        window_ms: 100,
    })
    .unwrap();
    limiter.begin(peer, 0).unwrap();
    assert_eq!(
        limiter.begin(peer, 1).unwrap_err().kind,
        PairingErrorKind::RateLimited
    );
    limiter.record_failure(peer, 1).unwrap();
    assert_eq!(
        limiter.record_failure(peer, 2).unwrap_err().kind,
        PairingErrorKind::RateLimited
    );
    limiter.begin(peer, 100).unwrap();
}

#[test]
fn unique_peer_storm_cannot_grow_rate_limiter_without_bound() {
    let mut limiter = PairingAttemptLimiter::new(PairingRateLimit {
        max_attempts: 2,
        max_failures: 2,
        max_peers: 2,
        window_ms: 100,
    })
    .unwrap();
    limiter.begin(PeerId::from_bytes([1; 32]), 0).unwrap();
    limiter.begin(PeerId::from_bytes([2; 32]), 0).unwrap();
    for value in 3..=u8::MAX {
        assert_eq!(
            limiter
                .begin(PeerId::from_bytes([value; 32]), 1)
                .unwrap_err()
                .kind,
            PairingErrorKind::RateLimited
        );
    }
    limiter.begin(PeerId::from_bytes([3; 32]), 100).unwrap();
    assert!(limiter.remembered_peers().0 <= 2);
    assert!(limiter.remembered_peers().1 <= 2);
}

struct TestCrypto(Vec<u8>);

impl PairingCrypto for TestCrypto {
    fn sign_transcript(&self, transcript_hash: &[u8; 32]) -> Result<Vec<u8>, PairingError> {
        Ok(signature(&self.0, transcript_hash))
    }

    fn verify_transcript(
        &self,
        public_key: &[u8],
        transcript_hash: &[u8; 32],
        signature_value: &[u8],
    ) -> bool {
        signature(public_key, transcript_hash) == signature_value
    }
}

fn signature(key: &[u8], transcript_hash: &[u8; 32]) -> Vec<u8> {
    let mut hash = Sha256::new();
    hash.update(key);
    hash.update(transcript_hash);
    hash.finalize().to_vec()
}

fn identity(value: u8, name: &str) -> LongTermIdentity {
    LongTermIdentity {
        peer_id: PeerId::from_bytes([value; 32]),
        public_key: vec![value; 32],
        display_name: name.to_owned(),
    }
}

/// A store that keeps its records in a table.
struct TableStore(TrustTable);

impl TrustStore for TableStore {
    fn get(&self, peer_id: &PeerId) -> Result<Option<TrustRecord>, TrustStoreError> {
        Ok(self.0.record(peer_id).map(TrustRecord::duplicate))
    }

    fn list(&self) -> Result<Vec<TrustRecord>, TrustStoreError> {
        Ok((0..self.0.len())
            .map(|i| self.0.record_at(i).duplicate())
            .collect())
    }

    fn upsert(&mut self, record: TrustRecord) -> Result<(), TrustStoreError> {
        self.0.put_record(record)
    }

    fn remove(&mut self, peer_id: &PeerId) -> Result<bool, TrustStoreError> {
        Ok(self.0.remove_record(peer_id))
    }

    fn revoke(&mut self, peer_id: &PeerId, now_unix_ms: u64) -> Result<(), TrustStoreError> {
        self.0.revoke_record(peer_id, now_unix_ms)
    }

    fn rotate(
        &mut self,
        old_peer_id: &PeerId,
        new_peer_id: PeerId,
        new_public_key: Vec<u8>,
        challenge_hash: [u8; 32],
        now_unix_ms: u64,
    ) -> Result<TrustRecord, TrustStoreError> {
        self.0.rotate_record(
            old_peer_id,
            new_peer_id,
            new_public_key,
            challenge_hash,
            now_unix_ms,
        )
    }
}

#[test]
fn two_devices_pair_and_trust_is_kept_revoked_removed_and_rotated() {
    let alice = identity(1, "Alice desktop");
    let bob = identity(2, "Bob phone");
    let mut replay = ReplayGuard::new(8).unwrap();
    let challenge = [7; 32];
    replay.reserve(&challenge).unwrap();
    assert_eq!(
        replay.reserve(&challenge).unwrap_err().kind,
        PairingErrorKind::ReplayDetected
    );

    let mut initiator = PairingSession::initiator(
        alice.clone(),
        PairingId::from_bytes([4; 16]),
        ProtocolVersion::new(1, 0),
        challenge,
        PairingMethod::ShortCode,
        10_000,
        false,
        8,
    )
    .unwrap();
    let offer = initiator.offer().unwrap();
    let (mut responder, response) =
        PairingSession::responder(bob.clone(), offer, 1_000, false, 8).unwrap();
    initiator.receive_response(response, 1_000).unwrap();

    let alice_view = initiator.presentation().unwrap();
    let bob_view = responder.presentation().unwrap();
    assert_eq!(alice_view.short_code, bob_view.short_code);
    assert_eq!(alice_view.peer_name, "Bob phone");
    assert_eq!(bob_view.peer_name, "Alice desktop");
    assert_ne!(alice_view.peer_fingerprint, bob_view.peer_fingerprint);

    let alice_crypto = TestCrypto(alice.public_key.clone());
    let bob_crypto = TestCrypto(bob.public_key.clone());
    let alice_proof = initiator
        .confirm(&alice_view.short_code, &alice_crypto, 1_001)
        .unwrap();
    let bob_proof = responder
        .confirm(&bob_view.short_code, &bob_crypto, 1_001)
        .unwrap();
    initiator
        .receive_confirmation(bob_proof, &alice_crypto, 1_002)
        .unwrap();
    responder
        .receive_confirmation(alice_proof, &bob_crypto, 1_002)
        .unwrap();
    assert_eq!(initiator.state(), PairingState::Paired);
    assert_eq!(responder.state(), PairingState::Paired);

    let mut permissions = PermissionSet::new();
    assert!(permissions.insert(LinkPermission::Connect));
    assert!(permissions.insert(LinkPermission::OpenNamespace("mutsuki.lilia".to_owned())));
    let record = initiator
        .trust_record("phone".to_owned(), permissions, 1_002)
        .unwrap();
    let mut store = TableStore(TrustTable::with_default_limit());
    store.upsert(record.duplicate()).unwrap();
    let written = store.0.write();
    drop(store);

    let mut store = TableStore(TrustTable::read(written, 1024).unwrap());
    assert_eq!(
        authorize_trusted_reconnect(&store, &bob.peer_id, &bob.public_key)
            .unwrap()
            .alias,
        "phone"
    );
    store.revoke(&bob.peer_id, 2_000).unwrap();
    assert_eq!(
        authorize_trusted_reconnect(&store, &bob.peer_id, &bob.public_key)
            .unwrap_err()
            .kind,
        TrustStoreErrorKind::Revoked
    );
    assert!(store.remove(&bob.peer_id).unwrap());
    assert_eq!(
        authorize_trusted_reconnect(&store, &bob.peer_id, &bob.public_key)
            .unwrap_err()
            .kind,
        TrustStoreErrorKind::UnknownPeer
    );

    store.upsert(record).unwrap();
    let replacement = store
        .rotate(
            &bob.peer_id,
            PeerId::from_bytes([3; 32]),
            vec![3; 32],
            [9; 32],
            3_000,
        )
        .unwrap();
    assert_eq!(replacement.previous_key_fingerprints.len(), 1);
    assert_eq!(
        authorize_trusted_reconnect(&store, &bob.peer_id, &bob.public_key)
            .unwrap_err()
            .kind,
        TrustStoreErrorKind::Rotated
    );
}

#[test]
fn duplicate_timeout_cancel_and_transcript_tampering_fail_structurally() {
    let local = identity(1, "desktop");
    let duplicate = PairingSession::initiator(
        local.clone(),
        PairingId::from_bytes([1; 16]),
        ProtocolVersion::new(1, 0),
        [1; 32],
        PairingMethod::ShortCode,
        10,
        true,
        2,
    )
    .unwrap_err();
    assert_eq!(duplicate.kind, PairingErrorKind::DuplicatePairing);

    let mut timed = PairingSession::initiator(
        local.clone(),
        PairingId::from_bytes([2; 16]),
        ProtocolVersion::new(1, 0),
        [2; 32],
        PairingMethod::ShortCode,
        10,
        false,
        2,
    )
    .unwrap();
    assert_eq!(timed.tick(10).unwrap_err().kind, PairingErrorKind::TimedOut);
    assert_eq!(timed.state(), PairingState::TimedOut);

    let mut cancelled = PairingSession::initiator(
        local,
        PairingId::from_bytes([3; 16]),
        ProtocolVersion::new(1, 0),
        [3; 32],
        PairingMethod::BilateralConfirmation,
        20,
        false,
        2,
    )
    .unwrap();
    cancelled.cancel().unwrap();
    assert_eq!(cancelled.state(), PairingState::Cancelled);

    let mut rejecting_initiator = PairingSession::initiator(
        identity(4, "rejecting desktop"),
        PairingId::from_bytes([4; 16]),
        ProtocolVersion::new(1, 0),
        [4; 32],
        PairingMethod::ShortCode,
        20,
        false,
        2,
    )
    .unwrap();
    let offer = rejecting_initiator.offer().unwrap();
    let (mut rejecting_responder, _) =
        PairingSession::responder(identity(5, "rejecting phone"), offer, 1, false, 2).unwrap();
    let termination = rejecting_responder.reject().unwrap();
    rejecting_initiator
        .receive_termination(termination)
        .unwrap();
    assert_eq!(rejecting_responder.state(), PairingState::Rejected);
    assert_eq!(rejecting_initiator.state(), PairingState::Rejected);
}

#[test]
fn changed_answers_and_wrong_codes_are_refused() {
    let pair = || {
        let mut initiator = PairingSession::initiator(
            identity(1, "desktop"),
            PairingId::from_bytes([4; 16]),
            ProtocolVersion::new(1, 0),
            [7; 32],
            PairingMethod::ShortCode,
            10_000,
            false,
            8,
        )
        .unwrap();
        let offer = initiator.offer().unwrap();
        let (responder, response) =
            PairingSession::responder(identity(2, "phone"), offer, 1_000, false, 8).unwrap();
        initiator.presentation().unwrap_err();
        (initiator, responder, response)
    };

    let (mut initiator, _responder, mut response) = pair();
    response.responder.public_key[0] = 9;
    assert_eq!(
        initiator.receive_response(response, 1_000).unwrap_err().kind,
        PairingErrorKind::TranscriptMismatch
    );

    let (mut initiator, _responder, response) = pair();
    initiator.receive_response(response, 1_000).unwrap();
    let crypto = TestCrypto(vec![1; 32]);
    assert_eq!(
        initiator
            .confirm("not the code", &crypto, 1_001)
            .unwrap_err()
            .kind,
        PairingErrorKind::CodeMismatch
    );

    let (mut initiator, mut responder, response) = pair();
    initiator.receive_response(response, 1_000).unwrap();
    let code = responder.presentation().unwrap().short_code;
    assert_eq!(code.len(), 6);
    let mut proof = responder
        .confirm(&code, &TestCrypto(vec![2; 32]), 1_001)
        .unwrap();
    proof.signature[0] ^= 1;
    assert_eq!(
        initiator
            .receive_confirmation(proof, &crypto, 1_002)
            .unwrap_err()
            .kind,
        PairingErrorKind::IdentityProofRejected
    );
}

#[test]
fn records_over_a_limit_are_refused() {
    let mut table = TrustTable::new(1).unwrap();
    let record = |value: u8, alias: &str| TrustRecord {
        peer_id: PeerId::from_bytes([value; 32]),
        public_key: vec![value; 32],
        alias: alias.to_owned(),
        first_paired_at_unix_ms: 1,
        permissions: PermissionSet::new(),
        key_state: KeyState::Active,
        last_pairing_challenge_hash: [0; 32],
        previous_key_fingerprints: vec![],
    };
    table.put_record(record(1, "one")).unwrap();
    assert_eq!(
        table.put_record(record(2, "two")).unwrap_err().kind,
        TrustStoreErrorKind::LimitExceeded
    );
    assert_eq!(
        table
            .put_record(record(1, &"a".repeat(257)))
            .unwrap_err()
            .kind,
        TrustStoreErrorKind::LimitExceeded
    );
    assert_eq!(
        table
            .revoke_record(&PeerId::from_bytes([3; 32]), 5)
            .unwrap_err()
            .kind,
        TrustStoreErrorKind::UnknownPeer
    );
    assert_eq!(
        TrustTable::new(0).unwrap_err().kind,
        TrustStoreErrorKind::LimitExceeded
    );
    let mut written = table.write();
    written[0].peer_id = "zz".repeat(32);
    assert_eq!(
        TrustTable::read(written, 4).unwrap_err().kind,
        TrustStoreErrorKind::Corrupt
    );
}

#[test]
fn ended_pairings_take_no_step() {
    let mut initiator = PairingSession::initiator(
        identity(1, "desktop"),
        PairingId::from_bytes([4; 16]),
        ProtocolVersion::new(1, 0),
        [7; 32],
        PairingMethod::BilateralConfirmation,
        10_000,
        false,
        8,
    )
    .unwrap();
    let offer = initiator.offer().unwrap();
    let (_responder, response) =
        PairingSession::responder(identity(2, "phone"), offer, 1_000, false, 8).unwrap();
    initiator.cancel().unwrap();
    assert_eq!(
        initiator.cancel().unwrap_err().kind,
        PairingErrorKind::InvalidState
    );
    assert_eq!(initiator.state(), PairingState::Cancelled);
    assert_eq!(
        initiator.receive_response(response, 1_000).unwrap_err().kind,
        PairingErrorKind::InvalidState
    );
    assert_eq!(initiator.state(), PairingState::Failed);
}

#[test]
fn indexes_name_their_peers_and_plan_rotations() {
    let mut index = PeerIndex::new(2);
    index.add(PeerId::from_bytes([0xab; 32]));
    index.add(PeerId::from_bytes([1; 32]));
    let texts = index.write();
    assert_eq!(texts, vec!["01".repeat(32), "ab".repeat(32)]);
    let mut read = PeerIndex::read(texts, 2).unwrap();
    assert!(read.contains(&PeerId::from_bytes([0xab; 32])));
    assert_eq!(
        PeerIndex::read(vec!["01".repeat(31)], 2).unwrap_err().kind,
        TrustStoreErrorKind::Corrupt
    );
    assert_eq!(
        PeerIndex::read(vec!["01".repeat(32); 3], 2).unwrap_err().kind,
        TrustStoreErrorKind::LimitExceeded
    );
    let old = || {
        Some(TrustRecord {
            peer_id: PeerId::from_bytes([1; 32]),
            public_key: vec![1; 32],
            alias: "phone".to_owned(),
            first_paired_at_unix_ms: 1,
            permissions: PermissionSet::new(),
            key_state: KeyState::Active,
            last_pairing_challenge_hash: [0; 32],
            previous_key_fingerprints: vec![],
        })
    };
    let new_peer = PeerId::from_bytes([3; 32]);
    assert_eq!(
        read.plan_rotation(false, old(), new_peer, vec![3; 32], [9; 32], 5)
            .unwrap_err()
            .kind,
        TrustStoreErrorKind::LimitExceeded
    );
    read.remove(&PeerId::from_bytes([0xab; 32]));
    let (retired, replacement) = read
        .plan_rotation(false, old(), new_peer, vec![3; 32], [9; 32], 5)
        .unwrap();
    assert!(!retired.is_active());
    assert!(replacement.is_active());
    assert_eq!(
        replacement.previous_key_fingerprints,
        vec![retired.public_key_fingerprint()]
    );
    assert_eq!(
        read.plan_rotation(true, old(), new_peer, vec![3; 32], [9; 32], 5)
            .unwrap_err()
            .kind,
        TrustStoreErrorKind::Conflict
    );
    assert_eq!(
        read.plan_rotation(false, None, new_peer, vec![3; 32], [9; 32], 5)
            .unwrap_err()
            .kind,
        TrustStoreErrorKind::UnknownPeer
    );
    assert_eq!(
        read.check_rotation(true, &vec![3; 32]).unwrap_err().kind,
        TrustStoreErrorKind::Conflict
    );
    assert_eq!(
        read.check_rotation(false, &vec![]).unwrap_err().kind,
        TrustStoreErrorKind::Conflict
    );
    assert!(read.check_rotation(false, &vec![3; 32]).is_ok());
    assert!(check_index_size(72, 1).is_ok());
    assert!(check_index_size(73, 1).is_err());
}

#[test]
fn records_are_written_in_hexadecimal_and_in_order() {
    let mut permissions = PermissionSet::new();
    permissions.insert(LinkPermission::Datagram);
    permissions.insert(LinkPermission::Connect);
    permissions.insert(LinkPermission::Datagram);
    let record = TrustRecord {
        peer_id: PeerId::from_bytes([0x0f; 32]),
        public_key: vec![1; 32],
        alias: "phone".to_owned(),
        first_paired_at_unix_ms: 1,
        permissions,
        key_state: KeyState::Rotated {
            rotated_at_unix_ms: 2,
            new_peer_id: PeerId::from_bytes([0xa0; 32]),
        },
        last_pairing_challenge_hash: [7; 32],
        previous_key_fingerprints: vec![[8; 32]],
    };
    let dto = RecordDto::written(&record);
    assert_eq!(dto.peer_id, "0f".repeat(32));
    assert_eq!(
        dto.permissions,
        vec![LinkPermission::Connect, LinkPermission::Datagram]
    );
    let KeyStateDto::Rotated { new_peer_id, .. } = &dto.key_state else {
        panic!("the key was rotated");
    };
    assert_eq!(*new_peer_id, "a0".repeat(32));
    assert_eq!(dto.read().unwrap(), record.clone());
}

#[test]
fn indexes_are_kept_as_text() {
    let mut index = PeerIndex::new(2);
    assert_eq!(index.write_text().unwrap(), "[]");
    index.add(PeerId::from_bytes([0xab; 32]));
    index.add(PeerId::from_bytes([1; 32]));
    let encoded = index.write_text().unwrap();
    assert_eq!(
        encoded,
        format!("[\"{}\",\"{}\"]", "01".repeat(32), "ab".repeat(32))
    );
    let read = PeerIndex::read_text(&encoded, 2).unwrap();
    assert_eq!(read.write(), index.write());
    let spaced = format!(" [ \"{}\" ] ", "01".repeat(32));
    assert_eq!(
        PeerIndex::read_text(&spaced, 2).unwrap().write(),
        vec!["01".repeat(32)]
    );

    let fault = |encoded: &str| PeerIndex::read_text(encoded, 1).unwrap_err();
    assert_eq!(
        fault(&" ".repeat(73)).kind,
        TrustStoreErrorKind::LimitExceeded
    );
    assert_eq!(fault("[\"\",\"\"]").kind, TrustStoreErrorKind::LimitExceeded);
    assert_eq!(fault("[1]"), keyring_corrupt_error());
    assert_eq!(fault("[\"01\"]"), TrustStoreError::corrupt());
    assert_eq!(keyring_corrupt_error().kind, TrustStoreErrorKind::Corrupt);
}

#[test]
fn credential_stores_are_checked_and_revoke_records() {
    assert!(check_keyring_service("service", 1).is_ok());
    for (service, limit) in [("", 1), ("service", 0)] {
        assert_eq!(
            check_keyring_service(service, limit).unwrap_err().kind,
            TrustStoreErrorKind::Unavailable
        );
    }
    assert_eq!(
        plan_revocation(None, 7).unwrap_err().kind,
        TrustStoreErrorKind::UnknownPeer
    );
    let record = TrustRecord {
        peer_id: PeerId::from_bytes([1; 32]),
        public_key: vec![1; 32],
        alias: "phone".to_owned(),
        first_paired_at_unix_ms: 1,
        permissions: PermissionSet::new(),
        key_state: KeyState::Active,
        last_pairing_challenge_hash: [0; 32],
        previous_key_fingerprints: vec![],
    };
    let revoked = plan_revocation(Some(record.clone()), 7).unwrap();
    assert_eq!(
        revoked,
        TrustRecord {
            key_state: KeyState::Revoked {
                revoked_at_unix_ms: 7
            },
            ..record
        }
    );
}
