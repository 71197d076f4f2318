//! The records of a trust store, and the form in which they are written down.

use vstd::prelude::*;
use vstd::utf8::encode_utf8;
use crate::bytes::{copy_range, read_32};
use crate::digest::sha256;
use crate::identity::PeerId;
use crate::sorted_map::{SortedMap, ascending_keys, ascending_keys_exist};
use crate::text::{hex_digit, hex_text, is_empty_text, lemma_ascii_char, push_hex};
use crate::trust::{
    DEFAULT_MAX_TRUST_RECORDS, KeyState, LinkPermission, PermissionSet, PermissionView, RecordView,
    TrustRecord, TrustStoreError, TrustStoreErrorKind, copy_fingerprints, lemma_push_members,
    reconnect_fault, validate_record,
};

verus! {

/// The longest file that is read as a trust store.
pub const MAX_TRUST_STORE_FILE_BYTES: u64 = 16777216;

/// The value of a hexadecimal digit of either case.
pub open spec fn hex_value(c: char) -> Option<int> {
    if '0' <= c && c <= '9' {
        Some(c as int - 48)
    } else if 'a' <= c && c <= 'f' {
        Some(c as int - 87)
    } else if 'A' <= c && c <= 'F' {
        Some(c as int - 55)
    } else {
        None
    }
}

/// The value of two characters: two digits, or a plus sign and a digit.
pub open spec fn pair_value(a: char, b: char) -> Option<int> {
    match (hex_value(a), hex_value(b)) {
        (Some(x), Some(y)) => Some(16 * x + y),
        (None, Some(y)) => if a == '+' {
            Some(y)
        } else {
            None
        },
        _ => None,
    }
}

/// Whether a text is the hexadecimal form of 32 bytes.
pub open spec fn is_hex_32(text: Seq<char>) -> bool {
    text.len() == 64 && forall|i: int|
        0 <= i < 32 ==> pair_value(#[trigger] text[2 * i], text[2 * i + 1]) is Some
}

/// The bytes that a text is the hexadecimal form of.
pub open spec fn hex_bytes(text: Seq<char>) -> Seq<u8> {
    Seq::new(text.len() / 2, |i: int| pair_value(text[2 * i], text[2 * i + 1])->0 as u8)
}

fn digit_value(b: u8) -> (value: Option<u8>)
    requires
        b < 128,
    ensures
        match value {
            Some(v) => hex_value(b as char) == Some(v as int) && v < 16,
            None => hex_value(b as char) is None,
        },
{
    if 0x30 <= b && b <= 0x39 {
        Some(b - 48)
    } else if 0x61 <= b && b <= 0x66 {
        Some(b - 87)
    } else if 0x41 <= b && b <= 0x46 {
        Some(b - 55)
    } else {
        None
    }
}

fn decode_pair(a: u8, b: u8) -> (value: Option<u8>)
    requires
        a < 128,
        b < 128,
    ensures
        match value {
            Some(v) => pair_value(a as char, b as char) == Some(v as int),
            None => pair_value(a as char, b as char) is None,
        },
{
    match (digit_value(a), digit_value(b)) {
        (Some(x), Some(y)) => Some(16 * x + y),
        (None, Some(y)) => if a == 0x2b {
            Some(y)
        } else {
            None
        },
        _ => None,
    }
}

/// The bytes in hexadecimal.
pub fn encode(bytes: &[u8]) -> (text: String)
    ensures
        text@ == hex_text(bytes@),
{
    let mut text = String::new();
    push_hex(&mut text, bytes);
    assert(text@ =~= hex_text(bytes@));
    text
}

/// Reads a peer from its hexadecimal form.
pub fn decode_peer_id(value: &str) -> (peer_id: Result<PeerId, TrustStoreError>)
    ensures
        match peer_id {
            Ok(id) => is_hex_32(value@) && id@ == hex_bytes(value@),
            Err(e) => !is_hex_32(value@) && e == TrustStoreError::corrupt(),
        },
{
    if !value.is_ascii() {
        proof {
            if is_hex_32(value@) {
                lemma_hex_is_ascii(value@);
            }
        }
        return Err(TrustStoreError::corrupt());
    }
    let text = value.as_bytes();
    proof {
        vstd::string::is_ascii_spec_bytes(value);
    }
    if text.len() != 64 {
        return Err(TrustStoreError::corrupt());
    }
    let mut bytes: [u8; 32] = [0; 32];
    let mut i: usize = 0;
    while i < 32
        invariant
            i <= 32,
            text@.len() == 64,
            value@.len() == 64,
            vstd::utf8::is_ascii_chars(value@),
            forall|j: int| 0 <= j < value@.len() ==> text@[j] == value@[j] as u8,
            forall|j: int|
                0 <= j < i ==> pair_value(#[trigger] value@[2 * j], value@[2 * j + 1]) is Some,
            forall|j: int|
                0 <= j < i ==> #[trigger] bytes@[j] == pair_value(value@[2 * j], value@[2 * j + 1])->0,
        decreases 32 - i,
    {
        proof {
            lemma_ascii_char(value@, 2 * i as int);
            lemma_ascii_char(value@, 2 * i as int + 1);
        }
        match decode_pair(text[2 * i], text[2 * i + 1]) {
            Some(byte) => {
                bytes[i] = byte;
            },
            None => {
                assert(pair_value(value@[2 * i as int], value@[2 * i as int + 1]) is None);
                return Err(TrustStoreError::corrupt());
            },
        }
        i = i + 1;
    }
    assert(bytes@ =~= hex_bytes(value@));
    Ok(PeerId::from_bytes(bytes))
}

proof fn lemma_hex_is_ascii(text: Seq<char>)
    requires
        is_hex_32(text),
    ensures
        vstd::utf8::is_ascii_chars(text),
{
    assert forall|k: int| 0 <= k < text.len() implies '\0' <= #[trigger] text[k] <= '\u{7f}' by {
        let i = k / 2;
        assert(pair_value(text[2 * i], text[2 * i + 1]) is Some);
        assert(k == 2 * i || k == 2 * i + 1);
    }
}

/// What became of a key, as it is written down.
#[derive(Clone, Debug)]
pub enum KeyStateDto {
    Active,
    Revoked { revoked_at_unix_ms: u64 },
    Rotated { rotated_at_unix_ms: u64, new_peer_id: String },
}

/// A trust record as it is written down.
#[derive(Clone, Debug)]
pub struct RecordDto {
    pub peer_id: String,
    pub public_key: Vec<u8>,
    pub alias: String,
    pub first_paired_at_unix_ms: u64,
    pub permissions: Vec<LinkPermission>,
    pub key_state: KeyStateDto,
    pub last_pairing_challenge_hash: Vec<u8>,
    pub previous_key_fingerprints: Vec<Vec<u8>>,
}

/// The permissions of a row.
pub open spec fn permission_row(row: Seq<LinkPermission>) -> Seq<PermissionView> {
    row.map_values(|p: LinkPermission| p@)
}

/// Whether what is written down can be read.
pub open spec fn readable(dto: RecordDto) -> bool {
    &&& is_hex_32(dto.peer_id@)
    &&& dto.last_pairing_challenge_hash@.len() == 32
    &&& forall|i: int|
        0 <= i < dto.previous_key_fingerprints@.len() ==> (
        #[trigger] dto.previous_key_fingerprints@[i])@.len() == 32
    &&& match dto.key_state {
        KeyStateDto::Rotated { new_peer_id, .. } => is_hex_32(new_peer_id@),
        _ => true,
    }
}

/// Whether a record says what is written down.
pub open spec fn reads_as(dto: RecordDto, record: RecordView) -> bool {
    &&& record.peer_id == hex_bytes(dto.peer_id@)
    &&& record.public_key == dto.public_key@
    &&& record.alias == dto.alias@
    &&& record.first_paired_at_unix_ms == dto.first_paired_at_unix_ms
    &&& record.permissions == permission_row(dto.permissions@).to_set()
    &&& match dto.key_state {
        KeyStateDto::Active => record.key_state == KeyState::Active,
        KeyStateDto::Revoked { revoked_at_unix_ms } => record.key_state == (KeyState::Revoked {
            revoked_at_unix_ms,
        }),
        KeyStateDto::Rotated { rotated_at_unix_ms, new_peer_id } => match record.key_state {
            KeyState::Rotated { rotated_at_unix_ms: at, new_peer_id: to } => at == rotated_at_unix_ms
                && to@ == hex_bytes(new_peer_id@),
            _ => false,
        },
    }
    &&& record.last_pairing_challenge_hash == dto.last_pairing_challenge_hash@
    &&& record.previous_key_fingerprints.len() == dto.previous_key_fingerprints@.len()
    &&& forall|i: int|
        0 <= i < record.previous_key_fingerprints.len() ==> (
        #[trigger] record.previous_key_fingerprints[i])@ == dto.previous_key_fingerprints@[i]@
}

/// Whether a record is written down like this: peers in hexadecimal digits, and the
/// permissions in ascending order.
pub open spec fn written_as(dto: RecordDto, record: RecordView) -> bool {
    &&& readable(dto)
    &&& reads_as(dto, record)
    &&& dto.peer_id@ == hex_text(record.peer_id)
    &&& permission_row(dto.permissions@) == ascending_keys::<LinkPermission>(record.permissions)
    &&& match (dto.key_state, record.key_state) {
        (
            KeyStateDto::Rotated { new_peer_id: text, .. },
            KeyState::Rotated { new_peer_id, .. },
        ) => text@ == hex_text(new_peer_id@),
        _ => true,
    }
}

fn decode_32(value: &Vec<u8>) -> (bytes: Result<[u8; 32], TrustStoreError>)
    ensures
        match bytes {
            Ok(b) => value@.len() == 32 && b@ == value@,
            Err(e) => value@.len() != 32 && e == TrustStoreError::corrupt(),
        },
{
    if value.len() != 32 {
        return Err(TrustStoreError::corrupt());
    }
    let bytes = read_32(value.as_slice(), 0);
    assert(bytes@ =~= value@);
    Ok(bytes)
}

impl RecordDto {
    /// Reads the record.
    pub fn read(self) -> (record: Result<TrustRecord, TrustStoreError>)
        ensures
            match record {
                Ok(r) => readable(self) && reads_as(self, r@) && r@.valid(),
                Err(e) => if !readable(self) {
                    e == TrustStoreError::corrupt()
                } else {
                    e == TrustStoreError::over_limit() && exists|r: RecordView| #[trigger]
                        reads_as(self, r) && !r.valid()
                },
            },
    {
        let peer_id = decode_peer_id(self.peer_id.as_str())?;
        let challenge = decode_32(&self.last_pairing_challenge_hash)?;
        let previous = read_fingerprints(&self.previous_key_fingerprints)?;
        let key_state = match &self.key_state {
            KeyStateDto::Active => KeyState::Active,
            KeyStateDto::Revoked { revoked_at_unix_ms } => KeyState::Revoked {
                revoked_at_unix_ms: *revoked_at_unix_ms,
            },
            KeyStateDto::Rotated { rotated_at_unix_ms, new_peer_id } => KeyState::Rotated {
                rotated_at_unix_ms: *rotated_at_unix_ms,
                new_peer_id: decode_peer_id(new_peer_id.as_str())?,
            },
        };
        let permissions = read_permissions(&self.permissions);
        let record = TrustRecord {
            peer_id,
            public_key: self.public_key,
            alias: self.alias,
            first_paired_at_unix_ms: self.first_paired_at_unix_ms,
            permissions,
            key_state,
            last_pairing_challenge_hash: challenge,
            previous_key_fingerprints: previous,
        };
        assert(reads_as(self, record@));
        validate_record(&record)?;
        Ok(record)
    }

    /// Writes a record down.
    pub fn written(record: &TrustRecord) -> (dto: Self)
        ensures
            written_as(dto, record@),
    {
        let key_state = match &record.key_state {
            KeyState::Active => KeyStateDto::Active,
            KeyState::Revoked { revoked_at_unix_ms } => KeyStateDto::Revoked {
                revoked_at_unix_ms: *revoked_at_unix_ms,
            },
            KeyState::Rotated { rotated_at_unix_ms, new_peer_id } => {
                proof {
                    hex_round_trip(new_peer_id@);
                }
                KeyStateDto::Rotated {
                    rotated_at_unix_ms: *rotated_at_unix_ms,
                    new_peer_id: encode(new_peer_id.as_bytes()),
                }
            },
        };
        let public_key = record.public_key.clone();
        let challenge = array_bytes(&record.last_pairing_challenge_hash);
        let mut previous: Vec<Vec<u8>> = Vec::new();
        let mut i: usize = 0;
        while i < record.previous_key_fingerprints.len()
            invariant
                i <= record.previous_key_fingerprints@.len(),
                previous@.len() == i,
                forall|j: int|
                    0 <= j < i ==> (#[trigger] previous@[j])@ == record.previous_key_fingerprints@[j]@,
            decreases record.previous_key_fingerprints@.len() - i,
        {
            previous.push(array_bytes(&record.previous_key_fingerprints[i]));
            i = i + 1;
        }
        proof {
            hex_round_trip(record.peer_id@);
            assert(public_key@ =~= record.public_key@);
        }
        RecordDto {
            peer_id: encode(record.peer_id.as_bytes()),
            public_key,
            alias: record.alias.clone(),
            first_paired_at_unix_ms: record.first_paired_at_unix_ms,
            permissions: write_permissions(&record.permissions),
            key_state,
            last_pairing_challenge_hash: challenge,
            previous_key_fingerprints: previous,
        }
    }
}

fn array_bytes(bytes: &[u8; 32]) -> (out: Vec<u8>)
    ensures
        out@ == bytes@,
{
    let out = copy_range(bytes, 0, 32);
    assert(out@ =~= bytes@);
    out
}

fn read_fingerprints(values: &Vec<Vec<u8>>) -> (fingerprints: Result<Vec<[u8; 32]>, TrustStoreError>)
    ensures
        match fingerprints {
            Ok(f) => f@.len() == values@.len() && forall|i: int|
                0 <= i < values@.len() ==> (#[trigger] values@[i])@.len() == 32 && f@[i]@ == values@[i]@,
            Err(e) => e == TrustStoreError::corrupt() && exists|i: int|
                0 <= i < values@.len() && (#[trigger] values@[i])@.len() != 32,
        },
{
    let mut fingerprints: Vec<[u8; 32]> = Vec::new();
    let mut i: usize = 0;
    while i < values.len()
        invariant
            i <= values@.len(),
            fingerprints@.len() == i,
            forall|j: int|
                0 <= j < i ==> (#[trigger] values@[j])@.len() == 32 && fingerprints@[j]@ == values@[j]@,
        decreases values@.len() - i,
    {
        let fingerprint = decode_32(&values[i])?;
        fingerprints.push(fingerprint);
        i = i + 1;
    }
    Ok(fingerprints)
}

fn read_permissions(row: &Vec<LinkPermission>) -> (permissions: PermissionSet)
    ensures
        permissions@ == permission_row(row@).to_set(),
{
    let mut permissions = PermissionSet::new();
    let ghost views = permission_row(row@);
    let mut i: usize = 0;
    assert(permissions@ =~= views.subrange(0, 0).to_set());
    while i < row.len()
        invariant
            views == permission_row(row@),
            i <= row@.len(),
            permissions@ == views.subrange(0, i as int).to_set(),
        decreases row@.len() - i,
    {
        permissions.insert(row[i].duplicate());
        proof {
            let done = views.subrange(0, i as int);
            assert(views.subrange(0, i + 1) =~= done.push(views[i as int]));
            lemma_push_members(done, views[i as int]);
        }
        i = i + 1;
    }
    assert(views.subrange(0, i as int) =~= views);
    permissions
}

fn write_permissions(permissions: &PermissionSet) -> (row: Vec<LinkPermission>)
    ensures
        permission_row(row@).to_set() == permissions@,
        permission_row(row@) == ascending_keys::<LinkPermission>(permissions@),
{
    let mut row: Vec<LinkPermission> = Vec::new();
    let len: usize = permissions.len();
    let mut i: usize = 0;
    while i < len
        invariant
            len == permissions@.len(),
            i <= len,
            permissions.entries_sorted(),
            permissions.row().len() == len,
            row@.len() == i,
            forall|j: int| 0 <= j < i ==> (#[trigger] row@[j])@ == permissions.row()[j],
        decreases len - i,
    {
        let permission = permissions.at(i);
        row.push(permission.duplicate());
        i = i + 1;
    }
    proof {
        permissions.lemma_row();
        assert(permission_row(row@) =~= permissions.row());
    }
    row
}

/// What was written in hexadecimal is read back.
pub proof fn hex_round_trip(bytes: Seq<u8>)
    requires
        bytes.len() == 32,
    ensures
        is_hex_32(hex_text(bytes)),
        hex_bytes(hex_text(bytes)) == bytes,
{
    let text = hex_text(bytes);
    assert forall|i: int| 0 <= i < 32 implies pair_value(#[trigger] text[2 * i], text[2 * i + 1]) == Some(
        bytes[i] as int,
    ) by {
        let b = bytes[i] as int;
        assert(text[2 * i] == hex_digit(b / 16));
        assert(text[2 * i + 1] == hex_digit(b % 16));
        assert(hex_value(hex_digit(b / 16)) == Some(b / 16));
        assert(hex_value(hex_digit(b % 16)) == Some(b % 16));
        assert(16 * (b / 16) + b % 16 == b);
    }
    assert(hex_bytes(text) =~= bytes);
}

/// A record that was written down is read back as it was.
pub proof fn written_records_are_read_back(dto: RecordDto, record: RecordView, read: RecordView)
    requires
        readable(dto),
        reads_as(dto, record),
        reads_as(dto, read),
    ensures
        record == read,
{
    match (record.key_state, read.key_state) {
        (
            KeyState::Rotated { new_peer_id: a, .. },
            KeyState::Rotated { new_peer_id: b, .. },
        ) => {
            assert(a.0 =~= b.0);
        },
        _ => {},
    }
    assert forall|i: int| 0 <= i < record.previous_key_fingerprints.len() implies #[trigger]
        record.previous_key_fingerprints[i] == read.previous_key_fingerprints[i] by {
        assert(record.previous_key_fingerprints[i] =~= read.previous_key_fingerprints[i]);
    }
    assert(record.previous_key_fingerprints =~= read.previous_key_fingerprints);
}

/// The records of a trust store, by peer, and how many it may hold.
#[derive(Debug)]
pub struct TrustTable {
    records: SortedMap<PeerId, TrustRecord>,
    max_records: usize,
}

#[verifier::ext_equal]
pub struct TableView {
    pub records: Map<Seq<u8>, RecordView>,
    pub max_records: usize,
}

impl View for TrustTable {
    type V = TableView;

    closed spec fn view(&self) -> TableView {
        TableView {
            records: self.records@.map_values(|r: TrustRecord| r@),
            max_records: self.max_records,
        }
    }
}

/// That a store is full.
#[verifier::allow_in_spec]
pub fn store_limit_error() -> TrustStoreError
    returns
        TrustStoreError::new(TrustStoreErrorKind::LimitExceeded, "trust store limit exceeded"),
{
    TrustStoreError::new(TrustStoreErrorKind::LimitExceeded, "trust store limit exceeded")
}

/// That identities stand in each other's way.
#[verifier::allow_in_spec]
pub fn conflict(public_message: &'static str) -> TrustStoreError
    returns
        TrustStoreError::new(TrustStoreErrorKind::Conflict, public_message),
{
    TrustStoreError::new(TrustStoreErrorKind::Conflict, public_message)
}

/// Whether a file of this length may be read as a trust store.
pub fn check_store_size(bytes: u64) -> (fits: Result<(), TrustStoreError>)
    ensures
        fits == (if bytes > MAX_TRUST_STORE_FILE_BYTES {
            Err::<(), TrustStoreError>(store_limit_error())
        } else {
            Ok(())
        }),
{
    if bytes > MAX_TRUST_STORE_FILE_BYTES {
        return Err(store_limit_error());
    }
    Ok(())
}

/// The record of the new key after a rotation: the old key is remembered by its
/// digest.
pub open spec fn is_replacement(
    old_record: RecordView,
    new_peer_id: Seq<u8>,
    new_public_key: Seq<u8>,
    challenge_hash: Seq<u8>,
    replacement: RecordView,
) -> bool {
    let previous = replacement.previous_key_fingerprints;
    &&& replacement.peer_id == new_peer_id
    &&& replacement.public_key == new_public_key
    &&& replacement.alias == old_record.alias
    &&& replacement.first_paired_at_unix_ms == old_record.first_paired_at_unix_ms
    &&& replacement.permissions == old_record.permissions
    &&& replacement.key_state == KeyState::Active
    &&& replacement.last_pairing_challenge_hash == challenge_hash
    &&& previous.len() == old_record.previous_key_fingerprints.len() + 1
    &&& previous.drop_last() == old_record.previous_key_fingerprints
    &&& previous.last()@ == sha256(old_record.public_key)
}

/// The record of the new key after a rotation.
pub fn replacement_record(
    old_record: &TrustRecord,
    new_peer_id: PeerId,
    new_public_key: Vec<u8>,
    challenge_hash: [u8; 32],
) -> (replacement: TrustRecord)
    ensures
        is_replacement(old_record@, new_peer_id@, new_public_key@, challenge_hash@, replacement@),
{
    let mut previous = copy_fingerprints(&old_record.previous_key_fingerprints);
    previous.push(old_record.public_key_fingerprint());
    assert(previous@.drop_last() =~= old_record.previous_key_fingerprints@);
    TrustRecord {
        peer_id: new_peer_id,
        public_key: new_public_key,
        alias: old_record.alias.clone(),
        first_paired_at_unix_ms: old_record.first_paired_at_unix_ms,
        permissions: old_record.permissions.duplicate(),
        key_state: KeyState::Active,
        last_pairing_challenge_hash: challenge_hash,
        previous_key_fingerprints: previous,
    }
}

/// Two replacements of the same record differ in nothing.
pub proof fn replacements_are_fixed(
    old_record: RecordView,
    new_peer_id: Seq<u8>,
    new_public_key: Seq<u8>,
    challenge_hash: Seq<u8>,
    a: RecordView,
    b: RecordView,
)
    requires
        is_replacement(old_record, new_peer_id, new_public_key, challenge_hash, a),
        is_replacement(old_record, new_peer_id, new_public_key, challenge_hash, b),
    ensures
        a == b,
{
    let pa = a.previous_key_fingerprints;
    let pb = b.previous_key_fingerprints;
    assert(pa.last() =~= pb.last());
    assert(pa =~= pa.drop_last().push(pa.last()));
    assert(pb =~= pb.drop_last().push(pb.last()));
}

/// A row of records, by peer: the later of two with the same peer stays.
pub open spec fn records_of(row: Seq<RecordView>) -> Map<Seq<u8>, RecordView>
    decreases row.len(),
{
    if row.len() == 0 {
        Map::empty()
    } else {
        records_of(row.drop_last()).insert(row.last().peer_id, row.last())
    }
}

/// Whether the records say what is written down, one by one.
pub open spec fn all_read(dtos: Seq<RecordDto>, row: Seq<RecordView>) -> bool {
    &&& dtos.len() == row.len()
    &&& forall|i: int|
        0 <= i < row.len() ==> #[trigger] reads_as(dtos[i], row[i]) && readable(dtos[i]) && row[i].valid()
}

impl TableView {
    /// Whether every record stands under its peer and keeps to the limits.
    pub open spec fn wf(self) -> bool {
        &&& self.max_records > 0
        &&& self.records.dom().finite()
        &&& self.records.dom().len() <= self.max_records
        &&& forall|peer: Seq<u8>| #[trigger]
            self.records.contains_key(peer) ==> self.records[peer].peer_id == peer
                && self.records[peer].valid()
    }

    /// Why a record is not taken.
    pub open spec fn upsert_fault(self, record: RecordView) -> Option<TrustStoreError> {
        if !record.valid() {
            Some(TrustStoreError::over_limit())
        } else if !self.records.contains_key(record.peer_id) && self.records.dom().len()
            >= self.max_records {
            Some(store_limit_error())
        } else {
            None
        }
    }

    /// With a record put in the place of its peer.
    pub open spec fn with_record(self, record: RecordView) -> TableView {
        TableView { records: self.records.insert(record.peer_id, record), ..self }
    }

    /// With the key of a peer in another state.
    pub open spec fn with_key_state(self, peer: Seq<u8>, key_state: KeyState) -> TableView {
        self.with_record(RecordView { key_state, ..self.records[peer] })
    }

    /// Why a key is not rotated, the limits of the new record aside.
    pub open spec fn rotate_fault(
        self,
        old_peer: Seq<u8>,
        new_peer: Seq<u8>,
        new_public_key: Seq<u8>,
    ) -> Option<TrustStoreError> {
        if new_public_key.len() == 0 || new_peer == old_peer {
            Some(conflict("identity rotation parameters conflict"))
        } else if self.records.contains_key(new_peer) {
            Some(conflict("new peer identity already exists"))
        } else if self.records.dom().len() >= self.max_records {
            Some(store_limit_error())
        } else if !self.records.contains_key(old_peer) {
            Some(TrustStoreError::unknown_peer())
        } else if self.records[old_peer].key_state != KeyState::Active {
            Some(conflict("only an active identity can rotate"))
        } else {
            None
        }
    }
}

impl TrustTable {
    /// Whether the table is valid.
    pub closed spec fn wf(&self) -> bool {
        self.records.wf() && self@.wf()
    }

    proof fn lemma_records(&self)
        requires
            self.records.wf(),
        ensures
            self@.records.dom() == self.records@.dom(),
            self.records.keys().len() == self@.records.dom().len(),
            self.records.keys() == ascending_keys::<PeerId>(self@.records.dom()),
    {
        self.records.lemma_entries();
        self.records.lemma_ascending_keys();
        assert(self@.records.dom() =~= self.records@.dom());
    }

    /// A table without records.
    pub fn new(max_records: usize) -> (table: Result<Self, TrustStoreError>)
        ensures
            match table {
                Ok(t) => max_records > 0 && t.wf() && t@ == (TableView {
                    records: Map::empty(),
                    max_records,
                }),
                Err(e) => max_records == 0 && e == store_limit_error(),
            },
    {
        if max_records == 0 {
            return Err(store_limit_error());
        }
        let table = TrustTable { records: SortedMap::new(), max_records };
        assert(table@.records =~= Map::empty());
        Ok(table)
    }

    /// A table without records, of the usual size.
    pub fn with_default_limit() -> (table: Self)
        ensures
            table.wf(),
            table@ == (TableView {
                records: Map::empty(),
                max_records: DEFAULT_MAX_TRUST_RECORDS,
            }),
    {
        let table = TrustTable { records: SortedMap::new(), max_records: DEFAULT_MAX_TRUST_RECORDS };
        assert(table@.records =~= Map::empty());
        table
    }

    /// Reads the records that were written down. The first that cannot be read, or
    /// that is over the limits, makes the whole store unreadable.
    pub fn read(dtos: Vec<RecordDto>, max_records: usize) -> (table: Result<Self, TrustStoreError>)
        ensures
            match table {
                Ok(t) => {
                    &&& 0 < max_records
                    &&& dtos@.len() <= max_records
                    &&& t.wf()
                    &&& t@.max_records == max_records
                    &&& exists|row: Seq<RecordView>| #[trigger]
                        all_read(dtos@, row) && t@.records == records_of(row)
                },
                Err(e) => if max_records == 0 || dtos@.len() > max_records {
                    e == store_limit_error()
                } else {
                    exists|i: int|
                        0 <= i < dtos@.len() && (if readable(#[trigger] dtos@[i]) {
                            e == TrustStoreError::over_limit() && exists|r: RecordView| #[trigger]
                                reads_as(dtos@[i], r) && !r.valid()
                        } else {
                            e == TrustStoreError::corrupt()
                        }) && forall|j: int|
                            0 <= j < i ==> readable(#[trigger] dtos@[j]) && exists|r: RecordView|
                                #[trigger]
                                reads_as(dtos@[j], r) && r.valid()
                },
            },
    {
        let ghost all = dtos@;
        let mut table = TrustTable::new(max_records)?;
        if dtos.len() > max_records {
            return Err(store_limit_error());
        }
        let mut rest = dtos;
        let ghost mut row: Seq<RecordView> = Seq::empty();
        let ghost mut i: int = 0;
        assert(rest@ =~= all.subrange(0, all.len() as int));
        while rest.len() > 0
            invariant
                all == dtos@,
                all.len() <= max_records,
                0 < max_records,
                0 <= i <= all.len(),
                rest@ == all.subrange(i, all.len() as int),
                row.len() == i,
                all_read(all.subrange(0, i), row),
                table.wf(),
                table@.max_records == max_records,
                table@.records == records_of(row),
                table@.records.dom().len() <= i,
            decreases rest@.len(),
        {
            let dto = rest.remove(0);
            let ghost at = all[i];
            proof {
                assert(dto == at);
                assert forall|j: int| 0 <= j < i implies readable(#[trigger] all[j]) && exists|r: RecordView|
                    #[trigger]
                    reads_as(all[j], r) && r.valid() by {
                    assert(all.subrange(0, i)[j] == all[j]);
                    assert(reads_as(all.subrange(0, i)[j], row[j]));
                }
            }
            let record = match dto.read() {
                Ok(record) => record,
                Err(e) => {
                    assert(dtos@[i] == at);
                    return Err(e);
                },
            };
            proof {
                table.lemma_records();
                let more = row.push(record@);
                assert(more.drop_last() =~= row);
                assert(records_of(more) == records_of(row).insert(record@.peer_id, record@));
                let upto = all.subrange(0, i + 1);
                assert forall|j: int| 0 <= j < more.len() implies #[trigger] reads_as(upto[j], more[j])
                    && readable(upto[j]) && more[j].valid() by {
                    if j < i {
                        assert(upto[j] == all.subrange(0, i)[j]);
                        assert(reads_as(all.subrange(0, i)[j], row[j]));
                    }
                }
                assert(all_read(upto, more));
                row = more;
                i = i + 1;
                assert(rest@ =~= all.subrange(i, all.len() as int));
            }
            let ghost before = table@;
            table.put(record);
            assert(table@.records =~= records_of(row));
        }
        proof {
            assert(all.subrange(0, i) =~= all);
            assert(all_read(all, row));
        }
        Ok(table)
    }

    /// Puts a record in the place of its peer.
    fn put(&mut self, record: TrustRecord)
        requires
            old(self).wf(),
            record@.valid(),
            old(self)@.records.contains_key(record@.peer_id) || old(self)@.records.dom().len()
                < old(self)@.max_records,
        ensures
            final(self).wf(),
            final(self)@ == old(self)@.with_record(record@),
            final(self)@.records.dom().len() <= old(self)@.records.dom().len() + 1,
    {
        let ghost before = self@;
        proof {
            self.lemma_records();
        }
        self.records.insert(record.peer_id, record);
        proof {
            assert(self@.records =~= before.records.insert(record@.peer_id, record@));
            assert(self@ =~= before.with_record(record@));
            assert forall|peer: Seq<u8>| #[trigger] self@.records.contains_key(peer) implies
                self@.records[peer].peer_id == peer && self@.records[peer].valid() by {
                assert(peer != record@.peer_id ==> before.records.contains_key(peer));
            }
        }
    }

    /// Writes the records down, in the order of their peers.
    pub fn write(&self) -> (dtos: Vec<RecordDto>)
        requires
            self.wf(),
        ensures
            ({
                let peers = ascending_keys::<PeerId>(self@.records.dom());
                &&& dtos@.len() == peers.len()
                &&& forall|i: int|
                    0 <= i < peers.len() ==> written_as(
                        #[trigger] dtos@[i],
                        self@.records[peers[i]],
                    )
            }),
    {
        let mut dtos: Vec<RecordDto> = Vec::new();
        let mut i: usize = 0;
        let len: usize = self.records.len();
        let ghost peers = ascending_keys::<PeerId>(self@.records.dom());
        proof {
            self.lemma_records();
        }
        while i < len
            invariant
                self.wf(),
                peers == self.records.keys(),
                len == peers.len(),
                i <= len,
                dtos@.len() == i,
                forall|j: int|
                    0 <= j < i ==> written_as(#[trigger] dtos@[j], self@.records[peers[j]]),
            decreases len - i,
        {
            proof {
                self.records.lemma_entries();
                assert(self.records@.contains_key(peers[i as int]));
            }
            dtos.push(RecordDto::written(self.records.value_at(i)));
            i = i + 1;
        }
        dtos
    }

    /// How many records there are.
    pub fn len(&self) -> (n: usize)
        requires
            self.wf(),
        ensures
            n == self@.records.dom().len(),
    {
        proof {
            self.lemma_records();
        }
        self.records.len()
    }

    /// The record of a peer.
    pub fn record(&self, peer_id: &PeerId) -> (record: Option<&TrustRecord>)
        requires
            self.wf(),
        ensures
            match record {
                Some(r) => self@.records.contains_key(peer_id@) && r@ == self@.records[peer_id@],
                None => !self@.records.contains_key(peer_id@),
            },
    {
        proof {
            self.lemma_records();
        }
        self.records.get(peer_id)
    }

    /// The record at a place of the order of peers.
    pub fn record_at(&self, i: usize) -> (record: &TrustRecord)
        requires
            self.wf(),
            i < self@.records.dom().len(),
        ensures
            record@ == self@.records[ascending_keys::<PeerId>(self@.records.dom())[i as int]],
    {
        proof {
            self.lemma_records();
            self.records.lemma_entries();
            assert(self.records@.contains_key(self.records.keys()[i as int]));
        }
        self.records.value_at(i)
    }

    /// A copy of the table.
    pub fn duplicate(&self) -> (copy: Self)
        requires
            self.wf(),
        ensures
            copy.wf(),
            copy@ == self@,
    {
        let mut records: SortedMap<PeerId, TrustRecord> = SortedMap::new();
        let len: usize = self.records.len();
        let mut i: usize = 0;
        let ghost keys = self.records.keys();
        proof {
            self.lemma_records();
            self.records.lemma_entries();
            assert(records@.map_values(|r: TrustRecord| r@) =~= self@.records.restrict(
                keys.subrange(0, 0).to_set(),
            ));
        }
        while i < len
            invariant
                self.wf(),
                keys == self.records.keys(),
                keys.no_duplicates(),
                len == keys.len(),
                i <= len,
                records.wf(),
                records@.map_values(|r: TrustRecord| r@) == self@.records.restrict(
                    keys.subrange(0, i as int).to_set(),
                ),
            decreases len - i,
        {
            proof {
                self.records.lemma_entries();
                self.lemma_records();
                assert(self.records@.contains_key(keys[i as int]));
            }
            let ghost before = records@.map_values(|r: TrustRecord| r@);
            let record = self.records.value_at(i);
            let copied = record.duplicate();
            records.insert(*self.records.key_at(i), copied);
            proof {
                let done = keys.subrange(0, i as int);
                let at = keys[i as int];
                assert(keys.subrange(0, i + 1) =~= done.push(at));
                lemma_push_members(done, at);
                let after = records@.map_values(|r: TrustRecord| r@);
                assert(after =~= before.insert(at, record@));
                assert(after =~= self@.records.restrict(keys.subrange(0, i + 1).to_set()));
            }
            i = i + 1;
        }
        let copy = TrustTable { records, max_records: self.max_records };
        proof {
            self.records.lemma_entries();
            self.lemma_records();
            assert(keys.subrange(0, i as int) =~= keys);
            assert(copy@.records =~= self@.records);
            assert(copy@ =~= self@);
        }
        copy
    }

    /// Takes a record, in the place of the one of its peer if there is one.
    pub fn put_record(&mut self, record: TrustRecord) -> (taken: Result<(), TrustStoreError>)
        requires
            old(self).wf(),
        ensures
            final(self).wf(),
            match old(self)@.upsert_fault(record@) {
                None => taken is Ok && final(self)@ == old(self)@.with_record(record@),
                Some(fault) => taken == Err::<(), TrustStoreError>(fault) && final(self)@ == old(self)@,
            },
    {
        validate_record(&record)?;
        proof {
            self.lemma_records();
        }
        if !self.records.contains_key(&record.peer_id) && self.records.len() >= self.max_records {
            return Err(store_limit_error());
        }
        self.put(record);
        Ok(())
    }

    /// Forgets a peer and tells whether it was known.
    pub fn remove_record(&mut self, peer_id: &PeerId) -> (removed: bool)
        requires
            old(self).wf(),
        ensures
            final(self).wf(),
            removed == old(self)@.records.contains_key(peer_id@),
            final(self)@ == (TableView { records: old(self)@.records.remove(peer_id@), ..old(self)@ }),
    {
        let ghost before = self@;
        proof {
            self.lemma_records();
        }
        let removed = self.records.remove(peer_id).is_some();
        proof {
            assert(self@.records =~= before.records.remove(peer_id@));
            assert forall|peer: Seq<u8>| #[trigger] self@.records.contains_key(peer) implies
                self@.records[peer].peer_id == peer && self@.records[peer].valid() by {
                assert(before.records.contains_key(peer));
            }
        }
        removed
    }

    /// Marks the key of a peer as revoked.
    pub fn revoke_record(&mut self, peer_id: &PeerId, now_unix_ms: u64) -> (revoked: Result<
        (),
        TrustStoreError,
    >)
        requires
            old(self).wf(),
        ensures
            final(self).wf(),
            if old(self)@.records.contains_key(peer_id@) {
                revoked is Ok && final(self)@ == old(self)@.with_key_state(
                    peer_id@,
                    KeyState::Revoked { revoked_at_unix_ms: now_unix_ms },
                )
            } else {
                revoked == Err::<(), TrustStoreError>(TrustStoreError::unknown_peer()) && final(self)@
                    == old(self)@
            },
    {
        self.set_key_state(peer_id, KeyState::Revoked { revoked_at_unix_ms: now_unix_ms })
    }

    fn set_key_state(&mut self, peer_id: &PeerId, key_state: KeyState) -> (set: Result<
        (),
        TrustStoreError,
    >)
        requires
            old(self).wf(),
        ensures
            final(self).wf(),
            if old(self)@.records.contains_key(peer_id@) {
                set is Ok && final(self)@ == old(self)@.with_key_state(peer_id@, key_state)
            } else {
                set == Err::<(), TrustStoreError>(TrustStoreError::unknown_peer()) && final(self)@
                    == old(self)@
            },
    {
        let ghost before = self@;
        proof {
            self.lemma_records();
        }
        match self.records.get_mut(peer_id) {
            None => {
                assert(self@.records =~= before.records);
                Err(TrustStoreError::unknown_peer())
            },
            Some(record) => {
                let ghost was = *record;
                record.key_state = key_state;
                proof {
                    let after = before.with_key_state(peer_id@, key_state);
                    assert(was@ == before.records[peer_id@]);
                    assert(before.records[peer_id@].peer_id == peer_id@);
                    assert(self@.records =~= after.records);
                    assert(self@.records.dom() =~= before.records.dom());
                    assert forall|peer: Seq<u8>| #[trigger] self@.records.contains_key(peer) implies
                        self@.records[peer].peer_id == peer && self@.records[peer].valid() by {
                        assert(before.records.contains_key(peer));
                    }
                }
                Ok(())
            },
        }
    }

    /// Puts a new key in the place of an old one, which is marked as rotated, and
    /// hands back the new record.
    pub fn rotate_record(
        &mut self,
        old_peer_id: &PeerId,
        new_peer_id: PeerId,
        new_public_key: Vec<u8>,
        challenge_hash: [u8; 32],
        now_unix_ms: u64,
    ) -> (rotated: Result<TrustRecord, TrustStoreError>)
        requires
            old(self).wf(),
        ensures
            final(self).wf(),
            match rotated {
                Ok(replacement) => {
                    &&& old(self)@.rotate_fault(old_peer_id@, new_peer_id@, new_public_key@) is None
                    &&& is_replacement(
                        old(self)@.records[old_peer_id@],
                        new_peer_id@,
                        new_public_key@,
                        challenge_hash@,
                        replacement@,
                    )
                    &&& replacement@.valid()
                    &&& final(self)@ == old(self)@.with_key_state(
                        old_peer_id@,
                        KeyState::Rotated { rotated_at_unix_ms: now_unix_ms, new_peer_id },
                    ).with_record(replacement@)
                },
                Err(e) => {
                    &&& final(self)@ == old(self)@
                    &&& match old(self)@.rotate_fault(old_peer_id@, new_peer_id@, new_public_key@) {
                        Some(fault) => e == fault,
                        None => e == TrustStoreError::over_limit() && exists|r: RecordView| #[trigger]
                            is_replacement(
                                old(self)@.records[old_peer_id@],
                                new_peer_id@,
                                new_public_key@,
                                challenge_hash@,
                                r,
                            ) && !r.valid(),
                    }
                },
            },
    {
        let ghost before = self@;
        proof {
            self.lemma_records();
        }
        if new_public_key.len() == 0 || new_peer_id.same(old_peer_id) {
            return Err(conflict("identity rotation parameters conflict"));
        }
        if self.records.contains_key(&new_peer_id) {
            return Err(conflict("new peer identity already exists"));
        }
        if self.records.len() >= self.max_records {
            return Err(store_limit_error());
        }
        let replacement = match self.records.get(old_peer_id) {
            None => {
                return Err(TrustStoreError::unknown_peer());
            },
            Some(record) => {
                assert(record@ == before.records[old_peer_id@]);
                if !record.is_active() {
                    return Err(conflict("only an active identity can rotate"));
                }
                replacement_record(record, new_peer_id, new_public_key, challenge_hash)
            },
        };
        let ghost made = replacement@;
        assert(is_replacement(
            before.records[old_peer_id@],
            new_peer_id@,
            new_public_key@,
            challenge_hash@,
            made,
        ));
        validate_record(&replacement)?;
        let marked = self.set_key_state(
            old_peer_id,
            KeyState::Rotated { rotated_at_unix_ms: now_unix_ms, new_peer_id },
        );
        proof {
            assert(before.records[old_peer_id@].peer_id == old_peer_id@);
            assert(self@.records.dom() =~= before.records.dom());
        }
        let copy = replacement.duplicate();
        self.put(replacement);
        Ok(copy)
    }
}

/// Whether the bytes of an index of peers may be read: 70 bytes for each peer, and
/// the brackets.
pub open spec fn index_fits(encoded_len: nat, max_records: usize) -> bool {
    max_records * 70 + 2 > usize::MAX || encoded_len <= max_records * 70 + 2
}

/// That the credential store is full.
#[verifier::allow_in_spec]
pub fn keyring_limit_error() -> TrustStoreError
    returns
        TrustStoreError::new(
            TrustStoreErrorKind::LimitExceeded,
            "system credential trust store limit exceeded",
        ),
{
    TrustStoreError::new(
        TrustStoreErrorKind::LimitExceeded,
        "system credential trust store limit exceeded",
    )
}

/// That what the credential store holds cannot be read.
#[verifier::allow_in_spec]
pub fn keyring_corrupt_error() -> TrustStoreError
    returns
        TrustStoreError::new(
            TrustStoreErrorKind::Corrupt,
            "system credential trust record is invalid",
        ),
{
    TrustStoreError::new(TrustStoreErrorKind::Corrupt, "system credential trust record is invalid")
}

/// Whether a credential store may be opened under a name, for so many records.
pub fn check_keyring_service(service: &str, max_records: usize) -> (checked: Result<
    (),
    TrustStoreError,
>)
    ensures
        checked == (if service@.len() == 0 || max_records == 0 {
            Err::<(), TrustStoreError>(
                TrustStoreError::new(
                    TrustStoreErrorKind::Unavailable,
                    "system keyring service name is empty",
                ),
            )
        } else {
            Ok(())
        }),
{
    if is_empty_text(service) || max_records == 0 {
        return Err(
            TrustStoreError::new(
                TrustStoreErrorKind::Unavailable,
                "system keyring service name is empty",
            ),
        );
    }
    Ok(())
}

/// What a revocation puts in the place of a record.
pub fn plan_revocation(record: Option<TrustRecord>, now_unix_ms: u64) -> (revoked: Result<
    TrustRecord,
    TrustStoreError,
>)
    ensures
        match record {
            Some(record) => revoked matches Ok(r) && r@ == (RecordView {
                key_state: KeyState::Revoked { revoked_at_unix_ms: now_unix_ms },
                ..record@
            }),
            None => revoked == Err::<TrustRecord, TrustStoreError>(TrustStoreError::unknown_peer()),
        },
{
    match record {
        Some(record) => {
            let mut revoked = record;
            revoked.key_state = KeyState::Revoked { revoked_at_unix_ms: now_unix_ms };
            Ok(revoked)
        },
        None => Err(TrustStoreError::unknown_peer()),
    }
}

/// What some texts say.
pub open spec fn text_views(texts: Seq<String>) -> Seq<Seq<char>> {
    texts.map_values(|text: String| text@)
}

/// The row of texts that a text holds as JSON, if it holds one.
pub uninterp spec fn json_texts(encoded: Seq<char>) -> Option<Seq<Seq<char>>>;

/// `serde_json::from_str` for a row of texts: what it gives is a function of the encoded
/// text alone, and nothing where it fails. What JSON is, is left unsaid.
#[verifier::external_body]
fn parse_texts(encoded: &str) -> (texts: Option<Vec<String>>)
    ensures
        match texts {
            Some(t) => json_texts(encoded@) == Some(text_views(t@)),
            None => json_texts(encoded@) is None,
        },
{
    serde_json::from_str::<Vec<String>>(encoded).ok()
}

/// Whether a text is of letters and digits only.
pub open spec fn is_plain(text: Seq<char>) -> bool {
    forall|i: int|
        0 <= i < text.len() ==> ('a' <= #[trigger] text[i] <= 'z') || ('A' <= text[i] <= 'Z') || ('0'
            <= text[i] <= '9')
}

/// Plain texts in quotation marks, with commas between them.
pub open spec fn json_items(texts: Seq<Seq<char>>) -> Seq<char>
    decreases texts.len(),
{
    if texts.len() == 0 {
        Seq::empty()
    } else {
        let item = seq!['"'] + texts.last() + seq!['"'];
        if texts.len() == 1 {
            item
        } else {
            json_items(texts.drop_last()) + seq![','] + item
        }
    }
}

/// A row of plain texts as JSON.
pub open spec fn json_row(texts: Seq<Seq<char>>) -> Seq<char> {
    seq!['['] + json_items(texts) + seq![']']
}

/// `serde_json::to_string` for a row of texts of letters and digits: they are written in
/// quotation marks, with commas between them and brackets around them, and are read back
/// as they were. Such a row can always be written.
#[verifier::external_body]
fn print_texts(texts: &Vec<String>) -> (encoded: Option<String>)
    requires
        forall|i: int| 0 <= i < texts@.len() ==> is_plain((#[trigger] texts@[i])@),
    ensures
        match encoded {
            Some(e) => e@ == json_row(text_views(texts@)) && json_texts(e@) == Some(
                text_views(texts@),
            ),
            None => false,
        },
{
    serde_json::to_string(texts).ok()
}

/// Whether an index of peers of this length may be read.
pub fn check_index_size(encoded_len: usize, max_records: usize) -> (fits: Result<(), TrustStoreError>)
    ensures
        fits == (if index_fits(encoded_len as nat, max_records) {
            Ok::<(), TrustStoreError>(())
        } else {
            Err(keyring_limit_error())
        }),
{
    let limit: usize = match max_records.checked_mul(70) {
        Some(n) => n.saturating_add(2),
        None => usize::MAX,
    };
    if encoded_len > limit {
        return Err(keyring_limit_error());
    }
    Ok(())
}

/// The peers whose records a credential store holds, and how many it may hold.
#[derive(Debug)]
pub struct PeerIndex {
    peers: SortedMap<PeerId, ()>,
    max_records: usize,
}

impl View for PeerIndex {
    type V = (Set<Seq<u8>>, usize);

    closed spec fn view(&self) -> (Set<Seq<u8>>, usize) {
        (self.peers@.dom(), self.max_records)
    }
}

/// The peers that some texts name.
pub open spec fn named_peers(texts: Seq<Seq<char>>) -> Seq<Seq<u8>> {
    texts.map_values(|text: Seq<char>| hex_bytes(text))
}

/// The texts that name some peers.
pub open spec fn peer_names(peers: Seq<Seq<u8>>) -> Seq<Seq<char>> {
    peers.map_values(|peer: Seq<u8>| hex_text(peer))
}

/// Why texts are not read as an index.
pub open spec fn texts_fault(texts: Seq<Seq<char>>, max_records: usize) -> Option<TrustStoreError> {
    if texts.len() > max_records {
        Some(keyring_limit_error())
    } else if exists|i: int| 0 <= i < texts.len() && !is_hex_32(#[trigger] texts[i]) {
        Some(TrustStoreError::corrupt())
    } else {
        None
    }
}

/// Why a text is not read as an index, by the row of texts that it holds.
pub open spec fn index_fault(
    encoded_len: nat,
    texts: Option<Seq<Seq<char>>>,
    max_records: usize,
) -> Option<TrustStoreError> {
    if !index_fits(encoded_len, max_records) {
        Some(keyring_limit_error())
    } else {
        match texts {
            None => Some(keyring_corrupt_error()),
            Some(texts) => texts_fault(texts, max_records),
        }
    }
}

impl PeerIndex {
    pub closed spec fn wf(&self) -> bool {
        self.peers.wf()
    }

    /// An index without peers.
    pub fn new(max_records: usize) -> (index: Self)
        ensures
            index.wf(),
            index@ == (Set::<Seq<u8>>::empty(), max_records),
    {
        let index = PeerIndex { peers: SortedMap::new(), max_records };
        assert(index@.0 =~= Set::empty());
        index
    }

    /// Reads the peers that an index names.
    pub fn read(texts: Vec<String>, max_records: usize) -> (index: Result<Self, TrustStoreError>)
        ensures
            match texts_fault(text_views(texts@), max_records) {
                None => index matches Ok(index) && index.wf() && index@ == (
                    named_peers(text_views(texts@)).to_set(),
                    max_records,
                ),
                Some(fault) => index == Err::<PeerIndex, TrustStoreError>(fault),
            },
    {
        let ghost views = text_views(texts@);
        if texts.len() > max_records {
            return Err(keyring_limit_error());
        }
        let mut index = PeerIndex::new(max_records);
        let mut i: usize = 0;
        let ghost names = named_peers(views);
        assert(index@.0 =~= names.subrange(0, 0).to_set());
        while i < texts.len()
            invariant
                views == text_views(texts@),
                names == named_peers(views),
                texts@.len() <= max_records,
                i <= texts@.len(),
                forall|j: int| 0 <= j < i ==> is_hex_32(#[trigger] views[j]),
                index.wf(),
                index@ == (names.subrange(0, i as int).to_set(), max_records),
            decreases texts@.len() - i,
        {
            assert(views[i as int] == texts@[i as int]@);
            let peer = match decode_peer_id(texts[i].as_str()) {
                Ok(peer) => peer,
                Err(fault) => {
                    return Err(fault);
                },
            };
            index.add(peer);
            proof {
                let done = names.subrange(0, i as int);
                assert(names.subrange(0, i + 1) =~= done.push(names[i as int]));
                lemma_push_members(done, names[i as int]);
            }
            i = i + 1;
        }
        assert(names.subrange(0, i as int) =~= names);
        Ok(index)
    }

    /// Reads the peers of an index as the credential store holds it.
    pub fn read_text(encoded: &str, max_records: usize) -> (index: Result<Self, TrustStoreError>)
        ensures
            match index_fault(encode_utf8(encoded@).len(), json_texts(encoded@), max_records) {
                None => index matches Ok(index) && index.wf() && index@ == (
                    named_peers(json_texts(encoded@)->0).to_set(),
                    max_records,
                ),
                Some(fault) => index == Err::<PeerIndex, TrustStoreError>(fault),
            },
    {
        match check_index_size(encoded.as_bytes().len(), max_records) {
            Ok(()) => {},
            Err(fault) => {
                return Err(fault);
            },
        }
        match parse_texts(encoded) {
            None => Err(keyring_corrupt_error()),
            Some(texts) => PeerIndex::read(texts, max_records),
        }
    }

    /// Adds a peer.
    pub fn add(&mut self, peer_id: PeerId)
        requires
            old(self).wf(),
        ensures
            final(self).wf(),
            final(self)@ == (old(self)@.0.insert(peer_id@), old(self)@.1),
    {
        let ghost before = self@;
        self.peers.insert(peer_id, ());
        assert(self@.0 =~= before.0.insert(peer_id@));
    }

    /// Forgets a peer.
    pub fn remove(&mut self, peer_id: &PeerId)
        requires
            old(self).wf(),
        ensures
            final(self).wf(),
            final(self)@ == (old(self)@.0.remove(peer_id@), old(self)@.1),
    {
        let ghost before = self@;
        self.peers.remove(peer_id);
        assert(self@.0 =~= before.0.remove(peer_id@));
    }

    /// Whether a peer is in the index.
    pub fn contains(&self, peer_id: &PeerId) -> (known: bool)
        requires
            self.wf(),
        ensures
            known == self@.0.contains(peer_id@),
    {
        self.peers.contains_key(peer_id)
    }

    /// The peers in hexadecimal, in ascending order.
    pub fn write(&self) -> (texts: Vec<String>)
        requires
            self.wf(),
        ensures
            text_views(texts@) == peer_names(ascending_keys::<PeerId>(self@.0)),
    {
        let mut texts: Vec<String> = Vec::new();
        let len: usize = self.peers.len();
        let mut i: usize = 0;
        proof {
            self.peers.lemma_ascending_keys();
        }
        while i < len
            invariant
                self.wf(),
                len == self.peers.keys().len(),
                i <= len,
                texts@.len() == i,
                forall|j: int| 0 <= j < i ==> (#[trigger] texts@[j])@ == hex_text(self.peers.keys()[j]),
            decreases len - i,
        {
            texts.push(encode(self.peers.key_at(i).as_bytes()));
            i = i + 1;
        }
        assert(text_views(texts@) =~= peer_names(self.peers.keys()));
        texts
    }

    /// The index as the credential store holds it.
    pub fn write_text(&self) -> (encoded: Result<String, TrustStoreError>)
        requires
            self.wf(),
        ensures
            ({
                let names = peer_names(ascending_keys::<PeerId>(self@.0));
                encoded matches Ok(e) && e@ == json_row(names) && json_texts(e@) == Some(names)
            }),
    {
        let texts = self.write();
        proof {
            let peers = ascending_keys::<PeerId>(self@.0);
            let views = text_views(texts@);
            assert(views.len() == peers.len());
            assert forall|i: int| 0 <= i < texts@.len() implies is_plain((#[trigger] texts@[i])@) by {
                assert(views[i] == texts@[i]@);
                assert(views[i] == hex_text(peers[i]));
                lemma_hex_is_plain(peers[i]);
            }
        }
        match print_texts(&texts) {
            Some(encoded) => Ok(encoded),
            None => Err(keyring_corrupt_error()),
        }
    }

    /// A copy of the index.
    pub fn duplicate(&self) -> (copy: Self)
        requires
            self.wf(),
        ensures
            copy.wf(),
            copy@ == self@,
    {
        PeerIndex { peers: self.peers.duplicate(), max_records: self.max_records }
    }

    /// Whether the credential store takes a record.
    pub fn check_record(&self, record: &TrustRecord) -> (accepted: Result<(), TrustStoreError>)
        requires
            self.wf(),
        ensures
            accepted == (if !record@.valid() {
                Err::<(), TrustStoreError>(TrustStoreError::over_limit())
            } else if !self@.0.contains(record@.peer_id) && self@.0.len() >= self@.1 {
                Err(keyring_limit_error())
            } else {
                Ok(())
            }),
    {
        validate_record(record)?;
        if !self.peers.contains_key(&record.peer_id) && self.peers.len() >= self.max_records {
            return Err(keyring_limit_error());
        }
        Ok(())
    }

    /// Why a new key is not taken, whatever the old record says.
    pub open spec fn rotation_fault(&self, new_peer_known: bool, new_public_key: Seq<u8>) -> Option<
        TrustStoreError,
    > {
        if new_peer_known || new_public_key.len() == 0 {
            Some(conflict("new peer identity conflicts with trust store"))
        } else if self@.0.len() >= self@.1 {
            Some(keyring_limit_error())
        } else {
            None
        }
    }

    /// Whether a new key may be taken. This is to be asked before the old record is
    /// looked up.
    pub fn check_rotation(&self, new_peer_known: bool, new_public_key: &Vec<u8>) -> (checked: Result<
        (),
        TrustStoreError,
    >)
        requires
            self.wf(),
        ensures
            checked == (match self.rotation_fault(new_peer_known, new_public_key@) {
                None => Ok::<(), TrustStoreError>(()),
                Some(fault) => Err(fault),
            }),
    {
        if new_peer_known || new_public_key.len() == 0 {
            return Err(conflict("new peer identity conflicts with trust store"));
        }
        if self.peers.len() >= self.max_records {
            return Err(keyring_limit_error());
        }
        Ok(())
    }

    /// What a rotation puts in the place of the old record, and the new record. The
    /// old one is to be stored first, so that its key is out of use before the new
    /// one is in use.
    pub fn plan_rotation(
        &self,
        new_peer_known: bool,
        old_record: Option<TrustRecord>,
        new_peer_id: PeerId,
        new_public_key: Vec<u8>,
        challenge_hash: [u8; 32],
        now_unix_ms: u64,
    ) -> (plan: Result<(TrustRecord, TrustRecord), TrustStoreError>)
        requires
            self.wf(),
        ensures
            match plan {
                Ok((retired, replacement)) => {
                    &&& self.rotation_fault(new_peer_known, new_public_key@) is None
                    &&& old_record is Some
                    &&& old_record->0@.key_state == KeyState::Active
                    &&& retired@ == (RecordView {
                        key_state: KeyState::Rotated { rotated_at_unix_ms: now_unix_ms, new_peer_id },
                        ..old_record->0@
                    })
                    &&& is_replacement(
                        old_record->0@,
                        new_peer_id@,
                        new_public_key@,
                        challenge_hash@,
                        replacement@,
                    )
                },
                Err(e) => match self.rotation_fault(new_peer_known, new_public_key@) {
                    Some(fault) => e == fault,
                    None => match old_record {
                        None => e == TrustStoreError::unknown_peer(),
                        Some(record) => e == conflict("only an active identity can rotate")
                            && record@.key_state != KeyState::Active,
                    },
                },
            },
    {
        match self.check_rotation(new_peer_known, &new_public_key) {
            Ok(()) => {},
            Err(fault) => {
                return Err(fault);
            },
        }
        let mut retired = match old_record {
            Some(record) => record,
            None => {
                return Err(TrustStoreError::unknown_peer());
            },
        };
        if !retired.is_active() {
            return Err(conflict("only an active identity can rotate"));
        }
        let replacement = replacement_record(&retired, new_peer_id, new_public_key, challenge_hash);
        retired.key_state = KeyState::Rotated { rotated_at_unix_ms: now_unix_ms, new_peer_id };
        Ok((retired, replacement))
    }
}

proof fn lemma_hex_is_plain(bytes: Seq<u8>)
    ensures
        is_plain(hex_text(bytes)),
{
    let text = hex_text(bytes);
    assert forall|i: int| 0 <= i < text.len() implies ('a' <= #[trigger] text[i] <= 'z') || ('A'
        <= text[i] <= 'Z') || ('0' <= text[i] <= '9') by {
        assert(0 <= i / 2 < bytes.len());
    }
}

/// How long an index is when it is written.
proof fn lemma_json_items(row: Seq<Seq<u8>>)
    requires
        forall|i: int| 0 <= i < row.len() ==> (#[trigger] row[i]).len() == 32,
    ensures
        json_items(peer_names(row)).len() == (if row.len() == 0 {
            0
        } else {
            67 * row.len() - 1
        }),
        vstd::utf8::is_ascii_chars(json_items(peer_names(row))),
    decreases row.len(),
{
    if row.len() > 0 {
        let front = row.drop_last();
        let last = hex_text(row.last());
        assert forall|i: int| 0 <= i < front.len() implies (#[trigger] front[i]).len() == 32 by {
            assert(front[i] == row[i]);
        }
        lemma_json_items(front);
        assert(row[row.len() - 1].len() == 32);
        assert(peer_names(row).drop_last() =~= peer_names(front));
        assert(peer_names(row).last() == last);
        assert(last.len() == 64);
        lemma_hex_is_plain(row.last());
        let item = seq!['"'] + last + seq!['"'];
        assert(vstd::utf8::is_ascii_chars(item)) by {
            assert forall|k: int| 0 <= k < item.len() implies '\0' <= #[trigger] item[k] <= '\u{7f}' by {
                if 1 <= k <= 64 {
                    assert(item[k] == last[k - 1]);
                }
            }
        }
    }
}

/// An index that was written is read back as it was.
pub proof fn written_indexes_are_read_back(peers: Set<Seq<u8>>, max_records: usize)
    requires
        peers.finite(),
        forall|peer: Seq<u8>| #[trigger] peers.contains(peer) ==> peer.len() == 32,
        peers.len() <= max_records,
    ensures
        ({
            let names = peer_names(ascending_keys::<PeerId>(peers));
            &&& index_fault(encode_utf8(json_row(names)).len(), Some(names), max_records) is None
            &&& named_peers(names).to_set() == peers
        }),
{
    let row = ascending_keys::<PeerId>(peers);
    let names = peer_names(row);
    ascending_keys_exist::<PeerId>(peers);
    row.unique_seq_to_set();
    assert forall|i: int| 0 <= i < row.len() implies (#[trigger] row[i]).len() == 32 by {
        assert(row.to_set().contains(row[i]));
        assert(peers.contains(row[i]));
    }
    assert forall|i: int| 0 <= i < row.len() implies hex_bytes(#[trigger] names[i]) == row[i] && is_hex_32(
        names[i],
    ) by {
        assert(row[i].len() == 32);
        hex_round_trip(row[i]);
    }
    assert(named_peers(names) =~= row);
    lemma_json_items(row);
    let encoded = json_row(names);
    assert(vstd::utf8::is_ascii_chars(encoded));
    vstd::utf8::is_ascii_chars_encode_utf8(encoded);
    assert(encode_utf8(encoded).len() <= 67 * row.len() + 2);
}

/// After a rotation the old key lets nobody in, and the new one does.
pub proof fn rotated_keys_are_out_of_use(
    table: TableView,
    old_peer: Seq<u8>,
    now_unix_ms: u64,
    new_peer_id: PeerId,
    replacement: RecordView,
    presented: Seq<u8>,
)
    requires
        table.wf(),
        table.records.contains_key(old_peer),
        new_peer_id@ != old_peer,
        replacement.peer_id == new_peer_id@,
        replacement.key_state == KeyState::Active,
        replacement.valid(),
    ensures
        ({
            let after = table.with_key_state(
                old_peer,
                KeyState::Rotated { rotated_at_unix_ms: now_unix_ms, new_peer_id },
            ).with_record(replacement);
            &&& reconnect_fault(Some(after.records[old_peer]), presented) == Some(
                TrustStoreError::new(TrustStoreErrorKind::Rotated, "peer identity key was rotated"),
            )
            &&& reconnect_fault(Some(after.records[new_peer_id@]), replacement.public_key) is None
        }),
{
}

/// A revoked key lets nobody in.
pub proof fn revoked_keys_are_out_of_use(table: TableView, peer: Seq<u8>, now_unix_ms: u64, presented: Seq<u8>)
    requires
        table.wf(),
        table.records.contains_key(peer),
    ensures
        reconnect_fault(
            Some(
                table.with_key_state(peer, KeyState::Revoked { revoked_at_unix_ms: now_unix_ms }).records[peer],
            ),
            presented,
        ) == Some(TrustStoreError::new(TrustStoreErrorKind::Revoked, "peer trust has been revoked")),
{
}

/// A record is taken where it is valid and either replaces one of its peer or has room; it
/// is found under its peer, and the others stay.
pub proof fn valid_records_are_taken(table: TableView, record: RecordView, other: Seq<u8>)
    requires
        table.wf(),
    ensures
        !record.valid() ==> (table.upsert_fault(record) matches Some(e) && e.kind
            == TrustStoreErrorKind::LimitExceeded),
        record.valid() && table.records.contains_key(record.peer_id) ==> table.upsert_fault(record) is None,
        record.valid() && !table.records.contains_key(record.peer_id) ==> (table.upsert_fault(record)
            is None <==> table.records.dom().len() + 1 <= table.max_records),
        table.with_record(record).records.contains_key(record.peer_id),
        table.with_record(record).records[record.peer_id] == record,
        table.with_record(record).max_records == table.max_records,
        other != record.peer_id ==> table.with_record(record).records.contains_key(other)
            == table.records.contains_key(other) && table.with_record(record).records[other]
            == table.records[other],
{
}

/// Only the state of the key of a record changes with it.
pub proof fn key_states_change_alone(table: TableView, peer: Seq<u8>, key_state: KeyState)
    requires
        table.wf(),
        table.records.contains_key(peer),
    ensures
        ({
            let before = table.records[peer];
            let after = table.with_key_state(peer, key_state).records[peer];
            &&& after.key_state == key_state
            &&& after.public_key == before.public_key
            &&& after.alias == before.alias
            &&& after.permissions == before.permissions
            &&& after.peer_id == peer
            &&& after.first_paired_at_unix_ms == before.first_paired_at_unix_ms
            &&& after.previous_key_fingerprints == before.previous_key_fingerprints
            &&& table.with_key_state(peer, key_state).records.dom() == table.records.dom()
        }),
{
    assert(table.with_key_state(peer, key_state).records.dom() =~= table.records.dom());
}

/// A key is rotated exactly for a peer with an active key, to a peer that is not known yet
/// and a key with bytes, where there is room for one more record.
pub proof fn active_keys_are_rotated(
    table: TableView,
    old_peer: Seq<u8>,
    new_peer: Seq<u8>,
    new_public_key: Seq<u8>,
)
    ensures
        table.rotate_fault(old_peer, new_peer, new_public_key) is None <==> {
            &&& new_public_key.len() >= 1
            &&& new_peer != old_peer
            &&& !table.records.contains_key(new_peer)
            &&& table.records.contains_key(old_peer)
            &&& table.records[old_peer].key_state is Active
            &&& table.records.dom().len() + 1 <= table.max_records
        },
        new_public_key.len() > 0 && new_peer != old_peer && table.records.contains_key(new_peer)
            ==> (table.rotate_fault(old_peer, new_peer, new_public_key) matches Some(e) && e.kind
            == TrustStoreErrorKind::Conflict),
        new_public_key.len() > 0 && new_peer != old_peer && !table.records.contains_key(new_peer)
            && table.records.dom().len() < table.max_records && !table.records.contains_key(old_peer)
            ==> (table.rotate_fault(old_peer, new_peer, new_public_key) matches Some(e) && e.kind
            == TrustStoreErrorKind::UnknownPeer),
{
}

/// A record that replaces another has the new peer and key and what the old one was trusted
/// with, and remembers the digest of the old key after those before it.
pub proof fn replacements_keep_the_trust(
    old_record: RecordView,
    new_peer_id: Seq<u8>,
    new_public_key: Seq<u8>,
    challenge_hash: Seq<u8>,
    replacement: RecordView,
    i: int,
)
    requires
        is_replacement(old_record, new_peer_id, new_public_key, challenge_hash, replacement),
    ensures
        replacement.peer_id == new_peer_id,
        replacement.public_key == new_public_key,
        replacement.alias == old_record.alias,
        replacement.permissions == old_record.permissions,
        replacement.first_paired_at_unix_ms == old_record.first_paired_at_unix_ms,
        replacement.key_state is Active,
        replacement.last_pairing_challenge_hash == challenge_hash,
        replacement.previous_key_fingerprints.len() == old_record.previous_key_fingerprints.len() + 1,
        replacement.previous_key_fingerprints.last()@ == sha256(old_record.public_key),
        0 <= i < old_record.previous_key_fingerprints.len() ==> replacement.previous_key_fingerprints[i]
            == old_record.previous_key_fingerprints[i],
{
    let previous = replacement.previous_key_fingerprints;
    assert(0 <= i < old_record.previous_key_fingerprints.len() ==> previous.drop_last()[i] == previous[i]);
}

/// Of records of one peer the last that is read stays.
pub proof fn the_last_record_of_a_peer_stays(row: Seq<RecordView>, k: int)
    requires
        0 <= k < row.len(),
        forall|i: int| k < i < row.len() ==> (#[trigger] row[i]).peer_id != row[k].peer_id,
    ensures
        records_of(row).contains_key(row[k].peer_id),
        records_of(row)[row[k].peer_id] == row[k],
    decreases row.len(),
{
    if k < row.len() - 1 {
        let front = row.drop_last();
        assert forall|i: int| k < i < front.len() implies (#[trigger] front[i]).peer_id
            != front[k].peer_id by {
            assert(front[i] == row[i]);
        }
        the_last_record_of_a_peer_stays(front, k);
        assert(row[row.len() - 1].peer_id != row[k].peer_id);
    }
}

/// The digits from 0 to 9 and the letters from a to f, small or capital, stand for the
/// numbers from zero to fifteen, and two of them for sixteen times the first and the second.
pub proof fn hex_digits_have_their_values(a: char, b: char)
    ensures
        '0' <= a <= '9' ==> hex_value(a) == Some(a as int - '0' as int),
        'a' <= a <= 'f' ==> hex_value(a) == Some(a as int - 'a' as int + 10),
        'A' <= a <= 'F' ==> hex_value(a) == Some(a as int - 'A' as int + 10),
        !('0' <= a <= '9' || 'a' <= a <= 'f' || 'A' <= a <= 'F') ==> hex_value(a) is None,
        hex_value(a) is Some && hex_value(b) is Some ==> pair_value(a, b) == Some(
            16 * hex_value(a)->0 + hex_value(b)->0,
        ),
        hex_value(b) is None ==> pair_value(a, b) is None,
        hex_value(a) is None && a != '+' ==> pair_value(a, b) is None,
{
}

/// An index is refused where it is longer than seventy bytes for each record that is
/// allowed, where it names more peers than that, and where it holds anything else than the
/// names of peers.
pub proof fn faulty_indexes_are_refused(
    encoded_len: nat,
    texts: Seq<Seq<char>>,
    max_records: usize,
    i: int,
)
    ensures
        70 * max_records + 2 <= usize::MAX && encoded_len > 70 * max_records + 2 ==> index_fault(
            encoded_len,
            Some(texts),
            max_records,
        ) is Some,
        texts.len() > max_records ==> index_fault(encoded_len, Some(texts), max_records) is Some,
        0 <= i < texts.len() && texts[i].len() != 64 ==> index_fault(
            encoded_len,
            Some(texts),
            max_records,
        ) is Some,
        index_fault(encoded_len, None, max_records) is Some,
{
    if 0 <= i < texts.len() && texts[i].len() != 64 {
        assert(!is_hex_32(texts[i]));
    }
}

/// A record that is put in is found under its peer, one that is taken out is not, and a
/// revoked one is found with its key revoked at that moment; the other records stay.
pub proof fn records_are_found_until_removed(
    before: TrustTable,
    record: TrustRecord,
    peer_id: PeerId,
    now_unix_ms: u64,
)
    requires
        before.wf(),
    ensures
        forall|lent: &mut TrustTable, taken: Result<(), TrustStoreError>|
            *lent == before && #[trigger] call_ensures(
                TrustTable::put_record,
                (lent, record),
                taken,
            ) ==> {
                let after = final(lent)@;
                let peer = record@.peer_id;
                &&& taken is Err ==> after == before@
                &&& taken is Ok ==> {
                    &&& after.records.contains_key(peer)
                    &&& after.records[peer] == record@
                    &&& after.records.remove(peer) =~= before@.records.remove(peer)
                    &&& after.max_records == before@.max_records
                }
            },
        forall|lent: &mut TrustTable, removed: bool|
            *lent == before && #[trigger] call_ensures(
                TrustTable::remove_record,
                (lent, &peer_id),
                removed,
            ) ==> {
                let after = final(lent)@;
                &&& removed <==> before@.records.contains_key(peer_id@)
                &&& !after.records.contains_key(peer_id@)
                &&& after.records =~= before@.records.remove(peer_id@)
                &&& after.max_records == before@.max_records
            },
        forall|lent: &mut TrustTable, revoked: Result<(), TrustStoreError>|
            *lent == before && #[trigger] call_ensures(
                TrustTable::revoke_record,
                (lent, &peer_id, now_unix_ms),
                revoked,
            ) ==> {
                let after = final(lent)@;
                &&& revoked is Ok <==> before@.records.contains_key(peer_id@)
                &&& revoked is Err ==> after == before@
                &&& revoked is Ok ==> {
                    &&& after.records.contains_key(peer_id@)
                    &&& after.records[peer_id@].key_state == (KeyState::Revoked {
                        revoked_at_unix_ms: now_unix_ms,
                    })
                    &&& after.records[peer_id@].public_key == before@.records[peer_id@].public_key
                    &&& after.records[peer_id@].peer_id == before@.records[peer_id@].peer_id
                    &&& after.records[peer_id@].alias == before@.records[peer_id@].alias
                    &&& after.records.remove(peer_id@) =~= before@.records.remove(peer_id@)
                }
            },
{
}

/// A rotation leaves the old key marked as rotated to the new peer, and the new peer with
/// an active key; where it is refused nothing changes.
pub proof fn rotated_keys_lead_to_the_new_peer(
    before: TrustTable,
    old_peer_id: PeerId,
    new_peer_id: PeerId,
    new_public_key: Vec<u8>,
    challenge_hash: [u8; 32],
    now_unix_ms: u64,
)
    requires
        before.wf(),
    ensures
        forall|lent: &mut TrustTable, rotated: Result<TrustRecord, TrustStoreError>|
            *lent == before && #[trigger] call_ensures(
                TrustTable::rotate_record,
                (lent, &old_peer_id, new_peer_id, new_public_key, challenge_hash, now_unix_ms),
                rotated,
            ) ==> {
                let after = final(lent)@;
                &&& rotated is Err ==> after == before@
                &&& rotated matches Ok(replacement) ==> {
                    &&& replacement@.peer_id == new_peer_id@
                    &&& replacement@.public_key == new_public_key@
                    &&& replacement@.key_state is Active
                    &&& old_peer_id@ != new_peer_id@
                    &&& before@.records.contains_key(old_peer_id@)
                    &&& before@.records[old_peer_id@].key_state is Active
                    &&& !before@.records.contains_key(new_peer_id@)
                    &&& after.records.contains_key(new_peer_id@)
                    &&& after.records[new_peer_id@] == replacement@
                    &&& after.records.contains_key(old_peer_id@)
                    &&& after.records[old_peer_id@].key_state == (KeyState::Rotated {
                        rotated_at_unix_ms: now_unix_ms,
                        new_peer_id,
                    })
                }
            },
{
}

/// A peer that was added to an index is known until it is removed; the others stay.
pub proof fn indexed_peers_are_known_until_removed(before: PeerIndex, peer_id: PeerId, other: PeerId)
    ensures
        forall|lent: &mut PeerIndex, done: ()|
            *lent == before && #[trigger] call_ensures(PeerIndex::add, (lent, peer_id), done) ==> {
                &&& final(lent)@.0.contains(peer_id@)
                &&& other@ != peer_id@ ==> (final(lent)@.0.contains(other@) <==> before@.0.contains(
                    other@,
                ))
                &&& final(lent)@.1 == before@.1
            },
        forall|lent: &mut PeerIndex, done: ()|
            *lent == before && #[trigger] call_ensures(PeerIndex::remove, (lent, &peer_id), done) ==> {
                &&& !final(lent)@.0.contains(peer_id@)
                &&& other@ != peer_id@ ==> (final(lent)@.0.contains(other@) <==> before@.0.contains(
                    other@,
                ))
                &&& final(lent)@.1 == before@.1
            },
        forall|known: bool| #[trigger]
            call_ensures(PeerIndex::contains, (&before, &peer_id), known) ==> (known
                <==> before@.0.contains(peer_id@)),
{
}

/// A key that is known is revoked at the moment it is asked for, and nothing but its state
/// changes; one that is not known is not.
pub proof fn revocations_change_the_state_alone(record: TrustRecord, now_unix_ms: u64)
    ensures
        forall|revoked: Result<TrustRecord, TrustStoreError>| #[trigger]
            call_ensures(plan_revocation, (Some(record), now_unix_ms), revoked) ==> {
                &&& revoked matches Ok(r)
                &&& r@.key_state == (KeyState::Revoked { revoked_at_unix_ms: now_unix_ms })
                &&& r@.peer_id == record@.peer_id
                &&& r@.public_key == record@.public_key
                &&& r@.alias == record@.alias
                &&& r@.permissions == record@.permissions
                &&& r@.first_paired_at_unix_ms == record@.first_paired_at_unix_ms
                &&& r@.previous_key_fingerprints == record@.previous_key_fingerprints
            },
        forall|revoked: Result<TrustRecord, TrustStoreError>| #[trigger]
            call_ensures(plan_revocation, (None::<TrustRecord>, now_unix_ms), revoked)
                ==> revoked is Err,
{
}

/// A row of names that fits, each the 64 digits of a peer, is read as an index.
pub proof fn sound_indexes_are_read(encoded_len: nat, texts: Seq<Seq<char>>, max_records: usize)
    requires
        texts.len() <= max_records,
        encoded_len <= 70 * max_records + 2,
        forall|i: int| 0 <= i < texts.len() ==> (#[trigger] texts[i]).len() == 64,
        forall|i: int, j: int|
            0 <= i < texts.len() && 0 <= j < 64 ==> {
                let c = #[trigger] texts[i][j];
                ('0' <= c && c <= '9') || ('a' <= c && c <= 'f') || ('A' <= c && c <= 'F')
            },
    ensures
        index_fault(encoded_len, Some(texts), max_records) is None,
{
    assert forall|i: int| 0 <= i < texts.len() implies is_hex_32(#[trigger] texts[i]) by {
        let text = texts[i];
        assert forall|k: int| 0 <= k < 32 implies pair_value(
            #[trigger] text[2 * k],
            text[2 * k + 1],
        ) is Some by {
            assert(hex_value(texts[i][2 * k]) is Some);
            assert(hex_value(texts[i][2 * k + 1]) is Some);
        }
    }
}

/// A new key is taken where it is not empty, its peer is not known yet and there is room for
/// one more; a rotation needs an active old key besides, marks it as rotated to the new peer
/// at that moment and leaves the rest of the old record as it was.
pub proof fn keys_rotate_from_an_active_one(
    index: PeerIndex,
    new_peer_known: bool,
    old_record: Option<TrustRecord>,
    new_peer_id: PeerId,
    new_public_key: Vec<u8>,
    challenge_hash: [u8; 32],
    now_unix_ms: u64,
)
    ensures
        forall|checked: Result<(), TrustStoreError>| #[trigger]
            call_ensures(
                PeerIndex::check_rotation,
                (&index, new_peer_known, &new_public_key),
                checked,
            ) ==> (checked is Ok <==> !new_peer_known && new_public_key@.len() > 0 && index@.0.len()
                < index@.1),
        forall|plan: Result<(TrustRecord, TrustRecord), TrustStoreError>| #[trigger]
            call_ensures(
                PeerIndex::plan_rotation,
                (
                    &index,
                    new_peer_known,
                    old_record,
                    new_peer_id,
                    new_public_key,
                    challenge_hash,
                    now_unix_ms,
                ),
                plan,
            ) ==> {
                &&& plan is Ok <==> {
                    &&& !new_peer_known
                    &&& new_public_key@.len() > 0
                    &&& index@.0.len() < index@.1
                    &&& old_record is Some
                    &&& old_record->0@.key_state is Active
                }
                &&& plan matches Ok((retired, replacement)) ==> {
                    &&& retired@.key_state == (KeyState::Rotated {
                        rotated_at_unix_ms: now_unix_ms,
                        new_peer_id,
                    })
                    &&& retired@.peer_id == old_record->0@.peer_id
                    &&& retired@.public_key == old_record->0@.public_key
                    &&& retired@.alias == old_record->0@.alias
                    &&& retired@.permissions == old_record->0@.permissions
                    &&& replacement@.peer_id == new_peer_id@
                    &&& replacement@.public_key == new_public_key@
                    &&& replacement@.permissions == old_record->0@.permissions
                    &&& replacement@.alias == old_record->0@.alias
                    &&& replacement@.key_state is Active
                }
            },
{
}

/// A record is taken in where it is valid and its peer is known already, or there is room.
pub proof fn records_need_room_in_the_index(index: PeerIndex, record: TrustRecord)
    ensures
        forall|accepted: Result<(), TrustStoreError>| #[trigger]
            call_ensures(PeerIndex::check_record, (&index, &record), accepted) ==> {
                &&& accepted is Ok <==> record@.valid() && (index@.0.contains(record@.peer_id)
                    || index@.0.len() < index@.1)
                &&& accepted matches Err(e) ==> e.kind is LimitExceeded
            },
{
}

} // verus!
