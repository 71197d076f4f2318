//! Whom a device trusts, and for what.

use vstd::prelude::*;
use vstd::utf8::encode_utf8;
use crate::bytes::bytes_equal;
use crate::digest::{sha256, sha256_digest};
use crate::identity::PeerId;
use crate::ordering::{MapKey, Position, precedes_after_prefix};
use crate::sorted_map::{SortedMap, ascending_keys};

verus! {

pub const DEFAULT_MAX_TRUST_RECORDS: usize = 1024;

pub const MAX_PUBLIC_KEY_BYTES: usize = 4096;

pub const MAX_ALIAS_BYTES: usize = 256;

pub const MAX_PERMISSIONS: usize = 128;

pub const MAX_PERMISSION_NAMESPACE_BYTES: usize = 128;

pub const MAX_PREVIOUS_KEY_FINGERPRINTS: usize = 64;

/// What a peer may do.
#[derive(Clone, Debug, Eq, Ord, PartialEq, PartialOrd)]
pub enum LinkPermission {
    Connect,
    OpenNamespace(String),
    Datagram,
}

#[verifier::ext_equal]
pub enum PermissionView {
    Connect,
    OpenNamespace(Seq<char>),
    Datagram,
}

impl View for LinkPermission {
    type V = PermissionView;

    open spec fn view(&self) -> PermissionView {
        match self {
            LinkPermission::Connect => PermissionView::Connect,
            LinkPermission::OpenNamespace(namespace) => PermissionView::OpenNamespace(namespace@),
            LinkPermission::Datagram => PermissionView::Datagram,
        }
    }
}

impl LinkPermission {
    /// A copy of the permission.
    pub fn duplicate(&self) -> (copy: Self)
        ensures
            copy@ == self@,
    {
        match self {
            LinkPermission::Connect => LinkPermission::Connect,
            LinkPermission::OpenNamespace(namespace) => LinkPermission::OpenNamespace(namespace.clone()),
            LinkPermission::Datagram => LinkPermission::Datagram,
        }
    }
}

/// Ordered as they are listed, those of namespaces by the namespace.
impl MapKey for LinkPermission {
    open spec fn rank(v: PermissionView) -> Seq<int> {
        match v {
            PermissionView::Connect => seq![0int],
            PermissionView::OpenNamespace(namespace) => seq![1int] + String::rank(namespace),
            PermissionView::Datagram => seq![2int],
        }
    }

    proof fn rank_injective(a: PermissionView, b: PermissionView) {
        let ra = Self::rank(a);
        let rb = Self::rank(b);
        match a {
            PermissionView::Connect => {
                assert(ra[0] == 0);
            },
            PermissionView::OpenNamespace(x) => {
                assert(ra[0] == 1);
                assert(ra.drop_first() =~= String::rank(x));
            },
            PermissionView::Datagram => {
                assert(ra[0] == 2);
            },
        }
        match b {
            PermissionView::Connect => {
                assert(rb[0] == 0);
            },
            PermissionView::OpenNamespace(y) => {
                assert(rb[0] == 1);
                assert(rb.drop_first() =~= String::rank(y));
            },
            PermissionView::Datagram => {
                assert(rb[0] == 2);
            },
        }
        match (a, b) {
            (PermissionView::OpenNamespace(x), PermissionView::OpenNamespace(y)) => {
                String::rank_injective(x, y);
            },
            _ => {},
        }
    }

    fn position(&self, other: &Self) -> (p: Position) {
        let ghost a = Self::rank(self@);
        let ghost b = Self::rank(other@);
        match (self, other) {
            (LinkPermission::OpenNamespace(x), LinkPermission::OpenNamespace(y)) => {
                proof {
                    precedes_after_prefix(seq![1int], String::rank(x@), String::rank(y@));
                    assert(a.drop_first() =~= String::rank(x@));
                    assert(b.drop_first() =~= String::rank(y@));
                }
                x.position(y)
            },
            (LinkPermission::Connect, LinkPermission::Connect) => Position::Same,
            (LinkPermission::Datagram, LinkPermission::Datagram) => Position::Same,
            (LinkPermission::Connect, _) => {
                assert(a[0] < b[0]);
                Position::Before
            },
            (_, LinkPermission::Datagram) => {
                assert(a[0] < b[0]);
                Position::Before
            },
            _ => {
                assert(a[0] > b[0]);
                Position::After
            },
        }
    }
}

/// A set of permissions.
#[derive(Debug, Eq, PartialEq)]
pub struct PermissionSet {
    entries: SortedMap<LinkPermission, ()>,
}

impl View for PermissionSet {
    type V = Set<PermissionView>;

    closed spec fn view(&self) -> Set<PermissionView> {
        self.entries@.dom()
    }
}

impl PermissionSet {
    #[verifier::type_invariant]
    closed spec fn inv(self) -> bool {
        self.entries.wf()
    }

    /// No permission.
    pub fn new() -> (set: Self)
        ensures
            set@ == Set::<PermissionView>::empty(),
    {
        let set = PermissionSet { entries: SortedMap::new() };
        assert(set@ =~= Set::empty());
        set
    }

    /// How many permissions the set has.
    pub fn len(&self) -> (n: usize)
        ensures
            n == self@.len(),
            n == self.row().len(),
            self@.finite(),
            self.entries_sorted(),
    {
        proof {
            use_type_invariant(self);
            self.entries.lemma_entries();
        }
        self.entries.len()
    }

    /// Whether the set has a permission.
    pub fn contains(&self, permission: &LinkPermission) -> (has: bool)
        ensures
            has == self@.contains(permission@),
    {
        proof {
            use_type_invariant(self);
        }
        self.entries.contains_key(permission)
    }

    /// The permissions in ascending order.
    pub closed spec fn row(&self) -> Seq<PermissionView> {
        self.entries.keys()
    }

    /// The row holds each permission once.
    pub proof fn lemma_row(&self)
        requires
            self.entries_sorted(),
        ensures
            self.row().no_duplicates(),
            self.row().to_set() == self@,
            self.row() == ascending_keys::<LinkPermission>(self@),
            self@.finite(),
            self@.len() == self.row().len(),
    {
        self.entries.lemma_entries();
        self.entries.lemma_ascending_keys();
    }

    /// Whether the permissions are sorted, as they always are.
    pub closed spec fn entries_sorted(&self) -> bool {
        self.entries.wf()
    }

    /// Adds a permission.
    pub fn insert(&mut self, permission: LinkPermission) -> (fresh: bool)
        ensures
            final(self)@ == old(self)@.insert(permission@),
            fresh == !old(self)@.contains(permission@),
    {
        proof {
            use_type_invariant(&*self);
        }
        let ghost before = self@;
        let mut entries: SortedMap<LinkPermission, ()> = SortedMap::new();
        std::mem::swap(&mut entries, &mut self.entries);
        let replaced = entries.insert(permission, ());
        self.entries = entries;
        assert(self@ =~= before.insert(permission@));
        replaced.is_none()
    }

    /// The permission at a place of the ascending order.
    pub fn at(&self, i: usize) -> (permission: &LinkPermission)
        requires
            i < self@.len(),
        ensures
            self.entries_sorted(),
            permission@ == self.row()[i as int],
            self.row().len() == self@.len(),
    {
        proof {
            use_type_invariant(self);
            self.entries.lemma_entries();
        }
        self.entries.key_at(i)
    }

    /// A copy of the set.
    pub fn duplicate(&self) -> (copy: Self)
        ensures
            copy@ == self@,
    {
        let mut copy = PermissionSet::new();
        let mut i: usize = 0;
        let len: usize = self.len();
        proof {
            use_type_invariant(self);
            self.lemma_row();
            assert(copy@ =~= self.row().subrange(0, 0).to_set());
        }
        while i < len
            invariant
                self.entries_sorted(),
                self.row().len() == self@.len(),
                len == self@.len(),
                i <= len,
                copy@ == self.row().subrange(0, i as int).to_set(),
            decreases len - i,
        {
            let permission = self.at(i);
            copy.insert(permission.duplicate());
            proof {
                let done = self.row().subrange(0, i as int);
                let more = self.row().subrange(0, i + 1);
                assert(more =~= done.push(permission@));
                assert(done.push(permission@).to_set() =~= done.to_set().insert(permission@)) by {
                    lemma_push_members(done, permission@);
                }
            }
            i = i + 1;
        }
        proof {
            self.lemma_row();
            assert(self.row().subrange(0, i as int) =~= self.row());
        }
        copy
    }
}

impl Clone for PermissionSet {
    fn clone(&self) -> (copy: Self)
        ensures
            copy@ == self@,
    {
        self.duplicate()
    }
}

/// A row with one more item has that item as well.
pub proof fn lemma_push_members<A>(row: Seq<A>, x: A)
    ensures
        row.push(x).to_set() == row.to_set().insert(x),
{
    let more = row.push(x);
    assert forall|y: A| more.to_set().contains(y) <==> row.to_set().insert(x).contains(y) by {
        assert(more.to_set().contains(y) == more.contains(y));
        assert(row.to_set().contains(y) == row.contains(y));
        if row.contains(y) {
            assert(more[row.index_of(y)] == y);
        }
        assert(more[row.len() as int] == x);
        if more.contains(y) && y != x {
            assert(row[more.index_of(y)] == y);
        }
    }
    assert(more.to_set() =~= row.to_set().insert(x));
}

/// What became of a key.
#[derive(Clone, Copy, Debug, Eq, PartialEq)]
pub enum KeyState {
    Active,
    Revoked { revoked_at_unix_ms: u64 },
    Rotated { rotated_at_unix_ms: u64, new_peer_id: PeerId },
}

/// What is known of a trusted peer.
#[derive(Debug, Eq, PartialEq)]
pub struct TrustRecord {
    pub peer_id: PeerId,
    pub public_key: Vec<u8>,
    pub alias: String,
    pub first_paired_at_unix_ms: u64,
    pub permissions: PermissionSet,
    pub key_state: KeyState,
    pub last_pairing_challenge_hash: [u8; 32],
    pub previous_key_fingerprints: Vec<[u8; 32]>,
}

#[verifier::ext_equal]
pub struct RecordView {
    pub peer_id: Seq<u8>,
    pub public_key: Seq<u8>,
    pub alias: Seq<char>,
    pub first_paired_at_unix_ms: u64,
    pub permissions: Set<PermissionView>,
    pub key_state: KeyState,
    pub last_pairing_challenge_hash: Seq<u8>,
    pub previous_key_fingerprints: Seq<[u8; 32]>,
}

impl View for TrustRecord {
    type V = RecordView;

    open spec fn view(&self) -> RecordView {
        RecordView {
            peer_id: self.peer_id@,
            public_key: self.public_key@,
            alias: self.alias@,
            first_paired_at_unix_ms: self.first_paired_at_unix_ms,
            permissions: self.permissions@,
            key_state: self.key_state,
            last_pairing_challenge_hash: self.last_pairing_challenge_hash@,
            previous_key_fingerprints: self.previous_key_fingerprints@,
        }
    }
}

/// Whether a permission keeps to the limits.
pub open spec fn permission_fits(permission: PermissionView) -> bool {
    match permission {
        PermissionView::OpenNamespace(namespace) => 0 < encode_utf8(namespace).len()
            <= MAX_PERMISSION_NAMESPACE_BYTES,
        _ => true,
    }
}

impl RecordView {
    /// Whether the record keeps to the limits.
    pub open spec fn valid(self) -> bool {
        &&& 0 < self.public_key.len() <= MAX_PUBLIC_KEY_BYTES
        &&& 0 < encode_utf8(self.alias).len() <= MAX_ALIAS_BYTES
        &&& self.permissions.len() <= MAX_PERMISSIONS
        &&& self.previous_key_fingerprints.len() <= MAX_PREVIOUS_KEY_FINGERPRINTS
        &&& forall|p: PermissionView| #[trigger] self.permissions.contains(p) ==> permission_fits(p)
    }
}

impl TrustRecord {
    /// The digest of the public key.
    pub fn public_key_fingerprint(&self) -> (fingerprint: [u8; 32])
        ensures
            fingerprint@ == sha256(self@.public_key),
    {
        sha256_digest(self.public_key.as_slice())
    }

    /// Whether the key is in use.
    pub fn is_active(&self) -> (active: bool)
        ensures
            active == (self@.key_state == KeyState::Active),
    {
        match self.key_state {
            KeyState::Active => true,
            _ => false,
        }
    }

    /// A copy of the record.
    pub fn duplicate(&self) -> (copy: Self)
        ensures
            copy@ == self@,
    {
        let public_key = self.public_key.clone();
        let previous = copy_fingerprints(&self.previous_key_fingerprints);
        assert(public_key@ =~= self.public_key@);
        TrustRecord {
            peer_id: self.peer_id,
            public_key,
            alias: self.alias.clone(),
            first_paired_at_unix_ms: self.first_paired_at_unix_ms,
            permissions: self.permissions.duplicate(),
            key_state: self.key_state,
            last_pairing_challenge_hash: self.last_pairing_challenge_hash,
            previous_key_fingerprints: previous,
        }
    }
}

/// A copy of some fingerprints.
pub fn copy_fingerprints(fingerprints: &Vec<[u8; 32]>) -> (copy: Vec<[u8; 32]>)
    ensures
        copy@ == fingerprints@,
{
    let mut copy: Vec<[u8; 32]> = Vec::new();
    let mut i: usize = 0;
    while i < fingerprints.len()
        invariant
            i <= fingerprints@.len(),
            copy@ == fingerprints@.subrange(0, i as int),
        decreases fingerprints@.len() - i,
    {
        copy.push(fingerprints[i]);
        assert(copy@ =~= fingerprints@.subrange(0, i + 1));
        i = i + 1;
    }
    assert(copy@ =~= fingerprints@);
    copy
}

impl Clone for TrustRecord {
    fn clone(&self) -> (copy: Self)
        ensures
            copy@ == self@,
    {
        self.duplicate()
    }
}

#[derive(Clone, Copy, Debug, Eq, PartialEq, Structural)]
pub enum TrustStoreErrorKind {
    Io,
    Corrupt,
    Unavailable,
    UnknownPeer,
    Revoked,
    Rotated,
    IdentityMismatch,
    Conflict,
    LimitExceeded,
}

/// Why a trust store refused or failed.
#[derive(Clone, Debug, Eq, PartialEq)]
pub struct TrustStoreError {
    pub kind: TrustStoreErrorKind,
    pub public_message: &'static str,
}

impl TrustStoreError {
    #[verifier::allow_in_spec]
    pub fn new(kind: TrustStoreErrorKind, public_message: &'static str) -> Self
        returns
            (TrustStoreError { kind, public_message }),
    {
        TrustStoreError { kind, public_message }
    }

    #[verifier::allow_in_spec]
    pub fn corrupt() -> Self
        returns
            TrustStoreError::new(TrustStoreErrorKind::Corrupt, "trust store data is invalid"),
    {
        TrustStoreError::new(TrustStoreErrorKind::Corrupt, "trust store data is invalid")
    }

    #[verifier::allow_in_spec]
    pub fn over_limit() -> Self
        returns
            TrustStoreError::new(
                TrustStoreErrorKind::LimitExceeded,
                "trust record exceeds configured limits",
            ),
    {
        TrustStoreError::new(
            TrustStoreErrorKind::LimitExceeded,
            "trust record exceeds configured limits",
        )
    }

    #[verifier::allow_in_spec]
    pub fn unknown_peer() -> Self
        returns
            TrustStoreError::new(TrustStoreErrorKind::UnknownPeer, "peer has no trust record"),
    {
        TrustStoreError::new(TrustStoreErrorKind::UnknownPeer, "peer has no trust record")
    }

    /// The text that may be shown to a user.
    pub fn display_text(&self) -> (text: String)
        ensures
            text@ == self.public_message@,
    {
        self.public_message.to_owned()
    }
}

/// Where trust records are kept.
pub trait TrustStore {
    fn get(&self, peer_id: &PeerId) -> Result<Option<TrustRecord>, TrustStoreError>;

    fn list(&self) -> Result<Vec<TrustRecord>, TrustStoreError>;

    fn upsert(&mut self, record: TrustRecord) -> Result<(), TrustStoreError>;

    fn remove(&mut self, peer_id: &PeerId) -> Result<bool, TrustStoreError>;

    fn revoke(&mut self, peer_id: &PeerId, now_unix_ms: u64) -> Result<(), TrustStoreError>;

    fn rotate(
        &mut self,
        old_peer_id: &PeerId,
        new_peer_id: PeerId,
        new_public_key: Vec<u8>,
        challenge_hash: [u8; 32],
        now_unix_ms: u64,
    ) -> Result<TrustRecord, TrustStoreError>;
}

/// Whether a record keeps to the limits.
pub fn validate_record(record: &TrustRecord) -> (valid: Result<(), TrustStoreError>)
    ensures
        valid == (if record@.valid() {
            Ok::<(), TrustStoreError>(())
        } else {
            Err(TrustStoreError::over_limit())
        }),
{
    let alias_len: usize = record.alias.as_str().as_bytes().len();
    if record.public_key.len() == 0 || record.public_key.len() > MAX_PUBLIC_KEY_BYTES || alias_len == 0
        || alias_len > MAX_ALIAS_BYTES || record.permissions.len() > MAX_PERMISSIONS
        || record.previous_key_fingerprints.len() > MAX_PREVIOUS_KEY_FINGERPRINTS
        || !permissions_fit(&record.permissions) {
        return Err(TrustStoreError::over_limit());
    }
    Ok(())
}

/// Whether every permission keeps to the limits.
fn permissions_fit(permissions: &PermissionSet) -> (fit: bool)
    ensures
        fit == forall|p: PermissionView| #[trigger] permissions@.contains(p) ==> permission_fits(p),
{
    let len: usize = permissions.len();
    let mut i: usize = 0;
    while i < len
        invariant
            len == permissions@.len(),
            i <= len,
            i > 0 ==> permissions.entries_sorted(),
            forall|j: int| 0 <= j < i ==> permission_fits(#[trigger] permissions.row()[j]),
        decreases len - i,
    {
        let permission = permissions.at(i);
        let fits = match permission {
            LinkPermission::OpenNamespace(namespace) => {
                let n: usize = namespace.as_str().as_bytes().len();
                n > 0 && n <= MAX_PERMISSION_NAMESPACE_BYTES
            },
            _ => true,
        };
        if !fits {
            proof {
                permissions.lemma_row();
                assert(permissions.row().contains(permission@));
                assert(permissions.row().to_set().contains(permission@));
            }
            return false;
        }
        i = i + 1;
    }
    proof {
        if len > 0 {
            permissions.lemma_row();
            assert forall|p: PermissionView| #[trigger] permissions@.contains(p) implies permission_fits(
                p,
            ) by {
                assert(permissions.row().to_set().contains(p));
                assert(permissions.row().contains(p));
            }
        } else {
            assert forall|p: PermissionView| !(#[trigger] permissions@.contains(p)) by {
                if permissions@.contains(p) {
                    assert(permissions@.remove(p).len() == permissions@.len() - 1);
                }
            }
        }
    }
    true
}

/// Why a peer that comes back is not let in.
pub open spec fn reconnect_fault(record: Option<RecordView>, presented_public_key: Seq<u8>) -> Option<
    TrustStoreError,
> {
    match record {
        None => Some(TrustStoreError::unknown_peer()),
        Some(r) => if !r.valid() {
            Some(TrustStoreError::over_limit())
        } else {
            match r.key_state {
                KeyState::Revoked { .. } => Some(
                    TrustStoreError::new(TrustStoreErrorKind::Revoked, "peer trust has been revoked"),
                ),
                KeyState::Rotated { .. } => Some(
                    TrustStoreError::new(TrustStoreErrorKind::Rotated, "peer identity key was rotated"),
                ),
                KeyState::Active => if r.public_key != presented_public_key {
                    Some(
                        TrustStoreError::new(
                            TrustStoreErrorKind::IdentityMismatch,
                            "peer public key does not match trust record",
                        ),
                    )
                } else {
                    None
                },
            }
        },
    }
}

/// The view of an optional record.
pub open spec fn record_view(record: Option<TrustRecord>) -> Option<RecordView> {
    match record {
        Some(r) => Some(r@),
        None => None,
    }
}

/// Lets a peer in whose record was found, if its key is the one that is trusted.
pub fn authorize_record(record: Option<TrustRecord>, presented_public_key: &[u8]) -> (authorized: Result<
    TrustRecord,
    TrustStoreError,
>)
    ensures
        match reconnect_fault(record_view(record), presented_public_key@) {
            None => authorized == Ok::<TrustRecord, TrustStoreError>(record->0),
            Some(fault) => authorized == Err::<TrustRecord, TrustStoreError>(fault),
        },
{
    let record = match record {
        Some(record) => record,
        None => {
            return Err(TrustStoreError::unknown_peer());
        },
    };
    validate_record(&record)?;
    match record.key_state {
        KeyState::Active => {},
        KeyState::Revoked { .. } => {
            return Err(
                TrustStoreError::new(TrustStoreErrorKind::Revoked, "peer trust has been revoked"),
            );
        },
        KeyState::Rotated { .. } => {
            return Err(
                TrustStoreError::new(TrustStoreErrorKind::Rotated, "peer identity key was rotated"),
            );
        },
    }
    if !bytes_equal(record.public_key.as_slice(), presented_public_key) {
        return Err(
            TrustStoreError::new(
                TrustStoreErrorKind::IdentityMismatch,
                "peer public key does not match trust record",
            ),
        );
    }
    Ok(record)
}

/// Lets a peer in that comes back, if the store has a record with its key.
pub fn authorize_trusted_reconnect<S: TrustStore>(
    store: &S,
    peer_id: &PeerId,
    presented_public_key: &[u8],
) -> (authorized: Result<TrustRecord, TrustStoreError>)
    ensures
        exists|found: Result<Option<TrustRecord>, TrustStoreError>| #[trigger]
            call_ensures(S::get, (store, peer_id), found) && (match found {
                Err(e) => authorized == Err::<TrustRecord, TrustStoreError>(e),
                Ok(record) => match reconnect_fault(record_view(record), presented_public_key@) {
                    None => authorized == Ok::<TrustRecord, TrustStoreError>(record->0),
                    Some(fault) => authorized == Err::<TrustRecord, TrustStoreError>(fault),
                },
            }),
{
    let found = store.get(peer_id);
    let ghost seen = found;
    assert(call_ensures(S::get, (store, peer_id), seen));
    match found {
        Err(e) => Err(e),
        Ok(record) => authorize_record(record, presented_public_key),
    }
}

/// A record keeps to its limits: a key of up to 4096 bytes, a name of up to 256, up to 128
/// permissions for names of up to 128 bytes, and up to 64 keys before this one.
pub proof fn records_keep_to_their_limits(record: RecordView, p: PermissionView)
    ensures
        record.public_key.len() == 0 || record.public_key.len() > 4096 ==> !record.valid(),
        encode_utf8(record.alias).len() == 0 || encode_utf8(record.alias).len() > 256
            ==> !record.valid(),
        record.permissions.len() > 128 ==> !record.valid(),
        record.previous_key_fingerprints.len() > 64 ==> !record.valid(),
        record.permissions.contains(p) && (p matches PermissionView::OpenNamespace(name) && (encode_utf8(
            name,
        ).len() == 0 || encode_utf8(name).len() > 128)) ==> !record.valid(),
        permission_fits(PermissionView::Connect),
        permission_fits(PermissionView::Datagram),
        1 <= record.public_key.len() <= 4096 && 1 <= encode_utf8(record.alias).len() <= 256
            && record.permissions.len() <= 128 && record.previous_key_fingerprints.len() <= 64 && (forall|
            q: PermissionView,
        | #[trigger]
            record.permissions.contains(q) ==> (q matches PermissionView::OpenNamespace(name) ==> 1
                <= encode_utf8(name).len() <= 128)) ==> record.valid(),
{
    if 1 <= record.public_key.len() <= 4096 && 1 <= encode_utf8(record.alias).len() <= 256
        && record.permissions.len() <= 128 && record.previous_key_fingerprints.len() <= 64 && (forall|
        q: PermissionView,
    | #[trigger]
        record.permissions.contains(q) ==> (q matches PermissionView::OpenNamespace(name) ==> 1
            <= encode_utf8(name).len() <= 128)) {
        assert forall|q: PermissionView| #[trigger] record.permissions.contains(q) implies permission_fits(
            q,
        ) by {}
    }
}

/// A peer that is trusted with its key may reconnect with that key, and with no other; a
/// peer without a record may not.
pub proof fn trusted_peers_reconnect_with_their_key(record: RecordView, presented: Seq<u8>)
    requires
        record.valid(),
        record.key_state == KeyState::Active,
    ensures
        reconnect_fault(Some(record), record.public_key) is None,
        presented != record.public_key ==> (reconnect_fault(Some(record), presented) matches Some(e)
            && e.kind == TrustStoreErrorKind::IdentityMismatch),
        reconnect_fault(None, presented) matches Some(e) && e.kind == TrustStoreErrorKind::UnknownPeer,
{
}

/// A permission that was given is held, and giving it again is no news; the others stay as
/// they were.
pub proof fn given_permissions_are_held(before: PermissionSet, given: LinkPermission, other: LinkPermission)
    ensures
        forall|lent: &mut PermissionSet, fresh: bool|
            *lent == before && #[trigger] call_ensures(PermissionSet::insert, (lent, given), fresh)
                ==> {
                &&& final(lent)@.contains(given@)
                &&& fresh <==> !before@.contains(given@)
                &&& other@ != given@ ==> (final(lent)@.contains(other@) <==> before@.contains(other@))
            },
        forall|set: PermissionSet| #[trigger]
            call_ensures(PermissionSet::new, (), set) ==> !set@.contains(given@),
        forall|has: bool| #[trigger]
            call_ensures(PermissionSet::contains, (&before, &given), has) ==> (has
                <==> before@.contains(given@)),
{
}

/// A key is active until it is rotated or revoked.
pub proof fn rotated_and_revoked_keys_are_not_active(record: TrustRecord)
    ensures
        forall|active: bool| #[trigger]
            call_ensures(TrustRecord::is_active, (&record,), active) ==> {
                &&& active <==> !(record@.key_state is Rotated || record@.key_state is Revoked)
                &&& active <==> record@.key_state is Active
            },
{
}

} // verus!
