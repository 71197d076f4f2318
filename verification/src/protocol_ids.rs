//! Identities that protocols and schemas keep on every link, and capabilities.

use vstd::prelude::*;
use vstd::string::StringExecFns;
use vstd::std_specs::ops::BitOrSpecImpl;
use vstd::utf8::encode_utf8;
use crate::bytes::{bytes_equal, push_bytes};
use crate::digest::{digest_prefix, sha256, sha256_digest};
use crate::ordering::{MapKey, Position, byte_position, byte_rank, byte_rank_injective};
use crate::text::{hex_text, is_dotted, is_dotted_text, is_name, is_name_text, push_hex};

verus! {

pub const PROTOCOL_ID_DOMAIN: &'static str = "mutsuki-link.protocol-stable-id.v1\0";

pub const SCHEMA_ID_DOMAIN: &'static str = "mutsuki-link.schema-id.v1\0";

pub const MAX_PROTOCOL_CAPABILITY_WORDS: usize = 8;

/// What the identity of a name is the digest of: the domain, the authority, a
/// zero byte and the name.
pub open spec fn naming_input(domain: Seq<char>, authority: Seq<char>, name: Seq<char>) -> Seq<u8> {
    encode_utf8(domain) + encode_utf8(authority) + seq![0u8] + encode_utf8(name)
}

/// The sixteen bytes that a name gets within a domain.
pub open spec fn named_bytes(domain: Seq<char>, authority: Seq<char>, name: Seq<char>) -> Seq<u8> {
    sha256(naming_input(domain, authority, name)).subrange(0, 16)
}

/// The bytes that the identity of a protocol has.
pub open spec fn protocol_identity(authority: Seq<char>, name: Seq<char>) -> Seq<u8> {
    named_bytes(PROTOCOL_ID_DOMAIN@, authority, name)
}

/// The bytes that the identity of a schema has.
pub open spec fn schema_identity(authority: Seq<char>, name: Seq<char>) -> Seq<u8> {
    named_bytes(SCHEMA_ID_DOMAIN@, authority, name)
}

fn derive_128(domain: &str, authority: &str, name: &str) -> (bytes: [u8; 16])
    ensures
        bytes@ == named_bytes(domain@, authority@, name@),
{
    let mut input: Vec<u8> = Vec::new();
    push_bytes(&mut input, domain.as_bytes());
    push_bytes(&mut input, authority.as_bytes());
    input.push(0);
    push_bytes(&mut input, name.as_bytes());
    assert(input@ =~= naming_input(domain@, authority@, name@));
    digest_prefix(&sha256_digest(input.as_slice()))
}

/// The identity of a protocol, independent of how it is spelled.
#[derive(Clone, Copy, Debug, Eq, Hash, Ord, PartialEq, PartialOrd)]
pub struct ProtocolStableId(pub [u8; 16]);

impl View for ProtocolStableId {
    type V = Seq<u8>;

    open spec fn view(&self) -> Seq<u8> {
        self.0@
    }
}

impl ProtocolStableId {
    #[verifier::allow_in_spec]
    pub fn from_bytes(bytes: [u8; 16]) -> Self
        returns
            ProtocolStableId(bytes),
    {
        ProtocolStableId(bytes)
    }

    pub fn as_bytes(&self) -> (bytes: &[u8; 16])
        ensures
            *bytes == self.0,
            bytes@ == self@,
    {
        &self.0
    }

    /// Whether both identifiers hold the same bytes.
    pub fn same(&self, other: &Self) -> (same: bool)
        ensures
            same == (*self == *other),
            same == (self@ == other@),
    {
        let same = bytes_equal(&self.0, &other.0);
        proof {
            if same {
                assert(self.0 =~= other.0);
            }
        }
        same
    }

    /// The identity of the protocol that `authority` calls `name`.
    pub fn derive(authority: &str, name: &str) -> (id: Self)
        ensures
            id@ == protocol_identity(authority@, name@),
    {
        ProtocolStableId(derive_128(PROTOCOL_ID_DOMAIN, authority, name))
    }

    /// The namespace under which the protocol's channels are opened.
    pub fn wire_namespace(self) -> (namespace: String)
        ensures
            namespace@ == wire_namespace_text(self@),
    {
        let mut output = String::new();
        output.append("stable.");
        push_hex(&mut output, &self.0);
        assert(output@ =~= wire_namespace_text(self@));
        output
    }
}

/// Ordered by its bytes.
impl MapKey for ProtocolStableId {
    open spec fn rank(v: Seq<u8>) -> Seq<int> {
        byte_rank(v)
    }

    proof fn rank_injective(a: Seq<u8>, b: Seq<u8>) {
        byte_rank_injective(a, b);
    }

    fn position(&self, other: &Self) -> (p: Position) {
        byte_position(&self.0, &other.0)
    }
}

/// The namespace of the protocol with these identity bytes.
pub open spec fn wire_namespace_text(id: Seq<u8>) -> Seq<char> {
    "stable."@ + hex_text(id)
}

/// Different protocols have different namespaces.
pub proof fn wire_namespace_injective(a: ProtocolStableId, b: ProtocolStableId)
    requires
        wire_namespace_text(a@) == wire_namespace_text(b@),
    ensures
        a == b,
{
    let prefix = "stable."@;
    let ta = wire_namespace_text(a@);
    let tb = wire_namespace_text(b@);
    assert forall|i: int| 0 <= i < 16 implies a@[i] == b@[i] by {
        assert(ta[prefix.len() + 2 * i] == hex_text(a@)[2 * i]);
        assert(tb[prefix.len() + 2 * i] == hex_text(b@)[2 * i]);
        assert(ta[prefix.len() + (2 * i + 1)] == hex_text(a@)[2 * i + 1]);
        assert(tb[prefix.len() + (2 * i + 1)] == hex_text(b@)[2 * i + 1]);
        assert(2 * i / 2 == i && (2 * i + 1) / 2 == i);
        crate::text::hex_digit_injective(a@[i] as int / 16, b@[i] as int / 16);
        crate::text::hex_digit_injective(a@[i] as int % 16, b@[i] as int % 16);
    }
    assert(a.0 =~= b.0);
}

/// A channel as its protocol numbers it.
#[derive(Clone, Copy, Debug, Eq, Hash, Ord, PartialEq, PartialOrd, Structural)]
pub struct ProtocolChannelId(pub u16);

/// How people spell a protocol. It takes part in no decision but must agree
/// with the stable identity.
#[derive(Clone, Debug, Eq, Hash, Ord, PartialEq, PartialOrd)]
pub struct ProtocolDebugIdentity {
    pub authority: String,
    pub name: String,
}

/// The authority and the name of a protocol.
pub struct DebugIdentityView {
    pub authority: Seq<char>,
    pub name: Seq<char>,
}

impl View for ProtocolDebugIdentity {
    type V = DebugIdentityView;

    open spec fn view(&self) -> DebugIdentityView {
        DebugIdentityView { authority: self.authority@, name: self.name@ }
    }
}

impl DebugIdentityView {
    /// Whether the authority is a row of names and the name is one name.
    pub open spec fn canonical(self) -> bool {
        is_dotted_text(self.authority) && is_name_text(self.name)
    }

    /// The bytes of the identity that the spelling stands for.
    pub open spec fn identity(self) -> Seq<u8> {
        protocol_identity(self.authority, self.name)
    }
}

impl ProtocolDebugIdentity {
    pub fn new(authority: &str, name: &str) -> (identity: Self)
        ensures
            identity.authority@ == authority@,
            identity.name@ == name@,
    {
        ProtocolDebugIdentity { authority: authority.to_owned(), name: name.to_owned() }
    }

    /// The identity that the spelling stands for.
    pub fn stable_id(&self) -> (id: ProtocolStableId)
        ensures
            id@ == self@.identity(),
    {
        ProtocolStableId::derive(self.authority.as_str(), self.name.as_str())
    }

    /// Whether the authority is a row of names and the name is one name.
    pub fn is_canonical(&self) -> (canonical: bool)
        ensures
            canonical == self@.canonical(),
    {
        is_dotted(self.authority.as_str()) && is_name(self.name.as_str())
    }

    /// A copy with the same spelling.
    pub fn duplicate(&self) -> (copy: Self)
        ensures
            copy@ == self@,
            copy == *self,
    {
        ProtocolDebugIdentity { authority: self.authority.clone(), name: self.name.clone() }
    }
}

/// The identity of a schema.
#[derive(Clone, Copy, Debug, Eq, Hash, Ord, PartialEq, PartialOrd)]
pub struct SchemaId(pub [u8; 16]);

impl View for SchemaId {
    type V = Seq<u8>;

    open spec fn view(&self) -> Seq<u8> {
        self.0@
    }
}

impl SchemaId {
    #[verifier::allow_in_spec]
    pub fn from_bytes(bytes: [u8; 16]) -> Self
        returns
            SchemaId(bytes),
    {
        SchemaId(bytes)
    }

    pub fn as_bytes(&self) -> (bytes: &[u8; 16])
        ensures
            *bytes == self.0,
            bytes@ == self@,
    {
        &self.0
    }

    /// Whether both identifiers hold the same bytes.
    pub fn same(&self, other: &Self) -> (same: bool)
        ensures
            same == (*self == *other),
            same == (self@ == other@),
    {
        let same = bytes_equal(&self.0, &other.0);
        proof {
            if same {
                assert(self.0 =~= other.0);
            }
        }
        same
    }

    /// The identity of the schema that `authority` calls `name`.
    pub fn derive(authority: &str, name: &str) -> (id: Self)
        ensures
            id@ == schema_identity(authority@, name@),
    {
        SchemaId(derive_128(SCHEMA_ID_DOMAIN, authority, name))
    }
}

/// Ordered by its bytes.
impl MapKey for SchemaId {
    open spec fn rank(v: Seq<u8>) -> Seq<int> {
        byte_rank(v)
    }

    proof fn rank_injective(a: Seq<u8>, b: Seq<u8>) {
        byte_rank_injective(a, b);
    }

    fn position(&self, other: &Self) -> (p: Position) {
        byte_position(&self.0, &other.0)
    }
}

/// How often a schema has been revised; zero is no revision.
#[derive(Clone, Copy, Debug, Eq, Hash, Ord, PartialEq, PartialOrd, Structural)]
pub struct SchemaRevision(pub u32);

/// The digest of the contract that a schema writes down.
#[derive(Clone, Copy, Debug, Eq, Hash, Ord, PartialEq, PartialOrd)]
pub struct SchemaFingerprint(pub [u8; 32]);

impl View for SchemaFingerprint {
    type V = Seq<u8>;

    open spec fn view(&self) -> Seq<u8> {
        self.0@
    }
}

impl SchemaFingerprint {
    #[verifier::allow_in_spec]
    pub fn from_bytes(bytes: [u8; 32]) -> Self
        returns
            SchemaFingerprint(bytes),
    {
        SchemaFingerprint(bytes)
    }

    pub fn as_bytes(&self) -> (bytes: &[u8; 32])
        ensures
            *bytes == self.0,
            bytes@ == self@,
    {
        &self.0
    }

    /// Whether both identifiers hold the same bytes.
    pub fn same(&self, other: &Self) -> (same: bool)
        ensures
            same == (*self == *other),
            same == (self@ == other@),
    {
        let same = bytes_equal(&self.0, &other.0);
        proof {
            if same {
                assert(self.0 =~= other.0);
            }
        }
        same
    }

    /// The fingerprint of `contract`.
    pub fn digest(contract: &[u8]) -> (fingerprint: Self)
        ensures
            fingerprint@ == sha256(contract@),
    {
        SchemaFingerprint(sha256_digest(contract))
    }
}

/// Ordered by its bytes.
impl MapKey for SchemaFingerprint {
    open spec fn rank(v: Seq<u8>) -> Seq<int> {
        byte_rank(v)
    }

    proof fn rank_injective(a: Seq<u8>, b: Seq<u8>) {
        byte_rank_injective(a, b);
    }

    fn position(&self, other: &Self) -> (p: Position) {
        byte_position(&self.0, &other.0)
    }
}

/// One revision of a schema, with the fingerprint of its contract.
#[derive(Clone, Copy, Debug, Eq, Hash, Ord, PartialEq, PartialOrd)]
pub struct SchemaRef {
    pub id: SchemaId,
    pub revision: SchemaRevision,
    pub fingerprint: SchemaFingerprint,
}

impl SchemaRef {
    pub fn for_contract(authority: &str, name: &str, revision: u32, contract: &[u8]) -> (schema: Self)
        ensures
            schema.id@ == schema_identity(authority@, name@),
            schema.revision == SchemaRevision(revision),
            schema.fingerprint@ == sha256(contract@),
    {
        SchemaRef {
            id: SchemaId::derive(authority, name),
            revision: SchemaRevision(revision),
            fingerprint: SchemaFingerprint::digest(contract),
        }
    }

    /// Whether both refer to the same revision of the same contract.
    pub fn same(&self, other: &Self) -> (same: bool)
        ensures
            same == (*self == *other),
    {
        self.id.same(&other.id) && self.revision == other.revision && self.fingerprint.same(
            &other.fingerprint,
        )
    }
}

/// What a peer can do on the link itself, one bit each.
#[derive(Clone, Copy, Debug, Eq, PartialEq, Structural)]
pub struct LinkCapabilities(pub u64);

impl Default for LinkCapabilities {
    fn default() -> (none: Self)
        ensures
            none == LinkCapabilities(0),
    {
        LinkCapabilities(0)
    }
}

impl LinkCapabilities {
    #[verifier::allow_in_spec]
    pub fn compact_channel_id() -> Self
        returns
            LinkCapabilities(1),
    {
        LinkCapabilities(1)
    }

    #[verifier::allow_in_spec]
    pub fn datagrams() -> Self
        returns
            LinkCapabilities(2),
    {
        LinkCapabilities(2)
    }

    #[verifier::allow_in_spec]
    pub fn session_resume() -> Self
        returns
            LinkCapabilities(4),
    {
        LinkCapabilities(4)
    }

    #[verifier::allow_in_spec]
    pub fn management_channel() -> Self
        returns
            LinkCapabilities(8),
    {
        LinkCapabilities(8)
    }

    #[verifier::allow_in_spec]
    pub fn ordered_response_multiplex() -> Self
        returns
            LinkCapabilities(16),
    {
        LinkCapabilities(16)
    }

    /// Both peers understand the typed control envelope introduced in wire v1.
    #[verifier::allow_in_spec]
    pub fn typed_control() -> Self
        returns
            LinkCapabilities(32),
    {
        LinkCapabilities(32)
    }

    #[verifier::allow_in_spec]
    pub fn from_bits(bits: u64) -> Self
        returns
            LinkCapabilities(bits),
    {
        LinkCapabilities(bits)
    }

    #[verifier::allow_in_spec]
    pub fn bits(self) -> u64
        returns
            self.0,
    {
        self.0
    }

    /// Whether every bit of `capability` is set.
    #[verifier::allow_in_spec]
    pub fn contains(self, capability: Self) -> bool
        returns
            self.0 & capability.0 == capability.0,
    {
        self.0 & capability.0 == capability.0
    }

    /// The bits that both have.
    #[must_use]
    #[verifier::allow_in_spec]
    pub fn intersection(self, other: Self) -> Self
        returns
            LinkCapabilities(self.0 & other.0),
    {
        LinkCapabilities(self.0 & other.0)
    }

    /// Whether `other` has every bit that is set here.
    #[verifier::allow_in_spec]
    pub fn is_subset_of(self, other: Self) -> bool
        returns
            self.0 & !other.0 == 0,
    {
        self.0 & !other.0 == 0
    }
}

impl core::ops::BitOr for LinkCapabilities {
    type Output = LinkCapabilities;

    fn bitor(self, rhs: LinkCapabilities) -> (either: LinkCapabilities) {
        LinkCapabilities(self.0 | rhs.0)
    }
}

impl BitOrSpecImpl for LinkCapabilities {
    open spec fn obeys_bitor_spec() -> bool {
        true
    }

    open spec fn bitor_req(self, rhs: LinkCapabilities) -> bool {
        true
    }

    open spec fn bitor_spec(self, rhs: LinkCapabilities) -> LinkCapabilities {
        LinkCapabilities(self.0 | rhs.0)
    }
}

/// What both peers can do, each of them can do.
pub proof fn shared_capabilities_are_held_by_both(a: LinkCapabilities, b: LinkCapabilities)
    ensures
        a.intersection(b).is_subset_of(a),
        a.intersection(b).is_subset_of(b),
        forall|c: LinkCapabilities|
            #[trigger] a.intersection(b).contains(c) <==> a.contains(c) && b.contains(c),
{
    let (x, y) = (a.0, b.0);
    assert((x & y) & !x == 0) by (bit_vector);
    assert((x & y) & !y == 0) by (bit_vector);
    assert forall|c: LinkCapabilities| #[trigger] a.intersection(b).contains(c) <==> a.contains(c)
        && b.contains(c) by {
        let z = c.0;
        assert(((x & y) & z == z) <==> (x & z == z && y & z == z)) by (bit_vector);
    }
}

/// What a peer can do within one protocol, one bit each, 64 to a word.
#[derive(Clone, Debug, Eq, PartialEq)]
pub struct ProtocolCapabilitySet {
    pub protocol_id: ProtocolStableId,
    pub words: Vec<u64>,
}

/// The protocol and the words of a capability set.
#[verifier::ext_equal]
pub struct CapabilityView {
    pub protocol_id: ProtocolStableId,
    pub words: Seq<u64>,
}

impl View for ProtocolCapabilitySet {
    type V = CapabilityView;

    open spec fn view(&self) -> CapabilityView {
        CapabilityView { protocol_id: self.protocol_id, words: self.words@ }
    }
}

impl CapabilityView {
    /// Word `i`; past the last word no bit is set.
    pub open spec fn word(self, i: int) -> u64 {
        if 0 <= i < self.words.len() {
            self.words[i]
        } else {
            0
        }
    }

    /// The bits that both have.
    pub open spec fn shared(self, other: CapabilityView) -> CapabilityView {
        let len = if self.words.len() <= other.words.len() {
            self.words.len()
        } else {
            other.words.len()
        };
        CapabilityView {
            protocol_id: self.protocol_id,
            words: Seq::new(len, |i: int| self.words[i] & other.words[i]),
        }
    }

    /// Whether both are of one protocol and `other` has every bit that is set here.
    pub open spec fn subset_of(self, other: CapabilityView) -> bool {
        &&& self.protocol_id == other.protocol_id
        &&& forall|i: int|
            0 <= i < self.words.len() ==> #[trigger] self.words[i] & !other.word(i) == 0
    }
}

impl ProtocolCapabilitySet {
    pub fn empty(protocol_id: ProtocolStableId) -> (set: Self)
        ensures
            set@ == (CapabilityView { protocol_id, words: Seq::empty() }),
    {
        ProtocolCapabilitySet { protocol_id, words: Vec::new() }
    }

    /// Whether the set fits the bound on its words.
    pub fn is_bounded(&self) -> (bounded: bool)
        ensures
            bounded == (self@.words.len() <= MAX_PROTOCOL_CAPABILITY_WORDS),
    {
        self.words.len() <= MAX_PROTOCOL_CAPABILITY_WORDS
    }

    /// The bits that both have, if both are of one protocol.
    pub fn intersect(&self, other: &Self) -> (shared: Option<Self>)
        ensures
            match shared {
                Some(set) => self.protocol_id == other.protocol_id && set@ == self@.shared(other@),
                None => self.protocol_id != other.protocol_id,
            },
    {
        if !self.protocol_id.same(&other.protocol_id) {
            return None;
        }
        let mut words: Vec<u64> = Vec::new();
        let mut i: usize = 0;
        while i < self.words.len() && i < other.words.len()
            invariant
                i <= self.words@.len(),
                i <= other.words@.len(),
                words@ == Seq::new(i as nat, |j: int| self.words@[j] & other.words@[j]),
            decreases self.words@.len() - i,
        {
            words.push(self.words[i] & other.words[i]);
            assert(words@ =~= Seq::new((i + 1) as nat, |j: int| self.words@[j] & other.words@[j]));
            i = i + 1;
        }
        assert(words@ =~= self@.shared(other@).words);
        Some(ProtocolCapabilitySet { protocol_id: self.protocol_id, words })
    }

    /// Whether both are of one protocol and `other` has every bit that is set here.
    pub fn is_subset_of(&self, other: &Self) -> (subset: bool)
        ensures
            subset == self@.subset_of(other@),
    {
        if !self.protocol_id.same(&other.protocol_id) {
            return false;
        }
        let mut i: usize = 0;
        while i < self.words.len()
            invariant
                i <= self.words@.len(),
                forall|j: int|
                    0 <= j < i ==> #[trigger] self@.words[j] & !other@.word(j) == 0,
            decreases self.words@.len() - i,
        {
            let other_word: u64 = if i < other.words.len() {
                other.words[i]
            } else {
                0
            };
            if self.words[i] & !other_word != 0 {
                assert(self@.words[i as int] & !other@.word(i as int) != 0);
                return false;
            }
            i = i + 1;
        }
        true
    }

    /// A copy of the set.
    pub fn duplicate(&self) -> (copy: Self)
        ensures
            copy@ == self@,
    {
        let words = self.words.clone();
        assert(words@ =~= self.words@);
        ProtocolCapabilitySet { protocol_id: self.protocol_id, words }
    }
}

/// What two sets of one protocol share is a subset of each.
pub proof fn shared_is_subset(a: CapabilityView, b: CapabilityView)
    requires
        a.protocol_id == b.protocol_id,
    ensures
        a.shared(b).subset_of(a),
        a.shared(b).subset_of(b),
{
    assert forall|i: int| 0 <= i < a.shared(b).words.len() implies #[trigger] a.shared(b).words[i]
        & !a.word(i) == 0 && a.shared(b).words[i] & !b.word(i) == 0 by {
        let (x, y) = (a.words[i], b.words[i]);
        assert((x & y) & !x == 0) by (bit_vector);
        assert((x & y) & !y == 0) by (bit_vector);
    }
}

/// What is digested for a protocol is never what is digested for a schema.
pub proof fn identities_have_domains_of_their_own(
    authority: Seq<char>,
    name: Seq<char>,
    other_authority: Seq<char>,
    other_name: Seq<char>,
)
    ensures
        naming_input(PROTOCOL_ID_DOMAIN@, authority, name) != naming_input(
            SCHEMA_ID_DOMAIN@,
            other_authority,
            other_name,
        ),
{
    let a = PROTOCOL_ID_DOMAIN@;
    let b = SCHEMA_ID_DOMAIN@;
    reveal_strlit("mutsuki-link.protocol-stable-id.v1\0");
    reveal_strlit("mutsuki-link.schema-id.v1\0");
    assert(vstd::utf8::is_ascii_chars(a));
    assert(vstd::utf8::is_ascii_chars(b));
    vstd::utf8::is_ascii_chars_encode_utf8(a);
    vstd::utf8::is_ascii_chars_encode_utf8(b);
    let x = naming_input(a, authority, name);
    let y = naming_input(b, other_authority, other_name);
    assert(a[13] == 'p' && b[13] == 's');
    assert(x[13] == encode_utf8(a)[13] && y[13] == encode_utf8(b)[13]);
}

/// Different spellings of one domain, with authorities that are rows of names, are
/// digested from different bytes.
pub proof fn spellings_are_digested_apart(
    domain: Seq<char>,
    authority: Seq<char>,
    name: Seq<char>,
    other_authority: Seq<char>,
    other_name: Seq<char>,
)
    requires
        is_dotted_text(authority),
        is_dotted_text(other_authority),
        naming_input(domain, authority, name) == naming_input(domain, other_authority, other_name),
    ensures
        authority == other_authority,
        name == other_name,
{
    let d = encode_utf8(domain);
    let (a, b) = (encode_utf8(authority), encode_utf8(other_authority));
    let (n, o) = (encode_utf8(name), encode_utf8(other_name));
    let x = naming_input(domain, authority, name);
    let y = naming_input(domain, other_authority, other_name);
    assert(vstd::utf8::is_ascii_chars(authority));
    assert(vstd::utf8::is_ascii_chars(other_authority));
    vstd::utf8::is_ascii_chars_encode_utf8(authority);
    vstd::utf8::is_ascii_chars_encode_utf8(other_authority);
    assert(x[d.len() + a.len() as int] == 0 && y[d.len() + b.len() as int] == 0);
    if a.len() < b.len() {
        assert(y[d.len() + a.len() as int] == b[a.len() as int]);
        assert(other_authority[a.len() as int] as u8 == b[a.len() as int]);
    }
    if b.len() < a.len() {
        assert(x[d.len() + b.len() as int] == a[b.len() as int]);
        assert(authority[b.len() as int] as u8 == a[b.len() as int]);
    }
    let at = d.len() as int;
    assert(a =~= x.subrange(at, at + a.len()));
    assert(b =~= y.subrange(at, at + b.len()));
    assert(n =~= x.subrange(at + a.len() + 1, x.len() as int));
    assert(o =~= y.subrange(at + b.len() + 1, y.len() as int));
    vstd::utf8::encode_utf8_decode_utf8(authority);
    vstd::utf8::encode_utf8_decode_utf8(other_authority);
    vstd::utf8::encode_utf8_decode_utf8(name);
    vstd::utf8::encode_utf8_decode_utf8(other_name);
}

/// A link capability is a bit of its own, and is had where its bit is set.
pub proof fn link_capabilities_are_bits(bits: u64)
    ensures
        LinkCapabilities(bits).contains(LinkCapabilities::compact_channel_id()) <==> bits & 1 == 1,
        LinkCapabilities(bits).contains(LinkCapabilities::datagrams()) <==> (bits >> 1) & 1 == 1,
        LinkCapabilities(bits).contains(LinkCapabilities::session_resume()) <==> (bits >> 2) & 1 == 1,
        LinkCapabilities(bits).contains(LinkCapabilities::management_channel()) <==> (bits >> 3) & 1 == 1,
        LinkCapabilities(bits).contains(LinkCapabilities::ordered_response_multiplex()) <==> (bits >> 4)
            & 1 == 1,
        LinkCapabilities(bits).contains(LinkCapabilities::typed_control()) <==> (bits >> 5) & 1 == 1,
{
    assert(((bits & 2 == 2) <==> (bits >> 1) & 1 == 1) && ((bits & 4 == 4) <==> (bits >> 2) & 1 == 1) && (
    (bits & 8 == 8) <==> (bits >> 3) & 1 == 1) && ((bits & 16 == 16) <==> (bits >> 4) & 1 == 1) && ((bits
        & 32 == 32) <==> (bits >> 5) & 1 == 1)) by (bit_vector);
}

/// A set is a subset of another of its protocol where each bit of it is set in the other as
/// well; words that the other has not count as empty.
pub proof fn subsets_have_no_bit_of_their_own(a: CapabilityView, b: CapabilityView, i: int, bit: u64)
    requires
        bit < 64,
        0 <= i < a.words.len(),
    ensures
        a.subset_of(b) && (a.words[i] >> bit) & 1 == 1 ==> i < b.words.len() && (b.words[i] >> bit) & 1
            == 1,
        a.protocol_id != b.protocol_id ==> !a.subset_of(b),
        a.subset_of(a),
{
    let x = a.words[i];
    let y = b.word(i);
    if a.subset_of(b) && (x >> bit) & 1 == 1 {
        assert(x & !y == 0);
        assert((y >> bit) & 1 == 1) by (bit_vector)
            requires
                x & !y == 0,
                (x >> bit) & 1 == 1,
                bit < 64,
        ;
        if i >= b.words.len() {
            assert((0u64 >> bit) & 1 == 0) by (bit_vector);
        }
    }
    assert forall|j: int| 0 <= j < a.words.len() implies #[trigger] a.words[j] & !a.word(j) == 0 by {
        let w = a.words[j];
        assert(w & !w == 0) by (bit_vector);
    }
}

/// The identity of a protocol is the first half of the digest of its domain, its authority,
/// a zero byte and its name.
pub proof fn identities_are_digests_of_the_spelling(authority: Seq<char>, name: Seq<char>)
    ensures
        protocol_identity(authority, name) == sha256(
            encode_utf8("mutsuki-link.protocol-stable-id.v1\0"@) + encode_utf8(authority).push(0)
                + encode_utf8(name),
        ).subrange(0, 16),
        schema_identity(authority, name) == sha256(
            encode_utf8("mutsuki-link.schema-id.v1\0"@) + encode_utf8(authority).push(0) + encode_utf8(
                name,
            ),
        ).subrange(0, 16),
        wire_namespace_text(protocol_identity(authority, name)) == "stable."@ + hex_text(
            protocol_identity(authority, name),
        ),
{
    let a = encode_utf8("mutsuki-link.protocol-stable-id.v1\0"@);
    let b = encode_utf8("mutsuki-link.schema-id.v1\0"@);
    assert(naming_input(PROTOCOL_ID_DOMAIN@, authority, name) =~= a + encode_utf8(authority).push(0)
        + encode_utf8(name));
    assert(naming_input(SCHEMA_ID_DOMAIN@, authority, name) =~= b + encode_utf8(authority).push(0)
        + encode_utf8(name));
}

} // verus!
