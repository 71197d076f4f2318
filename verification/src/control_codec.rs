//! Reading and writing typed control frames.

use vstd::prelude::*;
use vstd::slice::slice_subrange;
use crate::bytes::{
    be16, be32, be64, push_bytes, push_u16, push_u32, push_u64, read_16, read_32, read_u16, read_u32, read_u64,
};
use crate::channel::ChannelId;
use crate::control::{
    AcceptChannel, BeginDrain, CloseChannel, CloseSession, ControlEnvelope, ControlEnvelopeView,
    ControlFlags, ControlIdentityMode, ControlModeGuard, ControlPayload, ErrorCode, ErrorDomain,
    HelloControl, LinkControlError, LinkControlOpcode, OpenChannel, PayloadView, Ping, Pong, RequestId,
    Retryability, TYPED_CONTROL_WIRE_VERSION,
};
use crate::control_wire::{
    CONTROL_HEADER_BYTES, CONTROL_MAGIC, MAX_CONTROL_DEBUG_COMPONENT_BYTES,
    MAX_CONTROL_PAYLOAD_BYTES, MAX_CONTROL_PROTOCOLS, Parsed, REMOTE_ERROR_MESSAGE, accept_bytes,
    capability_bytes, debug_identity_bytes, debug_identity_fits, domain_code, domain_of,
    envelope_bytes, envelope_fault, error_bytes, header_bytes, hello_bytes, lemma_array16,
    lemma_array32, offer_bytes, offered, offers_bytes, offers_fault, open_bytes, parse_16, parse_32,
    parse_accept, parse_body, parse_bytes, parse_capabilities, parse_close_channel, parse_count,
    parse_debug_identity, parse_envelope, parse_error, parse_hello, parse_identity, parse_offer,
    parse_offer_row, parse_offers, parse_open, parse_payload, parse_protocol_id, parse_schema,
    parse_selection, parse_selection_row, parse_selections, parse_session, parse_text, parse_u16,
    parse_u32, parse_u64, parse_u8, parse_version, parse_version_range, parse_words, payload_bytes,
    payload_fault, range_bytes, retry_code, retry_of, schema_bytes, selected, selection_bytes,
    selections_bytes, selections_fault, session_bytes, spelling_agrees, text_bytes, text_fits,
    version_bytes, words_bytes, zeros,
};
use crate::identity::{
    ConnectionId, EndpointId, Identity, PeerId, ProtocolVersion, SessionId, VersionRange,
};
use crate::negotiation::{
    AuthPath, OfferView, ProtocolOffer, ProtocolSelection, SelectionView, offer_views, selection_views,
    spelled,
};
use crate::protocol_ids::{
    LinkCapabilities, MAX_PROTOCOL_CAPABILITY_WORDS, ProtocolCapabilitySet, ProtocolChannelId,
    ProtocolDebugIdentity, ProtocolStableId, SchemaFingerprint, SchemaId, SchemaRef, SchemaRevision,
};
use crate::text::text_from_utf8;

verus! {

/// Bytes that are being read.
struct Reader<'a> {
    bytes: &'a [u8],
    position: usize,
}

impl<'a> View for Reader<'a> {
    type V = Seq<u8>;

    /// The bytes that are left.
    closed spec fn view(&self) -> Seq<u8> {
        self.bytes@.subrange(self.position as int, self.bytes@.len() as int)
    }
}

/// Whether reading went as the grammar says, and `rest` is what it left.
spec fn reads<T>(result: Result<T, LinkControlError>, parsed: Parsed<T>, rest: Seq<u8>) -> bool {
    match result {
        Ok(v) => parsed == Ok::<(T, Seq<u8>), LinkControlError>((v, rest)),
        Err(e) => parsed == Err::<(T, Seq<u8>), LinkControlError>(e),
    }
}

impl<'a> Reader<'a> {
    spec fn wf(&self) -> bool {
        self.position <= self.bytes@.len()
    }

    fn new(bytes: &'a [u8]) -> (reader: Self)
        ensures
            reader.wf(),
            reader@ == bytes@,
    {
        let reader = Reader { bytes, position: 0 };
        assert(reader@ =~= bytes@);
        reader
    }

    fn remaining(&self) -> (n: usize)
        requires
            self.wf(),
        ensures
            n == self@.len(),
    {
        self.bytes.len() - self.position
    }

    fn take(&mut self, len: usize) -> (taken: Result<&'a [u8], LinkControlError>)
        requires
            old(self).wf(),
        ensures
            final(self).wf(),
            match taken {
                Ok(b) => parse_bytes(old(self)@, len as int) == Ok::<
                    (Seq<u8>, Seq<u8>),
                    LinkControlError,
                >((b@, final(self)@)),
                Err(e) => parse_bytes(old(self)@, len as int) == Err::<
                    (Seq<u8>, Seq<u8>),
                    LinkControlError,
                >(e),
            },
    {
        if self.bytes.len() - self.position < len {
            return Err(LinkControlError::truncated());
        }
        let end: usize = self.position + len;
        let taken = slice_subrange(self.bytes, self.position, end);
        let ghost before = self@;
        self.position = end;
        proof {
            assert(taken@ =~= before.subrange(0, len as int));
            assert(self@ =~= before.subrange(len as int, before.len() as int));
        }
        Ok(taken)
    }

    fn u8(&mut self) -> (value: Result<u8, LinkControlError>)
        requires
            old(self).wf(),
        ensures
            final(self).wf(),
            reads(value, parse_u8(old(self)@), final(self)@),
    {
        let b = self.take(1)?;
        Ok(b[0])
    }

    fn u16(&mut self) -> (value: Result<u16, LinkControlError>)
        requires
            old(self).wf(),
        ensures
            final(self).wf(),
            reads(value, parse_u16(old(self)@), final(self)@),
    {
        let b = self.take(2)?;
        assert(b@.subrange(0, 2) =~= b@);
        Ok(read_u16(b, 0))
    }

    fn u32(&mut self) -> (value: Result<u32, LinkControlError>)
        requires
            old(self).wf(),
        ensures
            final(self).wf(),
            reads(value, parse_u32(old(self)@), final(self)@),
    {
        let b = self.take(4)?;
        assert(b@.subrange(0, 4) =~= b@);
        Ok(read_u32(b, 0))
    }

    fn u64(&mut self) -> (value: Result<u64, LinkControlError>)
        requires
            old(self).wf(),
        ensures
            final(self).wf(),
            reads(value, parse_u64(old(self)@), final(self)@),
    {
        let b = self.take(8)?;
        assert(b@.subrange(0, 8) =~= b@);
        Ok(read_u64(b, 0))
    }

    fn take_16(&mut self) -> (value: Result<[u8; 16], LinkControlError>)
        requires
            old(self).wf(),
        ensures
            final(self).wf(),
            reads(value, parse_16(old(self)@), final(self)@),
    {
        let b = self.take(16)?;
        let value = read_16(b, 0);
        proof {
            assert(b@.subrange(0, 16) =~= b@);
            lemma_array16(value);
        }
        Ok(value)
    }

    fn take_32(&mut self) -> (value: Result<[u8; 32], LinkControlError>)
        requires
            old(self).wf(),
        ensures
            final(self).wf(),
            reads(value, parse_32(old(self)@), final(self)@),
    {
        let b = self.take(32)?;
        let value = read_32(b, 0);
        proof {
            assert(b@.subrange(0, 32) =~= b@);
            lemma_array32(value);
        }
        Ok(value)
    }

    fn bounded_count(&mut self, maximum: usize) -> (value: Result<u8, LinkControlError>)
        requires
            old(self).wf(),
        ensures
            final(self).wf(),
            reads(value, parse_count(old(self)@, maximum as int), final(self)@),
    {
        let count: u8 = self.u8()?;
        if count as usize > maximum {
            return Err(LinkControlError::limit_exceeded());
        }
        Ok(count)
    }

    fn version(&mut self) -> (value: Result<ProtocolVersion, LinkControlError>)
        requires
            old(self).wf(),
        ensures
            final(self).wf(),
            reads(value, parse_version(old(self)@), final(self)@),
    {
        let major: u16 = self.u16()?;
        let minor: u16 = self.u16()?;
        Ok(ProtocolVersion::new(major, minor))
    }

    fn version_range(&mut self) -> (value: Result<VersionRange, LinkControlError>)
        requires
            old(self).wf(),
        ensures
            final(self).wf(),
            reads(value, parse_version_range(old(self)@), final(self)@),
    {
        let minimum = self.version()?;
        let maximum = self.version()?;
        let versions = VersionRange::new(minimum, maximum);
        if !versions.is_valid() {
            return Err(LinkControlError::invalid_payload());
        }
        Ok(versions)
    }

    fn protocol_id(&mut self) -> (value: Result<ProtocolStableId, LinkControlError>)
        requires
            old(self).wf(),
        ensures
            final(self).wf(),
            reads(value, parse_protocol_id(old(self)@), final(self)@),
    {
        let bytes = self.take_16()?;
        Ok(ProtocolStableId::from_bytes(bytes))
    }

    fn schema(&mut self) -> (value: Result<SchemaRef, LinkControlError>)
        requires
            old(self).wf(),
        ensures
            final(self).wf(),
            reads(value, parse_schema(old(self)@), final(self)@),
    {
        let id = self.take_16()?;
        let revision: u32 = self.u32()?;
        let fingerprint = self.take_32()?;
        if revision == 0 {
            return Err(LinkControlError::invalid_payload());
        }
        Ok(
            SchemaRef {
                id: SchemaId::from_bytes(id),
                revision: SchemaRevision(revision),
                fingerprint: SchemaFingerprint::from_bytes(fingerprint),
            },
        )
    }

    fn capabilities(&mut self) -> (value: Result<ProtocolCapabilitySet, LinkControlError>)
        requires
            old(self).wf(),
        ensures
            final(self).wf(),
            match value {
                Ok(v) => parse_capabilities(old(self)@) == Ok::<_, LinkControlError>((v@, final(self)@)),
                Err(e) => parse_capabilities(old(self)@) == Err::<
                    (crate::protocol_ids::CapabilityView, Seq<u8>),
                    LinkControlError,
                >(e),
            },
    {
        let protocol_id = self.protocol_id()?;
        let count: u8 = self.bounded_count(MAX_PROTOCOL_CAPABILITY_WORDS)?;
        let ghost start = self@;
        let mut words: Vec<u64> = Vec::new();
        let mut i: u8 = 0;
        while i < count
            invariant
                self.wf(),
                i <= count,
                parse_words(start, i as nat) == Ok::<_, LinkControlError>((words@, self@)),
                parse_protocol_id(old(self)@) is Ok,
                parse_count(
                    parse_protocol_id(old(self)@)->Ok_0.1,
                    MAX_PROTOCOL_CAPABILITY_WORDS as int,
                ) == Ok::<_, LinkControlError>((count, start)),
            decreases count - i,
        {
            match self.u64() {
                Ok(word) => {
                    words.push(word);
                },
                Err(e) => {
                    proof {
                        lemma_words_error(start, (i + 1) as nat, count as nat);
                    }
                    return Err(e);
                },
            }
            i = i + 1;
        }
        Ok(ProtocolCapabilitySet { protocol_id, words })
    }

    fn string(&mut self) -> (value: Result<String, LinkControlError>)
        requires
            old(self).wf(),
        ensures
            final(self).wf(),
            match value {
                Ok(v) => parse_text(old(self)@) == Ok::<_, LinkControlError>((v@, final(self)@)),
                Err(e) => parse_text(old(self)@) == Err::<(Seq<char>, Seq<u8>), LinkControlError>(e),
            },
    {
        let len: u16 = self.u16()?;
        if len == 0 || len as usize > MAX_CONTROL_DEBUG_COMPONENT_BYTES {
            return Err(LinkControlError::limit_exceeded());
        }
        let bytes = self.take(len as usize)?;
        match text_from_utf8(vstd::slice::slice_to_vec(bytes)) {
            Some(text) => Ok(text),
            None => Err(LinkControlError::invalid_payload()),
        }
    }

    fn debug_identity(&mut self) -> (value: Result<Option<ProtocolDebugIdentity>, LinkControlError>)
        requires
            old(self).wf(),
        ensures
            final(self).wf(),
            match value {
                Ok(v) => parse_debug_identity(old(self)@) == Ok::<_, LinkControlError>(
                    (spelled(v), final(self)@),
                ),
                Err(e) => parse_debug_identity(old(self)@) == Err::<
                    (Option<crate::protocol_ids::DebugIdentityView>, Seq<u8>),
                    LinkControlError,
                >(e),
            },
    {
        let present: u8 = self.u8()?;
        if present == 0 {
            Ok(None)
        } else if present == 1 {
            let authority = self.string()?;
            let name = self.string()?;
            Ok(Some(ProtocolDebugIdentity { authority, name }))
        } else {
            Err(LinkControlError::invalid_payload())
        }
    }
}

proof fn lemma_words_error(s: Seq<u8>, i: nat, n: nat)
    requires
        i <= n,
        parse_words(s, i) is Err,
    ensures
        parse_words(s, n) == parse_words(s, i),
    decreases n,
{
    if i < n {
        lemma_words_error(s, i, (n - 1) as nat);
    }
}

proof fn lemma_offers_error(s: Seq<u8>, i: nat, n: nat)
    requires
        i <= n,
        parse_offers(s, i) is Err,
    ensures
        parse_offers(s, n) == parse_offers(s, i),
    decreases n,
{
    if i < n {
        lemma_offers_error(s, i, (n - 1) as nat);
    }
}

proof fn lemma_selections_error(s: Seq<u8>, i: nat, n: nat)
    requires
        i <= n,
        parse_selections(s, i) is Err,
    ensures
        parse_selections(s, n) == parse_selections(s, i),
    decreases n,
{
    if i < n {
        lemma_selections_error(s, i, (n - 1) as nat);
    }
}

fn is_offered(offers: &Vec<ProtocolOffer>, id: &ProtocolStableId) -> (found: bool)
    ensures
        found == offered(offer_views(offers@), *id),
{
    let mut i: usize = 0;
    while i < offers.len()
        invariant
            i <= offers@.len(),
            forall|j: int| 0 <= j < i ==> (#[trigger] offer_views(offers@)[j]).stable_id != *id,
        decreases offers@.len() - i,
    {
        if offers[i].stable_id.same(id) {
            assert(offer_views(offers@)[i as int].stable_id == *id);
            return true;
        }
        i = i + 1;
    }
    false
}

fn is_selected(selections: &Vec<ProtocolSelection>, id: &ProtocolStableId) -> (found: bool)
    ensures
        found == selected(selection_views(selections@), *id),
{
    let mut i: usize = 0;
    while i < selections.len()
        invariant
            i <= selections@.len(),
            forall|j: int| 0 <= j < i ==> (#[trigger] selection_views(selections@)[j]).stable_id != *id,
        decreases selections@.len() - i,
    {
        if selections[i].stable_id.same(id) {
            assert(selection_views(selections@)[i as int].stable_id == *id);
            return true;
        }
        i = i + 1;
    }
    false
}

/// Whether a spelling is canonical and the identity derived from it is `id`.
pub fn spelling_matches(
    identity: &ProtocolDebugIdentity,
    derived: &ProtocolStableId,
    id: &ProtocolStableId,
) -> (ok: bool)
    ensures
        ok == (identity@.canonical() && *derived == *id),
{
    identity.is_canonical() && derived.same(id)
}

fn check_spelling(identity: &Option<ProtocolDebugIdentity>, id: &ProtocolStableId) -> (ok: bool)
    ensures
        ok == spelling_agrees(spelled(*identity), *id),
{
    match identity {
        Some(i) => {
            let derived = i.stable_id();
            proof {
                if derived@ == id@ {
                    assert(derived.0 =~= id.0);
                }
            }
            spelling_matches(i, &derived, id)
        },
        None => true,
    }
}

fn decode_identity(reader: &mut Reader<'_>) -> (value: Result<Identity, LinkControlError>)
    requires
        old(reader).wf(),
    ensures
        final(reader).wf(),
        reads(value, parse_identity(old(reader)@), final(reader)@),
{
    let peer = reader.take_32()?;
    let endpoint = reader.take_16()?;
    let connection = reader.take_16()?;
    Ok(
        Identity {
            peer_id: PeerId::from_bytes(peer),
            endpoint_id: EndpointId::from_bytes(endpoint),
            connection_id: ConnectionId::from_bytes(connection),
        },
    )
}

fn decode_hello(reader: &mut Reader<'_>) -> (value: Result<HelloControl, LinkControlError>)
    requires
        old(reader).wf(),
    ensures
        final(reader).wf(),
        reads(value, parse_hello(old(reader)@), final(reader)@),
{
    let identity = decode_identity(reader)?;
    let link_versions = reader.version_range()?;
    let bits: u64 = reader.u64()?;
    let code: u8 = reader.u8()?;
    let requested_auth = match code {
        0 => AuthPath::FirstPairing,
        1 => AuthPath::TrustedReconnect,
        _ => {
            return Err(LinkControlError::invalid_payload());
        },
    };
    Ok(
        HelloControl {
            identity,
            link_versions,
            link_capabilities: LinkCapabilities::from_bits(bits),
            requested_auth,
        },
    )
}

fn decode_offer(earlier: &Vec<ProtocolOffer>, reader: &mut Reader<'_>) -> (value: Result<
    ProtocolOffer,
    LinkControlError,
>)
    requires
        old(reader).wf(),
    ensures
        final(reader).wf(),
        match value {
            Ok(v) => parse_offer(offer_views(earlier@), old(reader)@) == Ok::<_, LinkControlError>(
                (v@, final(reader)@),
            ),
            Err(e) => parse_offer(offer_views(earlier@), old(reader)@) == Err::<
                (OfferView, Seq<u8>),
                LinkControlError,
            >(e),
        },
{
    let stable_id = reader.protocol_id()?;
    let debug_identity = reader.debug_identity()?;
    let versions = reader.version_range()?;
    let schema = reader.schema()?;
    let capabilities = reader.capabilities()?;
    if is_offered(earlier, &stable_id) || !capabilities.protocol_id.same(&stable_id) || !check_spelling(
        &debug_identity,
        &stable_id,
    ) {
        return Err(LinkControlError::invalid_payload());
    }
    Ok(ProtocolOffer { stable_id, debug_identity, versions, schema, capabilities })
}

fn decode_offers(reader: &mut Reader<'_>) -> (value: Result<Vec<ProtocolOffer>, LinkControlError>)
    requires
        old(reader).wf(),
    ensures
        final(reader).wf(),
        match value {
            Ok(v) => parse_offer_row(old(reader)@) == Ok::<_, LinkControlError>(
                (offer_views(v@), final(reader)@),
            ),
            Err(e) => parse_offer_row(old(reader)@) == Err::<(Seq<OfferView>, Seq<u8>), LinkControlError>(
                e,
            ),
        },
{
    let count: u8 = reader.bounded_count(MAX_CONTROL_PROTOCOLS)?;
    let ghost start = reader@;
    let mut offers: Vec<ProtocolOffer> = Vec::new();
    assert(offer_views(offers@) =~= Seq::empty());
    let mut i: u8 = 0;
    while i < count
        invariant
            reader.wf(),
            i <= count,
            parse_offers(start, i as nat) == Ok::<_, LinkControlError>((offer_views(offers@), reader@)),
            parse_count(old(reader)@, MAX_CONTROL_PROTOCOLS as int) == Ok::<_, LinkControlError>(
                (count, start),
            ),
        decreases count - i,
    {
        match decode_offer(&offers, reader) {
            Ok(offer) => {
                let ghost before = offers@;
                offers.push(offer);
                assert(offer_views(offers@) =~= offer_views(before).push(offer@));
            },
            Err(e) => {
                proof {
                    lemma_offers_error(start, (i + 1) as nat, count as nat);
                }
                return Err(e);
            },
        }
        i = i + 1;
    }
    Ok(offers)
}

fn decode_selection(earlier: &Vec<ProtocolSelection>, reader: &mut Reader<'_>) -> (value: Result<
    ProtocolSelection,
    LinkControlError,
>)
    requires
        old(reader).wf(),
    ensures
        final(reader).wf(),
        match value {
            Ok(v) => parse_selection(selection_views(earlier@), old(reader)@) == Ok::<_, LinkControlError>(
                (v@, final(reader)@),
            ),
            Err(e) => parse_selection(selection_views(earlier@), old(reader)@) == Err::<
                (SelectionView, Seq<u8>),
                LinkControlError,
            >(e),
        },
{
    let stable_id = reader.protocol_id()?;
    let version = reader.version()?;
    let schema = reader.schema()?;
    let capabilities = reader.capabilities()?;
    if is_selected(earlier, &stable_id) || !capabilities.protocol_id.same(&stable_id) {
        return Err(LinkControlError::invalid_payload());
    }
    Ok(ProtocolSelection { stable_id, version, schema, capabilities })
}

fn decode_selections(reader: &mut Reader<'_>) -> (value: Result<
    Vec<ProtocolSelection>,
    LinkControlError,
>)
    requires
        old(reader).wf(),
    ensures
        final(reader).wf(),
        match value {
            Ok(v) => parse_selection_row(old(reader)@) == Ok::<_, LinkControlError>(
                (selection_views(v@), final(reader)@),
            ),
            Err(e) => parse_selection_row(old(reader)@) == Err::<
                (Seq<SelectionView>, Seq<u8>),
                LinkControlError,
            >(e),
        },
{
    let count: u8 = reader.bounded_count(MAX_CONTROL_PROTOCOLS)?;
    let ghost start = reader@;
    let mut selections: Vec<ProtocolSelection> = Vec::new();
    assert(selection_views(selections@) =~= Seq::empty());
    let mut i: u8 = 0;
    while i < count
        invariant
            reader.wf(),
            i <= count,
            parse_selections(start, i as nat) == Ok::<_, LinkControlError>(
                (selection_views(selections@), reader@),
            ),
            parse_count(old(reader)@, MAX_CONTROL_PROTOCOLS as int) == Ok::<_, LinkControlError>(
                (count, start),
            ),
        decreases count - i,
    {
        match decode_selection(&selections, reader) {
            Ok(selection) => {
                let ghost before = selections@;
                selections.push(selection);
                assert(selection_views(selections@) =~= selection_views(before).push(selection@));
            },
            Err(e) => {
                proof {
                    lemma_selections_error(start, (i + 1) as nat, count as nat);
                }
                return Err(e);
            },
        }
        i = i + 1;
    }
    Ok(selections)
}

fn decode_open(reader: &mut Reader<'_>) -> (value: Result<OpenChannel, LinkControlError>)
    requires
        old(reader).wf(),
    ensures
        final(reader).wf(),
        reads(value, parse_open(old(reader)@), final(reader)@),
{
    let protocol_id = reader.protocol_id()?;
    let channel: u16 = reader.u16()?;
    let session_channel: u32 = reader.u32()?;
    let capacity: u32 = reader.u32()?;
    if channel == 0 || session_channel == 0 || capacity == 0 {
        return Err(LinkControlError::invalid_payload());
    }
    Ok(
        OpenChannel {
            protocol_id,
            protocol_channel_id: ProtocolChannelId(channel),
            requested_session_channel_id: ChannelId(session_channel),
            capacity,
        },
    )
}

fn decode_accept(reader: &mut Reader<'_>) -> (value: Result<AcceptChannel, LinkControlError>)
    requires
        old(reader).wf(),
    ensures
        final(reader).wf(),
        reads(value, parse_accept(old(reader)@), final(reader)@),
{
    let protocol_id = reader.protocol_id()?;
    let channel: u16 = reader.u16()?;
    let session_channel: u32 = reader.u32()?;
    if channel == 0 || session_channel == 0 {
        return Err(LinkControlError::invalid_payload());
    }
    Ok(
        AcceptChannel {
            protocol_id,
            protocol_channel_id: ProtocolChannelId(channel),
            session_channel_id: ChannelId(session_channel),
        },
    )
}

fn decode_close_channel(reader: &mut Reader<'_>) -> (value: Result<CloseChannel, LinkControlError>)
    requires
        old(reader).wf(),
    ensures
        final(reader).wf(),
        reads(value, parse_close_channel(old(reader)@), final(reader)@),
{
    let channel: u32 = reader.u32()?;
    if channel == 0 {
        return Err(LinkControlError::invalid_payload());
    }
    Ok(CloseChannel { session_channel_id: ChannelId(channel) })
}

fn error_domain_to_wire(domain: ErrorDomain) -> (code: u8)
    ensures
        code == domain_code(domain),
{
    match domain {
        ErrorDomain::Control => 0,
        ErrorDomain::Protocol => 1,
        ErrorDomain::Channel => 2,
        ErrorDomain::Security => 3,
        ErrorDomain::Resource => 4,
    }
}

fn error_domain_from_wire(value: u8) -> (domain: Result<ErrorDomain, LinkControlError>)
    ensures
        domain == domain_of(value),
{
    match value {
        0 => Ok(ErrorDomain::Control),
        1 => Ok(ErrorDomain::Protocol),
        2 => Ok(ErrorDomain::Channel),
        3 => Ok(ErrorDomain::Security),
        4 => Ok(ErrorDomain::Resource),
        _ => Err(LinkControlError::invalid_payload()),
    }
}

fn retryability_to_wire(retryability: Retryability) -> (code: u8)
    ensures
        code == retry_code(retryability),
{
    match retryability {
        Retryability::Never => 0,
        Retryability::RetryAfterBackoff => 1,
        Retryability::Reconnect => 2,
    }
}

fn retryability_from_wire(value: u8) -> (retryability: Result<Retryability, LinkControlError>)
    ensures
        retryability == retry_of(value),
{
    match value {
        0 => Ok(Retryability::Never),
        1 => Ok(Retryability::RetryAfterBackoff),
        2 => Ok(Retryability::Reconnect),
        _ => Err(LinkControlError::invalid_payload()),
    }
}

fn decode_error(reader: &mut Reader<'_>) -> (value: Result<LinkControlError, LinkControlError>)
    requires
        old(reader).wf(),
    ensures
        final(reader).wf(),
        reads(value, parse_error(old(reader)@), final(reader)@),
{
    let d: u8 = reader.u8()?;
    let domain = error_domain_from_wire(d)?;
    let code: u16 = reader.u16()?;
    let o: u16 = reader.u16()?;
    let operation = if o == 0xffff {
        None
    } else {
        Some(LinkControlOpcode::try_from(o)?)
    };
    let r: u8 = reader.u8()?;
    let retryability = retryability_from_wire(r)?;
    Ok(
        LinkControlError {
            domain,
            code: ErrorCode(code),
            operation,
            retryability,
            public_message: REMOTE_ERROR_MESSAGE,
        },
    )
}

#[verifier::spinoff_prover]
#[verifier::rlimit(60)]
fn decode_payload(opcode: LinkControlOpcode, reader: &mut Reader<'_>) -> (value: Result<
    ControlPayload,
    LinkControlError,
>)
    requires
        old(reader).wf(),
    ensures
        final(reader).wf(),
        match value {
            Ok(v) => parse_payload(opcode, old(reader)@) == Ok::<_, LinkControlError>(
                (v@, final(reader)@),
            ),
            Err(e) => parse_payload(opcode, old(reader)@) == Err::<(PayloadView, Seq<u8>), LinkControlError>(
                e,
            ),
        },
{
    Ok(
        match opcode {
            LinkControlOpcode::Hello => {
                let hello = decode_hello(reader)?;
                ControlPayload::Hello(hello)
            },
            LinkControlOpcode::ProtocolOffer => {
                let offers = decode_offers(reader)?;
                ControlPayload::OfferProtocols(offers)
            },
            LinkControlOpcode::ProtocolSelect => {
                let selections = decode_selections(reader)?;
                ControlPayload::SelectProtocols(selections)
            },
            LinkControlOpcode::OpenChannel => {
                let open = decode_open(reader)?;
                ControlPayload::OpenChannel(open)
            },
            LinkControlOpcode::ChannelAccepted => {
                let accepted = decode_accept(reader)?;
                ControlPayload::AcceptChannel(accepted)
            },
            LinkControlOpcode::CloseChannel => {
                let close = decode_close_channel(reader)?;
                ControlPayload::CloseChannel(close)
            },
            LinkControlOpcode::Ping => {
                let nonce: u64 = reader.u64()?;
                ControlPayload::Ping(Ping { nonce })
            },
            LinkControlOpcode::Pong => {
                let nonce: u64 = reader.u64()?;
                ControlPayload::Pong(Pong { nonce })
            },
            LinkControlOpcode::BeginDrain => {
                let deadline_millis: u32 = reader.u32()?;
                ControlPayload::BeginDrain(BeginDrain { deadline_millis })
            },
            LinkControlOpcode::CloseSession => {
                let reason_code: u16 = reader.u16()?;
                ControlPayload::CloseSession(CloseSession { reason_code })
            },
            LinkControlOpcode::Error => {
                let error = decode_error(reader)?;
                ControlPayload::Error(error)
            },
        },
    )
}

fn all_zero(bytes: &[u8; 16]) -> (zero: bool)
    ensures
        zero == (bytes@ == zeros()),
{
    let mut i: usize = 0;
    while i < 16
        invariant
            i <= 16,
            forall|j: int| 0 <= j < i ==> bytes@[j] == 0,
        decreases 16 - i,
    {
        if bytes[i] != 0 {
            assert(bytes@[i as int] != zeros()[i as int]);
            return false;
        }
        i = i + 1;
    }
    assert(bytes@ =~= zeros());
    true
}

fn decode_session(reader: &mut Reader<'_>) -> (value: Result<Option<SessionId>, LinkControlError>)
    requires
        old(reader).wf(),
    ensures
        final(reader).wf(),
        reads(value, parse_session(old(reader)@), final(reader)@),
{
    let present: u8 = reader.u8()?;
    let bytes = reader.take_16()?;
    if present == 0 && all_zero(&bytes) {
        Ok(None)
    } else if present == 1 {
        Ok(Some(SessionId::from_bytes(bytes)))
    } else {
        Err(LinkControlError::invalid_payload())
    }
}

fn decode_body(opcode: LinkControlOpcode, reader: &mut Reader<'_>) -> (value: Result<
    ControlPayload,
    LinkControlError,
>)
    requires
        old(reader).wf(),
    ensures
        match value {
            Ok(v) => parse_body(opcode, old(reader)@) == Ok::<_, LinkControlError>(v@),
            Err(e) => parse_body(opcode, old(reader)@) == Err::<PayloadView, LinkControlError>(e),
        },
{
    let payload_len: u32 = reader.u32()?;
    if payload_len > MAX_CONTROL_PAYLOAD_BYTES as u32 {
        return Err(LinkControlError::limit_exceeded());
    }
    let len: usize = payload_len as usize;
    if reader.remaining() < len {
        return Err(LinkControlError::truncated());
    }
    if reader.remaining() != len {
        return Err(LinkControlError::trailing_bytes());
    }
    let ghost body = reader@;
    let mut payload_reader = Reader::new(reader.take(len)?);
    assert(payload_reader@ =~= body);
    let payload = decode_payload(opcode, &mut payload_reader)?;
    if payload_reader.remaining() != 0 {
        return Err(LinkControlError::trailing_bytes());
    }
    Ok(payload)
}

/// Reads a typed control frame.
pub fn decode_control_envelope(guard: &ControlModeGuard, wire: &[u8]) -> (envelope: Result<
    ControlEnvelope,
    LinkControlError,
>)
    ensures
        match envelope {
            Ok(v) => guard.mode == ControlIdentityMode::TypedV1 && parse_envelope(wire@) == Ok::<
                _,
                LinkControlError,
            >(v@),
            Err(e) => if guard.mode != ControlIdentityMode::TypedV1 {
                e == LinkControlError::mode_mismatch()
            } else {
                parse_envelope(wire@) == Err::<ControlEnvelopeView, LinkControlError>(e)
            },
        },
{
    guard.validate_typed()?;
    if wire.len() < CONTROL_HEADER_BYTES {
        return Err(LinkControlError::truncated());
    }
    let mut reader = Reader::new(wire);
    let magic: u32 = reader.u32()?;
    if magic != CONTROL_MAGIC {
        return Err(LinkControlError::invalid_payload());
    }
    let wire_version: u16 = reader.u16()?;
    if wire_version != TYPED_CONTROL_WIRE_VERSION {
        return Err(LinkControlError::unsupported_version());
    }
    let code: u16 = reader.u16()?;
    let opcode = LinkControlOpcode::try_from(code)?;
    let bits: u16 = reader.u16()?;
    let flags = match ControlFlags::from_bits(bits) {
        Some(flags) => flags,
        None => {
            return Err(LinkControlError::invalid_payload());
        },
    };
    let request_id = RequestId(reader.u64()?);
    let session_id = decode_session(&mut reader)?;
    let payload = decode_body(opcode, &mut reader)?;
    Ok(ControlEnvelope { wire_version, opcode, request_id, session_id, flags, payload })
}

/// Bytes that are being written.
struct Writer {
    bytes: Vec<u8>,
}

impl View for Writer {
    type V = Seq<u8>;

    closed spec fn view(&self) -> Seq<u8> {
        self.bytes@
    }
}

impl Writer {
    fn bytes(&mut self, bytes: &[u8])
        ensures
            final(self)@ == old(self)@ + bytes@,
    {
        push_bytes(&mut self.bytes, bytes);
    }

    fn u8(&mut self, value: u8)
        ensures
            final(self)@ == old(self)@ + seq![value],
    {
        self.bytes.push(value);
    }

    fn u16(&mut self, value: u16)
        ensures
            final(self)@ == old(self)@ + be16(value),
    {
        push_u16(&mut self.bytes, value);
    }

    fn u32(&mut self, value: u32)
        ensures
            final(self)@ == old(self)@ + be32(value),
    {
        push_u32(&mut self.bytes, value);
    }

    fn u64(&mut self, value: u64)
        ensures
            final(self)@ == old(self)@ + be64(value),
    {
        push_u64(&mut self.bytes, value);
    }

    fn count(&mut self, value: usize, maximum: usize) -> (written: Result<(), LinkControlError>)
        requires
            maximum <= 255,
        ensures
            match written {
                Ok(()) => value <= maximum && final(self)@ == old(self)@ + seq![value as u8],
                Err(e) => value > maximum && e == LinkControlError::limit_exceeded(),
            },
    {
        if value > maximum {
            return Err(LinkControlError::limit_exceeded());
        }
        self.u8(value as u8);
        Ok(())
    }

    fn version(&mut self, version: ProtocolVersion)
        ensures
            final(self)@ == old(self)@ + version_bytes(version),
    {
        self.u16(version.major);
        self.u16(version.minor);
    }

    fn version_range(&mut self, versions: VersionRange)
        ensures
            final(self)@ == old(self)@ + range_bytes(versions),
    {
        self.version(versions.minimum);
        self.version(versions.maximum);
    }

    fn protocol_id(&mut self, id: &ProtocolStableId)
        ensures
            final(self)@ == old(self)@ + id@,
    {
        self.bytes(id.as_bytes());
    }

    fn schema(&mut self, schema: &SchemaRef)
        ensures
            final(self)@ == old(self)@ + schema_bytes(*schema),
    {
        self.bytes(schema.id.as_bytes());
        self.u32(schema.revision.0);
        self.bytes(schema.fingerprint.as_bytes());
    }

    fn capabilities(&mut self, capabilities: &ProtocolCapabilitySet) -> (written: Result<
        (),
        LinkControlError,
    >)
        ensures
            match written {
                Ok(()) => {
                    &&& capabilities@.words.len() <= MAX_PROTOCOL_CAPABILITY_WORDS
                    &&& final(self)@ == old(self)@ + capability_bytes(capabilities@)
                },
                Err(e) => {
                    &&& capabilities@.words.len() > MAX_PROTOCOL_CAPABILITY_WORDS
                    &&& e == LinkControlError::limit_exceeded()
                },
            },
    {
        self.protocol_id(&capabilities.protocol_id);
        self.count(capabilities.words.len(), MAX_PROTOCOL_CAPABILITY_WORDS)?;
        let ghost start = self@;
        let ghost words = capabilities.words@;
        let mut i: usize = 0;
        assert(words.subrange(0, 0) =~= Seq::<u64>::empty());
        while i < capabilities.words.len()
            invariant
                i <= words.len(),
                words == capabilities.words@,
                self@ == start + words_bytes(words.subrange(0, i as int)),
            decreases words.len() - i,
        {
            self.u64(capabilities.words[i]);
            proof {
                let next = words.subrange(0, i + 1);
                assert(next.drop_last() =~= words.subrange(0, i as int));
            }
            i = i + 1;
        }
        assert(words.subrange(0, words.len() as int) =~= words);
        Ok(())
    }

    fn string(&mut self, value: &str) -> (written: Result<(), LinkControlError>)
        ensures
            match written {
                Ok(()) => text_fits(value@) && final(self)@ == old(self)@ + text_bytes(value@),
                Err(e) => !text_fits(value@) && e == LinkControlError::limit_exceeded(),
            },
    {
        let bytes = value.as_bytes();
        if bytes.len() == 0 || bytes.len() > MAX_CONTROL_DEBUG_COMPONENT_BYTES {
            return Err(LinkControlError::limit_exceeded());
        }
        self.u16(bytes.len() as u16);
        self.bytes(bytes);
        Ok(())
    }

    fn debug_identity(&mut self, identity: &Option<ProtocolDebugIdentity>) -> (written: Result<
        (),
        LinkControlError,
    >)
        ensures
            match written {
                Ok(()) => {
                    &&& debug_identity_fits(spelled(*identity))
                    &&& final(self)@ == old(self)@ + debug_identity_bytes(spelled(*identity))
                },
                Err(e) => {
                    &&& !debug_identity_fits(spelled(*identity))
                    &&& e == LinkControlError::limit_exceeded()
                },
            },
    {
        match identity {
            Some(i) => {
                self.u8(1);
                self.string(i.authority.as_str())?;
                self.string(i.name.as_str())?;
            },
            None => {
                self.u8(0);
            },
        }
        Ok(())
    }

    fn offer(&mut self, offer: &ProtocolOffer) -> (written: Result<(), LinkControlError>)
        ensures
            match written {
                Ok(()) => {
                    &&& debug_identity_fits(offer@.debug_identity)
                    &&& offer@.capabilities.words.len() <= MAX_PROTOCOL_CAPABILITY_WORDS
                    &&& final(self)@ == old(self)@ + offer_bytes(offer@)
                },
                Err(e) => {
                    &&& (!debug_identity_fits(offer@.debug_identity)
                        || offer@.capabilities.words.len() > MAX_PROTOCOL_CAPABILITY_WORDS)
                    &&& e == LinkControlError::limit_exceeded()
                },
            },
    {
        self.protocol_id(&offer.stable_id);
        self.debug_identity(&offer.debug_identity)?;
        self.version_range(offer.versions);
        self.schema(&offer.schema);
        self.capabilities(&offer.capabilities)?;
        Ok(())
    }

    fn selection(&mut self, selection: &ProtocolSelection) -> (written: Result<(), LinkControlError>)
        ensures
            match written {
                Ok(()) => {
                    &&& selection@.capabilities.words.len() <= MAX_PROTOCOL_CAPABILITY_WORDS
                    &&& final(self)@ == old(self)@ + selection_bytes(selection@)
                },
                Err(e) => {
                    &&& selection@.capabilities.words.len() > MAX_PROTOCOL_CAPABILITY_WORDS
                    &&& e == LinkControlError::limit_exceeded()
                },
            },
    {
        self.protocol_id(&selection.stable_id);
        self.version(selection.version);
        self.schema(&selection.schema);
        self.capabilities(&selection.capabilities)?;
        Ok(())
    }
}

proof fn lemma_offers_fault(offers: Seq<OfferView>, i: int)
    requires
        0 <= i <= offers.len(),
        offers_fault(offers.subrange(0, i)) is Some,
    ensures
        offers_fault(offers) == offers_fault(offers.subrange(0, i)),
    decreases offers.len(),
{
    if i < offers.len() {
        assert(offers.drop_last().subrange(0, i) =~= offers.subrange(0, i));
        lemma_offers_fault(offers.drop_last(), i);
    } else {
        assert(offers.subrange(0, i) =~= offers);
    }
}

proof fn lemma_selections_fault(selections: Seq<SelectionView>, i: int)
    requires
        0 <= i <= selections.len(),
        selections_fault(selections.subrange(0, i)) is Some,
    ensures
        selections_fault(selections) == selections_fault(selections.subrange(0, i)),
    decreases selections.len(),
{
    if i < selections.len() {
        assert(selections.drop_last().subrange(0, i) =~= selections.subrange(0, i));
        lemma_selections_fault(selections.drop_last(), i);
    } else {
        assert(selections.subrange(0, i) =~= selections);
    }
}

fn offered_before(offers: &Vec<ProtocolOffer>, end: usize, id: &ProtocolStableId) -> (found: bool)
    requires
        end <= offers@.len(),
    ensures
        found == offered(offer_views(offers@).subrange(0, end as int), *id),
{
    let ghost earlier = offer_views(offers@).subrange(0, end as int);
    let mut i: usize = 0;
    while i < end
        invariant
            i <= end,
            end <= offers@.len(),
            earlier == offer_views(offers@).subrange(0, end as int),
            forall|j: int| 0 <= j < i ==> (#[trigger] earlier[j]).stable_id != *id,
        decreases end - i,
    {
        if offers[i].stable_id.same(id) {
            assert(earlier[i as int].stable_id == *id);
            return true;
        }
        assert(earlier[i as int] == offers@[i as int]@);
        i = i + 1;
    }
    false
}

fn selected_before(selections: &Vec<ProtocolSelection>, end: usize, id: &ProtocolStableId) -> (found: bool)
    requires
        end <= selections@.len(),
    ensures
        found == selected(selection_views(selections@).subrange(0, end as int), *id),
{
    let ghost earlier = selection_views(selections@).subrange(0, end as int);
    let mut i: usize = 0;
    while i < end
        invariant
            i <= end,
            end <= selections@.len(),
            earlier == selection_views(selections@).subrange(0, end as int),
            forall|j: int| 0 <= j < i ==> (#[trigger] earlier[j]).stable_id != *id,
        decreases end - i,
    {
        if selections[i].stable_id.same(id) {
            assert(earlier[i as int].stable_id == *id);
            return true;
        }
        assert(earlier[i as int] == selections@[i as int]@);
        i = i + 1;
    }
    false
}

fn encode_offers(writer: &mut Writer, offers: &Vec<ProtocolOffer>) -> (written: Result<
    (),
    LinkControlError,
>)
    ensures
        match written {
            Ok(()) => {
                &&& payload_fault(PayloadView::OfferProtocols(offer_views(offers@))) is None
                &&& final(writer)@ == old(writer)@ + payload_bytes(
                    PayloadView::OfferProtocols(offer_views(offers@)),
                )
            },
            Err(e) => payload_fault(PayloadView::OfferProtocols(offer_views(offers@))) == Some(e),
        },
{
    let ghost views = offer_views(offers@);
    writer.count(offers.len(), MAX_CONTROL_PROTOCOLS)?;
    let ghost start = writer@;
    let mut i: usize = 0;
    assert(views.subrange(0, 0) =~= Seq::<OfferView>::empty());
    while i < offers.len()
        invariant
            i <= views.len(),
            views == offer_views(offers@),
            views.len() <= MAX_CONTROL_PROTOCOLS,
            writer@ == start + offers_bytes(views.subrange(0, i as int)),
            offers_fault(views.subrange(0, i as int)) is None,
        decreases views.len() - i,
    {
        let offer = &offers[i];
        proof {
            let next = views.subrange(0, i + 1);
            assert(next.drop_last() =~= views.subrange(0, i as int));
            assert(next.last() == offer@);
            if offers_fault(next) is Some {
                lemma_offers_fault(views, i + 1);
            }
        }
        if offered_before(offers, i, &offer.stable_id) || !offer.versions.is_valid()
            || offer.schema.revision.0 == 0 || !offer.capabilities.protocol_id.same(&offer.stable_id)
            || !check_spelling(&offer.debug_identity, &offer.stable_id) {
            return Err(LinkControlError::invalid_payload());
        }
        writer.offer(offer)?;
        i = i + 1;
    }
    assert(views.subrange(0, views.len() as int) =~= views);
    Ok(())
}

fn encode_selections(writer: &mut Writer, selections: &Vec<ProtocolSelection>) -> (written: Result<
    (),
    LinkControlError,
>)
    ensures
        match written {
            Ok(()) => {
                &&& payload_fault(PayloadView::SelectProtocols(selection_views(selections@))) is None
                &&& final(writer)@ == old(writer)@ + payload_bytes(
                    PayloadView::SelectProtocols(selection_views(selections@)),
                )
            },
            Err(e) => payload_fault(PayloadView::SelectProtocols(selection_views(selections@))) == Some(e),
        },
{
    let ghost views = selection_views(selections@);
    writer.count(selections.len(), MAX_CONTROL_PROTOCOLS)?;
    let ghost start = writer@;
    let mut i: usize = 0;
    assert(views.subrange(0, 0) =~= Seq::<SelectionView>::empty());
    while i < selections.len()
        invariant
            i <= views.len(),
            views == selection_views(selections@),
            views.len() <= MAX_CONTROL_PROTOCOLS,
            writer@ == start + selections_bytes(views.subrange(0, i as int)),
            selections_fault(views.subrange(0, i as int)) is None,
        decreases views.len() - i,
    {
        let selection = &selections[i];
        proof {
            let next = views.subrange(0, i + 1);
            assert(next.drop_last() =~= views.subrange(0, i as int));
            assert(next.last() == selection@);
            if selections_fault(next) is Some {
                lemma_selections_fault(views, i + 1);
            }
        }
        if selected_before(selections, i, &selection.stable_id) || selection.schema.revision.0 == 0
            || !selection.capabilities.protocol_id.same(&selection.stable_id) {
            return Err(LinkControlError::invalid_payload());
        }
        writer.selection(selection)?;
        i = i + 1;
    }
    assert(views.subrange(0, views.len() as int) =~= views);
    Ok(())
}

fn encode_hello(writer: &mut Writer, hello: &HelloControl)
    ensures
        final(writer)@ == old(writer)@ + hello_bytes(*hello),
{
    writer.bytes(hello.identity.peer_id.as_bytes());
    writer.bytes(hello.identity.endpoint_id.as_bytes());
    writer.bytes(hello.identity.connection_id.as_bytes());
    writer.version_range(hello.link_versions);
    writer.u64(hello.link_capabilities.bits());
    writer.u8(
        match hello.requested_auth {
            AuthPath::FirstPairing => 0,
            AuthPath::TrustedReconnect => 1,
        },
    );
    assert(writer@ =~= old(writer)@ + hello_bytes(*hello));
}

fn encode_payload(writer: &mut Writer, payload: &ControlPayload) -> (written: Result<
    (),
    LinkControlError,
>)
    ensures
        match written {
            Ok(()) => {
                &&& payload_fault(payload@) is None
                &&& final(writer)@ == old(writer)@ + payload_bytes(payload@)
            },
            Err(e) => payload_fault(payload@) == Some(e),
        },
{
    match payload {
        ControlPayload::Hello(hello) => {
            if !hello.link_versions.is_valid() {
                return Err(LinkControlError::invalid_payload());
            }
            encode_hello(writer, hello);
        },
        ControlPayload::OfferProtocols(offers) => {
            encode_offers(writer, offers)?;
        },
        ControlPayload::SelectProtocols(selections) => {
            encode_selections(writer, selections)?;
        },
        ControlPayload::OpenChannel(open) => {
            if open.protocol_channel_id.0 == 0 || open.requested_session_channel_id.0 == 0
                || open.capacity == 0 {
                return Err(LinkControlError::invalid_payload());
            }
            writer.protocol_id(&open.protocol_id);
            writer.u16(open.protocol_channel_id.0);
            writer.u32(open.requested_session_channel_id.0);
            writer.u32(open.capacity);
            assert(writer@ =~= old(writer)@ + open_bytes(*open));
        },
        ControlPayload::AcceptChannel(accepted) => {
            if accepted.protocol_channel_id.0 == 0 || accepted.session_channel_id.0 == 0 {
                return Err(LinkControlError::invalid_payload());
            }
            writer.protocol_id(&accepted.protocol_id);
            writer.u16(accepted.protocol_channel_id.0);
            writer.u32(accepted.session_channel_id.0);
            assert(writer@ =~= old(writer)@ + accept_bytes(*accepted));
        },
        ControlPayload::CloseChannel(close) => {
            if close.session_channel_id.0 == 0 {
                return Err(LinkControlError::invalid_payload());
            }
            writer.u32(close.session_channel_id.0);
        },
        ControlPayload::Ping(ping) => {
            writer.u64(ping.nonce);
        },
        ControlPayload::Pong(pong) => {
            writer.u64(pong.nonce);
        },
        ControlPayload::BeginDrain(drain) => {
            writer.u32(drain.deadline_millis);
        },
        ControlPayload::CloseSession(close) => {
            writer.u16(close.reason_code);
        },
        ControlPayload::Error(error) => {
            writer.u8(error_domain_to_wire(error.domain));
            writer.u16(error.code.0);
            writer.u16(
                match error.operation {
                    Some(opcode) => opcode.code(),
                    None => 0xffff,
                },
            );
            writer.u8(retryability_to_wire(error.retryability));
            assert(writer@ =~= old(writer)@ + error_bytes(*error));
        },
    }
    Ok(())
}

fn encode_session(writer: &mut Writer, session_id: &Option<SessionId>)
    ensures
        final(writer)@ == old(writer)@ + session_bytes(*session_id),
{
    match session_id {
        Some(id) => {
            writer.u8(1);
            writer.bytes(id.as_bytes());
        },
        None => {
            writer.u8(0);
            let none: [u8; 16] = [0; 16];
            writer.bytes(&none);
            assert(none@ =~= zeros());
        },
    }
    assert(writer@ =~= old(writer)@ + session_bytes(*session_id));
}

/// Writes a typed control frame.
pub fn encode_control_envelope(guard: &ControlModeGuard, envelope: &ControlEnvelope) -> (wire: Result<
    Vec<u8>,
    LinkControlError,
>)
    ensures
        match wire {
            Ok(bytes) => {
                &&& envelope_fault(guard.mode, envelope@) is None
                &&& bytes@ == envelope_bytes(envelope@)
            },
            Err(e) => envelope_fault(guard.mode, envelope@) == Some(e),
        },
{
    guard.validate_typed()?;
    if envelope.wire_version != TYPED_CONTROL_WIRE_VERSION {
        return Err(LinkControlError::unsupported_version());
    }
    if envelope.opcode != envelope.payload.opcode() {
        return Err(LinkControlError::opcode_mismatch());
    }
    let mut body = Writer { bytes: Vec::new() };
    encode_payload(&mut body, &envelope.payload)?;
    assert(body@ =~= payload_bytes(envelope@.payload));
    let payload_len: usize = body.bytes.len();
    if payload_len > MAX_CONTROL_PAYLOAD_BYTES {
        return Err(LinkControlError::limit_exceeded());
    }
    let mut writer = Writer { bytes: Vec::new() };
    writer.u32(CONTROL_MAGIC);
    writer.u16(envelope.wire_version);
    writer.u16(envelope.opcode.code());
    writer.u16(envelope.flags.bits());
    writer.u64(envelope.request_id.0);
    encode_session(&mut writer, &envelope.session_id);
    assert(writer@ =~= header_bytes(envelope@));
    writer.u32(payload_len as u32);
    writer.bytes(body.bytes.as_slice());
    Ok(writer.bytes)
}

} // verus!
