//! Where the numbers and identities of control and data frames stand.

use vstd::prelude::*;
use vstd::utf8::encode_utf8;
use crate::bytes::{be16, be32, be64, numbers_begin_with_their_greatest_byte};
use crate::control::{
    ControlEnvelopeView, ControlIdentityMode, LinkControlError, LinkControlOpcode, PayloadView,
    known_flag_bits,
};
use crate::control_laws::{control_frames_are_canonical, control_frames_round_trip};
use crate::control_wire::{
    CONTROL_MAGIC, capability_bytes, envelope_bytes, envelope_fault, offer_bytes, offer_fault,
    offers_bytes, offers_fault, parse_envelope, payload_bytes, payload_fault, schema_bytes,
    selection_bytes, selection_fault, selections_bytes, selections_fault, session_bytes, text_bytes,
    words_bytes, zeros,
};
use crate::data::{
    DATA_MAGIC, DataCodecErrorKind, DataCodecLimits, DataIdentityMode, DataView, data_bytes, data_fault,
    flag_bits, wire_fault,
};
use crate::negotiation::{OfferView, SelectionView};
use crate::protocol_ids::{CapabilityView, LinkCapabilities, SchemaRef};

verus! {

/// The number that `n` bytes spell from a place on, the most significant byte first.
pub open spec fn number_at(wire: Seq<u8>, at: int, n: nat) -> nat
    decreases n,
{
    if n == 0 {
        0
    } else {
        number_at(wire, at, (n - 1) as nat) * 256 + wire[at + n - 1] as nat
    }
}

proof fn lemma_number_16(wire: Seq<u8>, at: int, x: u16)
    requires
        0 <= at,
        at + 2 <= wire.len(),
        wire.subrange(at, at + 2) == be16(x),
    ensures
        number_at(wire, at, 2) == x,
{
    reveal_with_fuel(number_at, 3);
    numbers_begin_with_their_greatest_byte(x, 0, 0);
    let s = wire.subrange(at, at + 2);
    assert(s[0] == wire[at] && s[1] == wire[at + 1]);
}

proof fn lemma_number_32(wire: Seq<u8>, at: int, x: u32)
    requires
        0 <= at,
        at + 4 <= wire.len(),
        wire.subrange(at, at + 4) == be32(x),
    ensures
        number_at(wire, at, 4) == x,
{
    reveal_with_fuel(number_at, 5);
    numbers_begin_with_their_greatest_byte(0, x, 0);
    let s = wire.subrange(at, at + 4);
    assert(s[0] == wire[at] && s[1] == wire[at + 1] && s[2] == wire[at + 2] && s[3] == wire[at + 3]);
}

proof fn lemma_number_64(wire: Seq<u8>, at: int, x: u64)
    requires
        0 <= at,
        at + 8 <= wire.len(),
        wire.subrange(at, at + 8) == be64(x),
    ensures
        number_at(wire, at, 8) == x,
{
    reveal_with_fuel(number_at, 9);
    numbers_begin_with_their_greatest_byte(0, 0, x);
    let s = wire.subrange(at, at + 8);
    assert(s[0] == wire[at] && s[1] == wire[at + 1] && s[2] == wire[at + 2] && s[3] == wire[at + 3]);
    assert(s[4] == wire[at + 4] && s[5] == wire[at + 5] && s[6] == wire[at + 6] && s[7] == wire[at
        + 7]);
}

/// The number of an opcode: what begins a session counts from 1, what is said of channels
/// from 16, what is said of the session from 32, and an error is 255.
pub proof fn opcodes_have_their_numbers(opcode: LinkControlOpcode)
    ensures
        opcode is Hello ==> opcode.code() == 1,
        opcode is ProtocolOffer ==> opcode.code() == 2,
        opcode is ProtocolSelect ==> opcode.code() == 3,
        opcode is OpenChannel ==> opcode.code() == 16,
        opcode is ChannelAccepted ==> opcode.code() == 17,
        opcode is CloseChannel ==> opcode.code() == 18,
        opcode is Ping ==> opcode.code() == 32,
        opcode is Pong ==> opcode.code() == 33,
        opcode is BeginDrain ==> opcode.code() == 34,
        opcode is CloseSession ==> opcode.code() == 35,
        opcode is Error ==> opcode.code() == 255,
{
}

/// A control frame has a header of 39 bytes: that it is one, its version, its opcode, its
/// flags, its request, whether it is of a session and of which, and how long its payload is;
/// then the payload.
pub proof fn control_headers_have_their_places(v: ControlEnvelopeView)
    requires
        payload_bytes(v.payload).len() <= u32::MAX,
    ensures
        ({
            let wire = envelope_bytes(v);
            let payload = payload_bytes(v.payload);
            &&& wire.len() == 39 + payload.len()
            &&& wire[0] == 'M' as u8
            &&& wire[1] == 'L' as u8
            &&& wire[2] == 'C' as u8
            &&& wire[3] == 'T' as u8
            &&& number_at(wire, 4, 2) == v.wire_version
            &&& number_at(wire, 6, 2) == v.opcode.code()
            &&& number_at(wire, 8, 2) == v.flags
            &&& number_at(wire, 10, 8) == v.request_id.0
            &&& v.session_id is None ==> wire[18] == 0 && wire.subrange(19, 35) == zeros()
            &&& v.session_id matches Some(id) ==> wire[18] == 1 && wire.subrange(19, 35) == id@
            &&& number_at(wire, 35, 4) == payload.len()
            &&& wire.skip(39) == payload
        }),
{
    let wire = envelope_bytes(v);
    let payload = payload_bytes(v.payload);
    let session = session_bytes(v.session_id);
    numbers_begin_with_their_greatest_byte(v.wire_version, CONTROL_MAGIC, v.request_id.0);
    numbers_begin_with_their_greatest_byte(v.opcode.code(), payload.len() as u32, 0);
    numbers_begin_with_their_greatest_byte(v.flags, 0, 0);
    assert(session.len() == 17);
    let magic = be32(CONTROL_MAGIC);
    assert(magic[0] == 0x4d && magic[1] == 0x4c && magic[2] == 0x43 && magic[3] == 0x54) by {
        reveal(be32);
    }
    assert(wire[0] == magic[0] && wire[1] == magic[1] && wire[2] == magic[2] && wire[3] == magic[3]);
    assert(wire.subrange(4, 6) =~= be16(v.wire_version));
    assert(wire.subrange(6, 8) =~= be16(v.opcode.code()));
    assert(wire.subrange(8, 10) =~= be16(v.flags));
    assert(wire.subrange(10, 18) =~= be64(v.request_id.0));
    assert(wire.subrange(18, 35) =~= session);
    assert(wire.subrange(19, 35) =~= session.subrange(1, 17));
    assert(wire[18] == session[0]);
    assert(wire.subrange(35, 39) =~= be32(payload.len() as u32));
    assert(wire.skip(39) =~= payload);
    lemma_number_16(wire, 4, v.wire_version);
    lemma_number_16(wire, 6, v.opcode.code());
    lemma_number_16(wire, 8, v.flags);
    lemma_number_64(wire, 10, v.request_id.0);
    lemma_number_32(wire, 35, payload.len() as u32);
    match v.session_id {
        Some(id) => {
            assert(session.subrange(1, 17) =~= id@);
        },
        None => {
            assert(session.subrange(1, 17) =~= zeros());
        },
    }
}

/// A frame is read only where it begins so, is of the first version, has no flag but the one
/// of a response, and is exactly as long as it says, with a payload of 65536 bytes at most.
pub proof fn only_whole_control_frames_are_read(wire: Seq<u8>)
    requires
        parse_envelope(wire) is Ok,
    ensures
        wire.len() >= 39,
        wire[0] == 'M' as u8,
        wire[1] == 'L' as u8,
        wire[2] == 'C' as u8,
        wire[3] == 'T' as u8,
        number_at(wire, 4, 2) == 1,
        number_at(wire, 8, 2) <= 1,
        wire[18] <= 1,
        number_at(wire, 35, 4) <= 65536,
        wire.len() == 39 + number_at(wire, 35, 4),
        parse_envelope(wire)->Ok_0.payload.opcode() == parse_envelope(wire)->Ok_0.opcode,
{
    control_frames_are_canonical(wire);
    control_headers_have_their_places(parse_envelope(wire)->Ok_0);
}

/// A frame that is followed by anything is not read, nor is one that is cut short.
pub proof fn control_frames_end_where_they_say(wire: Seq<u8>, more: Seq<u8>)
    requires
        parse_envelope(wire) is Ok,
        more.len() > 0,
    ensures
        parse_envelope(wire + more) is Err,
        parse_envelope(wire.drop_last()) is Err,
{
    only_whole_control_frames_are_read(wire);
    let longer = wire + more;
    let shorter = wire.drop_last();
    if parse_envelope(longer) is Ok {
        only_whole_control_frames_are_read(longer);
        lemma_same_number(wire, longer, 35, 4);
    }
    if parse_envelope(shorter) is Ok {
        only_whole_control_frames_are_read(shorter);
        lemma_same_number(wire, shorter, 35, 4);
    }
}

proof fn lemma_same_number(a: Seq<u8>, b: Seq<u8>, at: int, n: nat)
    requires
        0 <= at,
        forall|i: int| at <= i < at + n ==> a[i] == b[i],
    ensures
        number_at(a, at, n) == number_at(b, at, n),
    decreases n,
{
    if n > 0 {
        lemma_same_number(a, b, at, (n - 1) as nat);
    }
}

/// An envelope is written where the mode is the typed one, its version the first, its opcode
/// that of its payload, and the payload valid and no longer than 65536 bytes; what is
/// written is read back with the same opcode, request, session and flags.
pub proof fn valid_envelopes_are_written(v: ControlEnvelopeView)
    ensures
        envelope_fault(ControlIdentityMode::TypedV1, v) is None <==> {
            &&& v.wire_version == 1
            &&& v.opcode == v.payload.opcode()
            &&& payload_fault(v.payload) is None
            &&& payload_bytes(v.payload).len() <= 65536
        },
        envelope_fault(ControlIdentityMode::LegacyStringV1, v) is Some,
        envelope_fault(ControlIdentityMode::TypedV1, v) is None && v.flags <= 1 ==> {
            let read = parse_envelope(envelope_bytes(v));
            &&& read is Ok
            &&& read->Ok_0.opcode == v.opcode
            &&& read->Ok_0.request_id == v.request_id
            &&& read->Ok_0.session_id == v.session_id
            &&& read->Ok_0.flags == v.flags
            &&& !(v.payload is Error) ==> read->Ok_0.payload == v.payload
        },
{
    if envelope_fault(ControlIdentityMode::TypedV1, v) is None && v.flags <= 1 {
        assert(known_flag_bits(v.flags));
        control_frames_round_trip(v);
    }
}

/// The opcode of a frame is that of what it carries.
pub proof fn payloads_have_their_opcode(payload: PayloadView)
    ensures
        payload is Hello ==> payload.opcode() is Hello,
        payload is OfferProtocols ==> payload.opcode() is ProtocolOffer,
        payload is SelectProtocols ==> payload.opcode() is ProtocolSelect,
        payload is OpenChannel ==> payload.opcode() is OpenChannel,
        payload is AcceptChannel ==> payload.opcode() is ChannelAccepted,
        payload is CloseChannel ==> payload.opcode() is CloseChannel,
        payload is Ping ==> payload.opcode() is Ping,
        payload is Pong ==> payload.opcode() is Pong,
        payload is BeginDrain ==> payload.opcode() is BeginDrain,
        payload is CloseSession ==> payload.opcode() is CloseSession,
        payload is Error ==> payload.opcode() is Error,
{
}

/// What is said of a channel is valid where its numbers, and the capacity that is asked for,
/// are positive; what begins a session, where its versions are a range.
pub proof fn payloads_name_channels_by_positive_numbers(payload: PayloadView)
    ensures
        payload matches PayloadView::OpenChannel(v) ==> (payload_fault(payload) is None
            <==> v.protocol_channel_id.0 >= 1 && v.requested_session_channel_id.0 >= 1 && v.capacity
            >= 1),
        payload matches PayloadView::AcceptChannel(v) ==> (payload_fault(payload) is None
            <==> v.protocol_channel_id.0 >= 1 && v.session_channel_id.0 >= 1),
        payload matches PayloadView::CloseChannel(v) ==> (payload_fault(payload) is None
            <==> v.session_channel_id.0 >= 1),
        payload matches PayloadView::Hello(v) ==> (payload_fault(payload) is None
            <==> v.link_versions.minimum.major == v.link_versions.maximum.major
            && v.link_versions.minimum.minor <= v.link_versions.maximum.minor),
        payload is Ping || payload is Pong || payload is BeginDrain || payload is CloseSession || payload
            is Error ==> payload_fault(payload) is None,
        payload matches PayloadView::OfferProtocols(v) && v.len() > 32 ==> payload_fault(payload) is Some,
        payload matches PayloadView::SelectProtocols(v) && v.len() > 32 ==> payload_fault(payload) is Some,
{
}

/// An offer is valid where its versions are a range, its schema has a revision, its
/// capabilities are its own and few enough, and its spelling, if it has one, is short and
/// its own; no protocol is offered twice.
pub proof fn sound_offers_are_valid(earlier: Seq<OfferView>, v: OfferView)
    ensures
        offer_fault(earlier, v) is None <==> {
            &&& v.versions.minimum.major == v.versions.maximum.major
            &&& v.versions.minimum.minor <= v.versions.maximum.minor
            &&& v.schema.revision.0 >= 1
            &&& v.capabilities.protocol_id == v.stable_id
            &&& v.capabilities.words.len() <= 8
            &&& forall|i: int| 0 <= i < earlier.len() ==> (#[trigger] earlier[i]).stable_id != v.stable_id
            &&& v.debug_identity matches Some(spelling) ==> {
                &&& spelling.canonical()
                &&& spelling.identity() == v.stable_id@
                &&& 1 <= encode_utf8(spelling.authority).len() <= 128
                &&& 1 <= encode_utf8(spelling.name).len() <= 128
            }
        },
{
}

/// A selection is valid where its schema has a revision and its capabilities are its own and
/// few enough; no protocol is selected twice.
pub proof fn sound_selections_are_valid(earlier: Seq<SelectionView>, v: SelectionView)
    ensures
        selection_fault(earlier, v) is None <==> {
            &&& v.schema.revision.0 >= 1
            &&& v.capabilities.protocol_id == v.stable_id
            &&& v.capabilities.words.len() <= 8
            &&& forall|i: int| 0 <= i < earlier.len() ==> (#[trigger] earlier[i]).stable_id != v.stable_id
        },
{
}

/// Offers are valid together exactly where each is valid after those before it, and so are
/// selections.
pub proof fn rows_are_valid_one_by_one(
    offers: Seq<OfferView>,
    offer: OfferView,
    selections: Seq<SelectionView>,
    selection: SelectionView,
)
    ensures
        offers_fault(Seq::empty()) is None,
        offers_fault(offers.push(offer)) is None <==> offers_fault(offers) is None && offer_fault(
            offers,
            offer,
        ) is None,
        selections_fault(Seq::empty()) is None,
        selections_fault(selections.push(selection)) is None <==> selections_fault(selections) is None
            && selection_fault(selections, selection) is None,
        offers_bytes(offers.push(offer)) == offers_bytes(offers) + offer_bytes(offer),
        selections_bytes(selections.push(selection)) == selections_bytes(selections) + selection_bytes(
            selection,
        ),
{
    assert(offers.push(offer).drop_last() =~= offers);
    assert(selections.push(selection).drop_last() =~= selections);
}

/// Where the numbers of short payloads stand.
pub proof fn short_payloads_have_their_places(payload: PayloadView)
    ensures
        payload matches PayloadView::Ping(v) ==> payload_bytes(payload).len() == 8 && number_at(
            payload_bytes(payload),
            0,
            8,
        ) == v.nonce,
        payload matches PayloadView::Pong(v) ==> payload_bytes(payload).len() == 8 && number_at(
            payload_bytes(payload),
            0,
            8,
        ) == v.nonce,
        payload matches PayloadView::BeginDrain(v) ==> payload_bytes(payload).len() == 4 && number_at(
            payload_bytes(payload),
            0,
            4,
        ) == v.deadline_millis,
        payload matches PayloadView::CloseSession(v) ==> payload_bytes(payload).len() == 2 && number_at(
            payload_bytes(payload),
            0,
            2,
        ) == v.reason_code,
        payload matches PayloadView::CloseChannel(v) ==> payload_bytes(payload).len() == 4 && number_at(
            payload_bytes(payload),
            0,
            4,
        ) == v.session_channel_id.0,
{
    let wire = payload_bytes(payload);
    match payload {
        PayloadView::Ping(v) => {
            numbers_begin_with_their_greatest_byte(0, 0, v.nonce);
            assert(wire.subrange(0, 8) =~= wire);
            lemma_number_64(wire, 0, v.nonce);
        },
        PayloadView::Pong(v) => {
            numbers_begin_with_their_greatest_byte(0, 0, v.nonce);
            assert(wire.subrange(0, 8) =~= wire);
            lemma_number_64(wire, 0, v.nonce);
        },
        PayloadView::BeginDrain(v) => {
            numbers_begin_with_their_greatest_byte(0, v.deadline_millis, 0);
            assert(wire.subrange(0, 4) =~= wire);
            lemma_number_32(wire, 0, v.deadline_millis);
        },
        PayloadView::CloseSession(v) => {
            numbers_begin_with_their_greatest_byte(v.reason_code, 0, 0);
            assert(wire.subrange(0, 2) =~= wire);
            lemma_number_16(wire, 0, v.reason_code);
        },
        PayloadView::CloseChannel(v) => {
            numbers_begin_with_their_greatest_byte(0, v.session_channel_id.0, 0);
            assert(wire.subrange(0, 4) =~= wire);
            lemma_number_32(wire, 0, v.session_channel_id.0);
        },
        _ => {},
    }
}

/// Where the protocol and the numbers of a channel stand that is opened or accepted.
pub proof fn channel_payloads_have_their_places(payload: PayloadView)
    ensures
        payload matches PayloadView::OpenChannel(v) ==> {
            let wire = payload_bytes(payload);
            &&& wire.len() == 26
            &&& wire.subrange(0, 16) == v.protocol_id@
            &&& number_at(wire, 16, 2) == v.protocol_channel_id.0
            &&& number_at(wire, 18, 4) == v.requested_session_channel_id.0
            &&& number_at(wire, 22, 4) == v.capacity
        },
        payload matches PayloadView::AcceptChannel(v) ==> {
            let wire = payload_bytes(payload);
            &&& wire.len() == 22
            &&& wire.subrange(0, 16) == v.protocol_id@
            &&& number_at(wire, 16, 2) == v.protocol_channel_id.0
            &&& number_at(wire, 18, 4) == v.session_channel_id.0
        },
{
    let wire = payload_bytes(payload);
    match payload {
        PayloadView::OpenChannel(v) => {
            numbers_begin_with_their_greatest_byte(
                v.protocol_channel_id.0,
                v.requested_session_channel_id.0,
                0,
            );
            numbers_begin_with_their_greatest_byte(0, v.capacity, 0);
            assert(wire.subrange(0, 16) =~= v.protocol_id@);
            assert(wire.subrange(16, 18) =~= be16(v.protocol_channel_id.0));
            assert(wire.subrange(18, 22) =~= be32(v.requested_session_channel_id.0));
            assert(wire.subrange(22, 26) =~= be32(v.capacity));
            lemma_number_16(wire, 16, v.protocol_channel_id.0);
            lemma_number_32(wire, 18, v.requested_session_channel_id.0);
            lemma_number_32(wire, 22, v.capacity);
        },
        PayloadView::AcceptChannel(v) => {
            numbers_begin_with_their_greatest_byte(v.protocol_channel_id.0, v.session_channel_id.0, 0);
            assert(wire.subrange(0, 16) =~= v.protocol_id@);
            assert(wire.subrange(16, 18) =~= be16(v.protocol_channel_id.0));
            assert(wire.subrange(18, 22) =~= be32(v.session_channel_id.0));
            lemma_number_16(wire, 16, v.protocol_channel_id.0);
            lemma_number_32(wire, 18, v.session_channel_id.0);
        },
        _ => {},
    }
}

/// Where a greeting has its peer, its endpoint and connection, its versions, its
/// capabilities and how it asks to be authenticated.
pub proof fn greetings_have_their_places(payload: PayloadView)
    requires
        payload is Hello,
    ensures
        ({
            let wire = payload_bytes(payload);
            let v = payload->Hello_0;
            &&& wire.len() == 81
            &&& wire.subrange(0, 32) == v.identity.peer_id@
            &&& wire.subrange(32, 48) == v.identity.endpoint_id@
            &&& wire.subrange(48, 64) == v.identity.connection_id@
            &&& number_at(wire, 64, 2) == v.link_versions.minimum.major
            &&& number_at(wire, 66, 2) == v.link_versions.minimum.minor
            &&& number_at(wire, 68, 2) == v.link_versions.maximum.major
            &&& number_at(wire, 70, 2) == v.link_versions.maximum.minor
            &&& number_at(wire, 72, 8) == v.link_capabilities.0
            &&& v.requested_auth is FirstPairing ==> wire[80] == 0
            &&& v.requested_auth is TrustedReconnect ==> wire[80] == 1
        }),
{
    let wire = payload_bytes(payload);
    let v = payload->Hello_0;
    let low = v.link_versions.minimum;
    let high = v.link_versions.maximum;
    numbers_begin_with_their_greatest_byte(low.major, 0, v.link_capabilities.0);
    numbers_begin_with_their_greatest_byte(low.minor, 0, 0);
    numbers_begin_with_their_greatest_byte(high.major, 0, 0);
    numbers_begin_with_their_greatest_byte(high.minor, 0, 0);
    assert(wire.subrange(0, 32) =~= v.identity.peer_id@);
    assert(wire.subrange(32, 48) =~= v.identity.endpoint_id@);
    assert(wire.subrange(48, 64) =~= v.identity.connection_id@);
    assert(wire.subrange(64, 66) =~= be16(low.major));
    assert(wire.subrange(66, 68) =~= be16(low.minor));
    assert(wire.subrange(68, 70) =~= be16(high.major));
    assert(wire.subrange(70, 72) =~= be16(high.minor));
    assert(wire.subrange(72, 80) =~= be64(v.link_capabilities.0));
    lemma_number_16(wire, 64, low.major);
    lemma_number_16(wire, 66, low.minor);
    lemma_number_16(wire, 68, high.major);
    lemma_number_16(wire, 70, high.minor);
    lemma_number_64(wire, 72, v.link_capabilities.0);
}

/// Where an error has its domain, its code, the operation that failed and whether it may be
/// tried again; 65535 stands for no operation.
pub proof fn errors_have_their_places(payload: PayloadView)
    requires
        payload is Error,
    ensures
        ({
            let wire = payload_bytes(payload);
            let v: LinkControlError = payload->Error_0;
            &&& wire.len() == 6
            &&& v.domain is Control ==> wire[0] == 0
            &&& v.domain is Protocol ==> wire[0] == 1
            &&& v.domain is Channel ==> wire[0] == 2
            &&& v.domain is Security ==> wire[0] == 3
            &&& v.domain is Resource ==> wire[0] == 4
            &&& number_at(wire, 1, 2) == v.code.0
            &&& v.operation is None ==> number_at(wire, 3, 2) == 65535
            &&& v.operation matches Some(opcode) ==> number_at(wire, 3, 2) == opcode.code()
            &&& v.retryability is Never ==> wire[5] == 0
            &&& v.retryability is RetryAfterBackoff ==> wire[5] == 1
            &&& v.retryability is Reconnect ==> wire[5] == 2
        }),
{
    let wire = payload_bytes(payload);
    let v = payload->Error_0;
    let operation = crate::control_wire::operation_code(v.operation);
    numbers_begin_with_their_greatest_byte(v.code.0, 0, 0);
    numbers_begin_with_their_greatest_byte(operation, 0, 0);
    assert(wire.subrange(1, 3) =~= be16(v.code.0));
    assert(wire.subrange(3, 5) =~= be16(operation));
    lemma_number_16(wire, 1, v.code.0);
    lemma_number_16(wire, 3, operation);
}

/// Where a schema has its identity, revision and digest, a capability set its protocol and
/// its words, and a text its length.
pub proof fn parts_of_offers_have_their_places(
    schema: SchemaRef,
    capabilities: CapabilityView,
    text: Seq<char>,
    word: u64,
)
    requires
        encode_utf8(text).len() <= u16::MAX,
        capabilities.words.len() <= 255,
    ensures
        schema_bytes(schema).len() == 52,
        schema_bytes(schema).subrange(0, 16) == schema.id@,
        number_at(schema_bytes(schema), 16, 4) == schema.revision.0,
        schema_bytes(schema).subrange(20, 52) == schema.fingerprint@,
        capability_bytes(capabilities).subrange(0, 16) == capabilities.protocol_id@,
        capability_bytes(capabilities)[16] == capabilities.words.len(),
        capability_bytes(capabilities).skip(17) == words_bytes(capabilities.words),
        words_bytes(Seq::empty()).len() == 0,
        words_bytes(capabilities.words.push(word)) == words_bytes(capabilities.words) + be64(word),
        number_at(text_bytes(text), 0, 2) == encode_utf8(text).len(),
        text_bytes(text).skip(2) == encode_utf8(text),
{
    let s = schema_bytes(schema);
    let c = capability_bytes(capabilities);
    let t = text_bytes(text);
    numbers_begin_with_their_greatest_byte(encode_utf8(text).len() as u16, schema.revision.0, 0);
    assert(s.subrange(0, 16) =~= schema.id@);
    assert(s.subrange(16, 20) =~= be32(schema.revision.0));
    assert(s.subrange(20, 52) =~= schema.fingerprint@);
    lemma_number_32(s, 16, schema.revision.0);
    assert(c.subrange(0, 16) =~= capabilities.protocol_id@);
    assert(c.skip(17) =~= words_bytes(capabilities.words));
    assert(capabilities.words.push(word).drop_last() =~= capabilities.words);
    assert(t.subrange(0, 2) =~= be16(encode_utf8(text).len() as u16));
    lemma_number_16(t, 0, encode_utf8(text).len() as u16);
    assert(t.skip(2) =~= encode_utf8(text));
}

/// An offer on the wire begins with its protocol and has its parts in order, and so has a
/// selection, with a version for the range.
pub proof fn offers_have_their_parts_in_order(offer: OfferView, selection: SelectionView)
    requires
        offer.debug_identity is None,
    ensures
        ({
            let wire = offer_bytes(offer);
            &&& wire.subrange(0, 16) == offer.stable_id@
            &&& wire[16] == 0
            &&& number_at(wire, 17, 2) == offer.versions.minimum.major
            &&& number_at(wire, 19, 2) == offer.versions.minimum.minor
            &&& number_at(wire, 21, 2) == offer.versions.maximum.major
            &&& number_at(wire, 23, 2) == offer.versions.maximum.minor
            &&& wire.subrange(25, 77) == schema_bytes(offer.schema)
            &&& wire.skip(77) == capability_bytes(offer.capabilities)
        }),
        ({
            let wire = selection_bytes(selection);
            &&& wire.subrange(0, 16) == selection.stable_id@
            &&& number_at(wire, 16, 2) == selection.version.major
            &&& number_at(wire, 18, 2) == selection.version.minor
            &&& wire.subrange(20, 72) == schema_bytes(selection.schema)
            &&& wire.skip(72) == capability_bytes(selection.capabilities)
        }),
{
    let a = offer_bytes(offer);
    let low = offer.versions.minimum;
    let high = offer.versions.maximum;
    numbers_begin_with_their_greatest_byte(low.major, offer.schema.revision.0, 0);
    numbers_begin_with_their_greatest_byte(low.minor, selection.schema.revision.0, 0);
    numbers_begin_with_their_greatest_byte(high.major, 0, 0);
    numbers_begin_with_their_greatest_byte(high.minor, 0, 0);
    numbers_begin_with_their_greatest_byte(selection.version.major, 0, 0);
    numbers_begin_with_their_greatest_byte(selection.version.minor, 0, 0);
    assert(schema_bytes(offer.schema).len() == 52);
    assert(schema_bytes(selection.schema).len() == 52);
    assert(a.subrange(0, 16) =~= offer.stable_id@);
    assert(a.subrange(17, 19) =~= be16(low.major));
    assert(a.subrange(19, 21) =~= be16(low.minor));
    assert(a.subrange(21, 23) =~= be16(high.major));
    assert(a.subrange(23, 25) =~= be16(high.minor));
    assert(a.subrange(25, 77) =~= schema_bytes(offer.schema));
    assert(a.skip(77) =~= capability_bytes(offer.capabilities));
    lemma_number_16(a, 17, low.major);
    lemma_number_16(a, 19, low.minor);
    lemma_number_16(a, 21, high.major);
    lemma_number_16(a, 23, high.minor);
    let b = selection_bytes(selection);
    assert(b.subrange(0, 16) =~= selection.stable_id@);
    assert(b.subrange(16, 18) =~= be16(selection.version.major));
    assert(b.subrange(18, 20) =~= be16(selection.version.minor));
    assert(b.subrange(20, 72) =~= schema_bytes(selection.schema));
    assert(b.skip(72) =~= capability_bytes(selection.capabilities));
    lemma_number_16(b, 16, selection.version.major);
    lemma_number_16(b, 18, selection.version.minor);
}

/// A data frame has a header of 47 bytes: that it is one, its version and kind, its session,
/// its channel and generation, its sequence, its depth, its flags and how long its payload
/// is; then the payload. The end of a stream is flag 1, a cancellation flag 2.
pub proof fn data_headers_have_their_places(v: DataView)
    requires
        v.payload.len() <= u32::MAX,
    ensures
        ({
            let wire = data_bytes(v);
            &&& wire.len() == 47 + v.payload.len()
            &&& wire[0] == 'M' as u8
            &&& wire[1] == 'L' as u8
            &&& wire[2] == 'D' as u8
            &&& wire[3] == 'T' as u8
            &&& number_at(wire, 4, 2) == 1
            &&& wire[6] == 1
            &&& wire.subrange(7, 23) == v.session_id@
            &&& number_at(wire, 23, 4) == v.channel_id.0
            &&& number_at(wire, 27, 4) == v.generation.0
            &&& number_at(wire, 31, 8) == v.sequence
            &&& number_at(wire, 39, 2) == v.nesting_depth
            &&& number_at(wire, 41, 2) == (if v.flags.end_of_stream {
                1int
            } else {
                0
            }) + (if v.flags.cancelled {
                2int
            } else {
                0
            })
            &&& number_at(wire, 43, 4) == v.payload.len()
            &&& wire.skip(47) == v.payload
        }),
{
    let wire = data_bytes(v);
    numbers_begin_with_their_greatest_byte(1, DATA_MAGIC, v.sequence);
    numbers_begin_with_their_greatest_byte(v.nesting_depth, v.channel_id.0, 0);
    numbers_begin_with_their_greatest_byte(flag_bits(v.flags), v.generation.0, 0);
    numbers_begin_with_their_greatest_byte(0, v.payload.len() as u32, 0);
    let magic = be32(DATA_MAGIC);
    assert(magic[0] == 0x4d && magic[1] == 0x4c && magic[2] == 0x44 && magic[3] == 0x54) by {
        reveal(be32);
    }
    assert(wire[0] == magic[0] && wire[1] == magic[1] && wire[2] == magic[2] && wire[3] == magic[3]);
    assert(wire.subrange(4, 6) =~= be16(1));
    assert(wire.subrange(7, 23) =~= v.session_id@);
    assert(wire.subrange(23, 27) =~= be32(v.channel_id.0));
    assert(wire.subrange(27, 31) =~= be32(v.generation.0));
    assert(wire.subrange(31, 39) =~= be64(v.sequence));
    assert(wire.subrange(39, 41) =~= be16(v.nesting_depth));
    assert(wire.subrange(41, 43) =~= be16(flag_bits(v.flags)));
    assert(wire.subrange(43, 47) =~= be32(v.payload.len() as u32));
    assert(wire.skip(47) =~= v.payload);
    lemma_number_16(wire, 4, 1);
    lemma_number_32(wire, 23, v.channel_id.0);
    lemma_number_32(wire, 27, v.generation.0);
    lemma_number_64(wire, 31, v.sequence);
    lemma_number_16(wire, 39, v.nesting_depth);
    lemma_number_16(wire, 41, flag_bits(v.flags));
    lemma_number_32(wire, 43, v.payload.len() as u32);
}

/// A data frame is written in compact mode, on a channel with a positive number and
/// generation, with a payload and a depth within the limits.
pub proof fn fitting_data_is_written(v: DataView, limits: DataCodecLimits)
    ensures
        data_fault(DataIdentityMode::LegacyFullChannelKey, v, limits) == Some(
            DataCodecErrorKind::ModeMismatch,
        ),
        data_fault(DataIdentityMode::CompactV1, v, limits) is None <==> {
            &&& v.channel_id.0 >= 1
            &&& v.generation.0 >= 1
            &&& v.payload.len() <= limits.max_payload_bytes
            &&& v.payload.len() <= u32::MAX
            &&& v.nesting_depth <= limits.max_nesting_depth
        },
        v.channel_id.0 == 0 || v.generation.0 == 0 ==> data_fault(DataIdentityMode::CompactV1, v, limits)
            == Some(DataCodecErrorKind::InvalidChannel),
        wire_fault(DataIdentityMode::LegacyFullChannelKey, data_bytes(v), limits) == Some(
            DataCodecErrorKind::ModeMismatch,
        ),
{
}

/// A frame that is shorter than a header is cut short, and one that begins otherwise is no
/// data frame.
pub proof fn broken_data_is_not_read(wire: Seq<u8>, limits: DataCodecLimits)
    ensures
        wire.len() < 47 ==> wire_fault(DataIdentityMode::CompactV1, wire, limits) == Some(
            DataCodecErrorKind::Truncated,
        ),
        wire.len() >= 47 && wire[6] != 1 ==> wire_fault(DataIdentityMode::CompactV1, wire, limits)
            is Some,
{
}

/// Frames are spoken of by identities where both sides have the capability for it, bit 5 of
/// the link capabilities, and data is compact where both then have bit 0 as well.
pub proof fn modes_need_their_capability(bits: u64)
    ensures
        ControlIdentityMode::negotiate(LinkCapabilities(bits)) is TypedV1 <==> (bits >> 5) & 1 == 1,
        DataIdentityMode::negotiate(ControlIdentityMode::TypedV1, LinkCapabilities(bits)) is CompactV1
            <==> bits & 1 == 1,
        DataIdentityMode::negotiate(ControlIdentityMode::LegacyStringV1, LinkCapabilities(bits))
            is LegacyFullChannelKey,
{
    assert((bits & 32 == 32) <==> (bits >> 5) & 1 == 1) by (bit_vector);
}

} // verus!
