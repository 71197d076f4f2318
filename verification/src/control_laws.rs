//! What writing and reading a control frame keep.

use vstd::prelude::*;
use vstd::utf8::{
    decode_utf8_encode_utf8, encode_utf8, encode_utf8_decode_utf8, encode_utf8_valid_utf8,
};
use crate::bytes::{
    be16, be16_of_value, be32, be32_of_value, be64, be64_of_value, value_of_be16, value_of_be32,
    value_of_be64,
};
use crate::control::{
    ControlEnvelopeView, ControlIdentityMode, LinkControlError, LinkControlOpcode, PayloadView,
    TYPED_CONTROL_WIRE_VERSION, known_flag_bits, opcode_numbers_correspond, opcode_of,
};
use crate::control_wire::{
    CONTROL_HEADER_BYTES, CONTROL_MAGIC, MAX_CONTROL_PAYLOAD_BYTES, REMOTE_ERROR_MESSAGE,
    accept_bytes, array16, array32, auth_code, capability_bytes, debug_identity_bytes,
    debug_identity_fits, domain_code, envelope_bytes, envelope_fault, error_bytes, hello_bytes,
    lemma_array16, lemma_array32, offer_bytes, offer_fault, offers_bytes, offers_fault, open_bytes,
    operation_code, parse_16, parse_32, parse_accept, parse_body, parse_bytes, parse_capabilities,
    parse_debug_identity, parse_envelope, parse_error, parse_hello, parse_offer, parse_offers,
    parse_open, parse_payload, parse_protocol_id, parse_schema, parse_selection, parse_selections,
    parse_session, parse_tail, parse_text, parse_u16, parse_u32, parse_u64, parse_u8, parse_version,
    parse_version_range, parse_words, payload_bytes, payload_fault, range_bytes, retry_code,
    schema_bytes, selection_bytes, selection_fault, selections_bytes, selections_fault,
    session_bytes, text_bytes, text_fits, version_bytes, words_bytes, zeros,
};
use crate::identity::{ProtocolVersion, VersionRange};
use crate::negotiation::{OfferView, SelectionView};
use crate::protocol_ids::{CapabilityView, DebugIdentityView, MAX_PROTOCOL_CAPABILITY_WORDS, ProtocolStableId, SchemaRef};

verus! {

// ---------------------------------------------------------------------------
// What was written is read back.

/// The first `a.len()` bytes of `a` followed by `rest` are `a`.
proof fn back_bytes(a: Seq<u8>, rest: Seq<u8>)
    ensures
        parse_bytes(a + rest, a.len() as int) == Ok::<_, LinkControlError>((a, rest)),
{
    assert((a + rest).subrange(0, a.len() as int) =~= a);
    assert((a + rest).subrange(a.len() as int, (a + rest).len() as int) =~= rest);
}

proof fn back_u8(x: u8, rest: Seq<u8>)
    ensures
        parse_u8(seq![x] + rest) == Ok::<_, LinkControlError>((x, rest)),
{
    back_bytes(seq![x], rest);
}

proof fn back_u16(x: u16, rest: Seq<u8>)
    ensures
        parse_u16(be16(x) + rest) == Ok::<_, LinkControlError>((x, rest)),
        be16(x).len() == 2,
{
    back_bytes(be16(x), rest);
    value_of_be16(x);
}

proof fn back_u32(x: u32, rest: Seq<u8>)
    ensures
        parse_u32(be32(x) + rest) == Ok::<_, LinkControlError>((x, rest)),
        be32(x).len() == 4,
{
    back_bytes(be32(x), rest);
    value_of_be32(x);
}

proof fn back_u64(x: u64, rest: Seq<u8>)
    ensures
        parse_u64(be64(x) + rest) == Ok::<_, LinkControlError>((x, rest)),
        be64(x).len() == 8,
{
    back_bytes(be64(x), rest);
    value_of_be64(x);
}

proof fn back_16(x: [u8; 16], rest: Seq<u8>)
    ensures
        parse_16(x@ + rest) == Ok::<_, LinkControlError>((x, rest)),
{
    back_bytes(x@, rest);
    lemma_array16(x);
}

proof fn back_32(x: [u8; 32], rest: Seq<u8>)
    ensures
        parse_32(x@ + rest) == Ok::<_, LinkControlError>((x, rest)),
{
    back_bytes(x@, rest);
    lemma_array32(x);
}

proof fn back_version(v: ProtocolVersion, rest: Seq<u8>)
    ensures
        parse_version(version_bytes(v) + rest) == Ok::<_, LinkControlError>((v, rest)),
{
    assert(version_bytes(v) + rest =~= be16(v.major) + (be16(v.minor) + rest));
    back_u16(v.major, be16(v.minor) + rest);
    back_u16(v.minor, rest);
}

proof fn back_range(v: VersionRange, rest: Seq<u8>)
    requires
        v.is_valid(),
    ensures
        parse_version_range(range_bytes(v) + rest) == Ok::<_, LinkControlError>((v, rest)),
{
    assert(range_bytes(v) + rest =~= version_bytes(v.minimum) + (version_bytes(v.maximum) + rest));
    back_version(v.minimum, version_bytes(v.maximum) + rest);
    back_version(v.maximum, rest);
}

proof fn back_id(id: ProtocolStableId, rest: Seq<u8>)
    ensures
        parse_protocol_id(id@ + rest) == Ok::<_, LinkControlError>((id, rest)),
{
    back_16(id.0, rest);
}

proof fn back_schema(v: SchemaRef, rest: Seq<u8>)
    requires
        v.revision.0 != 0,
    ensures
        parse_schema(schema_bytes(v) + rest) == Ok::<_, LinkControlError>((v, rest)),
{
    let tail = v.fingerprint@ + rest;
    assert(schema_bytes(v) + rest =~= v.id@ + (be32(v.revision.0) + tail));
    back_16(v.id.0, be32(v.revision.0) + tail);
    back_u32(v.revision.0, tail);
    back_32(v.fingerprint.0, rest);
}

proof fn back_words(words: Seq<u64>, rest: Seq<u8>)
    ensures
        parse_words(words_bytes(words) + rest, words.len()) == Ok::<_, LinkControlError>((words, rest)),
    decreases words.len(),
{
    if words.len() == 0 {
        assert(words =~= Seq::empty());
        assert(words_bytes(words) + rest =~= rest);
    } else {
        let head = words.drop_last();
        assert(words_bytes(words) + rest =~= words_bytes(head) + (be64(words.last()) + rest));
        back_words(head, be64(words.last()) + rest);
        back_u64(words.last(), rest);
        assert(head.push(words.last()) =~= words);
    }
}

proof fn back_capabilities(v: CapabilityView, rest: Seq<u8>)
    requires
        v.words.len() <= MAX_PROTOCOL_CAPABILITY_WORDS,
    ensures
        parse_capabilities(capability_bytes(v) + rest) == Ok::<_, LinkControlError>((v, rest)),
{
    let tail = words_bytes(v.words) + rest;
    assert(capability_bytes(v) + rest =~= v.protocol_id@ + (seq![v.words.len() as u8] + tail));
    back_id(v.protocol_id, seq![v.words.len() as u8] + tail);
    back_u8(v.words.len() as u8, tail);
    back_words(v.words, rest);
}

proof fn back_text(text: Seq<char>, rest: Seq<u8>)
    requires
        text_fits(text),
    ensures
        parse_text(text_bytes(text) + rest) == Ok::<_, LinkControlError>((text, rest)),
{
    let b = encode_utf8(text);
    assert(text_bytes(text) + rest =~= be16(b.len() as u16) + (b + rest));
    back_u16(b.len() as u16, b + rest);
    back_bytes(b, rest);
    encode_utf8_valid_utf8(text);
    encode_utf8_decode_utf8(text);
}

proof fn back_debug_identity(v: Option<DebugIdentityView>, rest: Seq<u8>)
    requires
        debug_identity_fits(v),
    ensures
        parse_debug_identity(debug_identity_bytes(v) + rest) == Ok::<_, LinkControlError>((v, rest)),
{
    match v {
        Some(i) => {
            let tail = text_bytes(i.name) + rest;
            assert(debug_identity_bytes(v) + rest =~= seq![1u8] + (text_bytes(i.authority) + tail));
            back_u8(1, text_bytes(i.authority) + tail);
            back_text(i.authority, tail);
            back_text(i.name, rest);
        },
        None => {
            back_u8(0, rest);
        },
    }
}

proof fn back_offer(earlier: Seq<OfferView>, v: OfferView, rest: Seq<u8>)
    requires
        offer_fault(earlier, v) is None,
    ensures
        parse_offer(earlier, offer_bytes(v) + rest) == Ok::<_, LinkControlError>((v, rest)),
{
    let t4 = capability_bytes(v.capabilities) + rest;
    let t3 = schema_bytes(v.schema) + t4;
    let t2 = range_bytes(v.versions) + t3;
    let t1 = debug_identity_bytes(v.debug_identity) + t2;
    assert(offer_bytes(v) + rest =~= v.stable_id@ + t1);
    back_id(v.stable_id, t1);
    back_debug_identity(v.debug_identity, t2);
    back_range(v.versions, t3);
    back_schema(v.schema, t4);
    back_capabilities(v.capabilities, rest);
}

proof fn back_offers(offers: Seq<OfferView>, rest: Seq<u8>)
    requires
        offers_fault(offers) is None,
    ensures
        parse_offers(offers_bytes(offers) + rest, offers.len()) == Ok::<_, LinkControlError>(
            (offers, rest),
        ),
    decreases offers.len(),
{
    if offers.len() == 0 {
        assert(offers =~= Seq::empty());
        assert(offers_bytes(offers) + rest =~= rest);
    } else {
        let head = offers.drop_last();
        assert(offers_bytes(offers) + rest =~= offers_bytes(head) + (offer_bytes(offers.last()) + rest));
        back_offers(head, offer_bytes(offers.last()) + rest);
        back_offer(head, offers.last(), rest);
        assert(head.push(offers.last()) =~= offers);
    }
}

proof fn back_selection(earlier: Seq<SelectionView>, v: SelectionView, rest: Seq<u8>)
    requires
        selection_fault(earlier, v) is None,
    ensures
        parse_selection(earlier, selection_bytes(v) + rest) == Ok::<_, LinkControlError>((v, rest)),
{
    let t3 = capability_bytes(v.capabilities) + rest;
    let t2 = schema_bytes(v.schema) + t3;
    let t1 = version_bytes(v.version) + t2;
    assert(selection_bytes(v) + rest =~= v.stable_id@ + t1);
    back_id(v.stable_id, t1);
    back_version(v.version, t2);
    back_schema(v.schema, t3);
    back_capabilities(v.capabilities, rest);
}

proof fn back_selections(selections: Seq<SelectionView>, rest: Seq<u8>)
    requires
        selections_fault(selections) is None,
    ensures
        parse_selections(selections_bytes(selections) + rest, selections.len()) == Ok::<
            _,
            LinkControlError,
        >((selections, rest)),
    decreases selections.len(),
{
    if selections.len() == 0 {
        assert(selections =~= Seq::empty());
        assert(selections_bytes(selections) + rest =~= rest);
    } else {
        let head = selections.drop_last();
        assert(selections_bytes(selections) + rest =~= selections_bytes(head) + (selection_bytes(
            selections.last(),
        ) + rest));
        back_selections(head, selection_bytes(selections.last()) + rest);
        back_selection(head, selections.last(), rest);
        assert(head.push(selections.last()) =~= selections);
    }
}

/// What a peer learns of a payload: all of it, but for the message of an error.
pub open spec fn received_payload(payload: PayloadView) -> PayloadView {
    match payload {
        PayloadView::Error(v) => PayloadView::Error(
            LinkControlError { public_message: REMOTE_ERROR_MESSAGE, ..v },
        ),
        other => other,
    }
}

/// What a peer learns of a frame.
pub open spec fn received(v: ControlEnvelopeView) -> ControlEnvelopeView {
    ControlEnvelopeView { payload: received_payload(v.payload), ..v }
}

proof fn back_hello(payload: PayloadView, rest: Seq<u8>)
    requires
        payload is Hello,
        payload_fault(payload) is None,
    ensures
        parse_payload(payload.opcode(), payload_bytes(payload) + rest) == Ok::<_, LinkControlError>(
            (received_payload(payload), rest),
        ),
{
    let v = payload->Hello_0;
    let t3 = seq![auth_code(v.requested_auth)] + rest;
    let t2 = be64(v.link_capabilities.0) + t3;
    let t1 = range_bytes(v.link_versions) + t2;
    assert(payload_bytes(payload) + rest =~= v.identity.peer_id@ + (v.identity.endpoint_id@ + (
    v.identity.connection_id@ + t1)));
    back_32(v.identity.peer_id.0, v.identity.endpoint_id@ + (v.identity.connection_id@ + t1));
    back_16(v.identity.endpoint_id.0, v.identity.connection_id@ + t1);
    back_16(v.identity.connection_id.0, t1);
    back_range(v.link_versions, t2);
    back_u64(v.link_capabilities.0, t3);
    back_u8(auth_code(v.requested_auth), rest);
}

proof fn back_channel_payload(payload: PayloadView, rest: Seq<u8>)
    requires
        payload is OpenChannel || payload is AcceptChannel || payload is CloseChannel,
        payload_fault(payload) is None,
    ensures
        parse_payload(payload.opcode(), payload_bytes(payload) + rest) == Ok::<_, LinkControlError>(
            (received_payload(payload), rest),
        ),
{
    match payload {
        PayloadView::OpenChannel(v) => {
            let t3 = be32(v.capacity) + rest;
            let t2 = be32(v.requested_session_channel_id.0) + t3;
            let t1 = be16(v.protocol_channel_id.0) + t2;
            assert(payload_bytes(payload) + rest =~= v.protocol_id@ + t1);
            back_id(v.protocol_id, t1);
            back_u16(v.protocol_channel_id.0, t2);
            back_u32(v.requested_session_channel_id.0, t3);
            back_u32(v.capacity, rest);
        },
        PayloadView::AcceptChannel(v) => {
            let t2 = be32(v.session_channel_id.0) + rest;
            let t1 = be16(v.protocol_channel_id.0) + t2;
            assert(payload_bytes(payload) + rest =~= v.protocol_id@ + t1);
            back_id(v.protocol_id, t1);
            back_u16(v.protocol_channel_id.0, t2);
            back_u32(v.session_channel_id.0, rest);
        },
        PayloadView::CloseChannel(v) => {
            back_u32(v.session_channel_id.0, rest);
        },
        _ => {},
    }
}

proof fn back_error(payload: PayloadView, rest: Seq<u8>)
    requires
        payload is Error,
    ensures
        parse_payload(payload.opcode(), payload_bytes(payload) + rest) == Ok::<_, LinkControlError>(
            (received_payload(payload), rest),
        ),
{
    let v = payload->Error_0;
    let t3 = seq![retry_code(v.retryability)] + rest;
    let t2 = be16(operation_code(v.operation)) + t3;
    let t1 = be16(v.code.0) + t2;
    assert(payload_bytes(payload) + rest =~= seq![domain_code(v.domain)] + t1);
    back_u8(domain_code(v.domain), t1);
    back_u16(v.code.0, t2);
    back_u16(operation_code(v.operation), t3);
    back_u8(retry_code(v.retryability), rest);
    if let Some(opcode) = v.operation {
        opcode_numbers_correspond(opcode, 0);
    }
}

proof fn back_payload(payload: PayloadView, rest: Seq<u8>)
    requires
        payload_fault(payload) is None,
    ensures
        parse_payload(payload.opcode(), payload_bytes(payload) + rest) == Ok::<_, LinkControlError>(
            (received_payload(payload), rest),
        ),
{
    match payload {
        PayloadView::Hello(v) => {
            back_hello(payload, rest);
        },
        PayloadView::OfferProtocols(v) => {
            assert(payload_bytes(payload) + rest =~= seq![v.len() as u8] + (offers_bytes(v) + rest));
            back_u8(v.len() as u8, offers_bytes(v) + rest);
            back_offers(v, rest);
        },
        PayloadView::SelectProtocols(v) => {
            assert(payload_bytes(payload) + rest =~= seq![v.len() as u8] + (selections_bytes(v) + rest));
            back_u8(v.len() as u8, selections_bytes(v) + rest);
            back_selections(v, rest);
        },
        PayloadView::OpenChannel(_) => {
            back_channel_payload(payload, rest);
        },
        PayloadView::AcceptChannel(_) => {
            back_channel_payload(payload, rest);
        },
        PayloadView::CloseChannel(_) => {
            back_channel_payload(payload, rest);
        },
        PayloadView::Ping(v) => {
            back_u64(v.nonce, rest);
        },
        PayloadView::Pong(v) => {
            back_u64(v.nonce, rest);
        },
        PayloadView::BeginDrain(v) => {
            back_u32(v.deadline_millis, rest);
        },
        PayloadView::CloseSession(v) => {
            back_u16(v.reason_code, rest);
        },
        PayloadView::Error(_) => {
            back_error(payload, rest);
        },
    }
}

proof fn back_session(v: Option<crate::identity::SessionId>, rest: Seq<u8>)
    ensures
        parse_session(session_bytes(v) + rest) == Ok::<_, LinkControlError>((v, rest)),
        session_bytes(v).len() == 17,
{
    match v {
        Some(id) => {
            assert(session_bytes(v) + rest =~= seq![1u8] + (id@ + rest));
            back_u8(1, id@ + rest);
            back_16(id.0, rest);
        },
        None => {
            lemma_zero_array();
            assert(session_bytes(v) + rest =~= seq![0u8] + (zeros() + rest));
            back_u8(0, zeros() + rest);
            back_16(array16(zeros()), rest);
        },
    }
}

proof fn back_body(payload: PayloadView)
    requires
        payload_fault(payload) is None,
        payload_bytes(payload).len() <= MAX_CONTROL_PAYLOAD_BYTES,
    ensures
        parse_body(
            payload.opcode(),
            be32(payload_bytes(payload).len() as u32) + payload_bytes(payload),
        ) == Ok::<_, LinkControlError>(received_payload(payload)),
{
    let body = payload_bytes(payload);
    back_u32(body.len() as u32, body);
    back_payload(payload, Seq::empty());
    assert(body + Seq::<u8>::empty() =~= body);
}

proof fn back_tail(v: ControlEnvelopeView, body: Seq<u8>)
    requires
        known_flag_bits(v.flags),
        v.wire_version == TYPED_CONTROL_WIRE_VERSION,
        parse_body(v.opcode, body) == Ok::<_, LinkControlError>(received_payload(v.payload)),
    ensures
        parse_tail(
            v.opcode,
            be16(v.flags) + (be64(v.request_id.0) + (session_bytes(v.session_id) + body)),
        ) == Ok::<_, LinkControlError>(received(v)),
        be16(v.flags).len() == 2,
        be64(v.request_id.0).len() == 8,
        session_bytes(v.session_id).len() == 17,
{
    let t2 = session_bytes(v.session_id) + body;
    let t1 = be64(v.request_id.0) + t2;
    back_u16(v.flags, t1);
    back_u64(v.request_id.0, t2);
    back_session(v.session_id, body);
}

proof fn lemma_split(a: Seq<u8>, b: Seq<u8>, c: Seq<u8>, d: Seq<u8>, e: Seq<u8>, f: Seq<u8>, g: Seq<u8>, h: Seq<u8>)
    ensures
        a + b + c + d + e + f + g + h == a + (b + (c + (d + (e + (f + (g + h)))))),
{
    assert(a + b + c + d + e + f + g + h =~= a + (b + (c + (d + (e + (f + (g + h)))))));
}

/// The frame behind its magic number, version and opcode.
spec fn tail_bytes(v: ControlEnvelopeView) -> Seq<u8> {
    be16(v.flags) + (be64(v.request_id.0) + (session_bytes(v.session_id) + (be32(
        payload_bytes(v.payload).len() as u32,
    ) + payload_bytes(v.payload))))
}

proof fn lemma_envelope_split(v: ControlEnvelopeView)
    ensures
        envelope_bytes(v) == be32(CONTROL_MAGIC) + (be16(v.wire_version) + (be16(v.opcode.code())
            + tail_bytes(v))),
        envelope_bytes(v).len() >= CONTROL_HEADER_BYTES,
{
    let body = payload_bytes(v.payload);
    lemma_split(
        be32(CONTROL_MAGIC),
        be16(v.wire_version),
        be16(v.opcode.code()),
        be16(v.flags),
        be64(v.request_id.0),
        session_bytes(v.session_id),
        be32(body.len() as u32),
        body,
    );
    value_of_be32(CONTROL_MAGIC);
    value_of_be16(v.wire_version);
    value_of_be16(v.opcode.code());
    value_of_be16(v.flags);
    value_of_be64(v.request_id.0);
    back_session(v.session_id, Seq::empty());
    value_of_be32(body.len() as u32);
}

/// A peer reads back every frame that was written, but for the message of an
/// error, which stays on the side that wrote it.
pub proof fn control_frames_round_trip(v: ControlEnvelopeView)
    requires
        envelope_fault(ControlIdentityMode::TypedV1, v) is None,
        known_flag_bits(v.flags),
    ensures
        parse_envelope(envelope_bytes(v)) == Ok::<_, LinkControlError>(received(v)),
{
    let t3 = tail_bytes(v);
    let t2 = be16(v.opcode.code()) + t3;
    let t1 = be16(v.wire_version) + t2;
    lemma_envelope_split(v);
    assert(parse_tail(v.opcode, t3) == Ok::<_, LinkControlError>(received(v))) by {
        back_body(v.payload);
        back_tail(v, be32(payload_bytes(v.payload).len() as u32) + payload_bytes(v.payload));
    }
    back_u32(CONTROL_MAGIC, t1);
    back_u16(v.wire_version, t2);
    back_u16(v.opcode.code(), t3);
    opcode_numbers_correspond(v.opcode, 0);
}

proof fn lemma_zero_array()
    ensures
        array16(zeros())@ == zeros(),
{
    let a: [u8; 16] = [0u8, 0, 0, 0, 0, 0, 0, 0, 0, 0, 0, 0, 0, 0, 0, 0];
    assert(a@ =~= zeros());
}

// ---------------------------------------------------------------------------
// Only what would be written is read.

proof fn only_bytes(s: Seq<u8>, n: int)
    requires
        0 <= n,
        parse_bytes(s, n) is Ok,
    ensures
        s == parse_bytes(s, n)->Ok_0.0 + parse_bytes(s, n)->Ok_0.1,
        parse_bytes(s, n)->Ok_0.0.len() == n,
{
    assert(s =~= s.subrange(0, n) + s.subrange(n, s.len() as int));
}

proof fn only_u8(s: Seq<u8>)
    requires
        parse_u8(s) is Ok,
    ensures
        s == seq![parse_u8(s)->Ok_0.0] + parse_u8(s)->Ok_0.1,
{
    only_bytes(s, 1);
    assert(s.subrange(0, 1) =~= seq![s[0]]);
}

proof fn only_u16(s: Seq<u8>)
    requires
        parse_u16(s) is Ok,
    ensures
        s == be16(parse_u16(s)->Ok_0.0) + parse_u16(s)->Ok_0.1,
{
    only_bytes(s, 2);
    be16_of_value(s.subrange(0, 2));
}

proof fn only_u32(s: Seq<u8>)
    requires
        parse_u32(s) is Ok,
    ensures
        s == be32(parse_u32(s)->Ok_0.0) + parse_u32(s)->Ok_0.1,
{
    only_bytes(s, 4);
    be32_of_value(s.subrange(0, 4));
}

proof fn only_u64(s: Seq<u8>)
    requires
        parse_u64(s) is Ok,
    ensures
        s == be64(parse_u64(s)->Ok_0.0) + parse_u64(s)->Ok_0.1,
{
    only_bytes(s, 8);
    be64_of_value(s.subrange(0, 8));
}

/// Every sixteen bytes are the elements of an array.
proof fn lemma_array16_exists(s: Seq<u8>)
    requires
        s.len() == 16,
    ensures
        array16(s)@ == s,
{
    let a: [u8; 16] = [
        s[0],
        s[1],
        s[2],
        s[3],
        s[4],
        s[5],
        s[6],
        s[7],
        s[8],
        s[9],
        s[10],
        s[11],
        s[12],
        s[13],
        s[14],
        s[15],
    ];
    assert(a@ =~= s);
}

/// Every thirty-two bytes are the elements of an array.
proof fn lemma_array32_exists(s: Seq<u8>)
    requires
        s.len() == 32,
    ensures
        array32(s)@ == s,
{
    let a: [u8; 32] = [
        s[0],
        s[1],
        s[2],
        s[3],
        s[4],
        s[5],
        s[6],
        s[7],
        s[8],
        s[9],
        s[10],
        s[11],
        s[12],
        s[13],
        s[14],
        s[15],
        s[16],
        s[17],
        s[18],
        s[19],
        s[20],
        s[21],
        s[22],
        s[23],
        s[24],
        s[25],
        s[26],
        s[27],
        s[28],
        s[29],
        s[30],
        s[31],
    ];
    assert(a@ =~= s);
}

proof fn only_16(s: Seq<u8>)
    requires
        parse_16(s) is Ok,
    ensures
        s == parse_16(s)->Ok_0.0@ + parse_16(s)->Ok_0.1,
{
    only_bytes(s, 16);
    lemma_array16_exists(s.subrange(0, 16));
}

proof fn only_32(s: Seq<u8>)
    requires
        parse_32(s) is Ok,
    ensures
        s == parse_32(s)->Ok_0.0@ + parse_32(s)->Ok_0.1,
{
    only_bytes(s, 32);
    lemma_array32_exists(s.subrange(0, 32));
}

proof fn only_version(s: Seq<u8>)
    requires
        parse_version(s) is Ok,
    ensures
        s == version_bytes(parse_version(s)->Ok_0.0) + parse_version(s)->Ok_0.1,
{
    let (v, t) = parse_version(s)->Ok_0;
    only_u16(s);
    let s1 = parse_u16(s)->Ok_0.1;
    only_u16(s1);
    assert(be16(v.major) + (be16(v.minor) + t) =~= version_bytes(v) + t);
}

proof fn only_range(s: Seq<u8>)
    requires
        parse_version_range(s) is Ok,
    ensures
        s == range_bytes(parse_version_range(s)->Ok_0.0) + parse_version_range(s)->Ok_0.1,
        parse_version_range(s)->Ok_0.0.is_valid(),
{
    let (v, t) = parse_version_range(s)->Ok_0;
    only_version(s);
    let s1 = parse_version(s)->Ok_0.1;
    only_version(s1);
    assert(version_bytes(v.minimum) + (version_bytes(v.maximum) + t) =~= range_bytes(v) + t);
}

proof fn only_schema(s: Seq<u8>)
    requires
        parse_schema(s) is Ok,
    ensures
        s == schema_bytes(parse_schema(s)->Ok_0.0) + parse_schema(s)->Ok_0.1,
        parse_schema(s)->Ok_0.0.revision.0 != 0,
{
    let (v, t) = parse_schema(s)->Ok_0;
    only_16(s);
    let s1 = parse_16(s)->Ok_0.1;
    only_u32(s1);
    let s2 = parse_u32(s1)->Ok_0.1;
    only_32(s2);
    assert(v.id@ + (be32(v.revision.0) + (v.fingerprint@ + t)) =~= schema_bytes(v) + t);
}

proof fn only_words(s: Seq<u8>, n: nat)
    requires
        parse_words(s, n) is Ok,
    ensures
        s == words_bytes(parse_words(s, n)->Ok_0.0) + parse_words(s, n)->Ok_0.1,
        parse_words(s, n)->Ok_0.0.len() == n,
    decreases n,
{
    let (words, t) = parse_words(s, n)->Ok_0;
    if n == 0 {
        assert(words_bytes(words) + t =~= t);
    } else {
        only_words(s, (n - 1) as nat);
        let (head, s1) = parse_words(s, (n - 1) as nat)->Ok_0;
        only_u64(s1);
        assert(words.drop_last() =~= head);
        assert(words_bytes(head) + (be64(words.last()) + t) =~= words_bytes(words) + t);
    }
}

proof fn only_capabilities(s: Seq<u8>)
    requires
        parse_capabilities(s) is Ok,
    ensures
        s == capability_bytes(parse_capabilities(s)->Ok_0.0) + parse_capabilities(s)->Ok_0.1,
        parse_capabilities(s)->Ok_0.0.words.len() <= MAX_PROTOCOL_CAPABILITY_WORDS,
{
    let (v, t) = parse_capabilities(s)->Ok_0;
    only_16(s);
    let s1 = parse_16(s)->Ok_0.1;
    only_u8(s1);
    let (n, s2) = parse_u8(s1)->Ok_0;
    only_words(s2, n as nat);
    assert(v.protocol_id@ + (seq![n] + (words_bytes(v.words) + t)) =~= capability_bytes(v) + t);
}

proof fn only_text(s: Seq<u8>)
    requires
        parse_text(s) is Ok,
    ensures
        s == text_bytes(parse_text(s)->Ok_0.0) + parse_text(s)->Ok_0.1,
        text_fits(parse_text(s)->Ok_0.0),
{
    let (text, t) = parse_text(s)->Ok_0;
    only_u16(s);
    let (n, s1) = parse_u16(s)->Ok_0;
    only_bytes(s1, n as int);
    let b = s1.subrange(0, n as int);
    decode_utf8_encode_utf8(b);
    assert(be16(n) + (b + t) =~= text_bytes(text) + t);
}

proof fn only_debug_identity(s: Seq<u8>)
    requires
        parse_debug_identity(s) is Ok,
    ensures
        s == debug_identity_bytes(parse_debug_identity(s)->Ok_0.0) + parse_debug_identity(s)->Ok_0.1,
        debug_identity_fits(parse_debug_identity(s)->Ok_0.0),
{
    let (v, t) = parse_debug_identity(s)->Ok_0;
    only_u8(s);
    let s1 = parse_u8(s)->Ok_0.1;
    if let Some(i) = v {
        only_text(s1);
        let s2 = parse_text(s1)->Ok_0.1;
        only_text(s2);
        assert(seq![1u8] + (text_bytes(i.authority) + (text_bytes(i.name) + t)) =~= debug_identity_bytes(v)
            + t);
    }
}

proof fn only_offer(earlier: Seq<OfferView>, s: Seq<u8>)
    requires
        parse_offer(earlier, s) is Ok,
    ensures
        s == offer_bytes(parse_offer(earlier, s)->Ok_0.0) + parse_offer(earlier, s)->Ok_0.1,
        offer_fault(earlier, parse_offer(earlier, s)->Ok_0.0) is None,
{
    let (v, t) = parse_offer(earlier, s)->Ok_0;
    only_16(s);
    let s1 = parse_16(s)->Ok_0.1;
    only_debug_identity(s1);
    let s2 = parse_debug_identity(s1)->Ok_0.1;
    only_range(s2);
    let s3 = parse_version_range(s2)->Ok_0.1;
    only_schema(s3);
    let s4 = parse_schema(s3)->Ok_0.1;
    only_capabilities(s4);
    lemma_split_5(
        v.stable_id@,
        debug_identity_bytes(v.debug_identity),
        range_bytes(v.versions),
        schema_bytes(v.schema),
        capability_bytes(v.capabilities),
        t,
    );
}

proof fn lemma_split_5(a: Seq<u8>, b: Seq<u8>, c: Seq<u8>, d: Seq<u8>, e: Seq<u8>, t: Seq<u8>)
    ensures
        a + b + c + d + e + t == a + (b + (c + (d + (e + t)))),
{
    assert(a + b + c + d + e + t =~= a + (b + (c + (d + (e + t)))));
}

proof fn only_offers(s: Seq<u8>, n: nat)
    requires
        parse_offers(s, n) is Ok,
    ensures
        s == offers_bytes(parse_offers(s, n)->Ok_0.0) + parse_offers(s, n)->Ok_0.1,
        parse_offers(s, n)->Ok_0.0.len() == n,
        offers_fault(parse_offers(s, n)->Ok_0.0) is None,
    decreases n,
{
    let (offers, t) = parse_offers(s, n)->Ok_0;
    if n == 0 {
        assert(offers_bytes(offers) + t =~= t);
    } else {
        only_offers(s, (n - 1) as nat);
        let (head, s1) = parse_offers(s, (n - 1) as nat)->Ok_0;
        only_offer(head, s1);
        assert(offers.drop_last() =~= head);
        assert(offers_bytes(head) + (offer_bytes(offers.last()) + t) =~= offers_bytes(offers) + t);
    }
}

proof fn only_selection(earlier: Seq<SelectionView>, s: Seq<u8>)
    requires
        parse_selection(earlier, s) is Ok,
    ensures
        s == selection_bytes(parse_selection(earlier, s)->Ok_0.0) + parse_selection(earlier, s)->Ok_0.1,
        selection_fault(earlier, parse_selection(earlier, s)->Ok_0.0) is None,
{
    let (v, t) = parse_selection(earlier, s)->Ok_0;
    only_16(s);
    let s1 = parse_16(s)->Ok_0.1;
    only_version(s1);
    let s2 = parse_version(s1)->Ok_0.1;
    only_schema(s2);
    let s3 = parse_schema(s2)->Ok_0.1;
    only_capabilities(s3);
    assert(v.stable_id@ + (version_bytes(v.version) + (schema_bytes(v.schema) + (capability_bytes(
        v.capabilities,
    ) + t))) =~= selection_bytes(v) + t);
}

proof fn only_selections(s: Seq<u8>, n: nat)
    requires
        parse_selections(s, n) is Ok,
    ensures
        s == selections_bytes(parse_selections(s, n)->Ok_0.0) + parse_selections(s, n)->Ok_0.1,
        parse_selections(s, n)->Ok_0.0.len() == n,
        selections_fault(parse_selections(s, n)->Ok_0.0) is None,
    decreases n,
{
    let (selections, t) = parse_selections(s, n)->Ok_0;
    if n == 0 {
        assert(selections_bytes(selections) + t =~= t);
    } else {
        only_selections(s, (n - 1) as nat);
        let (head, s1) = parse_selections(s, (n - 1) as nat)->Ok_0;
        only_selection(head, s1);
        assert(selections.drop_last() =~= head);
        assert(selections_bytes(head) + (selection_bytes(selections.last()) + t) =~= selections_bytes(
            selections,
        ) + t);
    }
}

proof fn only_hello(s: Seq<u8>)
    requires
        parse_hello(s) is Ok,
    ensures
        s == hello_bytes(parse_hello(s)->Ok_0.0) + parse_hello(s)->Ok_0.1,
        parse_hello(s)->Ok_0.0.link_versions.is_valid(),
{
    let (v, t) = parse_hello(s)->Ok_0;
    only_32(s);
    let a1 = parse_32(s)->Ok_0.1;
    only_16(a1);
    let a2 = parse_16(a1)->Ok_0.1;
    only_16(a2);
    let s1 = parse_16(a2)->Ok_0.1;
    only_range(s1);
    let s2 = parse_version_range(s1)->Ok_0.1;
    only_u64(s2);
    let s3 = parse_u64(s2)->Ok_0.1;
    only_u8(s3);
    assert(v.identity.peer_id@ + (v.identity.endpoint_id@ + (v.identity.connection_id@ + (range_bytes(
        v.link_versions,
    ) + (be64(v.link_capabilities.0) + (seq![auth_code(v.requested_auth)] + t))))) =~= hello_bytes(v) + t);
}

proof fn only_open(s: Seq<u8>)
    requires
        parse_open(s) is Ok,
    ensures
        s == open_bytes(parse_open(s)->Ok_0.0) + parse_open(s)->Ok_0.1,
{
    let (v, t) = parse_open(s)->Ok_0;
    only_16(s);
    let s1 = parse_16(s)->Ok_0.1;
    only_u16(s1);
    let s2 = parse_u16(s1)->Ok_0.1;
    only_u32(s2);
    let s3 = parse_u32(s2)->Ok_0.1;
    only_u32(s3);
    assert(v.protocol_id@ + (be16(v.protocol_channel_id.0) + (be32(v.requested_session_channel_id.0) + (
    be32(v.capacity) + t))) =~= open_bytes(v) + t);
}

proof fn only_accept(s: Seq<u8>)
    requires
        parse_accept(s) is Ok,
    ensures
        s == accept_bytes(parse_accept(s)->Ok_0.0) + parse_accept(s)->Ok_0.1,
{
    let (v, t) = parse_accept(s)->Ok_0;
    only_16(s);
    let s1 = parse_16(s)->Ok_0.1;
    only_u16(s1);
    let s2 = parse_u16(s1)->Ok_0.1;
    only_u32(s2);
    assert(v.protocol_id@ + (be16(v.protocol_channel_id.0) + (be32(v.session_channel_id.0) + t))
        =~= accept_bytes(v) + t);
}

proof fn only_error(s: Seq<u8>)
    requires
        parse_error(s) is Ok,
    ensures
        s == error_bytes(parse_error(s)->Ok_0.0) + parse_error(s)->Ok_0.1,
{
    let (v, t) = parse_error(s)->Ok_0;
    only_u8(s);
    let s1 = parse_u8(s)->Ok_0.1;
    only_u16(s1);
    let s2 = parse_u16(s1)->Ok_0.1;
    only_u16(s2);
    let (o, s3) = parse_u16(s2)->Ok_0;
    only_u8(s3);
    opcode_numbers_correspond(LinkControlOpcode::Ping, o);
    assert(seq![domain_code(v.domain)] + (be16(v.code.0) + (be16(operation_code(v.operation)) + (
    seq![retry_code(v.retryability)] + t))) =~= error_bytes(v) + t);
}

proof fn only_payload(opcode: LinkControlOpcode, s: Seq<u8>)
    requires
        parse_payload(opcode, s) is Ok,
    ensures
        s == payload_bytes(parse_payload(opcode, s)->Ok_0.0) + parse_payload(opcode, s)->Ok_0.1,
        payload_fault(parse_payload(opcode, s)->Ok_0.0) is None,
        parse_payload(opcode, s)->Ok_0.0.opcode() == opcode,
{
    let (v, t) = parse_payload(opcode, s)->Ok_0;
    match opcode {
        LinkControlOpcode::Hello => {
            only_hello(s);
        },
        LinkControlOpcode::ProtocolOffer => {
            only_u8(s);
            let (n, s1) = parse_u8(s)->Ok_0;
            only_offers(s1, n as nat);
            let offers = v->OfferProtocols_0;
            assert(seq![n] + (offers_bytes(offers) + t) =~= seq![n] + offers_bytes(offers) + t);
        },
        LinkControlOpcode::ProtocolSelect => {
            only_u8(s);
            let (n, s1) = parse_u8(s)->Ok_0;
            only_selections(s1, n as nat);
            let selections = v->SelectProtocols_0;
            assert(seq![n] + (selections_bytes(selections) + t) =~= seq![n] + selections_bytes(selections)
                + t);
        },
        LinkControlOpcode::OpenChannel => {
            only_open(s);
        },
        LinkControlOpcode::ChannelAccepted => {
            only_accept(s);
        },
        LinkControlOpcode::CloseChannel => {
            only_u32(s);
        },
        LinkControlOpcode::Ping => {
            only_u64(s);
        },
        LinkControlOpcode::Pong => {
            only_u64(s);
        },
        LinkControlOpcode::BeginDrain => {
            only_u32(s);
        },
        LinkControlOpcode::CloseSession => {
            only_u16(s);
        },
        LinkControlOpcode::Error => {
            only_error(s);
        },
    }
}

proof fn only_session(s: Seq<u8>)
    requires
        parse_session(s) is Ok,
    ensures
        s == session_bytes(parse_session(s)->Ok_0.0) + parse_session(s)->Ok_0.1,
{
    let (v, t) = parse_session(s)->Ok_0;
    only_u8(s);
    let s1 = parse_u8(s)->Ok_0.1;
    only_16(s1);
    match v {
        Some(id) => {
            assert(seq![1u8] + (id@ + t) =~= session_bytes(v) + t);
        },
        None => {
            assert(seq![0u8] + (zeros() + t) =~= session_bytes(v) + t);
        },
    }
}

proof fn only_body(opcode: LinkControlOpcode, s: Seq<u8>)
    requires
        parse_body(opcode, s) is Ok,
    ensures
        ({
            let payload = parse_body(opcode, s)->Ok_0;
            &&& s == be32(payload_bytes(payload).len() as u32) + payload_bytes(payload)
            &&& payload_fault(payload) is None
            &&& payload.opcode() == opcode
            &&& payload_bytes(payload).len() <= MAX_CONTROL_PAYLOAD_BYTES
        }),
{
    only_u32(s);
    let (n, body) = parse_u32(s)->Ok_0;
    only_payload(opcode, body);
    let (payload, rest) = parse_payload(opcode, body)->Ok_0;
    assert(payload_bytes(payload) + rest =~= payload_bytes(payload));
}

proof fn only_tail(opcode: LinkControlOpcode, s: Seq<u8>)
    requires
        parse_tail(opcode, s) is Ok,
    ensures
        s == tail_bytes(parse_tail(opcode, s)->Ok_0),
        parse_tail(opcode, s)->Ok_0.opcode == opcode,
        envelope_fault(ControlIdentityMode::TypedV1, parse_tail(opcode, s)->Ok_0) is None,
        known_flag_bits(parse_tail(opcode, s)->Ok_0.flags),
{
    only_u16(s);
    let s1 = parse_u16(s)->Ok_0.1;
    only_u64(s1);
    let s2 = parse_u64(s1)->Ok_0.1;
    only_session(s2);
    let s3 = parse_session(s2)->Ok_0.1;
    only_body(opcode, s3);
}

/// Every frame that is read is the one that writing what was read gives, so
/// no two frames mean the same.
pub proof fn control_frames_are_canonical(wire: Seq<u8>)
    requires
        parse_envelope(wire) is Ok,
    ensures
        envelope_fault(ControlIdentityMode::TypedV1, parse_envelope(wire)->Ok_0) is None,
        known_flag_bits(parse_envelope(wire)->Ok_0.flags),
        envelope_bytes(parse_envelope(wire)->Ok_0) == wire,
{
    let v = parse_envelope(wire)->Ok_0;
    only_u32(wire);
    let s1 = parse_u32(wire)->Ok_0.1;
    only_u16(s1);
    let s2 = parse_u16(s1)->Ok_0.1;
    only_u16(s2);
    let (code, s3) = parse_u16(s2)->Ok_0;
    opcode_numbers_correspond(LinkControlOpcode::Ping, code);
    only_tail(opcode_of(code)->Ok_0, s3);
    lemma_envelope_split(v);
}

} // verus!
