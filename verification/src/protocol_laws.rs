//! What holds of registered and negotiated protocols as a whole.

use vstd::prelude::*;
use vstd::utf8::encode_utf8;
use crate::channel::ChannelMode;
use crate::identity::ProtocolVersion;
use crate::negotiation::{OfferView, SelectionView};
use crate::protocol::{
    ActiveView, ChannelDefView, ChannelOpenRequest, DescriptorView, FrozenView, ProtocolRegistryErrorKind,
    ProtocolRegistryLimits, RegistryView, channel_with_id, first_settled, frame_fault, is_last_dot,
    is_protocol_text, last_dot, offer_of, request_fault, settled, spelled_identity,
};
use crate::protocol_ids::{ProtocolChannelId, protocol_identity};
use crate::text::{is_dotted_text, is_name_text, name_char};

verus! {

/// Whether a descriptor and an offer speak of one protocol, of one schema and of the
/// capabilities of one protocol, and name a minor version of one major version in common.
pub open spec fn match_up(d: DescriptorView, offer: OfferView) -> bool {
    &&& d.stable_id == offer.stable_id
    &&& d.schema == offer.schema
    &&& d.capabilities.protocol_id == offer.capabilities.protocol_id
    &&& d.versions.minimum.major == d.versions.maximum.major
    &&& offer.versions.minimum.major == offer.versions.maximum.major
    &&& d.versions.minimum.major == offer.versions.minimum.major
    &&& d.versions.minimum.minor <= d.versions.maximum.minor
    &&& offer.versions.minimum.minor <= offer.versions.maximum.minor
    &&& d.versions.minimum.minor <= offer.versions.maximum.minor
    &&& offer.versions.minimum.minor <= d.versions.maximum.minor
}

/// Whether a selection is of the protocol of a descriptor and of an offer, and its version
/// lies in both ranges.
pub open spec fn lies_in_both(d: DescriptorView, offer: OfferView, s: SelectionView) -> bool {
    &&& s.stable_id == d.stable_id
    &&& s.stable_id == offer.stable_id
    &&& s.schema == d.schema
    &&& s.schema == offer.schema
    &&& s.version.major == d.versions.minimum.major
    &&& s.version.major == offer.versions.minimum.major
    &&& d.versions.minimum.minor <= s.version.minor <= d.versions.maximum.minor
    &&& offer.versions.minimum.minor <= s.version.minor <= offer.versions.maximum.minor
}

/// A descriptor settles with an offer exactly where they match, on a version that lies in
/// both ranges; no version that lies in both is greater.
pub proof fn the_greatest_common_version_is_settled_on(
    d: DescriptorView,
    offer: OfferView,
    other: ProtocolVersion,
)
    ensures
        settled(d, offer) is Some <==> match_up(d, offer),
        settled(d, offer) is Some ==> {
            let s = settled(d, offer)->0;
            &&& lies_in_both(d, offer, s)
            &&& lies_in_both(d, offer, SelectionView { version: other, ..s }) ==> other.major
                == s.version.major && other.minor <= s.version.minor
        },
{
}

/// A capability is settled on exactly where the protocol has it and the offer names it.
pub proof fn settled_capabilities_are_held_by_both(d: DescriptorView, offer: OfferView, i: int, bit: u64)
    requires
        settled(d, offer) is Some,
        bit < 64,
    ensures
        ({
            let s = settled(d, offer)->0;
            let here = if 0 <= i < s.capabilities.words.len() {
                s.capabilities.words[i]
            } else {
                0
            };
            let ours = if 0 <= i < d.capabilities.words.len() {
                d.capabilities.words[i]
            } else {
                0
            };
            let theirs = if 0 <= i < offer.capabilities.words.len() {
                offer.capabilities.words[i]
            } else {
                0
            };
            &&& s.capabilities.protocol_id == d.capabilities.protocol_id
            &&& (here >> bit) & 1 == 1 <==> (ours >> bit) & 1 == 1 && (theirs >> bit) & 1 == 1
        }),
{
    let ours = d.capabilities.word(i);
    let theirs = offer.capabilities.word(i);
    let both = ours & theirs;
    assert((both >> bit) & 1 == 1 <==> (ours >> bit) & 1 == 1 && (theirs >> bit) & 1 == 1)
        by (bit_vector)
        requires
            both == ours & theirs,
            bit < 64,
    ;
    assert(ours & 0 == 0 && 0 & theirs == 0) by (bit_vector);
}

/// The place of the first offer that a descriptor settles with.
proof fn lemma_first_settled(d: DescriptorView, remote: Seq<OfferView>) -> (j: int)
    ensures
        match first_settled(d, remote) {
            Some(s) => {
                &&& 0 <= j < remote.len()
                &&& settled(d, remote[j]) == Some(s)
                &&& forall|i: int| 0 <= i < j ==> settled(d, #[trigger] remote[i]) is None
            },
            None => forall|i: int|
                0 <= i < remote.len() ==> settled(d, #[trigger] remote[i]) is None,
        },
    decreases remote.len(),
{
    if remote.len() == 0 {
        0
    } else if settled(d, remote[0]) is Some {
        0
    } else {
        let rest = remote.drop_first();
        let j = lemma_first_settled(d, rest);
        assert forall|i: int|
            0 <= i < remote.len() && (first_settled(d, remote) is Some ==> i < j + 1) implies settled(
            d,
            #[trigger] remote[i],
        ) is None by {
            if i > 0 {
                assert(rest[i - 1] == remote[i]);
            }
        }
        j + 1
    }
}

/// Every selection that is negotiated comes of a registered protocol and of an offer that
/// match; its version lies in both ranges, and no version that lies in both is greater.
pub proof fn negotiated_versions_are_the_greatest_in_common(
    registry: FrozenView,
    ids: Seq<Seq<u8>>,
    remote: Seq<OfferView>,
    n: int,
) -> (places: (int, int))
    requires
        0 <= n < registry.negotiated(ids, remote).len(),
    ensures
        ({
            let (k, j) = places;
            let d = registry.descriptors[ids[k]];
            let s = registry.negotiated(ids, remote)[n];
            &&& 0 <= k < ids.len()
            &&& 0 <= j < remote.len()
            &&& match_up(d, remote[j])
            &&& lies_in_both(d, remote[j], s)
            &&& s.version.minor == d.versions.maximum.minor || s.version.minor
                == remote[j].versions.maximum.minor
        }),
    decreases ids.len(),
{
    if ids.len() == 0 {
        (0, 0)
    } else {
        let front = registry.negotiated(ids.drop_last(), remote);
        let d = registry.descriptors[ids.last()];
        if n < front.len() {
            let (k, j) = negotiated_versions_are_the_greatest_in_common(
                registry,
                ids.drop_last(),
                remote,
                n,
            );
            assert(ids.drop_last()[k] == ids[k]);
            (k, j)
        } else {
            let j = lemma_first_settled(d, remote);
            (ids.len() - 1, j)
        }
    }
}

/// A registered protocol that matches an offer is negotiated, with the first offer that it
/// matches; the selections stand in the order of the protocols.
pub proof fn matching_protocols_are_negotiated(
    registry: FrozenView,
    ids: Seq<Seq<u8>>,
    remote: Seq<OfferView>,
    k: int,
    j: int,
) -> (n: int)
    requires
        0 <= k < ids.len(),
        0 <= j < remote.len(),
        match_up(registry.descriptors[ids[k]], remote[j]),
        forall|i: int|
            0 <= i < j ==> !match_up(registry.descriptors[ids[k]], #[trigger] remote[i]),
    ensures
        0 <= n < registry.negotiated(ids, remote).len(),
        lies_in_both(registry.descriptors[ids[k]], remote[j], registry.negotiated(ids, remote)[n]),
        n <= k,
    decreases ids.len(),
{
    let d = registry.descriptors[ids[k]];
    let front = registry.negotiated(ids.drop_last(), remote);
    lemma_at_most_one_each(registry, ids.drop_last(), remote);
    if k == ids.len() - 1 {
        let first = lemma_first_settled(d, remote);
        assert(settled(d, remote[j]) is Some);
        if first < j {
            assert(!match_up(d, remote[first]));
        }
        assert(first == j);
        front.len() as int
    } else {
        let n = matching_protocols_are_negotiated(registry, ids.drop_last(), remote, k, j);
        assert(registry.negotiated(ids, remote)[n] == front[n]);
        n
    }
}

proof fn lemma_at_most_one_each(registry: FrozenView, ids: Seq<Seq<u8>>, remote: Seq<OfferView>)
    ensures
        registry.negotiated(ids, remote).len() <= ids.len(),
    decreases ids.len(),
{
    if ids.len() > 0 {
        lemma_at_most_one_each(registry, ids.drop_last(), remote);
    }
}

/// What is offered of a protocol is what was registered of it.
pub proof fn offers_say_what_was_registered(d: DescriptorView)
    ensures
        offer_of(d).stable_id == d.stable_id,
        offer_of(d).versions == d.versions,
        offer_of(d).schema == d.schema,
        offer_of(d).capabilities == d.capabilities,
        offer_of(d).debug_identity == d.debug_identity,
{
}

/// Two sides that registered the same protocol settle on its greatest version.
pub proof fn the_same_descriptor_settles_on_its_maximum(d: DescriptorView)
    requires
        d.versions.minimum.major == d.versions.maximum.major,
        d.versions.minimum.minor <= d.versions.maximum.minor,
    ensures
        settled(d, offer_of(d)) matches Some(s) && s.version == d.versions.maximum && s.stable_id
            == d.stable_id && s.schema == d.schema,
{
}

/// A selection is activated exactly where its protocol is registered with its schema, its
/// version lies in the registered range, and it names no capability that the protocol
/// lacks.
pub proof fn fitting_selections_are_activated(registry: FrozenView, s: SelectionView)
    requires
        registry.descriptors.contains_key(s.stable_id@),
        registry.descriptors[s.stable_id@].versions.minimum.major
            == registry.descriptors[s.stable_id@].versions.maximum.major,
    ensures
        ({
            let d = registry.descriptors[s.stable_id@];
            let fault = registry.selection_fault(s);
            let lacks = s.capabilities.protocol_id != d.capabilities.protocol_id || exists|i: int|
                0 <= i < s.capabilities.words.len() && #[trigger] s.capabilities.words[i] & !(if i
                    < d.capabilities.words.len() {
                    d.capabilities.words[i]
                } else {
                    0
                }) != 0;
            let within = s.version.major == d.versions.minimum.major && d.versions.minimum.minor
                <= s.version.minor <= d.versions.maximum.minor;
            &&& s.schema != d.schema ==> fault == Some(ProtocolRegistryErrorKind::SchemaConflict)
            &&& s.schema == d.schema && !within ==> fault == Some(
                ProtocolRegistryErrorKind::VersionNotSupported,
            )
            &&& s.schema == d.schema && within && lacks ==> fault == Some(
                ProtocolRegistryErrorKind::InvalidCapabilities,
            )
            &&& s.schema == d.schema && within && !lacks ==> fault is None
        }),
{
    let d = registry.descriptors[s.stable_id@];
    assert forall|i: int| 0 <= i < s.capabilities.words.len() implies (if i
        < d.capabilities.words.len() {
        d.capabilities.words[i]
    } else {
        0
    }) == d.capabilities.word(i) by {}
}

/// A selection of a protocol that is not registered is refused.
pub proof fn unknown_selections_are_refused(registry: FrozenView, s: SelectionView)
    requires
        !registry.descriptors.contains_key(s.stable_id@),
    ensures
        registry.selection_fault(s) == Some(ProtocolRegistryErrorKind::UnknownProtocol),
{
}

/// Selections are refused as soon as one of them is, for what the first of those is refused
/// for; where none is, none of them are.
pub proof fn the_first_refused_selection_decides(
    registry: FrozenView,
    selections: Seq<SelectionView>,
    k: int,
)
    ensures
        0 <= k < selections.len() && registry.selection_fault(selections[k]) is Some && (forall|i: int|
            0 <= i < k ==> registry.selection_fault(#[trigger] selections[i]) is None)
            ==> registry.selections_fault(selections) == registry.selection_fault(selections[k]),
        (forall|i: int|
            0 <= i < selections.len() ==> registry.selection_fault(#[trigger] selections[i]) is None)
            ==> registry.selections_fault(selections) is None,
    decreases selections.len(),
{
    if selections.len() > 0 {
        let front = selections.drop_last();
        the_first_refused_selection_decides(registry, front, k);
        if k == selections.len() - 1 {
            assert((forall|i: int|
                0 <= i < k ==> registry.selection_fault(#[trigger] selections[i]) is None) ==> (forall|
                i: int,
            |
                0 <= i < front.len() ==> registry.selection_fault(#[trigger] front[i]) is None)) by {
                assert forall|i: int| 0 <= i < front.len() implies front[i] == selections[i] by {}
            }
        }
        assert forall|i: int| 0 <= i < front.len() implies #[trigger] front[i] == selections[i] by {}
    }
}

/// The protocols in use are those that some selection names, each in the version of the
/// last selection that names it, with the channels that were registered for it.
pub proof fn named_protocols_are_in_use(registry: FrozenView, selections: Seq<SelectionView>, k: int)
    requires
        0 <= k < selections.len(),
        forall|i: int|
            k < i < selections.len() ==> (#[trigger] selections[i]).stable_id@
                != selections[k].stable_id@,
    ensures
        ({
            let id = selections[k].stable_id@;
            let active = registry.activated(selections);
            &&& active.contains_key(id)
            &&& active[id].version == selections[k].version
            &&& active[id].channels == registry.descriptors[id].channels
        }),
    decreases selections.len(),
{
    if k < selections.len() - 1 {
        let front = selections.drop_last();
        assert forall|i: int| k < i < front.len() implies (#[trigger] front[i]).stable_id@
            != front[k].stable_id@ by {
            assert(front[i] == selections[i]);
        }
        named_protocols_are_in_use(registry, front, k);
        assert(selections[selections.len() - 1].stable_id@ != selections[k].stable_id@);
    }
}

/// A protocol that no selection names is not in use.
pub proof fn unnamed_protocols_are_not_in_use(
    registry: FrozenView,
    selections: Seq<SelectionView>,
    id: Seq<u8>,
)
    requires
        forall|i: int| 0 <= i < selections.len() ==> (#[trigger] selections[i]).stable_id@ != id,
    ensures
        !registry.activated(selections).contains_key(id),
    decreases selections.len(),
{
    if selections.len() > 0 {
        let front = selections.drop_last();
        assert forall|i: int| 0 <= i < front.len() implies (#[trigger] front[i]).stable_id@ != id by {
            assert(front[i] == selections[i]);
        }
        unnamed_protocols_are_not_in_use(registry, front, id);
        assert(selections[selections.len() - 1].stable_id@ != id);
    }
}

/// A channel may be defined where its name, if it has one, is a short name, where it may
/// hold a frame of at least a byte, where it has a positive limit for a stream exactly if
/// it is one, and where only an event may be discarded.
pub proof fn channels_are_defined_within_their_mode(
    limits: ProtocolRegistryLimits,
    channel: ChannelDefView,
)
    ensures
        channel.max_frame_bytes == 0 || channel.max_in_flight_frames == 0 ==> !limits.admits_channel(channel),
        channel.mode == ChannelMode::Stream && channel.max_stream_bytes is None ==> !limits.admits_channel(
            channel,
        ),
        channel.mode != ChannelMode::Stream && channel.max_stream_bytes is Some ==> !limits.admits_channel(
            channel,
        ),
        channel.max_stream_bytes == Some(0u64) ==> !limits.admits_channel(channel),
        channel.discardable && channel.mode != ChannelMode::Event ==> !limits.admits_channel(channel),
        channel.debug_name matches Some(name) && (!is_name_text(name) || encode_utf8(name).len()
            > limits.max_channel_name_bytes) ==> !limits.admits_channel(channel),
        ({
            &&& channel.debug_name matches Some(name) ==> is_name_text(name) && encode_utf8(name).len()
                <= limits.max_channel_name_bytes
            &&& channel.max_frame_bytes >= 1
            &&& channel.max_in_flight_frames >= 1
            &&& if channel.mode == ChannelMode::Stream {
                channel.max_stream_bytes matches Some(n) && n >= 1
            } else {
                channel.max_stream_bytes is None
            }
            &&& channel.discardable ==> channel.mode == ChannelMode::Event
        }) ==> limits.admits_channel(channel),
{
}

/// Channels are accepted exactly where each may be defined and no two have one number.
pub proof fn distinct_admitted_channels_are_accepted(
    limits: ProtocolRegistryLimits,
    channels: Seq<ChannelDefView>,
)
    ensures
        limits.channels_fault(channels) is None <==> {
            &&& forall|i: int| 0 <= i < channels.len() ==> limits.admits_channel(#[trigger] channels[i])
            &&& forall|i: int, j: int|
                0 <= i < j < channels.len() ==> (#[trigger] channels[i]).id != (
                #[trigger] channels[j]).id
        },
        limits.channels_fault(channels) matches Some(fault) ==> fault
            == ProtocolRegistryErrorKind::InvalidChannel || fault
            == ProtocolRegistryErrorKind::DuplicateChannel,
    decreases channels.len(),
{
    if channels.len() > 0 {
        let front = channels.drop_last();
        let last = channels.last();
        distinct_admitted_channels_are_accepted(limits, front);
        assert(forall|i: int| 0 <= i < front.len() ==> #[trigger] front[i] == channels[i]);
        assert(last == channels[channels.len() - 1]);
        if limits.channels_fault(channels) is None {
            assert forall|i: int| 0 <= i < channels.len() implies limits.admits_channel(
                #[trigger] channels[i],
            ) by {
                if i < front.len() {
                    assert(limits.admits_channel(front[i]));
                }
            }
            assert forall|i: int, j: int| 0 <= i < j < channels.len() implies (
            #[trigger] channels[i]).id != (#[trigger] channels[j]).id by {
                assert(front[i] == channels[i]);
                if j < front.len() {
                    assert(front[j] == channels[j]);
                }
            }
        } else {
            if (forall|i: int| 0 <= i < channels.len() ==> limits.admits_channel(#[trigger] channels[i]))
                && (forall|i: int, j: int|
                0 <= i < j < channels.len() ==> (#[trigger] channels[i]).id != (
                #[trigger] channels[j]).id) {
                assert(limits.channels_fault(front) is None) by {
                    assert forall|i: int| 0 <= i < front.len() implies limits.admits_channel(
                        #[trigger] front[i],
                    ) by {
                        assert(limits.admits_channel(channels[i]));
                    }
                    assert forall|i: int, j: int| 0 <= i < j < front.len() implies (
                    #[trigger] front[i]).id != (#[trigger] front[j]).id by {
                        assert(channels[i].id != channels[j].id);
                    }
                }
                let i = choose|i: int| 0 <= i < front.len() && (#[trigger] front[i]).id == last.id;
                assert(limits.admits_channel(channels[channels.len() - 1]));
                assert(channels[i].id != channels[channels.len() - 1].id);
                assert(false);
            }
        }
    }
}

/// A protocol is registered where its descriptor is valid, its identity is new, and there
/// is room for it and its channels; then it is found under its identity, the others stay,
/// and its channels are counted. A known one is refused, as a conflict if its schema is
/// another.
pub proof fn new_protocols_are_registered(
    registry: RegistryView,
    d: DescriptorView,
    other: Seq<u8>,
)
    requires
        registry.wf(),
        registry.limits.descriptor_fault(d) is None,
    ensures
        registry.descriptors.contains_key(d.stable_id@) ==> registry.register_fault(d) == Some(
            if registry.descriptors[d.stable_id@].schema == d.schema {
                ProtocolRegistryErrorKind::DuplicateProtocol
            } else {
                ProtocolRegistryErrorKind::SchemaConflict
            },
        ),
        !registry.descriptors.contains_key(d.stable_id@) ==> (registry.register_fault(d) is None <==> {
            &&& registry.descriptors.dom().len() + 1 <= registry.limits.max_protocols
            &&& registry.total_channels + d.channels.len() <= registry.limits.max_total_channels
        }),
        registry.register_fault(d) is None ==> {
            let after = registry.with_descriptor(d);
            &&& after.descriptors.contains_key(d.stable_id@)
            &&& after.descriptors[d.stable_id@] == d
            &&& after.descriptors.dom().len() == registry.descriptors.dom().len() + 1
            &&& after.total_channels == registry.total_channels + d.channels.len()
            &&& after.limits == registry.limits
            &&& other != d.stable_id@ ==> after.descriptors.contains_key(other)
                == registry.descriptors.contains_key(other) && after.descriptors[other]
                == registry.descriptors[other]
        },
{
}

/// A descriptor is refused where its version range is empty or spans major versions, and
/// where it has no channel or too many.
pub proof fn faulty_descriptors_are_refused(limits: ProtocolRegistryLimits, d: DescriptorView)
    ensures
        d.versions.minimum.major != d.versions.maximum.major ==> limits.descriptor_fault(d) is Some,
        d.versions.minimum.minor > d.versions.maximum.minor ==> limits.descriptor_fault(d) is Some,
        d.channels.len() == 0 || d.channels.len() > limits.max_channels_per_protocol
            ==> limits.descriptor_fault(d) is Some,
        d.debug_identity matches Some(spelling) && spelling.identity() != d.stable_id@
            ==> limits.descriptor_fault(d) is Some,
        limits.channels_fault(d.channels) is Some ==> limits.descriptor_fault(d) is Some,
        d.debug_identity is None && d.versions.minimum.major == d.versions.maximum.major
            && d.versions.minimum.minor <= d.versions.maximum.minor && 1 <= d.channels.len()
            <= limits.max_channels_per_protocol && limits.channels_fault(d.channels) is None
            ==> limits.descriptor_fault(d) is None,
{
}

/// A channel is found by its number, and it is the first with it; none is found only where
/// none has it.
pub proof fn channels_are_found_by_their_number(
    channels: Seq<ChannelDefView>,
    id: ProtocolChannelId,
    k: int,
)
    ensures
        channel_with_id(channels, id) matches Some(channel) ==> channel.id == id && channels.contains(
            channel,
        ),
        channel_with_id(channels, id) is None && 0 <= k < channels.len() ==> channels[k].id != id,
        0 <= k < channels.len() && channels[k].id == id && (forall|i: int|
            0 <= i < k ==> (#[trigger] channels[i]).id != id) ==> channel_with_id(channels, id) == Some(
            channels[k],
        ),
    decreases channels.len(),
{
    if channels.len() > 0 {
        if channels[0].id == id {
            assert(channels.contains(channels[0]));
        } else {
            let rest = channels.drop_first();
            channels_are_found_by_their_number(rest, id, k - 1);
            if 0 < k < channels.len() && (forall|i: int|
                0 <= i < k ==> (#[trigger] channels[i]).id != id) {
                assert forall|i: int| 0 <= i < k - 1 implies (#[trigger] rest[i]).id != id by {
                    assert(rest[i] == channels[i + 1]);
                }
            }
            if channel_with_id(rest, id) is Some {
                let found = channel_with_id(rest, id)->0;
                let i = rest.index_of(found);
                assert(channels[i + 1] == found);
            }
        }
    }
}

/// A channel is opened exactly where its protocol is in use, defines it, and allows for at
/// least as many frames as are asked for, which is at least one.
pub proof fn defined_channels_are_opened(
    active: Map<Seq<u8>, ActiveView>,
    request: ChannelOpenRequest,
    k: int,
)
    requires
        active.contains_key(request.protocol_id@),
        0 <= k < active[request.protocol_id@].channels.len(),
        active[request.protocol_id@].channels[k].id == request.protocol_channel_id,
        forall|i: int|
            0 <= i < k ==> (#[trigger] active[request.protocol_id@].channels[i]).id
                != request.protocol_channel_id,
    ensures
        1 <= request.capacity <= active[request.protocol_id@].channels[k].max_in_flight_frames
            ==> request_fault(active, request) is None,
        request.capacity == 0 || request.capacity
            > active[request.protocol_id@].channels[k].max_in_flight_frames ==> request_fault(
            active,
            request,
        ) == Some(ProtocolRegistryErrorKind::ChannelCapacityExceeded),
{
    channels_are_found_by_their_number(
        active[request.protocol_id@].channels,
        request.protocol_channel_id,
        k,
    );
}

/// A channel of a protocol that is not in use is not opened, nor is one that its protocol
/// does not define.
pub proof fn undefined_channels_are_not_opened(
    active: Map<Seq<u8>, ActiveView>,
    request: ChannelOpenRequest,
)
    ensures
        !active.contains_key(request.protocol_id@) ==> request_fault(active, request) == Some(
            ProtocolRegistryErrorKind::ProtocolNotNegotiated,
        ),
        active.contains_key(request.protocol_id@) && (forall|i: int|
            0 <= i < active[request.protocol_id@].channels.len() ==> (
            #[trigger] active[request.protocol_id@].channels[i]).id != request.protocol_channel_id)
            ==> request_fault(active, request) == Some(ProtocolRegistryErrorKind::ChannelNotDefined),
{
    let channels = active[request.protocol_id@].channels;
    let id = request.protocol_channel_id;
    channels_are_found_by_their_number(channels, id, 0);
    match channel_with_id(channels, id) {
        Some(channel) => {
            let i = channels.index_of(channel);
            assert(channels[i].id == id);
        },
        None => {},
    }
}

/// A frame keeps to its channel where it is no longer than the channel allows for, and,
/// where it belongs to a stream, the stream is no longer than the limit that the channel
/// has to have for that.
pub proof fn frames_keep_to_their_channel(
    max_frame_bytes: usize,
    max_stream_bytes: Option<u64>,
    frame_bytes: usize,
    stream_bytes: Option<u64>,
)
    ensures
        frame_bytes > max_frame_bytes ==> frame_fault(
            max_frame_bytes,
            max_stream_bytes,
            frame_bytes,
            stream_bytes,
        ) == Some(ProtocolRegistryErrorKind::FrameLimitExceeded),
        frame_bytes <= max_frame_bytes && stream_bytes is None ==> frame_fault(
            max_frame_bytes,
            max_stream_bytes,
            frame_bytes,
            stream_bytes,
        ) is None,
        frame_bytes <= max_frame_bytes ==> (stream_bytes matches Some(n) ==> (max_stream_bytes matches Some(
            top,
        ) && n <= top) == (frame_fault(max_frame_bytes, max_stream_bytes, frame_bytes, stream_bytes)
            is None)),
{
}

/// A spelling with a dot is that of the protocol whose authority stands before the last dot
/// and whose name after it.
pub proof fn the_last_dot_parts_the_name(authority: Seq<char>, name: Seq<char>)
    requires
        forall|i: int| 0 <= i < name.len() ==> #[trigger] name[i] != '.',
    ensures
        spelled_identity(authority.push('.') + name) == protocol_identity(authority, name),
{
    let text = authority.push('.') + name;
    let n = authority.len() as int;
    assert forall|j: int| n < j < text.len() implies #[trigger] text[j] != '.' by {
        assert(text[j] == name[j - n - 1]);
    }
    assert(is_last_dot(text, n));
    let found = last_dot(text);
    assert(is_last_dot(text, found));
    assert(text[found] == '.' && text[n] == '.');
    assert(found == n);
    assert(text.subrange(0, n) =~= authority);
    assert(text.subrange(n + 1, text.len() as int) =~= name);
}

/// A protocol is spelled with a dot in it and in 128 bytes at most.
pub proof fn protocol_spellings_have_a_dot(text: Seq<char>)
    ensures
        is_protocol_text(text) ==> text.contains('.') && encode_utf8(text).len() <= 128 && is_dotted_text(
            text,
        ),
        is_name_text(text) ==> !is_protocol_text(text),
        is_dotted_text(text) && text.contains('.') && encode_utf8(text).len() <= 128 ==> is_protocol_text(
            text,
        ),
{
    if is_name_text(text) && text.contains('.') {
        let i = text.index_of('.');
        assert(name_char(text[i]));
    }
}

} // verus!
