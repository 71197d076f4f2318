//! Connection contracts for a transport-neutral link layer.

use vstd::prelude::*;

pub mod app_endpoint;
pub mod arith;
pub mod attempt_log;
pub mod budget;
pub mod bytes;
pub mod channel;
pub mod channel_map;
pub mod control;
pub mod control_codec;
pub mod control_laws;
pub mod control_wire;
pub mod data;
pub mod datagram_receive;
pub mod defaults;
pub mod digest;
pub mod discovery;
pub mod error;
pub mod framing;
pub mod identity;
pub mod liveness;
pub mod local;
pub mod mdns;
pub mod memory_transport;
pub mod mux;
pub mod mux_fairness;
pub mod mux_laws;
pub mod mux_model;
pub mod negotiation;
pub mod ordering;
pub mod pairing;
pub mod pairing_limits;
pub mod pairing_session;
pub mod permits;
pub mod pool;
pub mod protocol;
pub mod protocol_ids;
pub mod protocol_laws;
pub mod quic;
pub mod realtime;
pub mod realtime_laws;
pub mod realtime_model;
pub mod realtime_order;
pub mod realtime_queue;
pub mod reconnect;
pub mod resume;
pub mod security;
pub mod selection;
pub mod session;
pub mod session_events;
pub mod sorted_map;
pub mod tcp;
pub mod text;
pub mod transport;
pub mod transport_error;
pub mod trust;
pub mod trust_table;
pub mod wire_places;

verus! {

/// Current wire protocol major version.
pub const LINK_PROTOCOL_VERSION: u16 = 1;

/// Oldest wire protocol major version accepted by this release.
pub const MIN_COMPATIBLE_LINK_PROTOCOL_VERSION: u16 = 1;

/// Reports whether a peer's major version is in this release's compatibility window.
#[must_use]
pub fn protocol_version_is_compatible(version: u16) -> (compatible: bool)
    ensures
        compatible == (MIN_COMPATIBLE_LINK_PROTOCOL_VERSION <= version <= LINK_PROTOCOL_VERSION),
{
    version >= MIN_COMPATIBLE_LINK_PROTOCOL_VERSION && version <= LINK_PROTOCOL_VERSION
}

} // verus!
