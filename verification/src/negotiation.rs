//! What two peers offer each other, and what they settle on.

use vstd::prelude::*;
use crate::control::{ControlIdentityMode, ControlModeGuard};
use crate::identity::{Identity, ProtocolVersion, SessionId, VersionRange};
use crate::protocol_ids::{
    CapabilityView, DebugIdentityView, LinkCapabilities, ProtocolCapabilitySet, ProtocolDebugIdentity,
    ProtocolStableId, SchemaRef,
};

verus! {

/// How a peer asks to be authenticated.
#[derive(Clone, Copy, Debug, Eq, PartialEq, Structural)]
pub enum AuthPath {
    FirstPairing,
    TrustedReconnect,
}

/// A protocol that a peer is ready to speak.
#[derive(Clone, Debug, Eq, PartialEq)]
pub struct ProtocolOffer {
    pub stable_id: ProtocolStableId,
    pub debug_identity: Option<ProtocolDebugIdentity>,
    pub versions: VersionRange,
    pub schema: SchemaRef,
    pub capabilities: ProtocolCapabilitySet,
}

/// What an offer says.
#[verifier::ext_equal]
pub struct OfferView {
    pub stable_id: ProtocolStableId,
    pub debug_identity: Option<DebugIdentityView>,
    pub versions: VersionRange,
    pub schema: SchemaRef,
    pub capabilities: CapabilityView,
}

/// What an optional spelling says.
pub open spec fn spelled(identity: Option<ProtocolDebugIdentity>) -> Option<DebugIdentityView> {
    match identity {
        Some(i) => Some(i@),
        None => None,
    }
}

impl View for ProtocolOffer {
    type V = OfferView;

    open spec fn view(&self) -> OfferView {
        OfferView {
            stable_id: self.stable_id,
            debug_identity: spelled(self.debug_identity),
            versions: self.versions,
            schema: self.schema,
            capabilities: self.capabilities@,
        }
    }
}

/// A protocol that both peers settled on.
#[derive(Clone, Debug, Eq, PartialEq)]
pub struct ProtocolSelection {
    pub stable_id: ProtocolStableId,
    pub version: ProtocolVersion,
    pub schema: SchemaRef,
    pub capabilities: ProtocolCapabilitySet,
}

/// What a selection says.
#[verifier::ext_equal]
pub struct SelectionView {
    pub stable_id: ProtocolStableId,
    pub version: ProtocolVersion,
    pub schema: SchemaRef,
    pub capabilities: CapabilityView,
}

impl View for ProtocolSelection {
    type V = SelectionView;

    open spec fn view(&self) -> SelectionView {
        SelectionView {
            stable_id: self.stable_id,
            version: self.version,
            schema: self.schema,
            capabilities: self.capabilities@,
        }
    }
}

/// What each offer of a row says.
pub open spec fn offer_views(offers: Seq<ProtocolOffer>) -> Seq<OfferView> {
    offers.map_values(|o: ProtocolOffer| o@)
}

/// What each selection of a row says.
pub open spec fn selection_views(selections: Seq<ProtocolSelection>) -> Seq<SelectionView> {
    selections.map_values(|s: ProtocolSelection| s@)
}

/// The outcome of a handshake.
#[derive(Clone, Debug, Eq, PartialEq)]
pub struct NegotiatedSession {
    pub session_id: SessionId,
    pub local: Identity,
    pub remote: Identity,
    pub link_version: ProtocolVersion,
    pub link_capabilities: LinkCapabilities,
    pub protocols: Vec<ProtocolSelection>,
    pub auth_path: AuthPath,
}

impl NegotiatedSession {
    /// The control frames that the shared capabilities admit.
    pub fn control_mode_guard(&self) -> (guard: ControlModeGuard)
        ensures
            guard.mode == ControlIdentityMode::negotiate(self.link_capabilities),
    {
        ControlModeGuard::new(ControlIdentityMode::negotiate(self.link_capabilities))
    }
}

} // verus!
