//! The pairing ceremony, as one side of it sees it.

use std::collections::VecDeque;
use vstd::prelude::*;
use crate::bytes::bytes_equal;
use crate::digest::{sha256, sha256_digest};
use crate::identity::ProtocolVersion;
use crate::pairing::{
    ConfirmationView, IdentityView, LongTermIdentity, PairingConfirmation, PairingCrypto, PairingError,
    PairingErrorKind, PairingEvent, PairingEventView, PairingId, PairingMethod, PairingOffer,
    PairingOfferView, PairingPresentation, PairingResponse, PairingResponseView, PairingRole, PairingState,
    PairingTermination, PairingTerminationReason, code_of, present, presented, short_code, start_fault,
    transcript, transcript_hash, validate_identity, validate_new,
};
use crate::text::{is_empty_text, text_equal};
use crate::trust::{KeyState, PermissionSet, TrustRecord};

verus! {

/// One side of a pairing ceremony.
#[derive(Debug)]
pub struct PairingSession {
    role: PairingRole,
    state: PairingState,
    local: LongTermIdentity,
    remote: Option<LongTermIdentity>,
    pairing_id: PairingId,
    protocol_version: ProtocolVersion,
    challenge: [u8; 32],
    method: PairingMethod,
    expires_at_unix_ms: u64,
    transcript_hash: Option<[u8; 32]>,
    short_code: Option<String>,
    local_confirmed: bool,
    remote_confirmed: bool,
    events: VecDeque<PairingEvent>,
    event_capacity: usize,
    dropped_events: u64,
}

/// What a side of the ceremony knows.
#[verifier::ext_equal]
pub struct PairingView {
    pub role: PairingRole,
    pub state: PairingState,
    pub local: IdentityView,
    pub remote: Option<IdentityView>,
    pub pairing_id: Seq<u8>,
    pub protocol_version: ProtocolVersion,
    pub challenge: Seq<u8>,
    pub method: PairingMethod,
    pub expires_at_unix_ms: u64,
    pub transcript_hash: Option<Seq<u8>>,
    pub short_code: Option<Seq<char>>,
    pub local_confirmed: bool,
    pub remote_confirmed: bool,
    pub events: Seq<PairingEventView>,
    pub event_capacity: usize,
    pub dropped_events: u64,
}

impl View for PairingSession {
    type V = PairingView;

    closed spec fn view(&self) -> PairingView {
        PairingView {
            role: self.role,
            state: self.state,
            local: self.local@,
            remote: match self.remote {
                Some(remote) => Some(remote@),
                None => None,
            },
            pairing_id: self.pairing_id@,
            protocol_version: self.protocol_version,
            challenge: self.challenge@,
            method: self.method,
            expires_at_unix_ms: self.expires_at_unix_ms,
            transcript_hash: match self.transcript_hash {
                Some(hash) => Some(hash@),
                None => None,
            },
            short_code: match self.short_code {
                Some(code) => Some(code@),
                None => None,
            },
            local_confirmed: self.local_confirmed,
            remote_confirmed: self.remote_confirmed,
            events: self.events@.map_values(|e: PairingEvent| e@),
            event_capacity: self.event_capacity,
            dropped_events: self.dropped_events,
        }
    }
}

#[verifier::allow_in_spec]
fn timed_out_error() -> PairingError
    returns
        PairingError::new(PairingErrorKind::TimedOut, "pairing session timed out"),
{
    PairingError::new(PairingErrorKind::TimedOut, "pairing session timed out")
}

impl PairingView {
    /// With one more event; the oldest leaves where there is no room.
    pub open spec fn with_event(self, event: PairingEventView) -> PairingView {
        if self.events.len() == self.event_capacity {
            PairingView {
                events: self.events.drop_first().push(event),
                dropped_events: if self.dropped_events == u64::MAX {
                    u64::MAX
                } else {
                    (self.dropped_events + 1) as u64
                },
                ..self
            }
        } else {
            PairingView { events: self.events.push(event), ..self }
        }
    }

    /// In another state, which is told.
    pub open spec fn in_state(self, state: PairingState) -> PairingView {
        PairingView { state, ..self }.with_event(PairingEventView::StateChanged(state))
    }

    /// Paired, which is told.
    pub open spec fn completed(self) -> PairingView {
        let paired = self.in_state(PairingState::Paired);
        match self.remote {
            Some(remote) => paired.with_event(PairingEventView::Completed(remote.peer_id)),
            None => paired,
        }
    }

    /// After a look at the clock that finds the time over.
    pub open spec fn timed_out(self) -> PairingView {
        if self.state.is_terminal() {
            self
        } else {
            self.in_state(PairingState::TimedOut)
        }
    }

    /// Whether the time is over.
    pub open spec fn is_late(self, now_unix_ms: u64) -> bool {
        now_unix_ms >= self.expires_at_unix_ms
    }

    /// The digest that both sides have to agree on.
    pub open spec fn agreed_hash(self, remote: IdentityView) -> Seq<u8> {
        let (initiator, responder) = match self.role {
            PairingRole::Initiator => (self.local, remote),
            PairingRole::Responder => (remote, self.local),
        };
        sha256(transcript(initiator, responder, self.protocol_version, self.challenge, self.method))
    }

    /// What a response makes of the session, and why it is refused.
    pub open spec fn response_step(self, response: PairingResponseView, now_unix_ms: u64) -> (
        PairingView,
        Option<PairingError>,
    ) {
        let expected = self.agreed_hash(response.responder);
        if self.is_late(now_unix_ms) {
            (
                self.timed_out(),
                Some(PairingError::new(PairingErrorKind::TimedOut, "pairing session timed out")),
            )
        } else if self.role != PairingRole::Initiator || self.state != PairingState::AwaitingResponse
            || response.pairing_id != self.pairing_id {
            (
                self.in_state(PairingState::Failed),
                Some(
                    PairingError::new(
                        PairingErrorKind::InvalidState,
                        "pairing response is not expected",
                    ),
                ),
            )
        } else if !response.responder.valid() {
            (
                self,
                Some(
                    PairingError::new(PairingErrorKind::InvalidInput, "long-term identity is invalid"),
                ),
            )
        } else if response.transcript_hash != expected || response.short_code != code_of(expected) {
            (
                self.in_state(PairingState::Failed),
                Some(
                    PairingError::new(
                        PairingErrorKind::TranscriptMismatch,
                        "pairing transcript does not match",
                    ),
                ),
            )
        } else {
            (
                PairingView {
                    remote: Some(response.responder),
                    transcript_hash: Some(expected),
                    short_code: Some(code_of(expected)),
                    ..self
                }.in_state(PairingState::AwaitingUserConfirmation).with_event(
                    PairingEventView::Present(presented(response.responder, code_of(expected))),
                ),
                None,
            )
        }
    }

    /// What the code that a user has seen makes of the session, and why it is
    /// refused.
    pub open spec fn code_step(self, displayed_code: Seq<char>, now_unix_ms: u64) -> (
        PairingView,
        Option<PairingError>,
    ) {
        if self.is_late(now_unix_ms) {
            (
                self.timed_out(),
                Some(PairingError::new(PairingErrorKind::TimedOut, "pairing session timed out")),
            )
        } else if self.state != PairingState::AwaitingUserConfirmation {
            (self, Some(PairingError::invalid_state()))
        } else if self.short_code != Some(displayed_code) {
            (
                self.in_state(PairingState::Failed),
                Some(
                    PairingError::new(
                        PairingErrorKind::CodeMismatch,
                        "pairing short code does not match",
                    ),
                ),
            )
        } else {
            (self, None)
        }
    }

    /// Confirmed by the local user.
    pub open spec fn confirmed(self) -> PairingView {
        let confirmed = PairingView { local_confirmed: true, ..self };
        if self.remote_confirmed {
            confirmed.completed()
        } else {
            confirmed.in_state(PairingState::AwaitingPeerConfirmation)
        }
    }

    /// What a confirmation makes of the session before its signature is looked at,
    /// and why it is refused.
    pub open spec fn confirmation_step(self, confirmation: ConfirmationView, now_unix_ms: u64) -> (
        PairingView,
        Option<PairingError>,
    ) {
        if self.is_late(now_unix_ms) {
            (
                self.timed_out(),
                Some(PairingError::new(PairingErrorKind::TimedOut, "pairing session timed out")),
            )
        } else if self.state != PairingState::AwaitingUserConfirmation && self.state
            != PairingState::AwaitingPeerConfirmation {
            (self, Some(PairingError::invalid_state()))
        } else if confirmation.pairing_id != self.pairing_id || confirmation.signer_peer_id
            != self.remote->0.peer_id || Some(confirmation.transcript_hash) != self.transcript_hash {
            (
                self.in_state(PairingState::Failed),
                Some(
                    PairingError::new(
                        PairingErrorKind::TranscriptMismatch,
                        "pairing confirmation does not match transcript",
                    ),
                ),
            )
        } else {
            (self, None)
        }
    }

    /// What a look at the signature makes of the session, and why it is refused.
    pub open spec fn proof_step(self, verified: bool) -> (PairingView, Option<PairingError>) {
        let confirmed = PairingView { remote_confirmed: true, ..self };
        if !verified {
            (
                self.in_state(PairingState::Failed),
                Some(
                    PairingError::new(
                        PairingErrorKind::IdentityProofRejected,
                        "pairing identity proof was rejected",
                    ),
                ),
            )
        } else if self.local_confirmed {
            (confirmed.completed(), None)
        } else {
            (confirmed, None)
        }
    }

    /// Whether the session is valid. What both sides have agreed on binds them, and
    /// nobody is paired before both have confirmed.
    pub open spec fn wf(self) -> bool {
        &&& 0 < self.event_capacity
        &&& self.events.len() <= self.event_capacity
        &&& match self.state {
            PairingState::AwaitingResponse => !self.local_confirmed && !self.remote_confirmed,
            PairingState::AwaitingUserConfirmation => self.agreed() && !self.local_confirmed,
            PairingState::AwaitingPeerConfirmation => self.agreed() && self.local_confirmed
                && !self.remote_confirmed,
            PairingState::Paired => self.agreed() && self.local_confirmed && self.remote_confirmed,
            _ => true,
        }
    }

    /// Whether both sides have the same transcript.
    pub open spec fn agreed(self) -> bool {
        &&& self.remote is Some
        &&& self.transcript_hash == Some(self.agreed_hash(self.remote->0))
        &&& self.short_code == Some(code_of(self.agreed_hash(self.remote->0)))
    }

    /// A session that has just begun.
    pub open spec fn begun(
        role: PairingRole,
        state: PairingState,
        local: IdentityView,
        remote: Option<IdentityView>,
        offer: PairingOfferView,
        transcript_hash: Option<Seq<u8>>,
        event_capacity: usize,
    ) -> PairingView {
        PairingView {
            role,
            state,
            local,
            remote,
            pairing_id: offer.pairing_id,
            protocol_version: offer.protocol_version,
            challenge: offer.challenge,
            method: offer.method,
            expires_at_unix_ms: offer.expires_at_unix_ms,
            transcript_hash,
            short_code: match transcript_hash {
                Some(hash) => Some(code_of(hash)),
                None => None,
            },
            local_confirmed: false,
            remote_confirmed: false,
            events: Seq::empty(),
            event_capacity,
            dropped_events: 0,
        }
    }
}

/// Why a response to an offer is not made.
pub open spec fn respond_fault(
    local: IdentityView,
    offer: PairingOfferView,
    now_unix_ms: u64,
    already_trusted: bool,
    event_capacity: usize,
) -> Option<PairingError> {
    if !local.valid() || !offer.initiator.valid() {
        Some(PairingError::new(PairingErrorKind::InvalidInput, "long-term identity is invalid"))
    } else {
        match start_fault(already_trusted, offer.expires_at_unix_ms, event_capacity) {
            Some(fault) => Some(fault),
            None => if now_unix_ms >= offer.expires_at_unix_ms {
                Some(PairingError::new(PairingErrorKind::TimedOut, "pairing offer expired"))
            } else {
                None
            },
        }
    }
}

impl PairingSession {
    /// Whether the session is valid.
    pub closed spec fn wf(&self) -> bool {
        self@.wf()
    }

    /// What is known of a valid session.
    pub proof fn lemma_wf(&self)
        requires
            self.wf(),
        ensures
            self@.wf(),
    {
    }

    /// Begins a ceremony.
    pub fn initiator(
        local: LongTermIdentity,
        pairing_id: PairingId,
        protocol_version: ProtocolVersion,
        challenge: [u8; 32],
        method: PairingMethod,
        expires_at_unix_ms: u64,
        already_trusted: bool,
        event_capacity: usize,
    ) -> (session: Result<Self, PairingError>)
        ensures
            match session {
                Ok(s) => {
                    &&& local@.valid()
                    &&& start_fault(already_trusted, expires_at_unix_ms, event_capacity) is None
                    &&& s.wf()
                    &&& s@ == PairingView::begun(
                        PairingRole::Initiator,
                        PairingState::AwaitingResponse,
                        local@,
                        None,
                        PairingOfferView {
                            pairing_id: pairing_id@,
                            initiator: local@,
                            protocol_version,
                            challenge: challenge@,
                            method,
                            expires_at_unix_ms,
                        },
                        None,
                        event_capacity,
                    )
                },
                Err(e) => if !local@.valid() {
                    e == PairingError::new(
                        PairingErrorKind::InvalidInput,
                        "long-term identity is invalid",
                    )
                } else {
                    start_fault(already_trusted, expires_at_unix_ms, event_capacity) == Some(e)
                },
            },
    {
        validate_identity(&local)?;
        validate_new(already_trusted, expires_at_unix_ms, event_capacity)?;
        let session = PairingSession {
            role: PairingRole::Initiator,
            state: PairingState::AwaitingResponse,
            local,
            remote: None,
            pairing_id,
            protocol_version,
            challenge,
            method,
            expires_at_unix_ms,
            transcript_hash: None,
            short_code: None,
            local_confirmed: false,
            remote_confirmed: false,
            events: VecDeque::new(),
            event_capacity,
            dropped_events: 0,
        };
        assert(session@.events =~= Seq::empty());
        Ok(session)
    }

    /// Answers an offer.
    pub fn responder(
        local: LongTermIdentity,
        offer: PairingOffer,
        now_unix_ms: u64,
        already_trusted: bool,
        event_capacity: usize,
    ) -> (answer: Result<(Self, PairingResponse), PairingError>)
        ensures
            match answer {
                Ok((s, response)) => {
                    let hash = sha256(
                        transcript(
                            offer@.initiator,
                            local@,
                            offer@.protocol_version,
                            offer@.challenge,
                            offer@.method,
                        ),
                    );
                    &&& respond_fault(local@, offer@, now_unix_ms, already_trusted, event_capacity)
                        is None
                    &&& s.wf()
                    &&& s@ == PairingView::begun(
                        PairingRole::Responder,
                        PairingState::AwaitingUserConfirmation,
                        local@,
                        Some(offer@.initiator),
                        offer@,
                        Some(hash),
                        event_capacity,
                    ).with_event(
                        PairingEventView::Present(presented(offer@.initiator, code_of(hash))),
                    )
                    &&& response@ == (PairingResponseView {
                        pairing_id: offer@.pairing_id,
                        responder: local@,
                        transcript_hash: hash,
                        short_code: code_of(hash),
                    })
                },
                Err(e) => respond_fault(local@, offer@, now_unix_ms, already_trusted, event_capacity)
                    == Some(e),
            },
    {
        validate_identity(&local)?;
        validate_identity(&offer.initiator)?;
        validate_new(already_trusted, offer.expires_at_unix_ms, event_capacity)?;
        if now_unix_ms >= offer.expires_at_unix_ms {
            return Err(PairingError::new(PairingErrorKind::TimedOut, "pairing offer expired"));
        }
        let hash = transcript_hash(
            &offer.initiator,
            &local,
            offer.protocol_version,
            &offer.challenge,
            offer.method,
        );
        let code = short_code(&hash);
        let response = PairingResponse {
            pairing_id: offer.pairing_id,
            responder: local.duplicate(),
            transcript_hash: hash,
            short_code: code.clone(),
        };
        let presentation = present(&offer.initiator, &code);
        let mut session = PairingSession {
            role: PairingRole::Responder,
            state: PairingState::AwaitingUserConfirmation,
            local,
            remote: Some(offer.initiator),
            pairing_id: offer.pairing_id,
            protocol_version: offer.protocol_version,
            challenge: offer.challenge,
            method: offer.method,
            expires_at_unix_ms: offer.expires_at_unix_ms,
            transcript_hash: Some(hash),
            short_code: Some(code),
            local_confirmed: false,
            remote_confirmed: false,
            events: VecDeque::new(),
            event_capacity,
            dropped_events: 0,
        };
        assert(session@.events =~= Seq::empty());
        session.emit(PairingEvent::Present(presentation));
        Ok((session, response))
    }

    pub fn role(&self) -> (role: PairingRole)
        ensures
            role == self@.role,
    {
        self.role
    }

    pub fn state(&self) -> (state: PairingState)
        ensures
            state == self@.state,
    {
        self.state
    }

    /// What is offered to the other side.
    pub fn offer(&self) -> (offer: Result<PairingOffer, PairingError>)
        ensures
            match offer {
                Ok(o) => {
                    &&& self@.role == PairingRole::Initiator
                    &&& self@.state == PairingState::AwaitingResponse
                    &&& o@ == (PairingOfferView {
                        pairing_id: self@.pairing_id,
                        initiator: self@.local,
                        protocol_version: self@.protocol_version,
                        challenge: self@.challenge,
                        method: self@.method,
                        expires_at_unix_ms: self@.expires_at_unix_ms,
                    })
                },
                Err(e) => {
                    &&& self@.role != PairingRole::Initiator || self@.state
                        != PairingState::AwaitingResponse
                    &&& e == PairingError::invalid_state()
                },
            },
    {
        if self.role != PairingRole::Initiator || self.state != PairingState::AwaitingResponse {
            return Err(PairingError::invalid_state());
        }
        Ok(
            PairingOffer {
                pairing_id: self.pairing_id,
                initiator: self.local.duplicate(),
                protocol_version: self.protocol_version,
                challenge: self.challenge,
                method: self.method,
                expires_at_unix_ms: self.expires_at_unix_ms,
            },
        )
    }

    /// Takes the response to the offer.
    pub fn receive_response(&mut self, response: PairingResponse, now_unix_ms: u64) -> (received: Result<
        (),
        PairingError,
    >)
        requires
            old(self).wf(),
        ensures
            final(self).wf(),
            ({
                let (after, fault) = old(self)@.response_step(response@, now_unix_ms);
                &&& final(self)@ == after
                &&& match fault {
                    None => received is Ok,
                    Some(e) => received == Err::<(), PairingError>(e),
                }
            }),
    {
        let ghost before = self@;
        self.check_time(now_unix_ms)?;
        if self.role != PairingRole::Initiator || self.state != PairingState::AwaitingResponse
            || !response.pairing_id.same(&self.pairing_id) {
            return Err(self.fail(PairingErrorKind::InvalidState, "pairing response is not expected"));
        }
        validate_identity(&response.responder)?;
        let expected = transcript_hash(
            &self.local,
            &response.responder,
            self.protocol_version,
            &self.challenge,
            self.method,
        );
        let code = short_code(&expected);
        if !bytes_equal(&response.transcript_hash, &expected) || !text_equal(
            response.short_code.as_str(),
            code.as_str(),
        ) {
            return Err(
                self.fail(PairingErrorKind::TranscriptMismatch, "pairing transcript does not match"),
            );
        }
        let presentation = present(&response.responder, &code);
        self.remote = Some(response.responder);
        self.transcript_hash = Some(expected);
        self.short_code = Some(response.short_code);
        self.set_state(PairingState::AwaitingUserConfirmation);
        self.emit(PairingEvent::Present(presentation));
        Ok(())
    }

    /// What the user is to compare.
    pub fn presentation(&self) -> (presentation: Result<PairingPresentation, PairingError>)
        ensures
            match (self@.remote, self@.short_code) {
                (Some(remote), Some(code)) => presentation matches Ok(p) && p@ == presented(remote, code),
                _ => presentation matches Err(e) && e == PairingError::invalid_state(),
            },
    {
        match (&self.remote, &self.short_code) {
            (Some(remote), Some(code)) => Ok(present(remote, code)),
            _ => Err(PairingError::invalid_state()),
        }
    }

    /// Takes the code that the user has seen and tells what is to be signed.
    pub fn accept_code(&mut self, displayed_code: &str, now_unix_ms: u64) -> (accepted: Result<
        [u8; 32],
        PairingError,
    >)
        requires
            old(self).wf(),
        ensures
            final(self).wf(),
            ({
                let (after, fault) = old(self)@.code_step(displayed_code@, now_unix_ms);
                &&& final(self)@ == after
                &&& match fault {
                    None => accepted matches Ok(hash) && Some(hash@) == old(self)@.transcript_hash,
                    Some(e) => accepted == Err::<[u8; 32], PairingError>(e),
                }
            }),
    {
        self.check_time(now_unix_ms)?;
        if self.state != PairingState::AwaitingUserConfirmation {
            return Err(PairingError::invalid_state());
        }
        let matches_code = match &self.short_code {
            Some(code) => text_equal(code.as_str(), displayed_code),
            None => false,
        };
        if !matches_code {
            return Err(
                self.fail(PairingErrorKind::CodeMismatch, "pairing short code does not match"),
            );
        }
        match self.transcript_hash {
            Some(hash) => Ok(hash),
            None => Err(PairingError::invalid_state()),
        }
    }

    /// Takes the signature of the local identity and makes the confirmation.
    pub fn finish_confirmation(&mut self, transcript_hash: [u8; 32], signature: Vec<u8>) -> (confirmation:
        PairingConfirmation)
        requires
            old(self).wf(),
            old(self)@.state == PairingState::AwaitingUserConfirmation,
        ensures
            final(self).wf(),
            final(self)@ == old(self)@.confirmed(),
            confirmation.transcript_hash == transcript_hash,
            confirmation.signature == signature,
            confirmation@ == (ConfirmationView {
                pairing_id: old(self)@.pairing_id,
                signer_peer_id: old(self)@.local.peer_id,
                transcript_hash: transcript_hash@,
                signature: signature@,
            }),
    {
        self.local_confirmed = true;
        if self.remote_confirmed {
            self.complete();
        } else {
            self.set_state(PairingState::AwaitingPeerConfirmation);
        }
        PairingConfirmation {
            pairing_id: self.pairing_id,
            signer_peer_id: self.local.peer_id,
            transcript_hash,
            signature,
        }
    }

    /// Confirms what the user has seen. The transcript is signed only after the
    /// code was found right.
    pub fn confirm<C: PairingCrypto>(
        &mut self,
        displayed_code: &str,
        crypto: &C,
        now_unix_ms: u64,
    ) -> (confirmation: Result<PairingConfirmation, PairingError>)
        requires
            old(self).wf(),
        ensures
            final(self).wf(),
            match old(self)@.code_step(displayed_code@, now_unix_ms) {
                (after, Some(fault)) => {
                    &&& final(self)@ == after
                    &&& confirmation == Err::<PairingConfirmation, PairingError>(fault)
                },
                (_, None) => match confirmation {
                    Ok(c) => {
                        &&& Some(c@.transcript_hash) == old(self)@.transcript_hash
                        &&& call_ensures(
                            C::sign_transcript,
                            (crypto, &c.transcript_hash),
                            Ok::<Vec<u8>, PairingError>(c.signature),
                        )
                        &&& c@.pairing_id == old(self)@.pairing_id
                        &&& c@.signer_peer_id == old(self)@.local.peer_id
                        &&& final(self)@ == old(self)@.confirmed()
                    },
                    Err(e) => {
                        &&& exists|hash: [u8; 32]|
                            Some(hash@) == old(self)@.transcript_hash && #[trigger] call_ensures(
                                C::sign_transcript,
                                (crypto, &hash),
                                Err::<Vec<u8>, PairingError>(e),
                            )
                        &&& final(self)@ == old(self)@
                    },
                },
            },
    {
        let hash = self.accept_code(displayed_code, now_unix_ms)?;
        match crypto.sign_transcript(&hash) {
            Ok(signature) => Ok(self.finish_confirmation(hash, signature)),
            Err(e) => {
                assert(call_ensures(
                    C::sign_transcript,
                    (crypto, &hash),
                    Err::<Vec<u8>, PairingError>(e),
                ));
                Err(e)
            },
        }
    }

    /// Whether a confirmation belongs to this ceremony, its signature aside.
    pub fn check_confirmation(&mut self, confirmation: &PairingConfirmation, now_unix_ms: u64) -> (checked:
        Result<(), PairingError>)
        requires
            old(self).wf(),
        ensures
            final(self).wf(),
            ({
                let (after, fault) = old(self)@.confirmation_step(confirmation@, now_unix_ms);
                &&& final(self)@ == after
                &&& match fault {
                    None => checked is Ok && *final(self) == *old(self),
                    Some(e) => checked == Err::<(), PairingError>(e),
                }
            }),
    {
        self.check_time(now_unix_ms)?;
        if self.state != PairingState::AwaitingUserConfirmation && self.state
            != PairingState::AwaitingPeerConfirmation {
            return Err(PairingError::invalid_state());
        }
        let belongs = match (&self.remote, &self.transcript_hash) {
            (Some(remote), Some(hash)) => confirmation.pairing_id.same(&self.pairing_id)
                && confirmation.signer_peer_id.same(&remote.peer_id) && bytes_equal(
                &confirmation.transcript_hash,
                hash,
            ),
            _ => false,
        };
        if !belongs {
            return Err(
                self.fail(
                    PairingErrorKind::TranscriptMismatch,
                    "pairing confirmation does not match transcript",
                ),
            );
        }
        Ok(())
    }

    /// Takes what became of the signature of the other side.
    pub fn accept_proof(&mut self, verified: bool) -> (accepted: Result<(), PairingError>)
        requires
            old(self).wf(),
            old(self)@.state == PairingState::AwaitingUserConfirmation || old(self)@.state
                == PairingState::AwaitingPeerConfirmation,
        ensures
            final(self).wf(),
            ({
                let (after, fault) = old(self)@.proof_step(verified);
                &&& final(self)@ == after
                &&& match fault {
                    None => accepted is Ok,
                    Some(e) => accepted == Err::<(), PairingError>(e),
                }
            }),
    {
        if !verified {
            return Err(
                self.fail(
                    PairingErrorKind::IdentityProofRejected,
                    "pairing identity proof was rejected",
                ),
            );
        }
        self.remote_confirmed = true;
        if self.local_confirmed {
            self.complete();
        }
        Ok(())
    }

    /// Takes the confirmation of the other side. The signature is looked at only
    /// where the confirmation belongs to this ceremony.
    pub fn receive_confirmation<C: PairingCrypto>(
        &mut self,
        confirmation: PairingConfirmation,
        crypto: &C,
        now_unix_ms: u64,
    ) -> (received: Result<(), PairingError>)
        requires
            old(self).wf(),
        ensures
            final(self).wf(),
            match old(self)@.confirmation_step(confirmation@, now_unix_ms) {
                (after, Some(fault)) => {
                    &&& final(self)@ == after
                    &&& received == Err::<(), PairingError>(fault)
                },
                (_, None) => exists|key: &[u8], hash: &[u8; 32], signature: &[u8], verified: bool|
                    {
                        &&& key@ == old(self)@.remote->0.public_key
                        &&& Some(hash@) == old(self)@.transcript_hash
                        &&& signature@ == confirmation@.signature
                        &&& #[trigger] call_ensures(
                            C::verify_transcript,
                            (crypto, key, hash, signature),
                            verified,
                        )
                        &&& final(self)@ == old(self)@.proof_step(verified).0
                        &&& match old(self)@.proof_step(verified).1 {
                            None => received is Ok,
                            Some(e) => received == Err::<(), PairingError>(e),
                        }
                    },
            },
    {
        self.check_confirmation(&confirmation, now_unix_ms)?;
        let verified = match (&self.remote, &self.transcript_hash) {
            (Some(remote), Some(hash)) => {
                let key = remote.public_key.as_slice();
                let signature = confirmation.signature.as_slice();
                let verified = crypto.verify_transcript(key, hash, signature);
                assert(call_ensures(
                    C::verify_transcript,
                    (crypto, key, hash, signature),
                    verified,
                ));
                verified
            },
            _ => {
                assert(false);
                false
            },
        };
        self.accept_proof(verified)
    }

    /// Ends the ceremony: the user does not want it.
    pub fn reject(&mut self) -> (termination: Result<PairingTermination, PairingError>)
        requires
            old(self).wf(),
        ensures
            final(self).wf(),
            match termination {
                Ok(t) => {
                    &&& !old(self)@.state.is_terminal()
                    &&& t.pairing_id@ == old(self)@.pairing_id
                    &&& t.reason == PairingTerminationReason::Rejected
                    &&& final(self)@ == old(self)@.in_state(PairingState::Rejected)
                },
                Err(e) => {
                    &&& old(self)@.state.is_terminal()
                    &&& e == PairingError::invalid_state()
                    &&& final(self)@ == old(self)@
                },
            },
    {
        self.ensure_nonterminal()?;
        self.set_state(PairingState::Rejected);
        Ok(
            PairingTermination {
                pairing_id: self.pairing_id,
                reason: PairingTerminationReason::Rejected,
            },
        )
    }

    /// Ends the ceremony: it is given up.
    pub fn cancel(&mut self) -> (termination: Result<PairingTermination, PairingError>)
        requires
            old(self).wf(),
        ensures
            final(self).wf(),
            match termination {
                Ok(t) => {
                    &&& !old(self)@.state.is_terminal()
                    &&& t.pairing_id@ == old(self)@.pairing_id
                    &&& t.reason == PairingTerminationReason::Cancelled
                    &&& final(self)@ == old(self)@.in_state(PairingState::Cancelled)
                },
                Err(e) => {
                    &&& old(self)@.state.is_terminal()
                    &&& e == PairingError::invalid_state()
                    &&& final(self)@ == old(self)@
                },
            },
    {
        self.ensure_nonterminal()?;
        self.set_state(PairingState::Cancelled);
        Ok(
            PairingTermination {
                pairing_id: self.pairing_id,
                reason: PairingTerminationReason::Cancelled,
            },
        )
    }

    /// Takes it that the other side has ended the ceremony.
    pub fn receive_termination(&mut self, termination: PairingTermination) -> (received: Result<
        (),
        PairingError,
    >)
        requires
            old(self).wf(),
        ensures
            final(self).wf(),
            if old(self)@.state.is_terminal() {
                &&& received == Err::<(), PairingError>(PairingError::invalid_state())
                &&& final(self)@ == old(self)@
            } else if termination.pairing_id@ != old(self)@.pairing_id {
                &&& received == Err::<(), PairingError>(
                    PairingError::new(
                        PairingErrorKind::TranscriptMismatch,
                        "pairing termination does not match session",
                    ),
                )
                &&& final(self)@ == old(self)@.in_state(PairingState::Failed)
            } else {
                &&& received is Ok
                &&& final(self)@ == old(self)@.in_state(
                    match termination.reason {
                        PairingTerminationReason::Rejected => PairingState::Rejected,
                        PairingTerminationReason::Cancelled => PairingState::Cancelled,
                    },
                )
            },
    {
        self.ensure_nonterminal()?;
        if !termination.pairing_id.same(&self.pairing_id) {
            return Err(
                self.fail(
                    PairingErrorKind::TranscriptMismatch,
                    "pairing termination does not match session",
                ),
            );
        }
        let state = match termination.reason {
            PairingTerminationReason::Rejected => PairingState::Rejected,
            PairingTerminationReason::Cancelled => PairingState::Cancelled,
        };
        self.set_state(state);
        Ok(())
    }

    /// Looks at the clock.
    pub fn tick(&mut self, now_unix_ms: u64) -> (in_time: Result<(), PairingError>)
        requires
            old(self).wf(),
        ensures
            final(self).wf(),
            if old(self)@.is_late(now_unix_ms) {
                &&& in_time == Err::<(), PairingError>(
                    PairingError::new(PairingErrorKind::TimedOut, "pairing session timed out"),
                )
                &&& final(self)@ == old(self)@.timed_out()
            } else {
                in_time is Ok && final(self)@ == old(self)@
            },
    {
        self.check_time(now_unix_ms)
    }

    /// The record of the other side once it is paired.
    pub fn trust_record(&self, alias: String, permissions: PermissionSet, now_unix_ms: u64) -> (record:
        Result<TrustRecord, PairingError>)
        requires
            self.wf(),
        ensures
            match record {
                Ok(r) => {
                    &&& self@.state == PairingState::Paired
                    &&& alias@.len() > 0
                    &&& r@.peer_id == self@.remote->0.peer_id
                    &&& r@.public_key == self@.remote->0.public_key
                    &&& r@.alias == alias@
                    &&& r@.first_paired_at_unix_ms == now_unix_ms
                    &&& r@.permissions == permissions@
                    &&& r@.key_state == KeyState::Active
                    &&& r@.last_pairing_challenge_hash == sha256(self@.challenge)
                    &&& r@.previous_key_fingerprints.len() == 0
                },
                Err(e) => {
                    &&& self@.state != PairingState::Paired || alias@.len() == 0
                    &&& e == PairingError::invalid_state()
                },
            },
    {
        if self.state != PairingState::Paired || is_empty_text(alias.as_str()) {
            return Err(PairingError::invalid_state());
        }
        match &self.remote {
            None => Err(PairingError::invalid_state()),
            Some(remote) => {
                let public_key = remote.public_key.clone();
                assert(public_key@ =~= remote.public_key@);
                Ok(
                    TrustRecord {
                        peer_id: remote.peer_id,
                        public_key,
                        alias,
                        first_paired_at_unix_ms: now_unix_ms,
                        permissions,
                        key_state: KeyState::Active,
                        last_pairing_challenge_hash: sha256_digest(&self.challenge),
                        previous_key_fingerprints: Vec::new(),
                    },
                )
            },
        }
    }

    /// Hands out the events, after the number of those that were dropped.
    pub fn drain_events(&mut self) -> (events: Vec<PairingEvent>)
        requires
            old(self).wf(),
        ensures
            final(self).wf(),
            final(self)@ == (PairingView { events: Seq::empty(), dropped_events: 0, ..old(self)@ }),
            events@.map_values(|e: PairingEvent| e@) == (if old(self)@.dropped_events > 0 {
                seq![PairingEventView::EventsDropped(old(self)@.dropped_events)]
            } else {
                Seq::empty()
            }) + old(self)@.events,
    {
        let ghost before = self@;
        let mut events: Vec<PairingEvent> = Vec::new();
        if self.dropped_events > 0 {
            events.push(PairingEvent::EventsDropped(self.dropped_events));
            self.dropped_events = 0;
        }
        let ghost first = events@.map_values(|e: PairingEvent| e@);
        proof {
            assert(first =~= if before.dropped_events > 0 {
                seq![PairingEventView::EventsDropped(before.dropped_events)]
            } else {
                Seq::empty()
            });
            assert(first + before.events.subrange(0, 0) =~= first);
            assert(before.events.subrange(0, before.events.len() as int) =~= before.events);
        }
        let ghost mut n: int = 0;
        while self.events.len() > 0
            invariant
                0 <= n <= before.events.len(),
                self@ == (PairingView {
                    events: before.events.subrange(n, before.events.len() as int),
                    dropped_events: 0,
                    ..before
                }),
                events@.map_values(|e: PairingEvent| e@) == first + before.events.subrange(0, n),
            decreases self.events@.len(),
        {
            let ghost was = events@;
            let ghost queue = self.events@;
            proof {
                assert(self@.events.len() == queue.len());
                assert(self@.events[0] == queue[0]@);
                assert forall|j: int| 0 < j < queue.len() implies before.events[n + j] == (
                #[trigger] queue[j])@ by {
                    assert(self@.events[j] == queue[j]@);
                }
            }
            match self.events.pop_front() {
                Some(event) => {
                    events.push(event);
                    proof {
                        assert(event@ == before.events[n]);
                        assert(self@.events =~= before.events.subrange(n + 1, before.events.len() as int));
                        assert(events@.map_values(|e: PairingEvent| e@) =~= was.map_values(
                            |e: PairingEvent| e@,
                        ).push(event@));
                        assert(first + before.events.subrange(0, n + 1) =~= (first
                            + before.events.subrange(0, n)).push(before.events[n]));
                        n = n + 1;
                    }
                },
                None => {},
            }
        }
        proof {
            assert(self@.events.len() == self.events@.len());
            assert(n == before.events.len());
            assert(before.events.subrange(0, n) =~= before.events);
            assert(self@.events =~= Seq::empty());
        }
        events
    }

    fn check_time(&mut self, now_unix_ms: u64) -> (in_time: Result<(), PairingError>)
        requires
            old(self).wf(),
        ensures
            final(self).wf(),
            if old(self)@.is_late(now_unix_ms) {
                &&& in_time == Err::<(), PairingError>(
                    PairingError::new(PairingErrorKind::TimedOut, "pairing session timed out"),
                )
                &&& final(self)@ == old(self)@.timed_out()
            } else {
                in_time is Ok && *final(self) == *old(self)
            },
    {
        if now_unix_ms >= self.expires_at_unix_ms {
            if !self.state.is_terminal() {
                self.set_state(PairingState::TimedOut);
            }
            return Err(timed_out_error());
        }
        Ok(())
    }

    fn ensure_nonterminal(&self) -> (running: Result<(), PairingError>)
        ensures
            running == (if self@.state.is_terminal() {
                Err::<(), PairingError>(PairingError::invalid_state())
            } else {
                Ok(())
            }),
    {
        if self.state.is_terminal() {
            Err(PairingError::invalid_state())
        } else {
            Ok(())
        }
    }

    fn complete(&mut self)
        requires
            0 < old(self)@.event_capacity,
            old(self)@.events.len() <= old(self)@.event_capacity,
        ensures
            final(self)@ == old(self)@.completed(),
    {
        self.set_state(PairingState::Paired);
        let peer = match &self.remote {
            Some(remote) => Some(remote.peer_id),
            None => None,
        };
        match peer {
            Some(peer_id) => {
                self.emit(PairingEvent::Completed(peer_id));
            },
            None => {},
        }
    }

    fn set_state(&mut self, state: PairingState)
        requires
            0 < old(self)@.event_capacity,
            old(self)@.events.len() <= old(self)@.event_capacity,
        ensures
            final(self)@ == old(self)@.in_state(state),
            final(self)@.events.len() <= final(self)@.event_capacity,
    {
        self.state = state;
        self.emit(PairingEvent::StateChanged(state));
    }

    fn emit(&mut self, event: PairingEvent)
        requires
            0 < old(self)@.event_capacity,
            old(self)@.events.len() <= old(self)@.event_capacity,
        ensures
            final(self)@ == old(self)@.with_event(event@),
            final(self)@.events.len() <= final(self)@.event_capacity,
    {
        let ghost before = self@;
        assert(before.events.len() == self.events@.len());
        if self.events.len() == self.event_capacity {
            self.events.pop_front();
            self.dropped_events = self.dropped_events.saturating_add(1);
            assert(self@.events =~= before.events.drop_first());
        }
        let ghost room = self@.events;
        self.events.push_back(event);
        assert(self@.events =~= room.push(event@));
        assert(self@ =~= before.with_event(event@));
    }

    fn fail(&mut self, kind: PairingErrorKind, message: &'static str) -> (error: PairingError)
        requires
            0 < old(self)@.event_capacity,
            old(self)@.events.len() <= old(self)@.event_capacity,
        ensures
            final(self)@ == old(self)@.in_state(PairingState::Failed),
            final(self)@.events.len() <= final(self)@.event_capacity,
            error == PairingError::new(kind, message),
    {
        self.set_state(PairingState::Failed);
        PairingError::new(kind, message)
    }
}

/// Two sides that follow the ceremony agree on the transcript and see the same code.
pub proof fn honest_sides_agree(
    offer: PairingOfferView,
    responder: IdentityView,
    initiator_capacity: usize,
    now_unix_ms: u64,
)
    requires
        responder.valid(),
        now_unix_ms < offer.expires_at_unix_ms,
    ensures
        ({
            let initiator = PairingView::begun(
                PairingRole::Initiator,
                PairingState::AwaitingResponse,
                offer.initiator,
                None,
                offer,
                None,
                initiator_capacity,
            );
            let hash = sha256(
                transcript(
                    offer.initiator,
                    responder,
                    offer.protocol_version,
                    offer.challenge,
                    offer.method,
                ),
            );
            let (after, fault) = initiator.response_step(
                PairingResponseView {
                    pairing_id: offer.pairing_id,
                    responder,
                    transcript_hash: hash,
                    short_code: code_of(hash),
                },
                now_unix_ms,
            );
            &&& fault is None
            &&& after.state == PairingState::AwaitingUserConfirmation
            &&& after.remote == Some(responder)
            &&& after.transcript_hash == Some(hash)
            &&& after.short_code == Some(code_of(hash))
        }),
{
}

/// A response whose transcript was changed on the way ends the ceremony.
pub proof fn changed_transcripts_are_refused(
    session: PairingView,
    response: PairingResponseView,
    now_unix_ms: u64,
)
    requires
        response.transcript_hash != session.agreed_hash(response.responder),
    ensures
        session.response_step(response, now_unix_ms).1 is Some,
        session.response_step(response, now_unix_ms).0.state
            != PairingState::AwaitingUserConfirmation || session.response_step(response, now_unix_ms).0
            == session,
{
}

/// Nobody is paired before both sides have confirmed the same transcript.
pub proof fn pairing_takes_both_confirmations(session: PairingView)
    requires
        session.wf(),
        session.state == PairingState::Paired,
    ensures
        session.local_confirmed,
        session.remote_confirmed,
        session.transcript_hash == Some(session.agreed_hash(session.remote->0)),
{
}

/// When the time is over every step is refused, and what was not decided is not
/// decided any more.
pub proof fn late_steps_are_refused(
    session: PairingView,
    response: PairingResponseView,
    displayed_code: Seq<char>,
    confirmation: ConfirmationView,
    now_unix_ms: u64,
)
    requires
        session.is_late(now_unix_ms),
    ensures
        session.response_step(response, now_unix_ms).1 is Some,
        session.code_step(displayed_code, now_unix_ms).1 is Some,
        session.confirmation_step(confirmation, now_unix_ms).1 is Some,
        session.timed_out().state.is_terminal(),
        session.state.is_terminal() ==> session.timed_out() == session,
{
}

/// The code that users compare has six decimal digits.
pub proof fn codes_have_six_digits(hash: Seq<u8>)
    ensures
        code_of(hash).len() == 6,
        forall|i: int| 0 <= i < 6 ==> '0' <= #[trigger] code_of(hash)[i] && code_of(hash)[i] <= '9',
{
}

/// Whether a session told that it is paired with its peer, and nothing after that.
pub open spec fn told_completed(session: PairingView) -> bool {
    &&& session.events.len() > 0
    &&& session.events.last() == PairingEventView::Completed(session.remote->0.peer_id)
}

/// Whichever side confirms first, a session is paired, and tells so, exactly when its own
/// user has confirmed the code and the peer has shown a confirmation that was verified;
/// what came first is remembered.
pub proof fn confirmations_count_in_either_order(
    session: PairingView,
    confirmation: ConfirmationView,
    displayed_code: Seq<char>,
    first_unix_ms: u64,
    second_unix_ms: u64,
)
    requires
        session.wf(),
        session.state == PairingState::AwaitingUserConfirmation,
        first_unix_ms < session.expires_at_unix_ms,
        second_unix_ms < session.expires_at_unix_ms,
        displayed_code == session.short_code->0,
        confirmation.pairing_id == session.pairing_id,
        confirmation.signer_peer_id == session.remote->0.peer_id,
        confirmation.transcript_hash == session.transcript_hash->0,
    ensures
        session.code_step(displayed_code, first_unix_ms) == (session, None::<PairingError>),
        session.confirmation_step(confirmation, first_unix_ms) == (session, None::<PairingError>),
        ({
            let fresh = PairingView { remote_confirmed: false, ..session };
            let heard = fresh.proof_step(true).0;
            let both = heard.confirmed();
            &&& fresh.proof_step(true).1 is None
            &&& heard.state == PairingState::AwaitingUserConfirmation
            &&& heard.code_step(displayed_code, second_unix_ms) == (heard, None::<PairingError>)
            &&& both.state == PairingState::Paired
            &&& both.remote == session.remote
            &&& told_completed(both)
        }),
        ({
            let fresh = PairingView { remote_confirmed: false, ..session };
            let shown = fresh.confirmed();
            let both = shown.proof_step(true).0;
            &&& shown.state == PairingState::AwaitingPeerConfirmation
            &&& shown.confirmation_step(confirmation, second_unix_ms) == (shown, None::<PairingError>)
            &&& shown.proof_step(true).1 is None
            &&& both.state == PairingState::Paired
            &&& both.remote == session.remote
            &&& told_completed(both)
        }),
{
}

/// A code other than the one that both sides see, or a signature that was not verified,
/// ends the ceremony for good: the session fails and never gets to be paired.
pub proof fn wrong_codes_and_signatures_end_the_ceremony(
    session: PairingView,
    displayed_code: Seq<char>,
    now_unix_ms: u64,
)
    requires
        session.wf(),
        now_unix_ms < session.expires_at_unix_ms,
    ensures
        session.state == PairingState::AwaitingUserConfirmation && displayed_code
            != session.short_code->0 ==> {
            let (after, fault) = session.code_step(displayed_code, now_unix_ms);
            &&& after.state == PairingState::Failed
            &&& fault matches Some(e) && e.kind == PairingErrorKind::CodeMismatch
        },
        ({
            let (after, fault) = session.proof_step(false);
            &&& after.state == PairingState::Failed
            &&& after.remote_confirmed == session.remote_confirmed
            &&& fault matches Some(e) && e.kind == PairingErrorKind::IdentityProofRejected
        }),
{
}

/// A confirmation of another ceremony, of another peer or over another transcript is never
/// taken to its signature, and ends the ceremony.
pub proof fn foreign_confirmations_end_the_ceremony(
    session: PairingView,
    confirmation: ConfirmationView,
    now_unix_ms: u64,
)
    requires
        session.wf(),
        now_unix_ms < session.expires_at_unix_ms,
        session.state == PairingState::AwaitingUserConfirmation || session.state
            == PairingState::AwaitingPeerConfirmation,
        confirmation.pairing_id != session.pairing_id || confirmation.signer_peer_id
            != session.remote->0.peer_id || confirmation.transcript_hash != session.transcript_hash->0,
    ensures
        session.confirmation_step(confirmation, now_unix_ms).0.state == PairingState::Failed,
        session.confirmation_step(confirmation, now_unix_ms).1 matches Some(e) && e.kind
            == PairingErrorKind::TranscriptMismatch,
{
}

/// A session that has ended, or has not come so far, takes neither code nor confirmation,
/// and stays as it is.
pub proof fn unexpected_steps_change_nothing(
    session: PairingView,
    displayed_code: Seq<char>,
    confirmation: ConfirmationView,
    now_unix_ms: u64,
)
    requires
        now_unix_ms < session.expires_at_unix_ms,
        session.state != PairingState::AwaitingUserConfirmation,
    ensures
        session.code_step(displayed_code, now_unix_ms).0 == session,
        session.code_step(displayed_code, now_unix_ms).1 matches Some(e) && e.kind
            == PairingErrorKind::InvalidState,
        session.state != PairingState::AwaitingPeerConfirmation ==> session.confirmation_step(
            confirmation,
            now_unix_ms,
        ).0 == session && (session.confirmation_step(confirmation, now_unix_ms).1 matches Some(e)
            && e.kind == PairingErrorKind::InvalidState),
{
}

/// At its moment of expiry and after it a session is late, before it is not; a late one
/// that has not ended is timed out.
pub proof fn sessions_expire_at_their_moment(session: PairingView, now_unix_ms: u64)
    ensures
        session.is_late(now_unix_ms) == (now_unix_ms >= session.expires_at_unix_ms),
        session.state == PairingState::AwaitingResponse || session.state
            == PairingState::AwaitingUserConfirmation || session.state
            == PairingState::AwaitingPeerConfirmation ==> session.timed_out().state
            == PairingState::TimedOut,
        session.state == PairingState::Paired || session.state == PairingState::Rejected
            || session.state == PairingState::Cancelled || session.state == PairingState::Failed
            || session.state == PairingState::TimedOut ==> session.timed_out() == session,
{
}

/// Of the events that a session tells, the latest are kept, as many as there is room for,
/// and each that is lost is counted.
pub proof fn latest_pairing_events_are_kept(session: PairingView, event: PairingEventView)
    requires
        0 < session.event_capacity,
        session.events.len() <= session.event_capacity,
        session.dropped_events < u64::MAX,
    ensures
        ({
            let after = session.with_event(event);
            let all = session.events.push(event);
            let lost = after.dropped_events - session.dropped_events;
            &&& after.events.len() <= session.event_capacity
            &&& after.events == all.skip(lost)
            &&& lost == (if all.len() > session.event_capacity {
                all.len() - session.event_capacity
            } else {
                0
            })
        }),
{
    let after = session.with_event(event);
    let all = session.events.push(event);
    if session.events.len() == session.event_capacity {
        assert(session.events.drop_first().push(event) =~= all.skip(1));
    } else {
        assert(all.skip(0) =~= all);
    }
}

/// A session whose peer was verified before its own user confirmed is paired as soon as the
/// user does; one whose user confirmed first is paired as soon as the peer is verified.
/// Neither call forgets what the other has found.
pub proof fn either_confirmation_completes_the_other(
    before: PairingSession,
    transcript_hash: [u8; 32],
    signature: Vec<u8>,
)
    requires
        before.wf(),
        before@.state == PairingState::AwaitingUserConfirmation,
        !before@.remote_confirmed,
    ensures
        forall|
            lent: &mut PairingSession,
            again: &mut PairingSession,
            accepted: Result<(), PairingError>,
            shown: PairingConfirmation,
        |
            {
                &&& *lent == before
                &&& #[trigger] call_ensures(PairingSession::accept_proof, (lent, true), accepted)
                &&& *again == *final(lent)
                &&& #[trigger] call_ensures(
                    PairingSession::finish_confirmation,
                    (again, transcript_hash, signature),
                    shown,
                )
            } ==> {
                &&& accepted is Ok
                &&& final(lent)@.state is AwaitingUserConfirmation
                &&& final(again)@.state is Paired
                &&& final(again)@.remote == before@.remote
                &&& told_completed(final(again)@)
            },
        forall|
            lent: &mut PairingSession,
            again: &mut PairingSession,
            shown: PairingConfirmation,
            accepted: Result<(), PairingError>,
        |
            {
                &&& *lent == before
                &&& #[trigger] call_ensures(
                    PairingSession::finish_confirmation,
                    (lent, transcript_hash, signature),
                    shown,
                )
                &&& *again == *final(lent)
                &&& #[trigger] call_ensures(PairingSession::accept_proof, (again, true), accepted)
            } ==> {
                &&& accepted is Ok
                &&& final(lent)@.state is AwaitingPeerConfirmation
                &&& final(again)@.state is Paired
                &&& final(again)@.remote == before@.remote
                &&& told_completed(final(again)@)
            },
        forall|lent: &mut PairingSession, accepted: Result<(), PairingError>|
            *lent == before && #[trigger] call_ensures(
                PairingSession::accept_proof,
                (lent, false),
                accepted,
            ) ==> accepted is Err && final(lent)@.state is Failed,
{
}

/// A session that has not ended can be rejected or cancelled by its user, which is said to
/// the peer with the identifier of the ceremony and told last; one that has ended cannot.
pub proof fn users_end_what_has_not_ended(before: PairingSession)
    requires
        before.wf(),
    ensures
        forall|lent: &mut PairingSession, said: Result<PairingTermination, PairingError>|
            *lent == before && #[trigger] call_ensures(PairingSession::reject, (lent,), said) ==> {
                &&& said is Ok <==> !before@.state.is_terminal()
                &&& said matches Ok(t) ==> {
                    &&& t.pairing_id@ == before@.pairing_id
                    &&& t.reason is Rejected
                    &&& final(lent)@.state is Rejected
                    &&& final(lent)@.events.last() == PairingEventView::StateChanged(
                        PairingState::Rejected,
                    )
                }
                &&& said is Err ==> final(lent)@ == before@
            },
        forall|lent: &mut PairingSession, said: Result<PairingTermination, PairingError>|
            *lent == before && #[trigger] call_ensures(PairingSession::cancel, (lent,), said) ==> {
                &&& said is Ok <==> !before@.state.is_terminal()
                &&& said matches Ok(t) ==> {
                    &&& t.pairing_id@ == before@.pairing_id
                    &&& t.reason is Cancelled
                    &&& final(lent)@.state is Cancelled
                    &&& final(lent)@.events.last() == PairingEventView::StateChanged(
                        PairingState::Cancelled,
                    )
                }
                &&& said is Err ==> final(lent)@ == before@
            },
{
}

/// What one side says when it ends a ceremony ends it for the other in the same way; what
/// speaks of another ceremony fails this one.
pub proof fn endings_of_the_peer_are_followed(before: PairingSession, termination: PairingTermination)
    requires
        before.wf(),
    ensures
        forall|lent: &mut PairingSession, received: Result<(), PairingError>|
            *lent == before && #[trigger] call_ensures(
                PairingSession::receive_termination,
                (lent, termination),
                received,
            ) ==> {
                let ours = termination.pairing_id@ == before@.pairing_id;
                &&& received is Ok <==> ours && !before@.state.is_terminal()
                &&& before@.state.is_terminal() ==> final(lent)@ == before@
                &&& !before@.state.is_terminal() && !ours ==> final(lent)@.state is Failed
                &&& received is Ok && termination.reason is Rejected
                    ==> final(lent)@.state is Rejected
                &&& received is Ok && termination.reason is Cancelled
                    ==> final(lent)@.state is Cancelled
            },
{
}

/// Events are handed out once, in the order in which they came, behind the number of those
/// that were lost, if any were.
pub proof fn pairing_events_are_handed_out_once(before: PairingSession)
    requires
        before.wf(),
    ensures
        forall|
            lent: &mut PairingSession,
            again: &mut PairingSession,
            first: Vec<PairingEvent>,
            second: Vec<PairingEvent>,
        |
            {
                &&& *lent == before
                &&& #[trigger] call_ensures(PairingSession::drain_events, (lent,), first)
                &&& *again == *final(lent)
                &&& #[trigger] call_ensures(PairingSession::drain_events, (again,), second)
            } ==> {
                let lost = before@.dropped_events > 0;
                let told = before@.events.len() as int;
                &&& second@.map_values(|e: PairingEvent| e@).len() == 0
                &&& !lost ==> first@.map_values(|e: PairingEvent| e@) =~= before@.events
                &&& lost ==> {
                    &&& first@.map_values(|e: PairingEvent| e@).len() == told + 1
                    &&& first@.map_values(|e: PairingEvent| e@)[0]
                        == PairingEventView::EventsDropped(before@.dropped_events)
                    &&& first@.map_values(|e: PairingEvent| e@).subrange(1, told + 1)
                        =~= before@.events
                }
                &&& final(again)@.state == before@.state
            },
{
}

/// A session that is paired gives a record of its peer with an active key, under the name
/// that it is given, as of that moment; one that is not paired gives none.
pub proof fn paired_peers_get_a_record(
    session: PairingSession,
    alias: String,
    permissions: PermissionSet,
    now_unix_ms: u64,
)
    ensures
        forall|record: Result<TrustRecord, PairingError>| #[trigger]
            call_ensures(
                PairingSession::trust_record,
                (&session, alias, permissions, now_unix_ms),
                record,
            ) ==> {
                &&& record is Ok <==> session@.state is Paired && alias@.len() > 0
                &&& record matches Ok(r) ==> {
                    &&& r@.peer_id == session@.remote->0.peer_id
                    &&& r@.public_key == session@.remote->0.public_key
                    &&& r@.alias == alias@
                    &&& r@.first_paired_at_unix_ms == now_unix_ms
                    &&& r@.permissions == permissions@
                    &&& r@.key_state is Active
                    &&& r@.previous_key_fingerprints.len() == 0
                }
            },
{
}

/// An offer is answered while it lasts, where both identities are valid, the two are not
/// paired yet and there is room for events; the answer carries the identifier of the
/// ceremony and the hash and the code that the session shows its own user.
pub proof fn lasting_offers_are_answered(
    local: LongTermIdentity,
    offer: PairingOffer,
    now_unix_ms: u64,
    already_trusted: bool,
    event_capacity: usize,
)
    ensures
        forall|answer: Result<(PairingSession, PairingResponse), PairingError>| #[trigger]
            call_ensures(
                PairingSession::responder,
                (local, offer, now_unix_ms, already_trusted, event_capacity),
                answer,
            ) ==> {
                &&& answer is Ok <==> {
                    &&& local@.valid()
                    &&& offer@.initiator.valid()
                    &&& !already_trusted
                    &&& event_capacity > 0
                    &&& now_unix_ms < offer@.expires_at_unix_ms
                }
                &&& answer matches Ok((session, response)) ==> {
                    &&& response@.pairing_id == offer@.pairing_id
                    &&& response@.responder == local@
                    &&& session@.pairing_id == offer@.pairing_id
                    &&& session@.role is Responder
                    &&& session@.state is AwaitingUserConfirmation
                    &&& session@.local == local@
                    &&& session@.remote == Some(offer@.initiator)
                    &&& session@.transcript_hash == Some(response@.transcript_hash)
                    &&& session@.short_code == Some(response@.short_code)
                    &&& session@.expires_at_unix_ms == offer@.expires_at_unix_ms
                    &&& !session@.local_confirmed
                    &&& !session@.remote_confirmed
                    &&& session@.events.len() > 0
                    &&& session@.events.last() == PairingEventView::Present(
                        presented(offer@.initiator, response@.short_code),
                    )
                }
                &&& answer matches Err(e) ==> {
                    &&& !local@.valid() || !offer@.initiator.valid() ==> e.kind is InvalidInput
                    &&& local@.valid() && offer@.initiator.valid() && already_trusted
                        ==> e.kind is DuplicatePairing
                    &&& local@.valid() && offer@.initiator.valid() && !already_trusted
                        && event_capacity > 0 && 0 < offer@.expires_at_unix_ms <= now_unix_ms
                        ==> e.kind is TimedOut
                }
            },
{
}

/// A ceremony that was begun awaits its answer, and its offer says what it was begun with.
pub proof fn begun_ceremonies_offer_what_was_chosen(
    local: LongTermIdentity,
    pairing_id: PairingId,
    version: ProtocolVersion,
    challenge: [u8; 32],
    method: PairingMethod,
    expires_at_unix_ms: u64,
    already_trusted: bool,
    event_capacity: usize,
)
    ensures
        forall|session: Result<PairingSession, PairingError>, offer: Result<PairingOffer, PairingError>|
            {
                &&& #[trigger] call_ensures(
                    PairingSession::initiator,
                    (
                        local,
                        pairing_id,
                        version,
                        challenge,
                        method,
                        expires_at_unix_ms,
                        already_trusted,
                        event_capacity,
                    ),
                    session,
                )
                &&& session is Ok
                &&& #[trigger] call_ensures(PairingSession::offer, (&session->Ok_0,), offer)
            } ==> {
                &&& offer matches Ok(o)
                &&& o@.pairing_id == pairing_id@
                &&& o@.initiator == local@
                &&& o@.protocol_version == version
                &&& o@.challenge == challenge@
                &&& o@.method == method
                &&& o@.expires_at_unix_ms == expires_at_unix_ms
            },
        forall|session: Result<PairingSession, PairingError>| #[trigger]
            call_ensures(
                PairingSession::initiator,
                (
                    local,
                    pairing_id,
                    version,
                    challenge,
                    method,
                    expires_at_unix_ms,
                    already_trusted,
                    event_capacity,
                ),
                session,
            ) ==> (session is Ok <==> local@.valid() && !already_trusted && expires_at_unix_ms > 0
                && event_capacity > 0),
{
}

} // verus!
