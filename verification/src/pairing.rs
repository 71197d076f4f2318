//! What two devices exchange to pair, and what can go wrong.

use vstd::prelude::*;
use vstd::utf8::encode_utf8;
use crate::bytes::{
    be16, be64, bytes_equal, push_bytes, push_u16, push_u64, read_u32, value32,
};
use crate::digest::{sha256, sha256_digest};
use crate::identity::{PeerId, ProtocolVersion};
use crate::text::{decimal_digit, is_empty_text, push_decimal_digit};

verus! {

/// The shortest public key.
pub const MIN_PUBLIC_KEY_BYTES: usize = 16;

/// One run of the pairing ceremony.
#[derive(Clone, Copy, Debug, Eq, Hash, Ord, PartialEq, PartialOrd)]
pub struct PairingId(pub [u8; 16]);

impl View for PairingId {
    type V = Seq<u8>;

    open spec fn view(&self) -> Seq<u8> {
        self.0@
    }
}

impl PairingId {
    #[verifier::allow_in_spec]
    pub fn from_bytes(bytes: [u8; 16]) -> Self
        returns
            PairingId(bytes),
    {
        PairingId(bytes)
    }

    /// Whether both identifiers hold the same bytes.
    pub fn same(&self, other: &Self) -> (same: bool)
        ensures
            same == (self@ == other@),
    {
        bytes_equal(&self.0, &other.0)
    }
}

/// Who a device is.
#[derive(Clone, Debug, Eq, PartialEq)]
pub struct LongTermIdentity {
    pub peer_id: PeerId,
    pub public_key: Vec<u8>,
    pub display_name: String,
}

#[verifier::ext_equal]
pub struct IdentityView {
    pub peer_id: Seq<u8>,
    pub public_key: Seq<u8>,
    pub display_name: Seq<char>,
}

impl View for LongTermIdentity {
    type V = IdentityView;

    open spec fn view(&self) -> IdentityView {
        IdentityView {
            peer_id: self.peer_id@,
            public_key: self.public_key@,
            display_name: self.display_name@,
        }
    }
}

impl IdentityView {
    /// Whether the key is long enough and there is a name to show.
    pub open spec fn valid(self) -> bool {
        self.public_key.len() >= MIN_PUBLIC_KEY_BYTES && self.display_name.len() > 0
    }
}

impl LongTermIdentity {
    /// A copy of the identity.
    pub fn duplicate(&self) -> (copy: Self)
        ensures
            copy@ == self@,
    {
        let public_key = self.public_key.clone();
        assert(public_key@ =~= self.public_key@);
        LongTermIdentity {
            peer_id: self.peer_id,
            public_key,
            display_name: self.display_name.clone(),
        }
    }
}

/// How the users compare what they see.
#[derive(Clone, Copy, Debug, Eq, PartialEq, Structural)]
pub enum PairingMethod {
    ShortCode,
    QrCode,
    BilateralConfirmation,
}

impl PairingMethod {
    /// The number of the method in a transcript.
    #[verifier::allow_in_spec]
    pub fn code(self) -> u8
        returns
            (match self {
                PairingMethod::ShortCode => 1u8,
                PairingMethod::QrCode => 2u8,
                PairingMethod::BilateralConfirmation => 3u8,
            }),
    {
        match self {
            PairingMethod::ShortCode => 1,
            PairingMethod::QrCode => 2,
            PairingMethod::BilateralConfirmation => 3,
        }
    }
}

/// What the initiator offers.
#[derive(Clone, Debug, Eq, PartialEq)]
pub struct PairingOffer {
    pub pairing_id: PairingId,
    pub initiator: LongTermIdentity,
    pub protocol_version: ProtocolVersion,
    pub challenge: [u8; 32],
    pub method: PairingMethod,
    pub expires_at_unix_ms: u64,
}

#[verifier::ext_equal]
pub struct PairingOfferView {
    pub pairing_id: Seq<u8>,
    pub initiator: IdentityView,
    pub protocol_version: ProtocolVersion,
    pub challenge: Seq<u8>,
    pub method: PairingMethod,
    pub expires_at_unix_ms: u64,
}

impl View for PairingOffer {
    type V = PairingOfferView;

    open spec fn view(&self) -> PairingOfferView {
        PairingOfferView {
            pairing_id: self.pairing_id@,
            initiator: self.initiator@,
            protocol_version: self.protocol_version,
            challenge: self.challenge@,
            method: self.method,
            expires_at_unix_ms: self.expires_at_unix_ms,
        }
    }
}

/// What the responder answers.
#[derive(Clone, Debug, Eq, PartialEq)]
pub struct PairingResponse {
    pub pairing_id: PairingId,
    pub responder: LongTermIdentity,
    pub transcript_hash: [u8; 32],
    pub short_code: String,
}

#[verifier::ext_equal]
pub struct PairingResponseView {
    pub pairing_id: Seq<u8>,
    pub responder: IdentityView,
    pub transcript_hash: Seq<u8>,
    pub short_code: Seq<char>,
}

impl View for PairingResponse {
    type V = PairingResponseView;

    open spec fn view(&self) -> PairingResponseView {
        PairingResponseView {
            pairing_id: self.pairing_id@,
            responder: self.responder@,
            transcript_hash: self.transcript_hash@,
            short_code: self.short_code@,
        }
    }
}

/// A signature over the transcript.
#[derive(Clone, Debug, Eq, PartialEq)]
pub struct PairingConfirmation {
    pub pairing_id: PairingId,
    pub signer_peer_id: PeerId,
    pub transcript_hash: [u8; 32],
    pub signature: Vec<u8>,
}

#[verifier::ext_equal]
pub struct ConfirmationView {
    pub pairing_id: Seq<u8>,
    pub signer_peer_id: Seq<u8>,
    pub transcript_hash: Seq<u8>,
    pub signature: Seq<u8>,
}

impl View for PairingConfirmation {
    type V = ConfirmationView;

    open spec fn view(&self) -> ConfirmationView {
        ConfirmationView {
            pairing_id: self.pairing_id@,
            signer_peer_id: self.signer_peer_id@,
            transcript_hash: self.transcript_hash@,
            signature: self.signature@,
        }
    }
}

#[derive(Clone, Copy, Debug, Eq, PartialEq, Structural)]
pub enum PairingTerminationReason {
    Rejected,
    Cancelled,
}

/// That a side has ended the ceremony.
#[derive(Clone, Copy, Debug, Eq, PartialEq)]
pub struct PairingTermination {
    pub pairing_id: PairingId,
    pub reason: PairingTerminationReason,
}

/// What a user is to compare.
#[derive(Clone, Debug, Eq, PartialEq)]
pub struct PairingPresentation {
    pub peer_name: String,
    pub peer_fingerprint: [u8; 32],
    pub short_code: String,
}

#[verifier::ext_equal]
pub struct PresentationView {
    pub peer_name: Seq<char>,
    pub peer_fingerprint: Seq<u8>,
    pub short_code: Seq<char>,
}

impl View for PairingPresentation {
    type V = PresentationView;

    open spec fn view(&self) -> PresentationView {
        PresentationView {
            peer_name: self.peer_name@,
            peer_fingerprint: self.peer_fingerprint@,
            short_code: self.short_code@,
        }
    }
}

#[derive(Clone, Copy, Debug, Eq, PartialEq, Structural)]
pub enum PairingRole {
    Initiator,
    Responder,
}

#[derive(Clone, Copy, Debug, Eq, PartialEq, Structural)]
pub enum PairingState {
    AwaitingResponse,
    AwaitingUserConfirmation,
    AwaitingPeerConfirmation,
    Paired,
    Rejected,
    TimedOut,
    Cancelled,
    Failed,
}

impl PairingState {
    /// Whether the ceremony is over.
    #[verifier::allow_in_spec]
    pub fn is_terminal(self) -> bool
        returns
            (match self {
                PairingState::Paired
                | PairingState::Rejected
                | PairingState::TimedOut
                | PairingState::Cancelled
                | PairingState::Failed => true,
                _ => false,
            }),
    {
        match self {
            PairingState::Paired
            | PairingState::Rejected
            | PairingState::TimedOut
            | PairingState::Cancelled
            | PairingState::Failed => true,
            _ => false,
        }
    }
}

/// What a user interface is told.
#[derive(Clone, Debug, Eq, PartialEq)]
pub enum PairingEvent {
    StateChanged(PairingState),
    Present(PairingPresentation),
    Completed(PeerId),
    EventsDropped(u64),
}

#[verifier::ext_equal]
pub enum PairingEventView {
    StateChanged(PairingState),
    Present(PresentationView),
    Completed(Seq<u8>),
    EventsDropped(u64),
}

impl View for PairingEvent {
    type V = PairingEventView;

    open spec fn view(&self) -> PairingEventView {
        match self {
            PairingEvent::StateChanged(state) => PairingEventView::StateChanged(*state),
            PairingEvent::Present(presentation) => PairingEventView::Present(presentation@),
            PairingEvent::Completed(peer_id) => PairingEventView::Completed(peer_id@),
            PairingEvent::EventsDropped(n) => PairingEventView::EventsDropped(*n),
        }
    }
}

#[derive(Clone, Copy, Debug, Eq, PartialEq, Structural)]
pub enum PairingErrorKind {
    InvalidInput,
    InvalidState,
    DuplicatePairing,
    TimedOut,
    Cancelled,
    Rejected,
    CodeMismatch,
    TranscriptMismatch,
    IdentityProofRejected,
    ReplayDetected,
    RateLimited,
}

/// Why a step of the ceremony was refused.
#[derive(Clone, Debug, Eq, PartialEq)]
pub struct PairingError {
    pub kind: PairingErrorKind,
    pub public_message: &'static str,
}

impl PairingError {
    #[verifier::allow_in_spec]
    pub fn new(kind: PairingErrorKind, public_message: &'static str) -> Self
        returns
            (PairingError { kind, public_message }),
    {
        PairingError { kind, public_message }
    }

    #[verifier::allow_in_spec]
    pub fn invalid_state() -> Self
        returns
            PairingError::new(
                PairingErrorKind::InvalidState,
                "pairing command is invalid in the current state",
            ),
    {
        PairingError::new(
            PairingErrorKind::InvalidState,
            "pairing command is invalid in the current state",
        )
    }

    /// The text that may be shown to a user.
    pub fn display_text(&self) -> (text: String)
        ensures
            text@ == self.public_message@,
    {
        self.public_message.to_owned()
    }
}

/// The owner of the identity signs and verifies. Pairing only fixes which
/// transcript is signed.
pub trait PairingCrypto {
    fn sign_transcript(&self, transcript_hash: &[u8; 32]) -> Result<Vec<u8>, PairingError>;

    fn verify_transcript(
        &self,
        public_key: &[u8],
        transcript_hash: &[u8; 32],
        signature: &[u8],
    ) -> bool;
}

/// Some bytes with their length before them.
pub open spec fn sized(value: Seq<u8>) -> Seq<u8> {
    be64(value.len() as u64) + value
}

/// What both sides sign: who they are, the version, the challenge and the method.
pub open spec fn transcript(
    initiator: IdentityView,
    responder: IdentityView,
    version: ProtocolVersion,
    challenge: Seq<u8>,
    method: PairingMethod,
) -> Seq<u8> {
    encode_utf8("mutsuki-link-pairing-v1"@) + initiator.peer_id + sized(initiator.public_key)
        + responder.peer_id + sized(responder.public_key) + be16(version.major) + be16(version.minor)
        + challenge + seq![method.code()]
}

/// The digest of what both sides sign.
pub fn transcript_hash(
    initiator: &LongTermIdentity,
    responder: &LongTermIdentity,
    version: ProtocolVersion,
    challenge: &[u8; 32],
    method: PairingMethod,
) -> (hash: [u8; 32])
    ensures
        hash@ == sha256(transcript(initiator@, responder@, version, challenge@, method)),
{
    let mut data: Vec<u8> = Vec::new();
    push_bytes(&mut data, "mutsuki-link-pairing-v1".as_bytes());
    push_bytes(&mut data, initiator.peer_id.as_bytes());
    push_sized(&mut data, initiator.public_key.as_slice());
    push_bytes(&mut data, responder.peer_id.as_bytes());
    push_sized(&mut data, responder.public_key.as_slice());
    push_u16(&mut data, version.major);
    push_u16(&mut data, version.minor);
    push_bytes(&mut data, challenge);
    data.push(method.code());
    assert(data@ =~= transcript(initiator@, responder@, version, challenge@, method));
    sha256_digest(data.as_slice())
}

fn push_sized(data: &mut Vec<u8>, value: &[u8])
    ensures
        final(data)@ == old(data)@ + sized(value@),
{
    let len: usize = value.len();
    push_u64(data, len as u64);
    push_bytes(data, value);
    assert(data@ =~= old(data)@ + sized(value@));
}

/// The six digits that users compare: the first four bytes of the transcript hash
/// as a number, without its millions.
pub open spec fn code_of(hash: Seq<u8>) -> Seq<char> {
    let value = value32(hash.subrange(0, 4)) as int % 1_000_000;
    seq![
        decimal_digit(value / 100_000),
        decimal_digit(value / 10_000 % 10),
        decimal_digit(value / 1_000 % 10),
        decimal_digit(value / 100 % 10),
        decimal_digit(value / 10 % 10),
        decimal_digit(value % 10),
    ]
}

/// The six digits that users compare.
pub fn short_code(transcript_hash: &[u8; 32]) -> (code: String)
    ensures
        code@ == code_of(transcript_hash@),
{
    let value: u32 = read_u32(transcript_hash, 0) % 1_000_000;
    let mut code = String::new();
    push_decimal_digit(&mut code, (value / 100_000) as u8);
    push_decimal_digit(&mut code, (value / 10_000 % 10) as u8);
    push_decimal_digit(&mut code, (value / 1_000 % 10) as u8);
    push_decimal_digit(&mut code, (value / 100 % 10) as u8);
    push_decimal_digit(&mut code, (value / 10 % 10) as u8);
    push_decimal_digit(&mut code, (value % 10) as u8);
    assert(code@ =~= code_of(transcript_hash@));
    code
}

/// What a user is shown of an identity.
pub open spec fn presented(identity: IdentityView, short_code: Seq<char>) -> PresentationView {
    PresentationView {
        peer_name: identity.display_name,
        peer_fingerprint: sha256(identity.public_key),
        short_code,
    }
}

/// What a user is shown of an identity.
pub fn present(identity: &LongTermIdentity, short_code: &String) -> (presentation: PairingPresentation)
    ensures
        presentation@ == presented(identity@, short_code@),
{
    PairingPresentation {
        peer_name: identity.display_name.clone(),
        peer_fingerprint: sha256_digest(identity.public_key.as_slice()),
        short_code: short_code.clone(),
    }
}

/// Whether an identity can be paired.
pub fn validate_identity(identity: &LongTermIdentity) -> (valid: Result<(), PairingError>)
    ensures
        valid == (if identity@.valid() {
            Ok::<(), PairingError>(())
        } else {
            Err(PairingError::new(PairingErrorKind::InvalidInput, "long-term identity is invalid"))
        }),
{
    if identity.public_key.len() < MIN_PUBLIC_KEY_BYTES || is_empty_text(
        identity.display_name.as_str(),
    ) {
        return Err(
            PairingError::new(PairingErrorKind::InvalidInput, "long-term identity is invalid"),
        );
    }
    Ok(())
}

/// Why a ceremony cannot be started.
pub open spec fn start_fault(
    already_trusted: bool,
    expires_at_unix_ms: u64,
    event_capacity: usize,
) -> Option<PairingError> {
    if already_trusted {
        Some(PairingError::new(PairingErrorKind::DuplicatePairing, "peer is already paired"))
    } else if expires_at_unix_ms == 0 || event_capacity == 0 {
        Some(PairingError::new(PairingErrorKind::InvalidInput, "pairing limits are invalid"))
    } else {
        None
    }
}

/// Whether a ceremony can be started.
pub fn validate_new(already_trusted: bool, expires_at_unix_ms: u64, event_capacity: usize) -> (valid:
    Result<(), PairingError>)
    ensures
        match start_fault(already_trusted, expires_at_unix_ms, event_capacity) {
            None => valid is Ok,
            Some(fault) => valid == Err::<(), PairingError>(fault),
        },
{
    if already_trusted {
        return Err(PairingError::new(PairingErrorKind::DuplicatePairing, "peer is already paired"));
    }
    if expires_at_unix_ms == 0 || event_capacity == 0 {
        return Err(PairingError::new(PairingErrorKind::InvalidInput, "pairing limits are invalid"));
    }
    Ok(())
}

/// An identity is valid with a name and a key of sixteen bytes or more.
pub proof fn identities_have_a_name_and_a_key(identity: IdentityView)
    ensures
        identity.public_key.len() < 16 ==> !identity.valid(),
        identity.display_name.len() == 0 ==> !identity.valid(),
        identity.public_key.len() >= 16 && identity.display_name.len() >= 1 ==> identity.valid(),
{
}

/// A ceremony is begun with a peer that is not trusted yet, with a moment of expiry and with
/// room for an event.
pub proof fn ceremonies_are_begun_once(already_trusted: bool, expires_at_unix_ms: u64, event_capacity: usize)
    ensures
        start_fault(true, expires_at_unix_ms, event_capacity) matches Some(e) && e.kind
            == PairingErrorKind::DuplicatePairing,
        expires_at_unix_ms > 0 && event_capacity > 0 ==> start_fault(
            false,
            expires_at_unix_ms,
            event_capacity,
        ) is None,
        !already_trusted && (expires_at_unix_ms == 0 || event_capacity == 0) ==> (start_fault(
            already_trusted,
            expires_at_unix_ms,
            event_capacity,
        ) matches Some(e) && e.kind == PairingErrorKind::InvalidInput),
{
}

/// What a user is shown of a peer is its name, the digest of its key, and the code.
pub proof fn users_are_shown_the_peer(identity: IdentityView, code: Seq<char>)
    ensures
        presented(identity, code).peer_name == identity.display_name,
        presented(identity, code).peer_fingerprint == sha256(identity.public_key),
        presented(identity, code).short_code == code,
{
}

/// The digits of a code spell the first four bytes of the digest, the most significant
/// first, but for what is above a million.
pub proof fn codes_spell_the_digest(hash: Seq<u8>)
    requires
        hash.len() == 32,
    ensures
        ({
            let number = (hash[0] * 0x100_0000 + hash[1] * 0x1_0000 + hash[2] * 0x100 + hash[3])
                % 1_000_000;
            let code = code_of(hash);
            &&& code.len() == 6
            &&& code[0] as int - 48 == number / 100_000
            &&& code[1] as int - 48 == number / 10_000 % 10
            &&& code[2] as int - 48 == number / 1_000 % 10
            &&& code[3] as int - 48 == number / 100 % 10
            &&& code[4] as int - 48 == number / 10 % 10
            &&& code[5] as int - 48 == number % 10
        }),
{
    let four = hash.subrange(0, 4);
    crate::bytes::bytes_spell_their_weighted_sum(four);
    assert(four[0] == hash[0] && four[1] == hash[1] && four[2] == hash[2] && four[3] == hash[3]);
}

/// Two ceremonies have the same transcript only if the parties, the version, the challenge
/// and the method are the same.
pub proof fn transcripts_tell_ceremonies_apart(
    initiator: IdentityView,
    responder: IdentityView,
    version: ProtocolVersion,
    challenge: Seq<u8>,
    method: PairingMethod,
    other_initiator: IdentityView,
    other_responder: IdentityView,
    other_version: ProtocolVersion,
    other_challenge: Seq<u8>,
    other_method: PairingMethod,
)
    requires
        transcript(initiator, responder, version, challenge, method) == transcript(
            other_initiator,
            other_responder,
            other_version,
            other_challenge,
            other_method,
        ),
        initiator.peer_id.len() == 32,
        responder.peer_id.len() == 32,
        challenge.len() == 32,
        other_initiator.peer_id.len() == 32,
        other_responder.peer_id.len() == 32,
        other_challenge.len() == 32,
        initiator.public_key.len() <= u64::MAX,
        responder.public_key.len() <= u64::MAX,
        other_initiator.public_key.len() <= u64::MAX,
        other_responder.public_key.len() <= u64::MAX,
    ensures
        initiator.peer_id == other_initiator.peer_id,
        initiator.public_key == other_initiator.public_key,
        responder.peer_id == other_responder.peer_id,
        responder.public_key == other_responder.public_key,
        version == other_version,
        challenge == other_challenge,
        method == other_method,
{
    let a = transcript(initiator, responder, version, challenge, method);
    let b = transcript(other_initiator, other_responder, other_version, other_challenge, other_method);
    let head = encode_utf8("mutsuki-link-pairing-v1"@).len() as int;
    let m = initiator.public_key.len() as int;
    let n = responder.public_key.len() as int;
    crate::bytes::value_of_be64(initiator.public_key.len() as u64);
    crate::bytes::value_of_be64(responder.public_key.len() as u64);
    crate::bytes::value_of_be64(other_initiator.public_key.len() as u64);
    crate::bytes::value_of_be64(other_responder.public_key.len() as u64);
    crate::bytes::value_of_be16(version.major);
    crate::bytes::value_of_be16(version.minor);
    crate::bytes::value_of_be16(other_version.major);
    crate::bytes::value_of_be16(other_version.minor);
    let p1 = head;
    let k1 = head + 32 + 8;
    let p2 = k1 + m;
    let k2 = p2 + 32 + 8;
    let v = k2 + n;
    assert(a.subrange(p1 + 32, k1) =~= be64(initiator.public_key.len() as u64));
    assert(b.subrange(p1 + 32, k1) =~= be64(other_initiator.public_key.len() as u64));
    assert(other_initiator.public_key.len() == m);
    assert(a.subrange(p2 + 32, k2) =~= be64(responder.public_key.len() as u64));
    assert(b.subrange(p2 + 32, k2) =~= be64(other_responder.public_key.len() as u64));
    assert(other_responder.public_key.len() == n);
    assert(a.subrange(p1, p1 + 32) =~= initiator.peer_id);
    assert(b.subrange(p1, p1 + 32) =~= other_initiator.peer_id);
    assert(a.subrange(k1, p2) =~= initiator.public_key);
    assert(b.subrange(k1, p2) =~= other_initiator.public_key);
    assert(a.subrange(p2, p2 + 32) =~= responder.peer_id);
    assert(b.subrange(p2, p2 + 32) =~= other_responder.peer_id);
    assert(a.subrange(k2, v) =~= responder.public_key);
    assert(b.subrange(k2, v) =~= other_responder.public_key);
    assert(a.subrange(v, v + 2) =~= be16(version.major));
    assert(b.subrange(v, v + 2) =~= be16(other_version.major));
    assert(a.subrange(v + 2, v + 4) =~= be16(version.minor));
    assert(b.subrange(v + 2, v + 4) =~= be16(other_version.minor));
    assert(a.subrange(v + 4, v + 36) =~= challenge);
    assert(b.subrange(v + 4, v + 36) =~= other_challenge);
    assert(a[v + 36] == method.code());
    assert(b[v + 36] == other_method.code());
}

/// A ceremony is over once it has paired the two, or was rejected, cancelled, too late or
/// failed; while a response or a confirmation is awaited it is not.
pub proof fn ceremonies_end_in_five_ways(state: PairingState)
    ensures
        state.is_terminal() <==> !(state is AwaitingResponse
            || state is AwaitingUserConfirmation || state is AwaitingPeerConfirmation),
        state is Paired || state is Rejected || state is TimedOut || state is Cancelled
            || state is Failed ==> state.is_terminal(),
{
}

} // verus!
