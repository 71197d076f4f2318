//! What a transport must prove before a session counts as authenticated.

use vstd::prelude::*;
use crate::bytes::bytes_equal;
use crate::identity::{PeerId, ProtocolVersion};
use crate::selection::{SecurityLevel, TransportKind};
use crate::session::SessionInfo;
use crate::transport::EndpointAddress;

verus! {

#[derive(Clone, Copy, Debug, Eq, PartialEq, Structural)]
pub enum IdentityStatus {
    Active { valid_until_unix_ms: u64 },
    Revoked,
    Rotated,
}

#[derive(Clone, Debug, Eq, PartialEq)]
pub struct IdentityEvidence {
    pub peer_id: PeerId,
    pub public_key_fingerprint: [u8; 32],
    pub key_epoch: u64,
    pub status: IdentityStatus,
}

/// What a session key is bound to. The key itself never enters this type, only a
/// number for it or a digest.
#[derive(Clone, Debug, Eq, PartialEq)]
pub struct SessionKeyBinding {
    pub key_id: [u8; 32],
    pub forward_secure: bool,
    pub handshake_transcript_hash: [u8; 32],
    pub local_endpoint: EndpointAddress,
    pub remote_endpoint: EndpointAddress,
    pub link_version: ProtocolVersion,
}

/// What a transport shows. `development_plaintext` is set only for a connection that
/// was explicitly made for development.
#[derive(Clone, Debug, Eq, PartialEq)]
pub struct TransportSecurityEvidence {
    pub transport: TransportKind,
    pub security_level: SecurityLevel,
    pub mutually_authenticated: bool,
    pub local_peer_credential_verified: bool,
    pub development_plaintext: bool,
    pub identity: IdentityEvidence,
    pub session_key: Option<SessionKeyBinding>,
}

#[derive(Clone, Debug, Eq, PartialEq)]
pub struct SecurityExpectation {
    pub peer_id: PeerId,
    pub public_key_fingerprint: [u8; 32],
    pub minimum_key_epoch: u64,
    pub handshake_transcript_hash: [u8; 32],
    pub local_endpoint: EndpointAddress,
    pub remote_endpoint: EndpointAddress,
    pub link_version: ProtocolVersion,
    pub now_unix_ms: u64,
}

#[derive(Clone, Copy, Debug, Eq, PartialEq, Structural)]
pub enum RemoteSecurityPolicy {
    AuthenticatedEncrypted,
    AllowExplicitDevelopmentPlaintext,
}

#[derive(Clone, Copy, Debug, Eq, PartialEq, Structural)]
pub enum ForwardSecrecyPolicy {
    Required,
    Optional,
}

#[derive(Clone, Copy, Debug, Eq, PartialEq, Structural)]
pub enum LocalPeerCredentialPolicy {
    Required,
    Optional,
}

#[derive(Clone, Copy, Debug, Eq, PartialEq, Structural)]
pub struct SecurityPolicy {
    pub remote: RemoteSecurityPolicy,
    pub forward_secrecy: ForwardSecrecyPolicy,
    pub local_peer_credential: LocalPeerCredentialPolicy,
}

/// The policy that asks for everything.
pub open spec fn strict_policy() -> SecurityPolicy {
    SecurityPolicy {
        remote: RemoteSecurityPolicy::AuthenticatedEncrypted,
        forward_secrecy: ForwardSecrecyPolicy::Required,
        local_peer_credential: LocalPeerCredentialPolicy::Required,
    }
}

impl Default for SecurityPolicy {
    fn default() -> (policy: Self)
        ensures
            policy == strict_policy(),
    {
        SecurityPolicy {
            remote: RemoteSecurityPolicy::AuthenticatedEncrypted,
            forward_secrecy: ForwardSecrecyPolicy::Required,
            local_peer_credential: LocalPeerCredentialPolicy::Required,
        }
    }
}

#[derive(Clone, Copy, Debug, Eq, PartialEq, Structural)]
pub enum SecurityErrorKind {
    PlaintextForbidden,
    EncryptionRequired,
    MutualAuthenticationRequired,
    ForwardSecrecyRequired,
    LocalPeerCredentialRequired,
    PeerMismatch,
    KeyMismatch,
    KeyRotated,
    IdentityRevoked,
    IdentityExpired,
    TranscriptMismatch,
    EndpointMismatch,
    ProtocolMismatch,
    MissingSessionKey,
}

#[derive(Clone, Debug, Eq, PartialEq)]
pub struct SecurityError {
    pub kind: SecurityErrorKind,
    pub public_message: &'static str,
}

impl SecurityErrorKind {
    /// What may be told of the error.
    #[verifier::allow_in_spec]
    pub fn message(self) -> &'static str
        returns
            (match self {
                SecurityErrorKind::PlaintextForbidden => "plaintext transport is not permitted",
                SecurityErrorKind::EncryptionRequired => "encrypted transport is required",
                SecurityErrorKind::MutualAuthenticationRequired => "mutual authentication is required",
                SecurityErrorKind::ForwardSecrecyRequired => "forward-secure session keys are required",
                SecurityErrorKind::LocalPeerCredentialRequired => "local peer credential is required",
                SecurityErrorKind::PeerMismatch => "authenticated peer does not match",
                SecurityErrorKind::KeyMismatch => "authenticated identity key does not match",
                SecurityErrorKind::KeyRotated => "authenticated identity key has been rotated",
                SecurityErrorKind::IdentityRevoked => "authenticated identity has been revoked",
                SecurityErrorKind::IdentityExpired => "authenticated identity has expired",
                SecurityErrorKind::TranscriptMismatch => "session key is not bound to this handshake",
                SecurityErrorKind::EndpointMismatch => "session key is not bound to these endpoints",
                SecurityErrorKind::ProtocolMismatch => "session key is not bound to this protocol version",
                SecurityErrorKind::MissingSessionKey => "session key binding is missing",
            }),
    {
        match self {
            SecurityErrorKind::PlaintextForbidden => "plaintext transport is not permitted",
            SecurityErrorKind::EncryptionRequired => "encrypted transport is required",
            SecurityErrorKind::MutualAuthenticationRequired => "mutual authentication is required",
            SecurityErrorKind::ForwardSecrecyRequired => "forward-secure session keys are required",
            SecurityErrorKind::LocalPeerCredentialRequired => "local peer credential is required",
            SecurityErrorKind::PeerMismatch => "authenticated peer does not match",
            SecurityErrorKind::KeyMismatch => "authenticated identity key does not match",
            SecurityErrorKind::KeyRotated => "authenticated identity key has been rotated",
            SecurityErrorKind::IdentityRevoked => "authenticated identity has been revoked",
            SecurityErrorKind::IdentityExpired => "authenticated identity has expired",
            SecurityErrorKind::TranscriptMismatch => "session key is not bound to this handshake",
            SecurityErrorKind::EndpointMismatch => "session key is not bound to these endpoints",
            SecurityErrorKind::ProtocolMismatch => "session key is not bound to this protocol version",
            SecurityErrorKind::MissingSessionKey => "session key binding is missing",
        }
    }
}

impl SecurityError {
    #[verifier::allow_in_spec]
    pub fn of(kind: SecurityErrorKind) -> Self
        returns
            (SecurityError { kind, public_message: kind.message() }),
    {
        SecurityError { kind, public_message: kind.message() }
    }

    /// The text that may be shown to a user.
    pub fn display_text(&self) -> (text: String)
        ensures
            text@ == self.public_message@,
    {
        self.public_message.to_owned()
    }
}

/// What is wrong with the identity that was shown.
pub open spec fn identity_fault(identity: IdentityEvidence, expected: SecurityExpectation) -> Option<
    SecurityErrorKind,
> {
    if identity.peer_id@ != expected.peer_id@ {
        Some(SecurityErrorKind::PeerMismatch)
    } else if identity.public_key_fingerprint@ != expected.public_key_fingerprint@ {
        Some(SecurityErrorKind::KeyMismatch)
    } else if identity.key_epoch < expected.minimum_key_epoch {
        Some(SecurityErrorKind::KeyRotated)
    } else {
        match identity.status {
            IdentityStatus::Revoked => Some(SecurityErrorKind::IdentityRevoked),
            IdentityStatus::Rotated => Some(SecurityErrorKind::KeyRotated),
            IdentityStatus::Active { valid_until_unix_ms } => if expected.now_unix_ms
                >= valid_until_unix_ms {
                Some(SecurityErrorKind::IdentityExpired)
            } else {
                None
            },
        }
    }
}

/// What is wrong with the binding of the session key.
pub open spec fn binding_fault(
    session_key: Option<SessionKeyBinding>,
    expected: SecurityExpectation,
    key_required: bool,
    forward_secrecy_required: bool,
) -> Option<SecurityErrorKind> {
    match session_key {
        None => if key_required || forward_secrecy_required {
            Some(SecurityErrorKind::MissingSessionKey)
        } else {
            None
        },
        Some(binding) => if forward_secrecy_required && !binding.forward_secure {
            Some(SecurityErrorKind::ForwardSecrecyRequired)
        } else if binding.handshake_transcript_hash@ != expected.handshake_transcript_hash@ {
            Some(SecurityErrorKind::TranscriptMismatch)
        } else if binding.local_endpoint@ != expected.local_endpoint@ || binding.remote_endpoint@
            != expected.remote_endpoint@ {
            Some(SecurityErrorKind::EndpointMismatch)
        } else if binding.link_version != expected.link_version {
            Some(SecurityErrorKind::ProtocolMismatch)
        } else {
            None
        },
    }
}

/// What is wrong with the evidence of a transport under a policy.
pub open spec fn evidence_fault(
    evidence: TransportSecurityEvidence,
    expected: SecurityExpectation,
    policy: SecurityPolicy,
) -> Option<SecurityErrorKind> {
    let forward = policy.forward_secrecy == ForwardSecrecyPolicy::Required;
    if identity_fault(evidence.identity, expected) is Some {
        identity_fault(evidence.identity, expected)
    } else if !evidence.mutually_authenticated {
        Some(SecurityErrorKind::MutualAuthenticationRequired)
    } else if evidence.transport is Local {
        if policy.local_peer_credential == LocalPeerCredentialPolicy::Required
            && !evidence.local_peer_credential_verified {
            Some(SecurityErrorKind::LocalPeerCredentialRequired)
        } else {
            binding_fault(evidence.session_key, expected, false, forward)
        }
    } else if evidence.security_level == SecurityLevel::Plaintext {
        if policy.remote != RemoteSecurityPolicy::AllowExplicitDevelopmentPlaintext
            || !evidence.development_plaintext {
            Some(SecurityErrorKind::PlaintextForbidden)
        } else {
            binding_fault(evidence.session_key, expected, false, false)
        }
    } else if policy.remote == RemoteSecurityPolicy::AuthenticatedEncrypted && evidence.security_level
        != SecurityLevel::AuthenticatedEncrypted {
        Some(SecurityErrorKind::EncryptionRequired)
    } else {
        binding_fault(evidence.session_key, expected, true, forward)
    }
}

/// A result as a fault tells it.
pub open spec fn verdict(fault: Option<SecurityErrorKind>) -> Result<(), SecurityError> {
    match fault {
        None => Ok(()),
        Some(kind) => Err(SecurityError::of(kind)),
    }
}

/// Checks what a transport shows. The transport must have it from authenticated
/// sources, not from what the peer says of itself.
pub fn validate_transport_security(
    evidence: &TransportSecurityEvidence,
    expected: &SecurityExpectation,
    policy: SecurityPolicy,
) -> (valid: Result<(), SecurityError>)
    ensures
        valid == verdict(evidence_fault(*evidence, *expected, policy)),
{
    if !evidence.identity.peer_id.same(&expected.peer_id) {
        return Err(SecurityError::of(SecurityErrorKind::PeerMismatch));
    }
    if !bytes_equal(&evidence.identity.public_key_fingerprint, &expected.public_key_fingerprint) {
        return Err(SecurityError::of(SecurityErrorKind::KeyMismatch));
    }
    if evidence.identity.key_epoch < expected.minimum_key_epoch {
        return Err(SecurityError::of(SecurityErrorKind::KeyRotated));
    }
    match evidence.identity.status {
        IdentityStatus::Revoked => {
            return Err(SecurityError::of(SecurityErrorKind::IdentityRevoked));
        },
        IdentityStatus::Rotated => {
            return Err(SecurityError::of(SecurityErrorKind::KeyRotated));
        },
        IdentityStatus::Active { valid_until_unix_ms } => {
            if expected.now_unix_ms >= valid_until_unix_ms {
                return Err(SecurityError::of(SecurityErrorKind::IdentityExpired));
            }
        },
    }
    if !evidence.mutually_authenticated {
        return Err(SecurityError::of(SecurityErrorKind::MutualAuthenticationRequired));
    }
    let forward = policy.forward_secrecy == ForwardSecrecyPolicy::Required;
    if evidence.transport.same(TransportKind::Local) {
        if policy.local_peer_credential == LocalPeerCredentialPolicy::Required
            && !evidence.local_peer_credential_verified {
            return Err(SecurityError::of(SecurityErrorKind::LocalPeerCredentialRequired));
        }
        return validate_binding(evidence, expected, false, forward);
    }
    if evidence.security_level == SecurityLevel::Plaintext {
        if policy.remote != RemoteSecurityPolicy::AllowExplicitDevelopmentPlaintext
            || !evidence.development_plaintext {
            return Err(SecurityError::of(SecurityErrorKind::PlaintextForbidden));
        }
        return validate_binding(evidence, expected, false, false);
    }
    if policy.remote == RemoteSecurityPolicy::AuthenticatedEncrypted && evidence.security_level
        != SecurityLevel::AuthenticatedEncrypted {
        return Err(SecurityError::of(SecurityErrorKind::EncryptionRequired));
    }
    validate_binding(evidence, expected, true, forward)
}

fn validate_binding(
    evidence: &TransportSecurityEvidence,
    expected: &SecurityExpectation,
    remote_requires_key: bool,
    require_forward_secrecy: bool,
) -> (valid: Result<(), SecurityError>)
    ensures
        valid == verdict(
            binding_fault(
                evidence.session_key,
                *expected,
                remote_requires_key,
                require_forward_secrecy,
            ),
        ),
{
    match &evidence.session_key {
        None => {
            if remote_requires_key || require_forward_secrecy {
                return Err(SecurityError::of(SecurityErrorKind::MissingSessionKey));
            }
            Ok(())
        },
        Some(binding) => {
            if require_forward_secrecy && !binding.forward_secure {
                return Err(SecurityError::of(SecurityErrorKind::ForwardSecrecyRequired));
            }
            if !bytes_equal(&binding.handshake_transcript_hash, &expected.handshake_transcript_hash) {
                return Err(SecurityError::of(SecurityErrorKind::TranscriptMismatch));
            }
            if !binding.local_endpoint.same(&expected.local_endpoint)
                || !binding.remote_endpoint.same(&expected.remote_endpoint) {
                return Err(SecurityError::of(SecurityErrorKind::EndpointMismatch));
            }
            if binding.link_version != expected.link_version {
                return Err(SecurityError::of(SecurityErrorKind::ProtocolMismatch));
            }
            Ok(())
        },
    }
}

/// A session whose peer and transport met a policy. It can be had from
/// [`authenticate_session`] alone.
#[derive(Clone, Copy, Debug)]
pub struct AuthenticatedSession<'a> {
    session: &'a SessionInfo,
    evidence: &'a TransportSecurityEvidence,
}

impl<'a> AuthenticatedSession<'a> {
    pub closed spec fn session(&self) -> SessionInfo {
        *self.session
    }

    pub closed spec fn evidence(&self) -> TransportSecurityEvidence {
        *self.evidence
    }

    pub fn info(&self) -> (info: &'a SessionInfo)
        ensures
            *info == self.session(),
    {
        self.session
    }

    pub fn security(&self) -> (evidence: &'a TransportSecurityEvidence)
        ensures
            *evidence == self.evidence(),
    {
        self.evidence
    }
}

/// What is wrong with a session and its evidence.
pub open spec fn session_fault(
    session: SessionInfo,
    evidence: TransportSecurityEvidence,
    expected: SecurityExpectation,
    policy: SecurityPolicy,
) -> Option<SecurityErrorKind> {
    if session.peer_id@ != expected.peer_id@ {
        Some(SecurityErrorKind::PeerMismatch)
    } else {
        evidence_fault(evidence, expected, policy)
    }
}

/// Authenticates a session.
pub fn authenticate_session<'a>(
    session: &'a SessionInfo,
    evidence: &'a TransportSecurityEvidence,
    expected: &SecurityExpectation,
    policy: SecurityPolicy,
) -> (authenticated: Result<AuthenticatedSession<'a>, SecurityError>)
    ensures
        match session_fault(*session, *evidence, *expected, policy) {
            None => authenticated matches Ok(a) && a.session() == *session && a.evidence() == *evidence,
            Some(kind) => authenticated matches Err(e) && e == SecurityError::of(kind),
        },
{
    if !session.peer_id.same(&expected.peer_id) {
        return Err(SecurityError::of(SecurityErrorKind::PeerMismatch));
    }
    match validate_transport_security(evidence, expected, policy) {
        Ok(()) => Ok(AuthenticatedSession { session, evidence }),
        Err(fault) => Err(fault),
    }
}

/// Under the policy that asks for everything a transport passes only if it is
/// authenticated both ways, shows the expected and valid identity, and has a
/// forward-secure key that is bound to this handshake, these endpoints and this
/// version; a remote one must be encrypted, a local one must have verified the peer.
pub proof fn strict_policy_admits_no_less(evidence: TransportSecurityEvidence, expected: SecurityExpectation)
    requires
        evidence_fault(evidence, expected, strict_policy()) is None,
    ensures
        evidence.mutually_authenticated,
        evidence.identity.peer_id@ == expected.peer_id@,
        evidence.identity.public_key_fingerprint@ == expected.public_key_fingerprint@,
        evidence.identity.key_epoch >= expected.minimum_key_epoch,
        evidence.identity.status matches IdentityStatus::Active { valid_until_unix_ms }
            && expected.now_unix_ms < valid_until_unix_ms,
        evidence.session_key matches Some(key) && key.forward_secure && key.handshake_transcript_hash@
            == expected.handshake_transcript_hash@ && key.local_endpoint@ == expected.local_endpoint@
            && key.remote_endpoint@ == expected.remote_endpoint@ && key.link_version
            == expected.link_version,
        if evidence.transport is Local {
            evidence.local_peer_credential_verified
        } else {
            evidence.security_level == SecurityLevel::AuthenticatedEncrypted
        },
{
}

/// Plaintext passes only where the policy allows it and the connection was made for
/// development, and a local transport aside.
pub proof fn plaintext_is_explicit(
    evidence: TransportSecurityEvidence,
    expected: SecurityExpectation,
    policy: SecurityPolicy,
)
    requires
        evidence_fault(evidence, expected, policy) is None,
        evidence.security_level == SecurityLevel::Plaintext,
        !(evidence.transport is Local),
    ensures
        policy.remote == RemoteSecurityPolicy::AllowExplicitDevelopmentPlaintext,
        evidence.development_plaintext,
{
}

/// No policy lets an identity pass that was revoked, was replaced or has expired.
pub proof fn spent_identities_are_refused(
    evidence: TransportSecurityEvidence,
    expected: SecurityExpectation,
    policy: SecurityPolicy,
)
    requires
        match evidence.identity.status {
            IdentityStatus::Active { valid_until_unix_ms } => expected.now_unix_ms
                >= valid_until_unix_ms,
            _ => true,
        },
    ensures
        evidence_fault(evidence, expected, policy) is Some,
{
}

/// Whether the identity that was shown is the one that is expected, with a key that is
/// active and young enough.
pub open spec fn identity_holds(identity: IdentityEvidence, expected: SecurityExpectation) -> bool {
    &&& identity.peer_id@ == expected.peer_id@
    &&& identity.public_key_fingerprint@ == expected.public_key_fingerprint@
    &&& expected.minimum_key_epoch <= identity.key_epoch
    &&& identity.status matches IdentityStatus::Active { valid_until_unix_ms }
    &&& expected.now_unix_ms < valid_until_unix_ms
}

/// Whether a session key is bound to the handshake, the endpoints and the version that are
/// expected.
pub open spec fn key_holds(key: SessionKeyBinding, expected: SecurityExpectation) -> bool {
    &&& key.handshake_transcript_hash@ == expected.handshake_transcript_hash@
    &&& key.local_endpoint@ == expected.local_endpoint@
    &&& key.remote_endpoint@ == expected.remote_endpoint@
    &&& key.link_version == expected.link_version
}

/// What is expected is accepted under every policy: the identity holds, both sides are
/// authenticated, the transport encrypts or is a local one with the credential of its peer,
/// and a forward secure key is bound to the session.
pub proof fn complete_evidence_is_accepted(
    evidence: TransportSecurityEvidence,
    expected: SecurityExpectation,
    policy: SecurityPolicy,
    session: SessionInfo,
)
    requires
        identity_holds(evidence.identity, expected),
        evidence.mutually_authenticated,
        evidence.transport is Local && evidence.local_peer_credential_verified || !(evidence.transport
            is Local) && evidence.security_level == SecurityLevel::AuthenticatedEncrypted,
        evidence.session_key matches Some(key) && key.forward_secure && key_holds(key, expected),
    ensures
        evidence_fault(evidence, expected, policy) is None,
        session.peer_id@ == expected.peer_id@ ==> session_fault(session, evidence, expected, policy)
            is None,
        session.peer_id@ != expected.peer_id@ ==> session_fault(session, evidence, expected, policy)
            == Some(SecurityErrorKind::PeerMismatch),
        verdict(evidence_fault(evidence, expected, policy)) is Ok,
{
}

/// What a policy leaves optional is not asked for: forward secrecy, the credential of a
/// local peer, and a key for a local transport without forward secrecy.
pub proof fn optional_evidence_is_not_asked_for(
    evidence: TransportSecurityEvidence,
    expected: SecurityExpectation,
    policy: SecurityPolicy,
)
    requires
        identity_holds(evidence.identity, expected),
        evidence.mutually_authenticated,
        policy.forward_secrecy == ForwardSecrecyPolicy::Optional,
        evidence.session_key matches Some(key) ==> key_holds(key, expected),
    ensures
        evidence.transport is Local && policy.local_peer_credential == LocalPeerCredentialPolicy::Optional
            ==> evidence_fault(evidence, expected, policy) is None,
        evidence.transport is Local && policy.local_peer_credential == LocalPeerCredentialPolicy::Required
            ==> evidence_fault(evidence, expected, policy) == (if evidence.local_peer_credential_verified {
            None
        } else {
            Some(SecurityErrorKind::LocalPeerCredentialRequired)
        }),
        !(evidence.transport is Local) && evidence.security_level
            == SecurityLevel::AuthenticatedEncrypted ==> evidence_fault(evidence, expected, policy) == (
        if evidence.session_key is Some {
            None
        } else {
            Some(SecurityErrorKind::MissingSessionKey)
        }),
{
}

/// Of remote transports without encryption, plaintext is accepted exactly where the policy
/// allows it and it says that it is meant for development; one that authenticates is
/// accepted where plaintext would be, with a key.
pub proof fn unencrypted_transports_need_the_policy(
    evidence: TransportSecurityEvidence,
    expected: SecurityExpectation,
    policy: SecurityPolicy,
)
    requires
        identity_holds(evidence.identity, expected),
        evidence.mutually_authenticated,
        !(evidence.transport is Local),
        evidence.session_key matches Some(key) && key.forward_secure && key_holds(key, expected),
    ensures
        evidence.security_level == SecurityLevel::Plaintext ==> evidence_fault(evidence, expected, policy)
            == (if policy.remote == RemoteSecurityPolicy::AllowExplicitDevelopmentPlaintext
            && evidence.development_plaintext {
            None
        } else {
            Some(SecurityErrorKind::PlaintextForbidden)
        }),
        evidence.security_level == SecurityLevel::Authenticated ==> evidence_fault(
            evidence,
            expected,
            policy,
        ) == (if policy.remote == RemoteSecurityPolicy::AuthenticatedEncrypted {
            Some(SecurityErrorKind::EncryptionRequired)
        } else {
            None
        }),
{
}

/// Evidence that lacks one thing is refused for that.
pub proof fn what_is_missing_is_told(
    evidence: TransportSecurityEvidence,
    expected: SecurityExpectation,
    policy: SecurityPolicy,
)
    ensures
        evidence.identity.peer_id@ != expected.peer_id@ ==> evidence_fault(evidence, expected, policy)
            == Some(SecurityErrorKind::PeerMismatch),
        evidence.identity.peer_id@ == expected.peer_id@ && evidence.identity.public_key_fingerprint@
            != expected.public_key_fingerprint@ ==> evidence_fault(evidence, expected, policy) == Some(
            SecurityErrorKind::KeyMismatch,
        ),
        evidence.identity.peer_id@ == expected.peer_id@ && evidence.identity.public_key_fingerprint@
            == expected.public_key_fingerprint@ && evidence.identity.key_epoch
            < expected.minimum_key_epoch ==> evidence_fault(evidence, expected, policy) == Some(
            SecurityErrorKind::KeyRotated,
        ),
        evidence.identity.peer_id@ == expected.peer_id@ && evidence.identity.public_key_fingerprint@
            == expected.public_key_fingerprint@ && evidence.identity.key_epoch
            >= expected.minimum_key_epoch ==> {
            &&& evidence.identity.status is Revoked ==> evidence_fault(evidence, expected, policy)
                == Some(SecurityErrorKind::IdentityRevoked)
            &&& evidence.identity.status is Rotated ==> evidence_fault(evidence, expected, policy)
                == Some(SecurityErrorKind::KeyRotated)
            &&& evidence.identity.status is Active && evidence.identity.status->valid_until_unix_ms
                <= expected.now_unix_ms ==> evidence_fault(evidence, expected, policy) == Some(
                SecurityErrorKind::IdentityExpired,
            )
        },
        identity_holds(evidence.identity, expected) && !evidence.mutually_authenticated
            ==> evidence_fault(evidence, expected, policy) == Some(
            SecurityErrorKind::MutualAuthenticationRequired,
        ),
{
}

/// A key that is bound to something else is refused, whatever is required of it.
pub proof fn foreign_keys_are_refused(
    key: SessionKeyBinding,
    expected: SecurityExpectation,
    key_required: bool,
    forward_secrecy_required: bool,
)
    ensures
        key_holds(key, expected) ==> binding_fault(
            Some(key),
            expected,
            key_required,
            forward_secrecy_required,
        ) == (if forward_secrecy_required && !key.forward_secure {
            Some(SecurityErrorKind::ForwardSecrecyRequired)
        } else {
            None
        }),
        key.forward_secure && key.handshake_transcript_hash@ != expected.handshake_transcript_hash@
            ==> binding_fault(Some(key), expected, key_required, forward_secrecy_required) == Some(
            SecurityErrorKind::TranscriptMismatch,
        ),
        key.forward_secure && key.handshake_transcript_hash@ == expected.handshake_transcript_hash@ && (
        key.local_endpoint@ != expected.local_endpoint@ || key.remote_endpoint@
            != expected.remote_endpoint@) ==> binding_fault(
            Some(key),
            expected,
            key_required,
            forward_secrecy_required,
        ) == Some(SecurityErrorKind::EndpointMismatch),
        key_holds(SessionKeyBinding { link_version: expected.link_version, ..key }, expected)
            && key.forward_secure && key.link_version != expected.link_version ==> binding_fault(
            Some(key),
            expected,
            key_required,
            forward_secrecy_required,
        ) == Some(SecurityErrorKind::ProtocolMismatch),
{
}

} // verus!
