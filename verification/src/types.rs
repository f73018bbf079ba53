use vstd::prelude::*;

use crate::bytes::{byte_strings, copy_byte_strings, copy_bytes};

verus! {

/// A registered passkey credential.
pub struct Credential {
    /// Uncompressed secp256r1 (P-256) public key, 65 bytes (0x04 || X || Y).
    pub public_key: [u8; 65],
    /// Last seen WebAuthn signature counter. 0 together with an asserted 0 means
    /// counter checking is skipped (platform authenticator compatibility mode).
    pub counter: u32,
}

impl Clone for Credential {
    fn clone(&self) -> (copy: Self)
        ensures
            copy == *self,
    {
        Credential { public_key: self.public_key, counter: self.counter }
    }
}

/// The WebAuthn assertion handed to the account check.
pub struct WebAuthnAssertion {
    /// The credential ID identifying which registered key to verify against.
    pub credential_id: Vec<u8>,
    /// authenticatorData bytes from the WebAuthn assertion.
    pub authenticator_data: Vec<u8>,
    /// clientDataJSON bytes from the WebAuthn assertion.
    pub client_data_json: Vec<u8>,
    /// The raw secp256r1 signature (r || s) over
    /// SHA-256(authenticatorData || SHA-256(clientDataJSON)).
    pub signature: [u8; 64],
}

/// Account errors.
#[derive(Copy, Clone, Debug, PartialEq, Eq, Structural)]
pub enum AccountError {
    /// Contract has already been initialized.
    AlreadyInitialized,
    /// The referenced credential_id is not registered.
    CredentialNotFound,
    /// The signature counter was not strictly greater than the stored counter.
    CounterNotIncreased,
    /// The origin in clientDataJSON does not match the allow-listed origin.
    OriginMismatch,
    /// The secp256r1 signature verification failed.
    InvalidSignature,
    /// Attempt to remove the last remaining signer.
    CannotRemoveLastSigner,
    /// clientDataJSON is malformed or missing required fields.
    MalformedClientData,
    /// authenticatorData is malformed (too short).
    MalformedAuthenticatorData,
    /// The caller is not a registered guardian.
    NotAGuardian,
    /// A recovery is already pending.
    RecoveryAlreadyPending,
    /// No recovery is currently pending.
    NoRecoveryPending,
    /// This guardian has already approved the pending recovery.
    AlreadyApproved,
    /// Threshold has not been met.
    ThresholdNotMet,
    /// The recovery timelock has not yet elapsed.
    TimelockNotElapsed,
    /// The recovery threshold value is invalid (must be >= 1 and <= guardian count).
    InvalidThreshold,
}

impl AccountError {
    /// The numeric error code of the variant, as the contract reports it.
    pub fn code(&self) -> (code: u32)
        ensures
            code == self.spec_code(),
    {
        match self {
            AccountError::AlreadyInitialized => 1,
            AccountError::CredentialNotFound => 2,
            AccountError::CounterNotIncreased => 3,
            AccountError::OriginMismatch => 4,
            AccountError::InvalidSignature => 5,
            AccountError::CannotRemoveLastSigner => 6,
            AccountError::MalformedClientData => 7,
            AccountError::MalformedAuthenticatorData => 8,
            AccountError::NotAGuardian => 9,
            AccountError::RecoveryAlreadyPending => 10,
            AccountError::NoRecoveryPending => 11,
            AccountError::AlreadyApproved => 12,
            AccountError::ThresholdNotMet => 13,
            AccountError::TimelockNotElapsed => 14,
            AccountError::InvalidThreshold => 15,
        }
    }

    /// The numeric error code of each variant.
    pub open spec fn spec_code(&self) -> u32 {
        match self {
            AccountError::AlreadyInitialized => 1,
            AccountError::CredentialNotFound => 2,
            AccountError::CounterNotIncreased => 3,
            AccountError::OriginMismatch => 4,
            AccountError::InvalidSignature => 5,
            AccountError::CannotRemoveLastSigner => 6,
            AccountError::MalformedClientData => 7,
            AccountError::MalformedAuthenticatorData => 8,
            AccountError::NotAGuardian => 9,
            AccountError::RecoveryAlreadyPending => 10,
            AccountError::NoRecoveryPending => 11,
            AccountError::AlreadyApproved => 12,
            AccountError::ThresholdNotMet => 13,
            AccountError::TimelockNotElapsed => 14,
            AccountError::InvalidThreshold => 15,
        }
    }
}

/// A pending social recovery request.
pub struct RecoveryRequest {
    /// The guardian (address key) who initiated the recovery.
    pub proposer: Vec<u8>,
    /// The credential ID to be added as a new signer upon successful recovery.
    pub new_credential_id: Vec<u8>,
    /// The public key associated with the new credential.
    pub new_public_key: [u8; 65],
    /// Ledger timestamp (Unix seconds) when the recovery was initiated.
    pub initiated_at: u64,
    /// Guardian address keys that have approved this recovery.
    pub approvals: Vec<Vec<u8>>,
}

/// What a pending recovery request holds, as plain values.
pub struct RecoveryView {
    pub proposer: Seq<u8>,
    pub new_credential_id: Seq<u8>,
    pub new_public_key: [u8; 65],
    pub initiated_at: u64,
    pub approvals: Seq<Seq<u8>>,
}

impl View for RecoveryRequest {
    type V = RecoveryView;

    open spec fn view(&self) -> RecoveryView {
        RecoveryView {
            proposer: self.proposer@,
            new_credential_id: self.new_credential_id@,
            new_public_key: self.new_public_key,
            initiated_at: self.initiated_at,
            approvals: byte_strings(self.approvals@),
        }
    }
}

impl RecoveryRequest {
    /// A field-by-field copy of the request.
    pub fn copy(&self) -> (copy: RecoveryRequest)
        ensures
            copy@ == self@,
    {
        RecoveryRequest {
            proposer: copy_bytes(self.proposer.as_slice()),
            new_credential_id: copy_bytes(self.new_credential_id.as_slice()),
            new_public_key: self.new_public_key,
            initiated_at: self.initiated_at,
            approvals: copy_byte_strings(&self.approvals),
        }
    }
}

} // verus!
