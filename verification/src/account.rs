use vstd::prelude::*;

use soroban_sdk::Env;

use crate::base64url::{base64url, base64url_encode};
use crate::bytes::{byte_strings, bytes_eq, copy_bytes, lemma_without_keeps, remove_all, without};
use crate::crypto::{sha256, sha256_digest};
use crate::storage::{
    account_invariant, get_allowed_origin_val, get_credential, get_credential_list,
    remove_credential, set_allowed_origin, set_credential, set_credential_list, set_initialized,
    stored_credential, AccountStorage, StorageView,
};
use crate::types::{AccountError, Credential, WebAuthnAssertion};
use crate::webauthn::{
    authenticator_counter, challenge_in, extract_challenge_from_client_data_json,
    extract_origin_from_client_data_json, origin_in, parse_counter_from_authenticator_data,
};

verus! {

/// The passkey account: its entry points are transitions on [`AccountStorage`].
pub struct PasskeyAccount;

/// A newly registered credential: the given key, counter 0.
pub open spec fn fresh_credential(public_key: [u8; 65]) -> Credential {
    Credential { public_key, counter: 0 }
}

/// The 32-byte digest that a WebAuthn authenticator signs:
/// SHA-256(authenticatorData || SHA-256(clientDataJSON)).
pub open spec fn webauthn_message_digest(authenticator_data: Seq<u8>, client_data_json: Seq<u8>) -> Seq<
    u8,
> {
    sha256_digest(authenticator_data + sha256_digest(client_data_json))
}

/// Whether an asserted signature counter is accepted against the stored one:
/// both 0 (compatibility mode), or strictly greater than the stored one.
pub open spec fn counter_accepted(stored: u32, asserted: int) -> bool {
    (stored == 0 && asserted == 0) || asserted > stored
}

/// The origin check's outcome for a clientDataJSON against the allow-listed origin.
pub open spec fn origin_verdict(allowed_origin: Option<Seq<u8>>, client_data_json: Seq<u8>) -> Result<
    (),
    AccountError,
> {
    match allowed_origin {
        None => Err(AccountError::OriginMismatch),
        Some(allowed) => match origin_in(client_data_json) {
            None => Err(AccountError::MalformedClientData),
            Some(presented) => if presented == allowed {
                Ok(())
            } else {
                Err(AccountError::OriginMismatch)
            },
        },
    }
}

/// The challenge check's outcome: clientDataJSON must carry the unpadded base64url
/// encoding of the signed payload as its challenge.
pub open spec fn challenge_verdict(client_data_json: Seq<u8>, payload: Seq<u8>) -> Result<
    (),
    AccountError,
> {
    match challenge_in(client_data_json) {
        None => Err(AccountError::MalformedClientData),
        Some(challenge) => if challenge == base64url(payload) {
            Ok(())
        } else {
            Err(AccountError::InvalidSignature)
        },
    }
}

/// The state after an accepted counter: the stored counter moves up to the asserted
/// one when it is greater, and stays put in compatibility mode.
pub open spec fn after_counter(s: StorageView, id: Seq<u8>, c: Credential, asserted: int) -> StorageView {
    if asserted > c.counter {
        StorageView {
            credentials: s.credentials.insert(
                id,
                Credential { public_key: c.public_key, counter: asserted as u32 },
            ),
            ..s
        }
    } else {
        s
    }
}

/// What the host has to check of an assertion: the stored public key, the digest
/// the authenticator signed, and the signature.
pub struct SignatureCheck {
    /// The public key registered for the asserted credential.
    pub public_key: [u8; 65],
    /// SHA-256(authenticatorData || SHA-256(clientDataJSON)).
    pub message_digest: [u8; 32],
    /// The raw (r || s) signature of the assertion.
    pub signature: [u8; 64],
}

/// The digest a WebAuthn authenticator signs for the given assertion bytes.
pub fn signed_message_digest(env: &Env, authenticator_data: &[u8], client_data_json: &[u8]) -> (digest:
    [u8; 32])
    requires
        authenticator_data@.len() + 32 <= u32::MAX,
        client_data_json@.len() <= u32::MAX,
    ensures
        digest@ == webauthn_message_digest(authenticator_data@, client_data_json@),
        digest@ == sha256_digest(authenticator_data@ + sha256_digest(client_data_json@)),
{
    let client_data_hash = sha256(env, client_data_json);
    let mut msg = copy_bytes(authenticator_data);
    let mut k: usize = 0;
    while k < 32
        invariant
            0 <= k <= 32,
            msg@ == authenticator_data@ + client_data_hash@.subrange(0, k as int),
        decreases 32 - k,
    {
        msg.push(client_data_hash[k]);
        k = k + 1;
        assert(msg@ =~= authenticator_data@ + client_data_hash@.subrange(0, k as int));
    }
    assert(client_data_hash@.subrange(0, 32) =~= client_data_hash@);
    sha256(env, msg.as_slice())
}

impl PasskeyAccount {
    /// Register the first passkey and configure the origin allow-list at deploy time.
    pub fn initialize(
        storage: &mut AccountStorage,
        credential_id: Vec<u8>,
        public_key: [u8; 65],
        allowed_origin: Vec<u8>,
    )
        requires
            !old(storage)@.initialized,
        ensures
            final(storage)@ == (StorageView {
                initialized: true,
                allowed_origin: Some(allowed_origin@),
                credentials: old(storage)@.credentials.insert(
                    credential_id@,
                    fresh_credential(public_key),
                ),
                credential_list: seq![credential_id@],
                ..old(storage)@
            }),
            account_invariant(old(storage)@) ==> account_invariant(final(storage)@),
    {
        set_allowed_origin(storage, allowed_origin.as_slice());
        let credential = Credential { public_key, counter: 0 };
        set_credential(storage, credential_id.as_slice(), &credential);
        let mut list: Vec<Vec<u8>> = Vec::new();
        list.push(credential_id);
        proof {
            assert(byte_strings(list@) =~= seq![credential_id@]);
        }
        set_credential_list(storage, &list);
        set_initialized(storage);
    }

    /// Add a new passkey signer: stores the credential with counter 0 (replacing any
    /// credential under the same ID) and appends its ID to the credential list.
    pub fn add_signer(storage: &mut AccountStorage, credential_id: Vec<u8>, public_key: [u8; 65])
        ensures
            final(storage)@ == (StorageView {
                credentials: old(storage)@.credentials.insert(
                    credential_id@,
                    fresh_credential(public_key),
                ),
                credential_list: old(storage)@.credential_list.push(credential_id@),
                ..old(storage)@
            }),
            account_invariant(old(storage)@) ==> account_invariant(final(storage)@),
    {
        let credential = Credential { public_key, counter: 0 };
        set_credential(storage, credential_id.as_slice(), &credential);
        let mut list = get_credential_list(storage);
        let ghost before = list@;
        list.push(credential_id);
        proof {
            assert(byte_strings(list@) =~= byte_strings(before).push(credential_id@));
        }
        set_credential_list(storage, &list);
    }

    /// Remove a passkey signer: drops its credential and every occurrence of its ID
    /// from the credential list. Not allowed while the list holds one entry or none,
    /// nor when no other signer would remain.
    pub fn remove_signer(storage: &mut AccountStorage, credential_id: Vec<u8>)
        requires
            old(storage)@.credential_list.len() > 1,
            exists|other: Seq<u8>|
                old(storage)@.credential_list.contains(other) && other != credential_id@,
        ensures
            final(storage)@ == (StorageView {
                credentials: old(storage)@.credentials.remove(credential_id@),
                credential_list: without(old(storage)@.credential_list, credential_id@),
                ..old(storage)@
            }),
            final(storage)@.credential_list.len() > 0,
            account_invariant(old(storage)@) ==> account_invariant(final(storage)@),
    {
        proof {
            let other = choose|other: Seq<u8>|
                old(storage)@.credential_list.contains(other) && other != credential_id@;
            lemma_without_keeps(old(storage)@.credential_list, credential_id@, other);
        }
        let list = get_credential_list(storage);
        remove_credential(storage, credential_id.as_slice());
        let new_list = remove_all(&list, credential_id.as_slice());
        set_credential_list(storage, &new_list);
    }

    /// List all registered credential IDs.
    pub fn list_credentials(storage: &AccountStorage) -> (list: Vec<Vec<u8>>)
        ensures
            byte_strings(list@) == storage@.credential_list,
    {
        get_credential_list(storage)
    }

    /// Get the current stored counter for a credential (0 if not found).
    pub fn get_counter(storage: &AccountStorage, credential_id: &[u8]) -> (counter: u32)
        ensures
            counter == match stored_credential(storage@, credential_id@) {
                Some(c) => c.counter,
                None => 0,
            },
    {
        match get_credential(storage, credential_id) {
            Some(c) => c.counter,
            None => 0,
        }
    }

    /// Get the configured allowed origin; the account must have one.
    pub fn get_allowed_origin(storage: &AccountStorage) -> (origin: Vec<u8>)
        requires
            storage@.allowed_origin is Some,
        ensures
            storage@.allowed_origin == Some(origin@),
    {
        match get_allowed_origin_val(storage) {
            Some(o) => o,
            None => {
                proof {
                    assert(false);
                }
                Vec::new()
            },
        }
    }

    /// First half of the passkey check: look up the asserted credential and compute
    /// the digest its authenticator signed. The host's secp256r1 check of the
    /// returned key, digest and signature comes next.
    pub fn prepare_check_auth(
        env: &Env,
        storage: &AccountStorage,
        signature_args: &WebAuthnAssertion,
    ) -> (check: Result<SignatureCheck, AccountError>)
        requires
            signature_args.authenticator_data@.len() + 32 <= u32::MAX,
            signature_args.client_data_json@.len() <= u32::MAX,
        ensures
            match stored_credential(storage@, signature_args.credential_id@) {
                None => check == Err::<SignatureCheck, AccountError>(
                    AccountError::CredentialNotFound,
                ),
                Some(c) => check matches Ok(chk) && chk.public_key == c.public_key
                    && chk.message_digest@ == webauthn_message_digest(
                    signature_args.authenticator_data@,
                    signature_args.client_data_json@,
                ) && chk.signature == signature_args.signature,
            },
    {
        let credential = match get_credential(storage, signature_args.credential_id.as_slice()) {
            Some(c) => c,
            None => {
                return Err(AccountError::CredentialNotFound);
            },
        };
        let message_digest = signed_message_digest(
            env,
            signature_args.authenticator_data.as_slice(),
            signature_args.client_data_json.as_slice(),
        );
        Ok(SignatureCheck {
            public_key: credential.public_key,
            message_digest,
            signature: signature_args.signature,
        })
    }

    /// Second half of the passkey check, once the host has accepted the signature:
    /// counter replay defence, origin validation, and the binding of the assertion
    /// to the signed payload.
    ///
    /// The asserted counter must exceed the stored one, or both must be 0
    /// (compatibility mode); the origin in clientDataJSON must equal the
    /// allow-listed one; the challenge in clientDataJSON must be the unpadded
    /// base64url encoding of `signature_payload`, else the assertion does not sign
    /// this payload (`InvalidSignature`). Only when every check passes is the stored
    /// counter moved up to the asserted one; a rejected assertion changes nothing.
    pub fn complete_check_auth(
        storage: &mut AccountStorage,
        signature_payload: [u8; 32],
        signature_args: &WebAuthnAssertion,
    ) -> (result: Result<(), AccountError>)
        ensures
            ({
                let s = old(storage)@;
                let id = signature_args.credential_id@;
                let data = signature_args.authenticator_data@;
                let json = signature_args.client_data_json@;
                match stored_credential(s, id) {
                    None => result == Err::<(), AccountError>(AccountError::CredentialNotFound),
                    Some(c) => if data.len() < 37 {
                        result == Err::<(), AccountError>(AccountError::MalformedAuthenticatorData)
                    } else if !counter_accepted(c.counter, authenticator_counter(data)) {
                        result == Err::<(), AccountError>(AccountError::CounterNotIncreased)
                    } else if origin_verdict(s.allowed_origin, json) is Err {
                        result == origin_verdict(s.allowed_origin, json)
                    } else {
                        result == challenge_verdict(json, signature_payload@) && (result is Ok
                            ==> final(storage)@ == after_counter(
                            s,
                            id,
                            c,
                            authenticator_counter(data),
                        ))
                    },
                }
            }),
            result is Err ==> final(storage)@ == old(storage)@,
            account_invariant(old(storage)@) ==> account_invariant(final(storage)@),
            result is Ok ==> challenge_in(signature_args.client_data_json@) == Some(
                base64url(signature_payload@),
            ),
            match stored_credential(old(storage)@, signature_args.credential_id@) {
                Some(c) => (signature_args.authenticator_data@.len() >= 37 && c.counter
                    < authenticator_counter(signature_args.authenticator_data@) ==> result
                    != Err::<(), AccountError>(AccountError::CounterNotIncreased)) && (result is Ok
                    && c.counter < authenticator_counter(signature_args.authenticator_data@)
                    ==> stored_credential(final(storage)@, signature_args.credential_id@) == Some(
                    Credential {
                        public_key: c.public_key,
                        counter: authenticator_counter(signature_args.authenticator_data@) as u32,
                    },
                )) && (result is Ok && c.counter > 0 ==> c.counter < authenticator_counter(
                    signature_args.authenticator_data@,
                )),
                None => result == Err::<(), AccountError>(AccountError::CredentialNotFound),
            },
    {
        let mut credential = match get_credential(storage, signature_args.credential_id.as_slice()) {
            Some(c) => c,
            None => {
                return Err(AccountError::CredentialNotFound);
            },
        };
        let asserted_counter = match parse_counter_from_authenticator_data(
            signature_args.authenticator_data.as_slice(),
        ) {
            Ok(c) => c,
            Err(e) => {
                return Err(e);
            },
        };
        let stored_counter = credential.counter;
        let advances = asserted_counter > stored_counter;
        if !(stored_counter == 0 && asserted_counter == 0) && !advances {
            return Err(AccountError::CounterNotIncreased);
        }
        let allowed_origin = match get_allowed_origin_val(storage) {
            Some(o) => o,
            None => {
                return Err(AccountError::OriginMismatch);
            },
        };
        let origin_from_client_data = match extract_origin_from_client_data_json(
            signature_args.client_data_json.as_slice(),
        ) {
            Ok(o) => o,
            Err(e) => {
                return Err(e);
            },
        };
        if !bytes_eq(origin_from_client_data.as_slice(), allowed_origin.as_slice()) {
            return Err(AccountError::OriginMismatch);
        }
        let challenge = match extract_challenge_from_client_data_json(
            signature_args.client_data_json.as_slice(),
        ) {
            Ok(c) => c,
            Err(e) => {
                return Err(e);
            },
        };
        let expected = base64url_encode(signature_payload.as_slice());
        if !bytes_eq(challenge.as_slice(), expected.as_slice()) {
            return Err(AccountError::InvalidSignature);
        }
        if advances {
            credential.counter = asserted_counter;
            set_credential(storage, signature_args.credential_id.as_slice(), &credential);
        }
        Ok(())
    }
}

} // verus!
