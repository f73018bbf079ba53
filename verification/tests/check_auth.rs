use soroban_passkey_account::{
    base64url_encode, extract_challenge_from_client_data_json, signed_message_digest,
    AccountError, AccountStorage, PasskeyAccount, WebAuthnAssertion,
};
use soroban_sdk::testutils::EnvTestConfig;
use soroban_sdk::Env;

fn test_env() -> Env {
    Env::new_with_config(EnvTestConfig { capture_snapshot_at_drop: false })
}

fn make_auth_data(counter: u32) -> Vec<u8> {
    let mut buf = [0u8; 37];
    for i in 0..32 {
        buf[i] = i as u8;
    }
    buf[32] = 0x05;
    buf[33] = ((counter >> 24) & 0xFF) as u8;
    buf[34] = ((counter >> 16) & 0xFF) as u8;
    buf[35] = ((counter >> 8) & 0xFF) as u8;
    buf[36] = (counter & 0xFF) as u8;
    buf.to_vec()
}

fn make_client_data_json(origin: &str) -> Vec<u8> {
    let mut json = b"{\"type\":\"webauthn.get\",\"challenge\":\"AAAAAAAAAAAAAAAAAAAAAA\",\"origin\":\"".to_vec();
    json.extend_from_slice(origin.as_bytes());
    json.extend_from_slice(b"\"}");
    json
}

/// The transaction payload the assertions below sign.
const PAYLOAD: [u8; 32] = [0x11u8; 32];

/// base64url(PAYLOAD), without padding.
const PAYLOAD_CHALLENGE: &str = "ERERERERERERERERERERERERERERERERERERERERERE";

fn make_bound_client_data_json(challenge: &str, origin: &str) -> Vec<u8> {
    let mut json = b"{\"type\":\"webauthn.get\",\"challenge\":\"".to_vec();
    json.extend_from_slice(challenge.as_bytes());
    json.extend_from_slice(b"\",\"origin\":\"");
    json.extend_from_slice(origin.as_bytes());
    json.extend_from_slice(b"\"}");
    json
}

fn assertion(cred: &[u8], counter: u32, origin: &str) -> WebAuthnAssertion {
    WebAuthnAssertion {
        credential_id: cred.to_vec(),
        authenticator_data: make_auth_data(counter),
        client_data_json: make_bound_client_data_json(PAYLOAD_CHALLENGE, origin),
        signature: [0xABu8; 64],
    }
}

fn setup() -> (AccountStorage, Vec<u8>) {
    let mut storage = AccountStorage::new();
    let cred = vec![7u8; 32];
    PasskeyAccount::initialize(&mut storage, cred.clone(), [4u8; 65], b"https://app.example.com".to_vec());
    (storage, cred)
}

const EXPECTED_DIGEST_COUNTER_42: [u8; 32] = [
    98, 38, 154, 30, 87, 20, 150, 33, 30, 155, 14, 157, 241, 254, 157, 213, 170, 236, 116, 138, 130,
    214, 17, 228, 253, 89, 130, 164, 12, 122, 169, 105,
];

#[test]
fn test_signed_message_digest_known_value() {
    let env = test_env();
    let ad = make_auth_data(42);
    let cdj = make_client_data_json("https://app.example.com");
    assert_eq!(signed_message_digest(&env, &ad, &cdj), EXPECTED_DIGEST_COUNTER_42);
}

#[test]
fn test_prepare_check_auth_returns_key_digest_and_signature() {
    let env = test_env();
    let (storage, cred) = setup();
    let a = WebAuthnAssertion {
        credential_id: cred.clone(),
        authenticator_data: make_auth_data(42),
        client_data_json: make_client_data_json("https://app.example.com"),
        signature: [0xABu8; 64],
    };
    let check = PasskeyAccount::prepare_check_auth(&env, &storage, &a).unwrap();
    assert_eq!(check.public_key, [4u8; 65]);
    assert_eq!(check.message_digest, EXPECTED_DIGEST_COUNTER_42);
    assert_eq!(check.signature, [0xABu8; 64]);
}

#[test]
fn test_prepare_check_auth_unknown_credential() {
    let env = test_env();
    let (storage, _) = setup();
    let a = assertion(&[1u8; 32], 1, "https://app.example.com");
    assert!(matches!(
        PasskeyAccount::prepare_check_auth(&env, &storage, &a),
        Err(AccountError::CredentialNotFound)
    ));
}

#[test]
fn test_complete_check_auth_updates_counter() {
    let (mut storage, cred) = setup();
    let a = assertion(&cred, 5, "https://app.example.com");
    assert_eq!(PasskeyAccount::complete_check_auth(&mut storage, PAYLOAD, &a), Ok(()));
    assert_eq!(PasskeyAccount::get_counter(&storage, &cred), 5);
}

#[test]
fn test_complete_check_auth_replay_rejected() {
    let (mut storage, cred) = setup();
    let a = assertion(&cred, 5, "https://app.example.com");
    assert_eq!(PasskeyAccount::complete_check_auth(&mut storage, PAYLOAD, &a), Ok(()));
    assert_eq!(
        PasskeyAccount::complete_check_auth(&mut storage, PAYLOAD, &a),
        Err(AccountError::CounterNotIncreased)
    );
    let older = assertion(&cred, 4, "https://app.example.com");
    assert_eq!(
        PasskeyAccount::complete_check_auth(&mut storage, PAYLOAD, &older),
        Err(AccountError::CounterNotIncreased)
    );
    assert_eq!(PasskeyAccount::get_counter(&storage, &cred), 5);
}

#[test]
fn test_complete_check_auth_counter_zero_compatibility() {
    let (mut storage, cred) = setup();
    let a = assertion(&cred, 0, "https://app.example.com");
    assert_eq!(PasskeyAccount::complete_check_auth(&mut storage, PAYLOAD, &a), Ok(()));
    assert_eq!(PasskeyAccount::complete_check_auth(&mut storage, PAYLOAD, &a), Ok(()));
    assert_eq!(PasskeyAccount::get_counter(&storage, &cred), 0);
}

#[test]
fn test_complete_check_auth_zero_after_nonzero_rejected() {
    let (mut storage, cred) = setup();
    let a = assertion(&cred, 3, "https://app.example.com");
    assert_eq!(PasskeyAccount::complete_check_auth(&mut storage, PAYLOAD, &a), Ok(()));
    let zero = assertion(&cred, 0, "https://app.example.com");
    assert_eq!(
        PasskeyAccount::complete_check_auth(&mut storage, PAYLOAD, &zero),
        Err(AccountError::CounterNotIncreased)
    );
}

#[test]
fn test_complete_check_auth_origin_mismatch() {
    let (mut storage, cred) = setup();
    let a = assertion(&cred, 1, "https://evil.attacker.com");
    assert_eq!(
        PasskeyAccount::complete_check_auth(&mut storage, PAYLOAD, &a),
        Err(AccountError::OriginMismatch)
    );
}

#[test]
fn test_complete_check_auth_malformed_client_data() {
    let (mut storage, cred) = setup();
    let mut a = assertion(&cred, 1, "https://app.example.com");
    a.client_data_json = b"{\"type\":\"webauthn.get\"}".to_vec();
    assert_eq!(
        PasskeyAccount::complete_check_auth(&mut storage, PAYLOAD, &a),
        Err(AccountError::MalformedClientData)
    );
}

#[test]
fn test_complete_check_auth_malformed_authenticator_data() {
    let (mut storage, cred) = setup();
    let mut a = assertion(&cred, 1, "https://app.example.com");
    a.authenticator_data = vec![0u8; 36];
    assert_eq!(
        PasskeyAccount::complete_check_auth(&mut storage, PAYLOAD, &a),
        Err(AccountError::MalformedAuthenticatorData)
    );
}

#[test]
fn test_complete_check_auth_unknown_credential() {
    let (mut storage, _) = setup();
    let a = assertion(&[9u8; 32], 1, "https://app.example.com");
    assert_eq!(
        PasskeyAccount::complete_check_auth(&mut storage, PAYLOAD, &a),
        Err(AccountError::CredentialNotFound)
    );
}

#[test]
fn test_complete_check_auth_without_origin_is_mismatch() {
    let mut storage = AccountStorage::new();
    let cred = vec![3u8; 32];
    PasskeyAccount::add_signer(&mut storage, cred.clone(), [4u8; 65]);
    let a = assertion(&cred, 1, "https://app.example.com");
    assert_eq!(
        PasskeyAccount::complete_check_auth(&mut storage, PAYLOAD, &a),
        Err(AccountError::OriginMismatch)
    );
}

#[test]
fn test_counters_are_independent() {
    let (mut storage, cred) = setup();
    let other = vec![8u8; 32];
    PasskeyAccount::add_signer(&mut storage, other.clone(), [5u8; 65]);
    let a = assertion(&cred, 9, "https://app.example.com");
    assert_eq!(PasskeyAccount::complete_check_auth(&mut storage, PAYLOAD, &a), Ok(()));
    assert_eq!(PasskeyAccount::get_counter(&storage, &cred), 9);
    assert_eq!(PasskeyAccount::get_counter(&storage, &other), 0);
    let b = assertion(&other, 1, "https://app.example.com");
    assert_eq!(PasskeyAccount::complete_check_auth(&mut storage, PAYLOAD, &b), Ok(()));
    assert_eq!(PasskeyAccount::get_counter(&storage, &other), 1);
}

#[test]
fn test_remove_signer_listed_twice_keeps_other_signer() {
    let (mut storage, cred) = setup();
    let other = vec![8u8; 32];
    PasskeyAccount::add_signer(&mut storage, cred.clone(), [6u8; 65]);
    PasskeyAccount::add_signer(&mut storage, other.clone(), [5u8; 65]);
    assert_eq!(PasskeyAccount::list_credentials(&storage).len(), 3);
    PasskeyAccount::remove_signer(&mut storage, cred.clone());
    assert_eq!(PasskeyAccount::list_credentials(&storage), vec![other]);
    assert_eq!(PasskeyAccount::get_counter(&storage, &cred), 0);
}

#[test]
fn test_complete_check_auth_origin_failure_keeps_counter() {
    let (mut storage, cred) = setup();
    let a = assertion(&cred, 7, "https://evil.attacker.com");
    assert_eq!(
        PasskeyAccount::complete_check_auth(&mut storage, PAYLOAD, &a),
        Err(AccountError::OriginMismatch)
    );
    assert_eq!(PasskeyAccount::get_counter(&storage, &cred), 0);
}

#[test]
fn test_complete_check_auth_other_payload_rejected() {
    let (mut storage, cred) = setup();
    let a = assertion(&cred, 2, "https://app.example.com");
    let mut other_payload = PAYLOAD;
    other_payload[31] = 0x12;
    assert_eq!(
        PasskeyAccount::complete_check_auth(&mut storage, other_payload, &a),
        Err(AccountError::InvalidSignature)
    );
    assert_eq!(PasskeyAccount::get_counter(&storage, &cred), 0);
    assert_eq!(PasskeyAccount::complete_check_auth(&mut storage, PAYLOAD, &a), Ok(()));
    assert_eq!(PasskeyAccount::get_counter(&storage, &cred), 2);
}

#[test]
fn test_complete_check_auth_missing_challenge_is_malformed() {
    let (mut storage, cred) = setup();
    let mut a = assertion(&cred, 2, "https://app.example.com");
    a.client_data_json = b"{\"origin\":\"https://app.example.com\"}".to_vec();
    assert_eq!(
        PasskeyAccount::complete_check_auth(&mut storage, PAYLOAD, &a),
        Err(AccountError::MalformedClientData)
    );
}

#[test]
fn test_extract_challenge() {
    let json = make_bound_client_data_json(PAYLOAD_CHALLENGE, "https://app.example.com");
    assert_eq!(
        extract_challenge_from_client_data_json(&json),
        Ok(PAYLOAD_CHALLENGE.as_bytes().to_vec())
    );
}

#[test]
fn test_base64url_encode_known_values() {
    assert_eq!(base64url_encode(&PAYLOAD), PAYLOAD_CHALLENGE.as_bytes().to_vec());
    let abc_digest: [u8; 32] = [
        186, 120, 22, 191, 143, 1, 207, 234, 65, 65, 64, 222, 93, 174, 34, 35, 176, 3, 97, 163,
        150, 23, 122, 156, 180, 16, 255, 97, 242, 0, 21, 173,
    ];
    assert_eq!(
        base64url_encode(&abc_digest),
        b"ungWv48Bz-pBQUDeXa4iI7ADYaOWF3qctBD_YfIAFa0".to_vec()
    );
    assert_eq!(base64url_encode(&[0xfb, 0xff]), b"-_8".to_vec());
    assert_eq!(base64url_encode(b"f"), b"Zg".to_vec());
    assert_eq!(base64url_encode(b"fo"), b"Zm8".to_vec());
    assert_eq!(base64url_encode(&[]), Vec::<u8>::new());
}
