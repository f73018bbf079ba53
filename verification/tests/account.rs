use soroban_passkey_account::{
    bytes_eq, extract_origin_from_client_data_json, get_credential,
    parse_counter_from_authenticator_data, AccountError, AccountStorage, PasskeyAccount,
};

// ---------------------------------------------------------------------------
// Helpers
// ---------------------------------------------------------------------------

/// A 65-byte uncompressed P-256 public key (0x04 prefix + 32-byte X + 32-byte Y)
/// with deterministic fake values.
fn make_public_key(seed: u8) -> [u8; 65] {
    let mut buf = [0u8; 65];
    buf[0] = 0x04;
    for i in 1..33 {
        buf[i] = seed.wrapping_add(i as u8);
    }
    for i in 33..65 {
        buf[i] = seed.wrapping_add(i as u8).wrapping_add(128);
    }
    buf
}

/// A fake 32-byte credential ID.
fn make_cred_id(seed: u8) -> Vec<u8> {
    let mut buf = [0u8; 32];
    for (i, b) in buf.iter_mut().enumerate() {
        *b = seed.wrapping_add(i as u8);
    }
    buf.to_vec()
}

fn make_origin() -> Vec<u8> {
    b"https://app.example.com".to_vec()
}

/// Fake authenticatorData with the given counter.
/// Layout: [0..32] rpIdHash, [32] flags, [33..37] signCount (big-endian u32)
fn make_auth_data(counter: u32) -> Vec<u8> {
    let mut buf = [0u8; 37];
    for i in 0..32 {
        buf[i] = i as u8;
    }
    buf[32] = 0x05;
    buf[33] = ((counter >> 24) & 0xFF) as u8;
    buf[34] = ((counter >> 16) & 0xFF) as u8;
    buf[35] = ((counter >> 8) & 0xFF) as u8;
    buf[36] = (counter & 0xFF) as u8;
    buf.to_vec()
}

/// A clientDataJSON with the given origin.
fn make_client_data_json(origin: &str) -> Vec<u8> {
    let prefix = b"{\"type\":\"webauthn.get\",\"challenge\":\"AAAAAAAAAAAAAAAAAAAAAA\",\"origin\":\"";
    let suffix = b"\"}";
    let mut json_bytes: Vec<u8> = Vec::new();
    json_bytes.extend_from_slice(prefix);
    json_bytes.extend_from_slice(origin.as_bytes());
    json_bytes.extend_from_slice(suffix);
    json_bytes
}

/// An initialized account with one credential.
fn setup() -> (AccountStorage, Vec<u8>, [u8; 65]) {
    let mut storage = AccountStorage::new();
    let cred_id = make_cred_id(1);
    let pub_key = make_public_key(1);
    PasskeyAccount::initialize(&mut storage, cred_id.clone(), pub_key, make_origin());
    (storage, cred_id, pub_key)
}

// ---------------------------------------------------------------------------
// Signers
// ---------------------------------------------------------------------------

#[test]
fn test_initialize_stores_credential() {
    let (storage, cred_id, _pub_key) = setup();

    let credentials = PasskeyAccount::list_credentials(&storage);
    assert_eq!(credentials.len(), 1);
    assert_eq!(credentials[0], cred_id);

    let counter = PasskeyAccount::get_counter(&storage, &cred_id);
    assert_eq!(counter, 0);

    let origin = PasskeyAccount::get_allowed_origin(&storage);
    assert_eq!(origin, make_origin());
}

#[test]
fn test_list_credentials_empty_before_init() {
    let storage = AccountStorage::new();
    let credentials = PasskeyAccount::list_credentials(&storage);
    assert_eq!(credentials.len(), 0);
}

#[test]
fn test_add_signer_requires_auth() {
    let (mut storage, _cred1, _) = setup();

    let cred2 = make_cred_id(2);
    let pub2 = make_public_key(2);
    PasskeyAccount::add_signer(&mut storage, cred2, pub2);

    let credentials = PasskeyAccount::list_credentials(&storage);
    assert_eq!(credentials.len(), 2);
}

#[test]
fn test_remove_signer_requires_auth() {
    let (mut storage, cred1, _) = setup();

    let cred2 = make_cred_id(2);
    let pub2 = make_public_key(2);
    PasskeyAccount::add_signer(&mut storage, cred2.clone(), pub2);
    assert_eq!(PasskeyAccount::list_credentials(&storage).len(), 2);

    PasskeyAccount::remove_signer(&mut storage, cred1);
    let remaining = PasskeyAccount::list_credentials(&storage);
    assert_eq!(remaining.len(), 1);
    assert_eq!(remaining[0], cred2);
}

#[test]
fn test_multiple_independent_signers() {
    let (mut storage, cred1, _) = setup();

    let cred2 = make_cred_id(2);
    let pub2 = make_public_key(2);
    let cred3 = make_cred_id(3);
    let pub3 = make_public_key(3);
    PasskeyAccount::add_signer(&mut storage, cred2.clone(), pub2);
    PasskeyAccount::add_signer(&mut storage, cred3.clone(), pub3);

    let credentials = PasskeyAccount::list_credentials(&storage);
    assert_eq!(credentials.len(), 3);

    assert_eq!(PasskeyAccount::get_counter(&storage, &cred1), 0);
    assert_eq!(PasskeyAccount::get_counter(&storage, &cred2), 0);
    assert_eq!(PasskeyAccount::get_counter(&storage, &cred3), 0);
}

#[test]
fn test_get_counter_for_unknown_credential_returns_zero() {
    let (storage, _, _) = setup();
    let unknown = make_cred_id(99);
    assert_eq!(PasskeyAccount::get_counter(&storage, &unknown), 0);
}

#[test]
fn test_counter_zero_compatibility_documented() {
    let (storage, cred_id, _) = setup();
    let counter = PasskeyAccount::get_counter(&storage, &cred_id);
    assert_eq!(counter, 0, "New credentials start in counter=0 compatibility mode");
}

#[test]
fn test_add_signer_duplicate_credential_id_overwrites() {
    let (mut storage, cred1, pub1) = setup();

    let pub1_rotated = make_public_key(42);
    assert_ne!(pub1, pub1_rotated);
    PasskeyAccount::add_signer(&mut storage, cred1.clone(), pub1_rotated);

    let creds = PasskeyAccount::list_credentials(&storage);
    let counter = PasskeyAccount::get_counter(&storage, &cred1);
    assert_eq!(counter, 0);
    assert!(creds.len() >= 1, "At least the original credential is present");
}

#[test]
fn test_counter_starts_at_zero_for_new_credential() {
    let (mut storage, _, _) = setup();

    let new_cred = make_cred_id(10);
    let new_key = make_public_key(10);
    PasskeyAccount::add_signer(&mut storage, new_cred.clone(), new_key);

    assert_eq!(PasskeyAccount::get_counter(&storage, &new_cred), 0);
}

#[test]
fn test_get_counter_returns_zero_for_unregistered_credential() {
    let (storage, _, _) = setup();
    let unknown = make_cred_id(200);
    assert_eq!(PasskeyAccount::get_counter(&storage, &unknown), 0);
}

#[test]
fn test_credential_not_found_storage_path() {
    let storage = AccountStorage::new();
    let missing_cred = make_cred_id(255);
    let result = get_credential(&storage, &missing_cred);
    assert!(result.is_none(), "Unregistered credential must return None from storage");
}

// ---------------------------------------------------------------------------
// authenticatorData counter parsing
// ---------------------------------------------------------------------------

#[test]
fn test_parse_counter_zero() {
    let auth_data = make_auth_data(0);
    let result = parse_counter_from_authenticator_data(&auth_data);
    assert_eq!(result, Ok(0));
}

#[test]
fn test_parse_counter_nonzero() {
    let auth_data = make_auth_data(42);
    let result = parse_counter_from_authenticator_data(&auth_data);
    assert_eq!(result, Ok(42));
}

#[test]
fn test_parse_counter_max_u32() {
    let auth_data = make_auth_data(u32::MAX);
    let result = parse_counter_from_authenticator_data(&auth_data);
    assert_eq!(result, Ok(u32::MAX));
}

#[test]
fn test_parse_counter_authenticator_data_too_short_returns_error() {
    let short = [0u8; 36];
    let result = parse_counter_from_authenticator_data(&short);
    assert_eq!(result, Err(AccountError::MalformedAuthenticatorData));
}

#[test]
fn test_parse_counter_empty_authenticator_data_returns_error() {
    let empty: [u8; 0] = [];
    let result = parse_counter_from_authenticator_data(&empty);
    assert_eq!(result, Err(AccountError::MalformedAuthenticatorData));
}

#[test]
fn test_parse_counter_exactly_37_bytes_works() {
    let auth_data = make_auth_data(1);
    assert_eq!(auth_data.len(), 37);
    let result = parse_counter_from_authenticator_data(&auth_data);
    assert_eq!(result, Ok(1));
}

#[test]
fn test_parse_counter_reads_big_endian_bytes() {
    let mut auth_data = vec![0xFFu8; 40];
    auth_data[33] = 0x01;
    auth_data[34] = 0x02;
    auth_data[35] = 0x03;
    auth_data[36] = 0x04;
    assert_eq!(parse_counter_from_authenticator_data(&auth_data), Ok(0x0102_0304));
}

// ---------------------------------------------------------------------------
// clientDataJSON origin extraction
// ---------------------------------------------------------------------------

#[test]
fn test_extract_origin_matching() {
    let cdj = make_client_data_json("https://app.example.com");
    let result = extract_origin_from_client_data_json(&cdj);
    assert_eq!(result, Ok(b"https://app.example.com".to_vec()));
}

#[test]
fn test_extract_origin_different_value() {
    let cdj = make_client_data_json("https://evil.attacker.com");
    let result = extract_origin_from_client_data_json(&cdj);
    assert_eq!(result, Ok(b"https://evil.attacker.com".to_vec()));
}

#[test]
fn test_extract_origin_missing_field_returns_malformed() {
    let no_origin = b"{\"type\":\"webauthn.get\",\"challenge\":\"AAAA\"}";
    let result = extract_origin_from_client_data_json(no_origin);
    assert_eq!(result, Err(AccountError::MalformedClientData));
}

#[test]
fn test_extract_origin_empty_json_returns_malformed() {
    let empty: [u8; 0] = [];
    let result = extract_origin_from_client_data_json(&empty);
    assert_eq!(result, Err(AccountError::MalformedClientData));
}

#[test]
fn test_extract_origin_unclosed_string_returns_malformed() {
    let malformed = b"{\"origin\":\"https://app.example.com";
    let result = extract_origin_from_client_data_json(malformed);
    assert_eq!(result, Err(AccountError::MalformedClientData));
}

#[test]
fn test_extract_origin_takes_first_occurrence() {
    let json = b"{\"origin\":\"https://a.example\",\"origin\":\"https://b.example\"}";
    assert_eq!(
        extract_origin_from_client_data_json(json),
        Ok(b"https://a.example".to_vec())
    );
}

#[test]
fn test_extract_origin_empty_value() {
    let json = b"{\"origin\":\"\"}";
    assert_eq!(extract_origin_from_client_data_json(json), Ok(Vec::new()));
}

#[test]
fn test_origin_mismatch_logic() {
    let allowed = b"https://app.example.com";
    let presented = b"https://evil.attacker.com";
    assert!(!bytes_eq(allowed, presented), "Mismatched origins must not compare equal");
}

#[test]
fn test_origin_match_logic() {
    let allowed = b"https://app.example.com";
    let presented = b"https://app.example.com";
    assert!(bytes_eq(allowed, presented), "Matching origins must compare equal");
}
