use vstd::prelude::*;

use crate::types::AccountError;

verus! {

/// The big-endian unsigned integer that four bytes spell.
pub open spec fn be_u32(b0: u8, b1: u8, b2: u8, b3: u8) -> int {
    b0 * 0x100_0000 + b1 * 0x1_0000 + b2 * 0x100 + b3
}

/// The signature counter that authenticatorData carries: bytes 33..37, big-endian.
/// Layout: [0..32] rpIdHash | [32] flags | [33..37] signCount.
pub open spec fn authenticator_counter(auth_data: Seq<u8>) -> int
    recommends
        auth_data.len() >= 37,
{
    be_u32(auth_data[33], auth_data[34], auth_data[35], auth_data[36])
}

/// Extract the signature counter (bytes 33-36, big-endian) from WebAuthn authenticatorData.
pub fn parse_counter_from_authenticator_data(auth_data: &[u8]) -> (counter: Result<u32, AccountError>)
    ensures
        auth_data@.len() < 37 ==> counter == Err::<u32, AccountError>(AccountError::MalformedAuthenticatorData),
        auth_data@.len() >= 37 ==> (counter matches Ok(c) && c == authenticator_counter(auth_data@)),
{
    if auth_data.len() < 37 {
        return Err(AccountError::MalformedAuthenticatorData);
    }
    let b0 = auth_data[33];
    let b1 = auth_data[34];
    let b2 = auth_data[35];
    let b3 = auth_data[36];
    let c: u32 = ((b0 as u32) << 24u32) | ((b1 as u32) << 16u32) | ((b2 as u32) << 8u32) | (b3 as u32);
    assert(c == b0 * 0x100_0000 + b1 * 0x1_0000 + b2 * 0x100 + b3) by (bit_vector)
        requires
            c == ((b0 as u32) << 24u32) | ((b1 as u32) << 16u32) | ((b2 as u32) << 8u32) | (b3 as u32),
    ;
    Ok(c)
}

/// The key that introduces the origin in clientDataJSON: `"origin":"`.
pub open spec fn origin_key() -> Seq<u8> {
    seq![0x22u8, 0x6fu8, 0x72u8, 0x69u8, 0x67u8, 0x69u8, 0x6eu8, 0x22u8, 0x3au8, 0x22u8]
}

/// The key that introduces the challenge in clientDataJSON: `"challenge":"`.
pub open spec fn challenge_key() -> Seq<u8> {
    seq![
        0x22u8, 0x63u8, 0x68u8, 0x61u8, 0x6cu8, 0x6cu8, 0x65u8, 0x6eu8, 0x67u8, 0x65u8, 0x22u8,
        0x3au8, 0x22u8,
    ]
}

/// The double quote byte.
pub open spec fn quote() -> u8 {
    0x22u8
}

/// Whether `key` occurs in `json` at position `i`.
pub open spec fn key_at(json: Seq<u8>, key: Seq<u8>, i: int) -> bool {
    0 <= i && i + key.len() <= json.len() && json.subrange(i, i + key.len()) == key
}

/// Whether `i` is the first position at which `key` occurs in `json`.
pub open spec fn first_key_at(json: Seq<u8>, key: Seq<u8>, i: int) -> bool {
    key_at(json, key, i) && forall|k: int| 0 <= k < i ==> !key_at(json, key, k)
}

/// Whether `e` is the first position at or after `start` that holds a double quote.
pub open spec fn closing_quote_at(json: Seq<u8>, start: int, e: int) -> bool {
    start <= e < json.len() && json[e] == quote() && forall|k: int|
        start <= k < e ==> json[k] != quote()
}

/// The string value that `key` (a field name with its `":"`) introduces in `json`:
/// the bytes between the first occurrence of `key` and the next double quote;
/// None when the key is missing or the string is unclosed.
pub open spec fn string_field(json: Seq<u8>, key: Seq<u8>) -> Option<Seq<u8>> {
    if exists|i: int| #[trigger] first_key_at(json, key, i) {
        let i = choose|i: int| first_key_at(json, key, i);
        if exists|e: int| #[trigger] closing_quote_at(json, i + key.len(), e) {
            let e = choose|e: int| #[trigger] closing_quote_at(json, i + key.len(), e);
            Some(json.subrange(i + key.len(), e))
        } else {
            None
        }
    } else {
        None
    }
}

/// The origin that clientDataJSON carries.
pub open spec fn origin_in(json: Seq<u8>) -> Option<Seq<u8>> {
    string_field(json, origin_key())
}

/// The challenge that clientDataJSON carries.
pub open spec fn challenge_in(json: Seq<u8>) -> Option<Seq<u8>> {
    string_field(json, challenge_key())
}

proof fn lemma_first_key_unique(json: Seq<u8>, key: Seq<u8>, i: int, j: int)
    requires
        first_key_at(json, key, i),
        first_key_at(json, key, j),
    ensures
        i == j,
{
}

proof fn lemma_closing_quote_unique(json: Seq<u8>, start: int, e: int, f: int)
    requires
        closing_quote_at(json, start, e),
        closing_quote_at(json, start, f),
    ensures
        e == f,
{
}

/// Whether `key` occurs in `json` at position `i`.
fn key_matches_at(json: &[u8], key: &[u8], i: usize) -> (matched: bool)
    requires
        i + key@.len() <= json@.len(),
    ensures
        matched == key_at(json@, key@, i as int),
{
    let len = json.len();
    let klen = key.len();
    let mut j: usize = 0;
    while j < klen
        invariant
            i + klen <= json@.len(),
            len == json@.len(),
            klen == key@.len(),
            0 <= j <= klen,
            forall|t: int| 0 <= t < j ==> json@[i + t] == key@[t],
        decreases klen - j,
    {
        if json[i + j] != key[j] {
            assert(json@.subrange(i as int, i + klen)[j as int] != key@[j as int]);
            return false;
        }
        j = j + 1;
    }
    assert(json@.subrange(i as int, i + klen) =~= key@);
    true
}

/// The first position at which `key` occurs, if any.
fn find_key(json: &[u8], key: &[u8]) -> (found: Option<usize>)
    requires
        key@.len() > 0,
    ensures
        match found {
            Some(i) => first_key_at(json@, key@, i as int),
            None => forall|k: int| !key_at(json@, key@, k),
        },
{
    let len = json.len();
    let klen = key.len();
    let mut i: usize = 0;
    while i < len && len - i >= klen
        invariant
            len == json@.len(),
            klen == key@.len(),
            klen > 0,
            0 <= i <= len,
            forall|k: int| 0 <= k < i ==> !key_at(json@, key@, k),
        decreases len - i,
    {
        if key_matches_at(json, key, i) {
            return Some(i);
        }
        i = i + 1;
    }
    None
}

/// The first position at or after `start` that holds a double quote, if any.
fn find_closing_quote(json: &[u8], start: usize) -> (found: Option<usize>)
    ensures
        match found {
            Some(e) => closing_quote_at(json@, start as int, e as int),
            None => forall|e: int| !closing_quote_at(json@, start as int, e),
        },
{
    let mut end: usize = start;
    while end < json.len()
        invariant
            start <= end,
            forall|k: int| start <= k < end && k < json@.len() ==> json@[k] != quote(),
        decreases json@.len() - end,
    {
        if json[end] == 0x22u8 {
            return Some(end);
        }
        end = end + 1;
    }
    proof {
        assert forall|e: int| !closing_quote_at(json@, start as int, e) by {
            if closing_quote_at(json@, start as int, e) {
                assert(json@[e] != quote());
            }
        }
    }
    None
}

/// Extract the string value that `key` introduces in `json` by byte scanning:
/// finds the first occurrence of `key` and reads up to the next double quote.
pub fn extract_string_field(json: &[u8], key: &[u8]) -> (value: Result<Vec<u8>, AccountError>)
    requires
        key@.len() > 0,
    ensures
        match value {
            Ok(v) => string_field(json@, key@) == Some(v@),
            Err(e) => e == AccountError::MalformedClientData && string_field(json@, key@) is None,
        },
{
    let len = json.len();
    let klen = key.len();
    let start = match find_key(json, key) {
        Some(i) => i + klen,
        None => {
            return Err(AccountError::MalformedClientData);
        },
    };
    let ghost i = start - klen;
    let end = match find_closing_quote(json, start) {
        Some(e) => e,
        None => {
            proof {
                let i2 = choose|i2: int| first_key_at(json@, key@, i2);
                lemma_first_key_unique(json@, key@, i, i2);
            }
            return Err(AccountError::MalformedClientData);
        },
    };
    let mut value: Vec<u8> = Vec::new();
    let mut k: usize = start;
    while k < end
        invariant
            start <= k <= end,
            end < json@.len(),
            value@ == json@.subrange(start as int, k as int),
        decreases end - k,
    {
        value.push(json[k]);
        k = k + 1;
        assert(value@ =~= json@.subrange(start as int, k as int));
    }
    proof {
        let i2 = choose|i2: int| first_key_at(json@, key@, i2);
        lemma_first_key_unique(json@, key@, i, i2);
        let e2 = choose|e2: int| #[trigger] closing_quote_at(json@, i + klen, e2);
        lemma_closing_quote_unique(json@, i + klen, end as int, e2);
    }
    Ok(value)
}

/// Extract the "origin" field from WebAuthn clientDataJSON: the bytes between the
/// first `"origin":"` and the next double quote.
pub fn extract_origin_from_client_data_json(client_data_json: &[u8]) -> (origin: Result<
    Vec<u8>,
    AccountError,
>)
    ensures
        match origin {
            Ok(o) => origin_in(client_data_json@) == Some(o@),
            Err(e) => e == AccountError::MalformedClientData && origin_in(client_data_json@)
                is None,
        },
{
    let key: [u8; 10] = [0x22u8, 0x6fu8, 0x72u8, 0x69u8, 0x67u8, 0x69u8, 0x6eu8, 0x22u8, 0x3au8, 0x22u8];
    assert(key@ =~= origin_key());
    extract_string_field(client_data_json, key.as_slice())
}

/// Extract the "challenge" field from WebAuthn clientDataJSON: the bytes between the
/// first `"challenge":"` and the next double quote.
pub fn extract_challenge_from_client_data_json(client_data_json: &[u8]) -> (challenge: Result<
    Vec<u8>,
    AccountError,
>)
    ensures
        match challenge {
            Ok(c) => challenge_in(client_data_json@) == Some(c@),
            Err(e) => e == AccountError::MalformedClientData && challenge_in(client_data_json@)
                is None,
        },
{
    let key: [u8; 13] = [
        0x22u8, 0x63u8, 0x68u8, 0x61u8, 0x6cu8, 0x6cu8, 0x65u8, 0x6eu8, 0x67u8, 0x65u8, 0x22u8,
        0x3au8, 0x22u8,
    ];
    assert(key@ =~= challenge_key());
    extract_string_field(client_data_json, key.as_slice())
}

} // verus!
