use vstd::prelude::*;

use soroban_sdk::{Bytes, Env};

verus! {

/// The Soroban environment, through which the host's cryptographic functions are reached.
#[verifier::external_type_specification]
#[verifier::external_body]
pub struct ExEnv(Env);

/// The SHA-256 digest of a byte string, as the Soroban host computes it.
pub uninterp spec fn sha256_digest(data: Seq<u8>) -> Seq<u8>;

/// Calls `soroban_sdk::crypto::Crypto::sha256` (the host's `compute_hash_sha256`)
/// on a copy of `data` and returns the 32 digest bytes.
///
/// Claimed: the digest is a function of `data` alone, named `sha256_digest`.
/// Not stated: the host aborts the invocation when its resource budget is
/// exhausted, which depends on the whole invocation and not on `data`.
#[verifier::external_body]
pub(crate) fn sha256(env: &Env, data: &[u8]) -> (digest: [u8; 32])
    requires
        data@.len() <= u32::MAX,
    ensures
        digest@ == sha256_digest(data@),
{
    env.crypto().sha256(&Bytes::from_slice(env, data)).to_array()
}

} // verus!
