//! A passkey (WebAuthn / secp256r1) account: credential registry, WebAuthn
//! assertion checks with counter replay defence and origin allow-listing, and
//! guardian-based social recovery with a threshold and a timelock.
//!
//! The contract state is modelled by [`AccountStorage`]. The entry points of
//! [`PasskeyAccount`] are verified transitions on it; the passkey check is verified
//! in two halves (`prepare_check_auth`, `complete_check_auth`) around the host's
//! secp256r1 signature check, which aborts the invocation on a bad signature.

mod account;
mod base64url;
mod bytes;
mod crypto;
mod laws;

mod recovery;
mod storage;
mod types;
mod webauthn;

pub use bytes::{
    byte_strings, bytes_eq, copy_byte_strings, copy_bytes, count_members, differs_from,
    list_contains, member_of, members_of, remove_all, without,
};
pub use types::{AccountError, Credential, RecoveryRequest, RecoveryView, WebAuthnAssertion};
pub use base64url::{b64url_digit, base64url, base64url_encode, encode_group, group_len};
pub use webauthn::{
    authenticator_counter, be_u32, challenge_in, challenge_key, closing_quote_at,
    extract_challenge_from_client_data_json, extract_origin_from_client_data_json,
    extract_string_field, first_key_at, key_at, origin_in, origin_key,
    parse_counter_from_authenticator_data, quote, string_field,
};
pub use storage::{
    account_invariant, clear_pending_recovery, effective_timelock, get_allowed_origin_val,
    get_credential, get_credential_list, get_guardian_list, get_pending_recovery,
    get_recovery_threshold, get_recovery_timelock, is_initialized, opt_bytes, opt_request,
    remove_credential, request_well_formed, set_allowed_origin, set_credential,
    set_credential_list, set_guardian_list, set_initialized, set_pending_recovery,
    set_recovery_threshold, set_recovery_timelock, stored_credential, AccountStorage,
    StorageView, DEFAULT_RECOVERY_TIMELOCK_SECONDS,
};
pub use crypto::sha256_digest;
pub use account::{
    after_counter, challenge_verdict, counter_accepted, fresh_credential, origin_verdict, signed_message_digest,
    webauthn_message_digest, PasskeyAccount, SignatureCheck,
};
pub use recovery::{
    effective_threshold, initial_request, recovered, unlock_time, valid_approval_count,
};
pub use laws::{
    law_approvals_stay_distinct, law_base64url_injective, law_challenge_binds_payload,
    law_challenge_exact_match, law_counter_encoding_roundtrip, law_counter_never_decreases,
    law_counter_zero_compatibility, law_counters_independent, law_credential_read_after_write,
    law_default_timelock_three_days, law_field_extraction_roundtrip,
    law_guardian_list_stays_distinct, law_higher_counter_accepted,
    law_initiation_records_arguments, law_message_digest_covers_whole_assertion,
    law_new_signer_starts_at_zero, law_origin_exact_match, law_recovery_appends_credential,
    law_remove_signer_keeps_others, law_removed_guardian_not_counted,
    law_replayed_assertion_rejected, law_stale_counter_rejected, law_unlock_time,
    law_unset_threshold_needs_all_guardians, law_valid_approvals_are_current_guardians,
    law_without_removes_only_that_entry,
};
