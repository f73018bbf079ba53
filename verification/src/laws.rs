use vstd::prelude::*;

use crate::account::{
    after_counter, challenge_verdict, counter_accepted, fresh_credential, origin_verdict,
    webauthn_message_digest,
};
use crate::base64url::{b64url_digit, base64url, encode_group, group_len};
use crate::bytes::{
    differs_from, lemma_filter_no_duplicates, lemma_push_absent_no_duplicates, lemma_without_keeps,
    member_of, members_of, without,
};
use crate::crypto::sha256_digest;
use crate::recovery::{
    effective_threshold, initial_request, recovered, unlock_time, valid_approval_count,
};
use crate::storage::{effective_timelock, stored_credential, StorageView};
use crate::types::{AccountError, Credential, RecoveryView};
use crate::webauthn::{
    authenticator_counter, be_u32, challenge_in, closing_quote_at, first_key_at, key_at, origin_in,
    quote, string_field,
};

verus! {

/// An accepted assertion never lowers the stored counter and keeps the stored key.
pub proof fn law_counter_never_decreases(s: StorageView, id: Seq<u8>, c: Credential, asserted: int)
    requires
        stored_credential(s, id) == Some(c),
        counter_accepted(c.counter, asserted),
        asserted <= u32::MAX,
    ensures
        stored_credential(after_counter(s, id, c, asserted), id) matches Some(c2) && c2.counter
            >= c.counter && c2.public_key == c.public_key,
{
}

/// Credentials count independently: checking one credential leaves every other
/// credential as it was.
pub proof fn law_counters_independent(
    s: StorageView,
    id: Seq<u8>,
    c: Credential,
    asserted: int,
    other: Seq<u8>,
)
    requires
        other != id,
    ensures
        stored_credential(after_counter(s, id, c, asserted), other) == stored_credential(s, other),
{
}

/// Replay defence: once a credential has counted, an assertion that does not
/// count past the stored counter is rejected.
pub proof fn law_stale_counter_rejected(stored: u32, asserted: int)
    requires
        stored > 0,
        asserted <= stored,
    ensures
        !counter_accepted(stored, asserted),
{
}

/// Replaying an accepted assertion with a non-zero counter is rejected: after the
/// first check the stored counter equals the asserted one.
pub proof fn law_replayed_assertion_rejected(s: StorageView, id: Seq<u8>, c: Credential, asserted: int)
    requires
        stored_credential(s, id) == Some(c),
        counter_accepted(c.counter, asserted),
        0 < asserted <= u32::MAX,
    ensures
        stored_credential(after_counter(s, id, c, asserted), id) matches Some(c2)
            && !counter_accepted(c2.counter, asserted),
{
}

/// Counter-zero compatibility: a credential at counter 0 accepts an asserted 0 and
/// stays at 0, however often it is presented.
pub proof fn law_counter_zero_compatibility(s: StorageView, id: Seq<u8>, c: Credential)
    requires
        stored_credential(s, id) == Some(c),
        c.counter == 0,
    ensures
        counter_accepted(c.counter, 0),
        after_counter(s, id, c, 0) == s,
{
}

/// The counter parsed from authenticatorData is the big-endian encoding written at
/// bytes 33..37.
pub proof fn law_counter_encoding_roundtrip(data: Seq<u8>, counter: u32)
    requires
        data.len() >= 37,
        data[33] == (counter >> 24u32) as u8,
        data[34] == ((counter >> 16u32) & 0xffu32) as u8,
        data[35] == ((counter >> 8u32) & 0xffu32) as u8,
        data[36] == (counter & 0xffu32) as u8,
    ensures
        authenticator_counter(data) == counter,
{
    let b0 = data[33];
    let b1 = data[34];
    let b2 = data[35];
    let b3 = data[36];
    assert(b0 * 0x100_0000 + b1 * 0x1_0000 + b2 * 0x100 + b3 == counter) by (bit_vector)
        requires
            b0 == (counter >> 24u32) as u8,
            b1 == ((counter >> 16u32) & 0xffu32) as u8,
            b2 == ((counter >> 8u32) & 0xffu32) as u8,
            b3 == (counter & 0xffu32) as u8,
    ;
}

/// JSON laid out as `prefix key value " rest`, where `key` first occurs right after
/// the prefix and the value holds no double quote, carries exactly `value` under
/// `key` (the origin and the challenge are read this way).
pub proof fn law_field_extraction_roundtrip(
    prefix: Seq<u8>,
    key: Seq<u8>,
    value: Seq<u8>,
    rest: Seq<u8>,
)
    requires
        forall|k: int| 0 <= k < prefix.len() ==> !key_at(prefix + key, key, k),
        forall|k: int| 0 <= k < value.len() ==> value[k] != quote(),
    ensures
        string_field(prefix + key + value + seq![quote()] + rest, key) == Some(value),
{
    let head = prefix + key;
    let json = head + value + seq![quote()] + rest;
    let p = prefix.len() as int;
    let kl = key.len() as int;
    assert forall|k: int| 0 <= k < p implies !key_at(json, key, k) by {
        assert(json.subrange(k, k + kl) =~= head.subrange(k, k + kl));
        assert(!key_at(head, key, k));
    }
    assert(json.subrange(p, p + kl) =~= key);
    assert(first_key_at(json, key, p));
    let e = p + kl + value.len();
    assert forall|k: int| p + kl <= k < e implies json[k] != quote() by {
        assert(json[k] == value[k - p - kl]);
    }
    assert(json[e] == quote());
    assert(closing_quote_at(json, p + kl, e));
    let i = choose|i: int| first_key_at(json, key, i);
    assert(i == p) by {
        if i < p {
            assert(!key_at(json, key, i));
        } else if i > p {
            assert(!key_at(json, key, p));
        }
    }
    let e2 = choose|e2: int| #[trigger] closing_quote_at(json, p + kl, e2);
    assert(e2 == e) by {
        if e2 < e {
            assert(json[e2] != quote());
        } else if e2 > e {
            assert(json[e] != quote());
        }
    }
    assert(json.subrange(p + kl, e) =~= value);
}

/// Read after write: the credential stored under an ID is the one written there last.
pub proof fn law_credential_read_after_write(s: StorageView, id: Seq<u8>, c: Credential)
    ensures
        stored_credential(StorageView { credentials: s.credentials.insert(id, c), ..s }, id)
            == Some(c),
{
}

/// A signer added (or recovered) starts at counter 0, in compatibility mode.
pub proof fn law_new_signer_starts_at_zero(s: StorageView, id: Seq<u8>, public_key: [u8; 65])
    ensures
        stored_credential(
            StorageView { credentials: s.credentials.insert(id, fresh_credential(public_key)), ..s },
            id,
        ) matches Some(c) && c.counter == 0 && c.public_key == public_key,
{
}

/// Removing one signer keeps every other signer ID in the list, so the list stays
/// non-empty while it held an ID other than the removed one.
pub proof fn law_remove_signer_keeps_others(list: Seq<Seq<u8>>, removed: Seq<u8>, other: Seq<u8>)
    requires
        list.contains(other),
        other != removed,
    ensures
        without(list, removed).contains(other),
        without(list, removed).len() > 0,
{
    lemma_without_keeps(list, removed, other);
}

/// A removed guardian's approval is not counted: the counted approvals contain it
/// no more, and there are no more of them than before the removal.
pub proof fn law_removed_guardian_not_counted(
    approvals: Seq<Seq<u8>>,
    guardians: Seq<Seq<u8>>,
    removed: Seq<u8>,
)
    ensures
        !members_of(approvals, without(guardians, removed)).contains(removed),
        members_of(approvals, without(guardians, removed)).len() <= members_of(
            approvals,
            guardians,
        ).len(),
    decreases approvals.len(),
{
    let remaining = without(guardians, removed);
    let pred_after = member_of(remaining);
    let pred_before = member_of(guardians);
    broadcast use vstd::seq_lib::group_filter_ensures;

    if members_of(approvals, remaining).contains(removed) {
        let j = choose|j: int|
            0 <= j < members_of(approvals, remaining).len() && members_of(approvals, remaining)[j]
                == removed;
        assert(pred_after(members_of(approvals, remaining)[j]));
        assert(remaining.contains(removed));
        let k = choose|k: int| 0 <= k < remaining.len() && remaining[k] == removed;
        guardians.lemma_filter_pred(differs_from(removed), k);
    }
    if approvals.len() > 0 {
        law_removed_guardian_not_counted(approvals.drop_last(), guardians, removed);
        reveal_with_fuel(Seq::<_>::filter, 1);
        let last = approvals.last();
        if remaining.contains(last) {
            let k = choose|k: int| 0 <= k < remaining.len() && remaining[k] == last;
            guardians.lemma_filter_contains_rev(differs_from(removed), last);
            assert(pred_before(last));
        }
    }
}

/// A recovery's approvals never hold the same guardian twice: the initiation holds
/// only the proposer, and an approval is only added by a guardian not yet in it.
pub proof fn law_approvals_stay_distinct(r: RecoveryView, approver: Seq<u8>)
    requires
        r.approvals.no_duplicates(),
        !r.approvals.contains(approver),
    ensures
        r.approvals.push(approver).no_duplicates(),
        initial_request(r.proposer, r.new_credential_id, r.new_public_key, r.initiated_at).approvals.no_duplicates(),
{
    lemma_push_absent_no_duplicates(r.approvals, approver);
}

/// The guardian list never holds the same guardian twice: adding a present guardian
/// changes nothing, adding an absent one appends it, and removal only filters.
pub proof fn law_guardian_list_stays_distinct(guardians: Seq<Seq<u8>>, g: Seq<u8>)
    requires
        guardians.no_duplicates(),
    ensures
        !guardians.contains(g) ==> guardians.push(g).no_duplicates(),
        without(guardians, g).no_duplicates(),
{
    if !guardians.contains(g) {
        lemma_push_absent_no_duplicates(guardians, g);
    }
    lemma_filter_no_duplicates(guardians, differs_from(g));
}

proof fn lemma_digit_injective(v: int, w: int)
    requires
        0 <= v < 64,
        0 <= w < 64,
        b64url_digit(v) == b64url_digit(w),
    ensures
        v == w,
{
}

proof fn lemma_group_injective(g: Seq<u8>, h: Seq<u8>)
    requires
        1 <= g.len() <= 3,
        g.len() == h.len(),
        encode_group(g) == encode_group(h),
    ensures
        g == h,
{
    let e = encode_group(g);
    let f = encode_group(h);
    let g0 = g[0];
    let h0 = h[0];
    assert(e[0] == f[0]);
    lemma_digit_injective(g0 as int / 4, h0 as int / 4);
    if g.len() == 1 {
        assert(e[1] == f[1]);
        lemma_digit_injective((g0 as int % 4) * 16, (h0 as int % 4) * 16);
        assert(g0 == h0) by (bit_vector)
            requires
                g0 / 4 == h0 / 4,
                (g0 % 4) * 16 == (h0 % 4) * 16,
        ;
        assert(g =~= h);
    } else {
        let g1 = g[1];
        let h1 = h[1];
        assert(e[1] == f[1]);
        lemma_digit_injective(
            (g0 as int % 4) * 16 + g1 as int / 16,
            (h0 as int % 4) * 16 + h1 as int / 16,
        );
        if g.len() == 2 {
            assert(e[2] == f[2]);
            lemma_digit_injective((g1 as int % 16) * 4, (h1 as int % 16) * 4);
            assert(g0 == h0 && g1 == h1) by (bit_vector)
                requires
                    g0 / 4 == h0 / 4,
                    (g0 % 4) * 16 + g1 / 16 == (h0 % 4) * 16 + h1 / 16,
                    (g1 % 16) * 4 == (h1 % 16) * 4,
            ;
            assert(g =~= h);
        } else {
            let g2 = g[2];
            let h2 = h[2];
            assert(e[2] == f[2]);
            assert(e[3] == f[3]);
            lemma_digit_injective(
                (g1 as int % 16) * 4 + g2 as int / 64,
                (h1 as int % 16) * 4 + h2 as int / 64,
            );
            lemma_digit_injective(g2 as int % 64, h2 as int % 64);
            assert(g0 == h0 && g1 == h1 && g2 == h2) by (bit_vector)
                requires
                    g0 / 4 == h0 / 4,
                    (g0 % 4) * 16 + g1 / 16 == (h0 % 4) * 16 + h1 / 16,
                    (g1 % 16) * 4 + g2 / 64 == (h1 % 16) * 4 + h2 / 64,
                    g2 % 64 == h2 % 64,
            ;
            assert(g =~= h);
        }
    }
}

/// Distinct byte strings of one length have distinct base64url encodings.
pub proof fn law_base64url_injective(s: Seq<u8>, t: Seq<u8>)
    requires
        s.len() == t.len(),
        base64url(s) == base64url(t),
    ensures
        s == t,
    decreases s.len(),
{
    if s.len() > 0 {
        let n = group_len(s.len() as int);
        let gs = encode_group(s.take(n));
        let gt = encode_group(t.take(n));
        assert(gs.len() == gt.len());
        assert(base64url(s) == gs + base64url(s.skip(n)));
        assert(base64url(t) == gt + base64url(t.skip(n)));
        assert(gs =~= base64url(s).subrange(0, gs.len() as int));
        assert(gt =~= base64url(t).subrange(0, gs.len() as int));
        assert(base64url(s.skip(n)) =~= base64url(s).subrange(gs.len() as int, base64url(s).len() as int));
        assert(base64url(t.skip(n)) =~= base64url(t).subrange(gs.len() as int, base64url(t).len() as int));
        lemma_group_injective(s.take(n), t.take(n));
        law_base64url_injective(s.skip(n), t.skip(n));
        assert(s =~= s.take(n) + s.skip(n));
        assert(t =~= t.take(n) + t.skip(n));
    }
}

/// An assertion is bound to the payload it signs: clientDataJSON whose challenge
/// passes for one payload fails for every other payload of the same length.
pub proof fn law_challenge_binds_payload(json: Seq<u8>, payload: Seq<u8>, other: Seq<u8>)
    requires
        challenge_verdict(json, payload) is Ok,
        other.len() == payload.len(),
        other != payload,
    ensures
        challenge_verdict(json, other) is Err,
{
    if challenge_verdict(json, other) is Ok {
        law_base64url_injective(payload, other);
    }
}

/// Strict counting once non-zero still accepts progress: an assertion whose counter
/// is above the stored one is accepted, and the stored counter becomes the asserted one.
pub proof fn law_higher_counter_accepted(s: StorageView, id: Seq<u8>, c: Credential, asserted: int)
    requires
        stored_credential(s, id) == Some(c),
        c.counter < asserted <= u32::MAX,
    ensures
        counter_accepted(c.counter, asserted),
        stored_credential(after_counter(s, id, c, asserted), id) == Some(
            Credential { public_key: c.public_key, counter: asserted as u32 },
        ),
{
}

/// The digest the authenticator signs covers all of authenticatorData and the
/// SHA-256 of all of clientDataJSON, whatever their lengths.
pub proof fn law_message_digest_covers_whole_assertion(
    authenticator_data: Seq<u8>,
    client_data_json: Seq<u8>,
)
    ensures
        webauthn_message_digest(authenticator_data, client_data_json) == sha256_digest(
            authenticator_data + sha256_digest(client_data_json),
        ),
{
}

/// With no threshold set, a recovery needs an approval from every current guardian;
/// with one set, it needs that many.
pub proof fn law_unset_threshold_needs_all_guardians(s: StorageView)
    ensures
        s.recovery_threshold is None ==> effective_threshold(s) == s.guardian_list.len(),
        s.recovery_threshold matches Some(t) ==> effective_threshold(s) == t,
{
}

/// An initiation records its arguments unchanged, with the proposer's approval only.
pub proof fn law_initiation_records_arguments(
    proposer: Seq<u8>,
    new_credential_id: Seq<u8>,
    new_public_key: [u8; 65],
    now: u64,
)
    ensures
        ({
            let r = initial_request(proposer, new_credential_id, new_public_key, now);
            &&& r.proposer == proposer
            &&& r.new_credential_id == new_credential_id
            &&& r.new_public_key == new_public_key
            &&& r.initiated_at == now
            &&& r.approvals == seq![proposer]
        }),
{
}

/// A recovery appends the recovered ID to the credential list (every ID listed
/// before stays listed, in place), registers the new key at counter 0, leaves every
/// other credential as it was, and clears the request.
pub proof fn law_recovery_appends_credential(s: StorageView, r: RecoveryView)
    ensures
        recovered(s, r).credential_list.len() == s.credential_list.len() + 1,
        forall|i: int|
            0 <= i < s.credential_list.len() ==> recovered(s, r).credential_list[i]
                == s.credential_list[i],
        recovered(s, r).credential_list.last() == r.new_credential_id,
        stored_credential(recovered(s, r), r.new_credential_id) == Some(
            Credential { public_key: r.new_public_key, counter: 0 },
        ),
        forall|k: Seq<u8>|
            k != r.new_credential_id ==> stored_credential(recovered(s, r), k)
                == stored_credential(s, k),
        recovered(s, r).pending_recovery is None,
        recovered(s, r).guardian_list == s.guardian_list,
{
}

/// With no timelock set, a recovery waits three days (259200 seconds); with one
/// set, it waits that long.
pub proof fn law_default_timelock_three_days(s: StorageView)
    ensures
        s.recovery_timelock is None ==> effective_timelock(s) == 259200,
        s.recovery_timelock matches Some(t) ==> effective_timelock(s) == t,
{
}

/// A recovery may execute once `timelock` seconds have passed since its initiation;
/// when that sum does not fit in a u64, only at the last representable second.
pub proof fn law_unlock_time(initiated_at: u64, timelock: u64)
    ensures
        initiated_at + timelock <= u64::MAX ==> unlock_time(initiated_at, timelock) == initiated_at
            + timelock,
        initiated_at + timelock > u64::MAX ==> unlock_time(initiated_at, timelock) == u64::MAX,
        unlock_time(initiated_at, timelock) >= initiated_at,
{
}

proof fn lemma_members_all(list: Seq<Seq<u8>>, members: Seq<Seq<u8>>)
    requires
        forall|i: int| 0 <= i < list.len() ==> members.contains(#[trigger] list[i]),
    ensures
        members_of(list, members) == list,
    decreases list.len(),
{
    reveal_with_fuel(Seq::<_>::filter, 1);
    if list.len() > 0 {
        let sub = list.drop_last();
        assert forall|i: int| 0 <= i < sub.len() implies members.contains(#[trigger] sub[i]) by {
            assert(sub[i] == list[i]);
        }
        lemma_members_all(sub, members);
        assert(members.contains(list[list.len() - 1]));
        assert(sub.push(list.last()) =~= list);
    }
}

proof fn lemma_members_none(list: Seq<Seq<u8>>, members: Seq<Seq<u8>>)
    requires
        forall|i: int| 0 <= i < list.len() ==> !members.contains(#[trigger] list[i]),
    ensures
        members_of(list, members).len() == 0,
    decreases list.len(),
{
    reveal_with_fuel(Seq::<_>::filter, 1);
    if list.len() > 0 {
        let sub = list.drop_last();
        assert forall|i: int| 0 <= i < sub.len() implies !members.contains(#[trigger] sub[i]) by {
            assert(sub[i] == list[i]);
        }
        lemma_members_none(sub, members);
        assert(!members.contains(list[list.len() - 1]));
    }
}

/// Only approvals from current guardians count: none when no approver is a current
/// guardian, all of them when every approver is one, never more than were given.
pub proof fn law_valid_approvals_are_current_guardians(r: RecoveryView, s: StorageView)
    ensures
        (forall|i: int| 0 <= i < r.approvals.len() ==> !s.guardian_list.contains(#[trigger] r.approvals[i]))
            ==> valid_approval_count(r, s) == 0,
        (forall|i: int| 0 <= i < r.approvals.len() ==> s.guardian_list.contains(#[trigger] r.approvals[i]))
            ==> valid_approval_count(r, s) == r.approvals.len(),
        valid_approval_count(r, s) <= r.approvals.len(),
{
    broadcast use vstd::seq_lib::group_filter_ensures;

    if forall|i: int| 0 <= i < r.approvals.len() ==> !s.guardian_list.contains(#[trigger] r.approvals[i]) {
        lemma_members_none(r.approvals, s.guardian_list);
    }
    if forall|i: int| 0 <= i < r.approvals.len() ==> s.guardian_list.contains(#[trigger] r.approvals[i]) {
        lemma_members_all(r.approvals, s.guardian_list);
    }
}

/// The origin check passes exactly when an origin is allow-listed and clientDataJSON
/// carries that very origin.
pub proof fn law_origin_exact_match(allowed_origin: Option<Seq<u8>>, json: Seq<u8>)
    ensures
        origin_verdict(allowed_origin, json) is Ok <==> (allowed_origin is Some && origin_in(json)
            == allowed_origin),
        allowed_origin is None ==> origin_verdict(allowed_origin, json) == Err::<(), AccountError>(
            AccountError::OriginMismatch,
        ),
{
}

/// The challenge check passes exactly when clientDataJSON carries the base64url
/// encoding of the signed payload as its challenge.
pub proof fn law_challenge_exact_match(json: Seq<u8>, payload: Seq<u8>)
    ensures
        challenge_verdict(json, payload) is Ok <==> challenge_in(json) == Some(base64url(payload)),
{
}

/// Removing an entry removes every occurrence of it and nothing else.
pub proof fn law_without_removes_only_that_entry(list: Seq<Seq<u8>>, removed: Seq<u8>, x: Seq<u8>)
    ensures
        !without(list, removed).contains(removed),
        x != removed ==> (without(list, removed).contains(x) <==> list.contains(x)),
{
    broadcast use vstd::seq_lib::group_filter_ensures;

    if without(list, removed).contains(removed) {
        let j = choose|j: int|
            0 <= j < without(list, removed).len() && without(list, removed)[j] == removed;
        assert(differs_from(removed)(without(list, removed)[j]));
    }
    if x != removed {
        if list.contains(x) {
            lemma_without_keeps(list, removed, x);
        }
        if without(list, removed).contains(x) {
            list.lemma_filter_contains_rev(differs_from(removed), x);
        }
    }
}

} // verus!
