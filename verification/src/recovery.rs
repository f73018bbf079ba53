use vstd::prelude::*;

use crate::account::{fresh_credential, PasskeyAccount};
use crate::bytes::{
    byte_strings, copy_bytes, count_members, differs_from, lemma_filter_no_duplicates,
    lemma_push_absent_no_duplicates, list_contains, members_of, remove_all, without,
};
use crate::storage::{
    account_invariant, clear_pending_recovery, effective_timelock, get_credential_list, get_guardian_list,
    get_pending_recovery, get_recovery_threshold, get_recovery_timelock, set_credential,
    set_credential_list, set_guardian_list, set_pending_recovery, AccountStorage, StorageView,
};
use crate::types::{AccountError, Credential, RecoveryRequest, RecoveryView};

verus! {

/// The earliest ledger time at which a recovery initiated at `initiated_at` may
/// execute under `timelock`: their sum, saturated at `u64::MAX`.
pub open spec fn unlock_time(initiated_at: u64, timelock: u64) -> int {
    if initiated_at + timelock > u64::MAX {
        u64::MAX as int
    } else {
        initiated_at + timelock
    }
}

/// The number of approvals a recovery needs: the stored threshold, or every
/// current guardian when none was set.
pub open spec fn effective_threshold(s: StorageView) -> int {
    match s.recovery_threshold {
        Some(t) => t as int,
        None => s.guardian_list.len() as int,
    }
}

/// The approvals of a request that come from current guardians.
pub open spec fn valid_approval_count(r: RecoveryView, s: StorageView) -> int {
    members_of(r.approvals, s.guardian_list).len() as int
}

/// The request that a guardian's initiation records: its own approval, the time
/// of initiation, and the credential to add.
pub open spec fn initial_request(
    proposer: Seq<u8>,
    new_credential_id: Seq<u8>,
    new_public_key: [u8; 65],
    now: u64,
) -> RecoveryView {
    RecoveryView {
        proposer,
        new_credential_id,
        new_public_key,
        initiated_at: now,
        approvals: seq![proposer],
    }
}

/// The state after a recovery executes: the new credential is registered with
/// counter 0, its ID appended to the credential list, and the request cleared.
pub open spec fn recovered(s: StorageView, r: RecoveryView) -> StorageView {
    StorageView {
        credentials: s.credentials.insert(r.new_credential_id, fresh_credential(r.new_public_key)),
        credential_list: s.credential_list.push(r.new_credential_id),
        pending_recovery: None,
        ..s
    }
}

impl PasskeyAccount {
    /// Add a guardian address key; adding one that is already a guardian changes nothing.
    pub fn add_guardian(storage: &mut AccountStorage, guardian: Vec<u8>)
        ensures
            final(storage)@ == if old(storage)@.guardian_list.contains(guardian@) {
                old(storage)@
            } else {
                StorageView {
                    guardian_list: old(storage)@.guardian_list.push(guardian@),
                    ..old(storage)@
                }
            },            account_invariant(old(storage)@) ==> account_invariant(final(storage)@),
    {
        let mut list = get_guardian_list(storage);
        if list_contains(&list, guardian.as_slice()) {
            return;
        }
        let ghost before = list@;
        list.push(guardian);
        proof {
            assert(byte_strings(list@) =~= byte_strings(before).push(guardian@));
            if old(storage)@.guardian_list.no_duplicates() {
                lemma_push_absent_no_duplicates(old(storage)@.guardian_list, guardian@);
            }
        }
        set_guardian_list(storage, &list);
    }

    /// Remove a guardian address key (every occurrence of it).
    pub fn remove_guardian(storage: &mut AccountStorage, guardian: Vec<u8>)
        ensures
            final(storage)@ == (StorageView {
                guardian_list: without(old(storage)@.guardian_list, guardian@),
                ..old(storage)@
            }),            account_invariant(old(storage)@) ==> account_invariant(final(storage)@),
    {
        let list = get_guardian_list(storage);
        let new_list = remove_all(&list, guardian.as_slice());
        proof {
            if old(storage)@.guardian_list.no_duplicates() {
                lemma_filter_no_duplicates(old(storage)@.guardian_list, differs_from(guardian@));
            }
        }
        set_guardian_list(storage, &new_list);
    }

    /// List all registered guardian address keys.
    pub fn list_guardians(storage: &AccountStorage) -> (list: Vec<Vec<u8>>)
        ensures
            byte_strings(list@) == storage@.guardian_list,
    {
        get_guardian_list(storage)
    }

    /// Set the number of guardian approvals a recovery needs. Must be at least 1 and
    /// at most the current number of guardians; other values are rejected.
    pub fn set_recovery_threshold(storage: &mut AccountStorage, threshold: u32) -> (result: Result<
        (),
        AccountError,
    >)
        ensures
            if 1 <= threshold <= old(storage)@.guardian_list.len() {
                result is Ok && final(storage)@ == (StorageView {
                    recovery_threshold: Some(threshold),
                    ..old(storage)@
                })
            } else {
                result == Err::<(), AccountError>(AccountError::InvalidThreshold) && final(storage)@
                    == old(storage)@
            },            account_invariant(old(storage)@) ==> account_invariant(final(storage)@),
    {
        let guardian_count = get_guardian_list(storage).len();
        if threshold < 1 || threshold as usize > guardian_count {
            return Err(AccountError::InvalidThreshold);
        }
        crate::storage::set_recovery_threshold(storage, threshold);
        Ok(())
    }

    /// Set the timelock (in seconds) between initiating and executing a recovery.
    pub fn set_recovery_timelock(storage: &mut AccountStorage, seconds: u64)
        ensures
            final(storage)@ == (StorageView { recovery_timelock: Some(seconds), ..old(storage)@ }),            account_invariant(old(storage)@) ==> account_invariant(final(storage)@),
    {
        crate::storage::set_recovery_timelock(storage, seconds);
    }

    /// Initiate a recovery at ledger time `now`. The proposer must be a guardian and
    /// no recovery may be pending; the proposer's initiation is its own approval.
    pub fn initiate_recovery(
        storage: &mut AccountStorage,
        proposer: Vec<u8>,
        new_credential_id: Vec<u8>,
        new_public_key: [u8; 65],
        now: u64,
    ) -> (result: Result<(), AccountError>)
        ensures
            if !old(storage)@.guardian_list.contains(proposer@) {
                result == Err::<(), AccountError>(AccountError::NotAGuardian) && final(storage)@
                    == old(storage)@
            } else if old(storage)@.pending_recovery is Some {
                result == Err::<(), AccountError>(AccountError::RecoveryAlreadyPending)
                    && final(storage)@ == old(storage)@
            } else {
                result is Ok && final(storage)@ == (StorageView {
                    pending_recovery: Some(
                        initial_request(proposer@, new_credential_id@, new_public_key, now),
                    ),
                    ..old(storage)@
                })
            },
            final(storage)@.credentials == old(storage)@.credentials,
            final(storage)@.credential_list == old(storage)@.credential_list,
            account_invariant(old(storage)@) ==> account_invariant(final(storage)@),
            result is Ok ==> final(storage)@.pending_recovery == Some(
                RecoveryView {
                    proposer: proposer@,
                    new_credential_id: new_credential_id@,
                    new_public_key: new_public_key,
                    initiated_at: now,
                    approvals: seq![proposer@],
                },
            ),
    {
        let guardians = get_guardian_list(storage);
        if !list_contains(&guardians, proposer.as_slice()) {
            return Err(AccountError::NotAGuardian);
        }
        if get_pending_recovery(storage).is_some() {
            return Err(AccountError::RecoveryAlreadyPending);
        }
        let mut approvals: Vec<Vec<u8>> = Vec::new();
        approvals.push(copy_bytes(proposer.as_slice()));
        let request = RecoveryRequest {
            proposer,
            new_credential_id,
            new_public_key,
            initiated_at: now,
            approvals,
        };
        proof {
            assert(request@.approvals =~= seq![request@.proposer]);
        }
        set_pending_recovery(storage, &request);
        Ok(())
    }

    /// Add a guardian's approval to the pending recovery. Rejects non-guardians,
    /// calls with no recovery pending, and a second approval by the same guardian.
    pub fn approve_recovery(storage: &mut AccountStorage, approver: Vec<u8>) -> (result: Result<
        (),
        AccountError,
    >)
        ensures
            if !old(storage)@.guardian_list.contains(approver@) {
                result == Err::<(), AccountError>(AccountError::NotAGuardian) && final(storage)@
                    == old(storage)@
            } else {
                match old(storage)@.pending_recovery {
                    None => result == Err::<(), AccountError>(AccountError::NoRecoveryPending)
                        && final(storage)@ == old(storage)@,
                    Some(r) => if r.approvals.contains(approver@) {
                        result == Err::<(), AccountError>(AccountError::AlreadyApproved)
                            && final(storage)@ == old(storage)@
                    } else {
                        result is Ok && final(storage)@ == (StorageView {
                            pending_recovery: Some(
                                RecoveryView { approvals: r.approvals.push(approver@), ..r },
                            ),
                            ..old(storage)@
                        })
                    },
                }
            },
            final(storage)@.credentials == old(storage)@.credentials,
            final(storage)@.credential_list == old(storage)@.credential_list,
            account_invariant(old(storage)@) ==> account_invariant(final(storage)@),
    {
        let guardians = get_guardian_list(storage);
        if !list_contains(&guardians, approver.as_slice()) {
            return Err(AccountError::NotAGuardian);
        }
        let mut request = match get_pending_recovery(storage) {
            Some(r) => r,
            None => {
                return Err(AccountError::NoRecoveryPending);
            },
        };
        if list_contains(&request.approvals, approver.as_slice()) {
            return Err(AccountError::AlreadyApproved);
        }
        let ghost before = request@;
        request.approvals.push(approver);
        proof {
            assert(request@.approvals =~= before.approvals.push(approver@));
            assert(request@ == RecoveryView { approvals: before.approvals.push(approver@), ..before });
            if account_invariant(old(storage)@) {
                lemma_push_absent_no_duplicates(before.approvals, approver@);
            }
        }
        set_pending_recovery(storage, &request);
        Ok(())
    }

    /// Execute the pending recovery at ledger time `now`, once the timelock has
    /// elapsed and approvals from current guardians reach the threshold (all current
    /// guardians when no threshold was set). Callable by anyone.
    pub fn execute_recovery(storage: &mut AccountStorage, now: u64) -> (result: Result<
        (),
        AccountError,
    >)
        ensures
            match old(storage)@.pending_recovery {
                None => result == Err::<(), AccountError>(AccountError::NoRecoveryPending)
                    && final(storage)@ == old(storage)@,
                Some(r) => if now < unlock_time(r.initiated_at, effective_timelock(old(storage)@)) {
                    result == Err::<(), AccountError>(AccountError::TimelockNotElapsed)
                        && final(storage)@ == old(storage)@
                } else if valid_approval_count(r, old(storage)@) < effective_threshold(
                    old(storage)@,
                ) {
                    result == Err::<(), AccountError>(AccountError::ThresholdNotMet)
                        && final(storage)@ == old(storage)@
                } else {
                    result is Ok && final(storage)@ == recovered(old(storage)@, r)
                },
            },
            result is Ok ==> (old(storage)@.pending_recovery matches Some(r) && now >= unlock_time(
                r.initiated_at,
                effective_timelock(old(storage)@),
            ) && valid_approval_count(r, old(storage)@) >= effective_threshold(old(storage)@)),
            match old(storage)@.pending_recovery {
                Some(r) => (old(storage)@.recovery_threshold is None && members_of(
                    r.approvals,
                    old(storage)@.guardian_list,
                ).len() < old(storage)@.guardian_list.len() ==> result is Err) && (
                old(storage)@.recovery_threshold matches Some(t) && members_of(
                    r.approvals,
                    old(storage)@.guardian_list,
                ).len() < t ==> result is Err) && (result is Ok ==> final(storage)@.credential_list
                    == old(storage)@.credential_list.push(r.new_credential_id)
                    && final(storage)@.credentials == old(storage)@.credentials.insert(
                    r.new_credential_id,
                    Credential { public_key: r.new_public_key, counter: 0 },
                ) && final(storage)@.pending_recovery is None),
                None => result is Err,
            },
            account_invariant(old(storage)@) ==> account_invariant(final(storage)@),
    {
        let request = match get_pending_recovery(storage) {
            Some(r) => r,
            None => {
                return Err(AccountError::NoRecoveryPending);
            },
        };
        let timelock = get_recovery_timelock(storage);
        if now < request.initiated_at.saturating_add(timelock) {
            return Err(AccountError::TimelockNotElapsed);
        }
        let current_guardians = get_guardian_list(storage);
        let valid_approval_count = count_members(&request.approvals, &current_guardians);
        let threshold: usize = match get_recovery_threshold(storage) {
            Some(t) => t as usize,
            None => current_guardians.len(),
        };
        if valid_approval_count < threshold {
            return Err(AccountError::ThresholdNotMet);
        }
        let credential = Credential { public_key: request.new_public_key, counter: 0 };
        set_credential(storage, request.new_credential_id.as_slice(), &credential);
        let mut cred_list = get_credential_list(storage);
        let ghost before = cred_list@;
        cred_list.push(request.new_credential_id);
        proof {
            assert(byte_strings(cred_list@) =~= byte_strings(before).push(
                request@.new_credential_id,
            ));
        }
        set_credential_list(storage, &cred_list);
        clear_pending_recovery(storage);
        Ok(())
    }

    /// Cancel the pending recovery.
    pub fn cancel_recovery(storage: &mut AccountStorage) -> (result: Result<(), AccountError>)
        ensures
            if old(storage)@.pending_recovery is None {
                result == Err::<(), AccountError>(AccountError::NoRecoveryPending) && final(storage)@
                    == old(storage)@
            } else {
                result is Ok && final(storage)@ == (StorageView {
                    pending_recovery: None,
                    ..old(storage)@
                })
            },            account_invariant(old(storage)@) ==> account_invariant(final(storage)@),
    {
        if get_pending_recovery(storage).is_none() {
            return Err(AccountError::NoRecoveryPending);
        }
        clear_pending_recovery(storage);
        Ok(())
    }

    /// Get the current pending recovery request, if any.
    pub fn get_pending_recovery_state(storage: &AccountStorage) -> (request: Option<RecoveryRequest>)
        ensures
            crate::storage::opt_request(request) == storage@.pending_recovery,
    {
        get_pending_recovery(storage)
    }
}

} // verus!
