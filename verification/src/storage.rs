use vstd::prelude::*;

use crate::bytes::{byte_strings, bytes_eq, copy_byte_strings, copy_bytes};
use crate::types::{Credential, RecoveryRequest, RecoveryView};

verus! {

/// Default recovery timelock: 3 days in seconds.
pub const DEFAULT_RECOVERY_TIMELOCK_SECONDS: u64 = 3 * 24 * 60 * 60;

/// A stored credential together with the ID it is stored under.
struct CredentialEntry {
    id: Vec<u8>,
    credential: Credential,
}

/// The account's persistent state: one slot per storage key of the account.
///
/// Lists that were never written read as empty; the threshold, the timelock,
/// the origin and the pending recovery are absent until written.
pub struct AccountStorage {
    initialized: bool,
    allowed_origin: Option<Vec<u8>>,
    credentials: Vec<CredentialEntry>,
    credential_list: Vec<Vec<u8>>,
    guardian_list: Vec<Vec<u8>>,
    recovery_threshold: Option<u32>,
    recovery_timelock: Option<u64>,
    pending_recovery: Option<RecoveryRequest>,
}

/// The account's state as plain values.
pub struct StorageView {
    /// Whether the account has been initialized.
    pub initialized: bool,
    /// The allow-listed WebAuthn origin.
    pub allowed_origin: Option<Seq<u8>>,
    /// The registered credentials, by credential ID.
    pub credentials: Map<Seq<u8>, Credential>,
    /// The ordered list of registered credential IDs.
    pub credential_list: Seq<Seq<u8>>,
    /// The guardian address keys.
    pub guardian_list: Seq<Seq<u8>>,
    /// The number of guardian approvals a recovery needs, if set.
    pub recovery_threshold: Option<u32>,
    /// The recovery timelock in seconds, if set.
    pub recovery_timelock: Option<u64>,
    /// The recovery request in flight, if any.
    pub pending_recovery: Option<RecoveryView>,
}

/// A pending recovery request is well formed: its approvals start with the
/// proposer's own and hold no guardian twice.
pub open spec fn request_well_formed(r: RecoveryView) -> bool {
    &&& r.approvals.len() > 0
    &&& r.approvals[0] == r.proposer
    &&& r.approvals.no_duplicates()
}

/// What every entry point of the account keeps: the guardian list holds no
/// guardian twice, and a pending recovery request is well formed.
pub open spec fn account_invariant(s: StorageView) -> bool {
    &&& s.guardian_list.no_duplicates()
    &&& match s.pending_recovery {
        Some(r) => request_well_formed(r),
        None => true,
    }
}

/// The view of an optional byte string.
pub open spec fn opt_bytes(b: Option<Vec<u8>>) -> Option<Seq<u8>> {
    match b {
        Some(v) => Some(v@),
        None => None,
    }
}

/// The view of an optional recovery request.
pub open spec fn opt_request(r: Option<RecoveryRequest>) -> Option<RecoveryView> {
    match r {
        Some(q) => Some(q@),
        None => None,
    }
}

/// The timelock in force: the stored one, or the default when none was set.
pub open spec fn effective_timelock(s: StorageView) -> u64 {
    match s.recovery_timelock {
        Some(t) => t,
        None => DEFAULT_RECOVERY_TIMELOCK_SECONDS,
    }
}

/// The credential stored under `id`, if any.
pub open spec fn stored_credential(s: StorageView, id: Seq<u8>) -> Option<Credential> {
    if s.credentials.dom().contains(id) {
        Some(s.credentials[id])
    } else {
        None
    }
}

spec fn ids_unique(entries: Seq<CredentialEntry>) -> bool {
    forall|i: int, j: int|
        0 <= i < entries.len() && 0 <= j < entries.len() && i != j ==> entries[i].id@
            != entries[j].id@
}

spec fn entries_map(entries: Seq<CredentialEntry>) -> Map<Seq<u8>, Credential> {
    Map::new(
        |k: Seq<u8>| exists|i: int| 0 <= i < entries.len() && entries[i].id@ == k,
        |k: Seq<u8>|
            entries[choose|i: int| 0 <= i < entries.len() && entries[i].id@ == k].credential,
    )
}

proof fn lemma_entries_map_at(entries: Seq<CredentialEntry>, i: int)
    requires
        ids_unique(entries),
        0 <= i < entries.len(),
    ensures
        entries_map(entries).dom().contains(entries[i].id@),
        entries_map(entries)[entries[i].id@] == entries[i].credential,
{
    let k = entries[i].id@;
    assert(entries_map(entries).dom().contains(k));
    let j = choose|j: int| 0 <= j < entries.len() && entries[j].id@ == k;
    assert(j == i);
}

proof fn lemma_entries_map_absent(entries: Seq<CredentialEntry>, k: Seq<u8>)
    requires
        forall|i: int| 0 <= i < entries.len() ==> entries[i].id@ != k,
    ensures
        !entries_map(entries).dom().contains(k),
{
}

/// Storing `c` under `id` at index `at` (overwriting the entry with that ID, or
/// appending a new one) maps `id` to `c` in the map the entries stand for.
proof fn lemma_entries_store(
    old_entries: Seq<CredentialEntry>,
    entries: Seq<CredentialEntry>,
    id: Seq<u8>,
    c: Credential,
    at: int,
)
    requires
        ids_unique(old_entries),
        0 <= at < entries.len(),
        entries[at].id@ == id,
        entries[at].credential == c,
        at < old_entries.len() ==> old_entries[at].id@ == id && entries.len() == old_entries.len(),
        at >= old_entries.len() ==> at == old_entries.len() && entries.len() == old_entries.len() + 1
            && forall|j: int| 0 <= j < old_entries.len() ==> old_entries[j].id@ != id,
        forall|j: int| 0 <= j < entries.len() && j != at ==> entries[j] == old_entries[j],
    ensures
        ids_unique(entries),
        entries_map(entries) == entries_map(old_entries).insert(id, c),
{
    assert forall|a: int, b: int| 0 <= a < entries.len() && 0 <= b < entries.len() && a != b implies entries[a].id@
        != entries[b].id@ by {
        if a != at && b != at {
            assert(entries[a] == old_entries[a] && entries[b] == old_entries[b]);
        } else if a == at {
            assert(entries[b] == old_entries[b]);
        } else {
            assert(entries[a] == old_entries[a]);
        }
    }
    let target = entries_map(old_entries).insert(id, c);
    assert forall|k: Seq<u8>|
        #![trigger entries_map(entries).dom().contains(k)]
        entries_map(entries).dom().contains(k) == target.dom().contains(k) by {
        if k != id {
            if entries_map(old_entries).dom().contains(k) {
                let j = choose|j: int| 0 <= j < old_entries.len() && old_entries[j].id@ == k;
                assert(entries[j] == old_entries[j]);
            }
            if entries_map(entries).dom().contains(k) {
                let j = choose|j: int| 0 <= j < entries.len() && entries[j].id@ == k;
                assert(entries[j] == old_entries[j]);
            }
        } else {
            assert(entries[at].id@ == k);
        }
    }
    assert forall|k: Seq<u8>|
        entries_map(entries).dom().contains(k) implies #[trigger] entries_map(entries)[k]
        == target[k] by {
        let j = choose|j: int| 0 <= j < entries.len() && entries[j].id@ == k;
        lemma_entries_map_at(entries, j);
        if k != id {
            assert(entries[j] == old_entries[j]);
            lemma_entries_map_at(old_entries, j);
        }
    }
    assert(entries_map(entries) =~= target);
}

impl AccountStorage {
    #[verifier::type_invariant]
    spec fn credential_ids_unique(self) -> bool {
        ids_unique(self.credentials@)
    }
}

impl View for AccountStorage {
    type V = StorageView;

    closed spec fn view(&self) -> StorageView {
        StorageView {
            initialized: self.initialized,
            allowed_origin: opt_bytes(self.allowed_origin),
            credentials: entries_map(self.credentials@),
            credential_list: byte_strings(self.credential_list@),
            guardian_list: byte_strings(self.guardian_list@),
            recovery_threshold: self.recovery_threshold,
            recovery_timelock: self.recovery_timelock,
            pending_recovery: opt_request(self.pending_recovery),
        }
    }
}

impl AccountStorage {
    /// Storage of an account that nothing has been written to yet.
    pub fn new() -> (storage: AccountStorage)
        ensures
            storage@ == (StorageView {
                initialized: false,
                allowed_origin: None,
                credentials: Map::empty(),
                credential_list: Seq::empty(),
                guardian_list: Seq::empty(),
                recovery_threshold: None,
                recovery_timelock: None,
                pending_recovery: None,
            }),
            account_invariant(storage@),
    {
        let storage = AccountStorage {
            initialized: false,
            allowed_origin: None,
            credentials: Vec::new(),
            credential_list: Vec::new(),
            guardian_list: Vec::new(),
            recovery_threshold: None,
            recovery_timelock: None,
            pending_recovery: None,
        };
        assert(storage@.credentials =~= Map::empty());
        assert(storage@.credential_list =~= Seq::empty());
        assert(storage@.guardian_list =~= Seq::empty());
        storage
    }

    /// The index of the entry stored under `id`, if any.
    fn find_credential(&self, id: &[u8]) -> (index: Option<usize>)
        ensures
            match index {
                Some(i) => i < self.credentials@.len() && self.credentials@[i as int].id@ == id@,
                None => forall|i: int|
                    0 <= i < self.credentials@.len() ==> self.credentials@[i].id@ != id@,
            },
    {
        let mut i: usize = 0;
        while i < self.credentials.len()
            invariant
                0 <= i <= self.credentials@.len(),
                forall|k: int| 0 <= k < i ==> self.credentials@[k].id@ != id@,
            decreases self.credentials@.len() - i,
        {
            if bytes_eq(self.credentials[i].id.as_slice(), id) {
                return Some(i);
            }
            i = i + 1;
        }
        None
    }
}

/// Returns true if the contract has been initialized.
pub fn is_initialized(storage: &AccountStorage) -> (initialized: bool)
    ensures
        initialized == storage@.initialized,
{
    storage.initialized
}

/// Mark the contract as initialized.
pub fn set_initialized(storage: &mut AccountStorage)
    ensures
        final(storage)@ == (StorageView { initialized: true, ..old(storage)@ }),
{
    proof {
        use_type_invariant(&*storage);
    }
    storage.initialized = true;
}

/// Store a credential under `credential_id`, replacing any credential stored there.
pub fn set_credential(storage: &mut AccountStorage, credential_id: &[u8], credential: &Credential)
    ensures
        final(storage)@ == (StorageView {
            credentials: old(storage)@.credentials.insert(credential_id@, *credential),
            ..old(storage)@
        }),
{
    proof {
        use_type_invariant(&*storage);
    }
    let ghost old_entries = storage.credentials@;
    let found = storage.find_credential(credential_id);
    let entry = CredentialEntry { id: copy_bytes(credential_id), credential: credential.clone() };
    let mut entries: Vec<CredentialEntry> = Vec::new();
    std::mem::swap(&mut entries, &mut storage.credentials);
    match found {
        Some(i) => {
            entries.set(i, entry);
            proof {
                lemma_entries_store(old_entries, entries@, credential_id@, *credential, i as int);
            }
        },
        None => {
            entries.push(entry);
            proof {
                lemma_entries_store(
                    old_entries,
                    entries@,
                    credential_id@,
                    *credential,
                    old_entries.len() as int,
                );
            }
        },
    }
    storage.credentials = entries;
}

/// Get a credential, returning None if not found.
pub fn get_credential(storage: &AccountStorage, credential_id: &[u8]) -> (credential: Option<
    Credential,
>)
    ensures
        credential == stored_credential(storage@, credential_id@),
{
    proof {
        use_type_invariant(storage);
    }
    match storage.find_credential(credential_id) {
        Some(i) => {
            proof {
                lemma_entries_map_at(storage.credentials@, i as int);
            }
            Some(storage.credentials[i].credential.clone())
        },
        None => {
            proof {
                lemma_entries_map_absent(storage.credentials@, credential_id@);
            }
            None
        },
    }
}

/// Remove a credential.
pub fn remove_credential(storage: &mut AccountStorage, credential_id: &[u8])
    ensures
        final(storage)@ == (StorageView {
            credentials: old(storage)@.credentials.remove(credential_id@),
            ..old(storage)@
        }),
{
    proof {
        use_type_invariant(&*storage);
    }
    let ghost old_entries = storage.credentials@;
    match storage.find_credential(credential_id) {
        Some(i) => {
            let mut entries: Vec<CredentialEntry> = Vec::new();
    std::mem::swap(&mut entries, &mut storage.credentials);
            entries.remove(i);
            proof {
                assert forall|a: int, b: int|
                    0 <= a < entries@.len() && 0 <= b < entries@.len() && a != b implies entries@[a].id@
                    != entries@[b].id@ by {
                    let a0 = if a < i { a } else { a + 1 };
                    let b0 = if b < i { b } else { b + 1 };
                    assert(entries@[a] == old_entries[a0]);
                    assert(entries@[b] == old_entries[b0]);
                }
                assert(ids_unique(entries@));
                let target = entries_map(old_entries).remove(credential_id@);
                assert forall|k: Seq<u8>|
                    #![trigger entries_map(entries@).dom().contains(k)]
                    entries_map(entries@).dom().contains(k) == target.dom().contains(k) by {
                    if entries_map(old_entries).dom().contains(k) && k != credential_id@ {
                        let j = choose|j: int| 0 <= j < old_entries.len() && old_entries[j].id@ == k;
                        assert(j != i);
                        let j2 = if j < i { j } else { j - 1 };
                        assert(entries@[j2] == old_entries[j]);
                    }
                    if entries_map(entries@).dom().contains(k) {
                        let j = choose|j: int| 0 <= j < entries@.len() && entries@[j].id@ == k;
                        let j0 = if j < i { j } else { j + 1 };
                        assert(entries@[j] == old_entries[j0]);
                        assert(j0 != i);
                        assert(old_entries[j0].id@ != old_entries[i as int].id@);
                    }
                }
                assert forall|k: Seq<u8>|
                    entries_map(entries@).dom().contains(k) implies #[trigger] entries_map(entries@)[k]
                    == target[k] by {
                    let j = choose|j: int| 0 <= j < entries@.len() && entries@[j].id@ == k;
                    let j0 = if j < i { j } else { j + 1 };
                    assert(entries@[j] == old_entries[j0]);
                    lemma_entries_map_at(entries@, j);
                    lemma_entries_map_at(old_entries, j0);
                }
                assert(entries_map(entries@) =~= target);
            }
            storage.credentials = entries;
        },
        None => {
            proof {
                lemma_entries_map_absent(old_entries, credential_id@);
                assert(entries_map(old_entries) =~= entries_map(old_entries).remove(
                    credential_id@,
                ));
            }
        },
    }
}

/// Get the list of all credential IDs.
pub fn get_credential_list(storage: &AccountStorage) -> (list: Vec<Vec<u8>>)
    ensures
        byte_strings(list@) == storage@.credential_list,
{
    copy_byte_strings(&storage.credential_list)
}

/// Set the list of all credential IDs.
pub fn set_credential_list(storage: &mut AccountStorage, list: &Vec<Vec<u8>>)
    ensures
        final(storage)@ == (StorageView { credential_list: byte_strings(list@), ..old(storage)@ }),
{
    proof {
        use_type_invariant(&*storage);
    }
    storage.credential_list = copy_byte_strings(list);
}

/// Get the allowed origin.
pub fn get_allowed_origin_val(storage: &AccountStorage) -> (origin: Option<Vec<u8>>)
    ensures
        opt_bytes(origin) == storage@.allowed_origin,
{
    match &storage.allowed_origin {
        Some(o) => Some(copy_bytes(o.as_slice())),
        None => None,
    }
}

/// Set the allowed origin.
pub fn set_allowed_origin(storage: &mut AccountStorage, origin: &[u8])
    ensures
        final(storage)@ == (StorageView { allowed_origin: Some(origin@), ..old(storage)@ }),
{
    proof {
        use_type_invariant(&*storage);
    }
    storage.allowed_origin = Some(copy_bytes(origin));
}

/// Get the list of guardian address keys.
pub fn get_guardian_list(storage: &AccountStorage) -> (list: Vec<Vec<u8>>)
    ensures
        byte_strings(list@) == storage@.guardian_list,
{
    copy_byte_strings(&storage.guardian_list)
}

/// Set the list of guardian address keys.
pub fn set_guardian_list(storage: &mut AccountStorage, list: &Vec<Vec<u8>>)
    ensures
        final(storage)@ == (StorageView { guardian_list: byte_strings(list@), ..old(storage)@ }),
{
    proof {
        use_type_invariant(&*storage);
    }
    storage.guardian_list = copy_byte_strings(list);
}

/// Get the recovery threshold. If unset, returns None (callers default to ALL guardians).
pub fn get_recovery_threshold(storage: &AccountStorage) -> (threshold: Option<u32>)
    ensures
        threshold == storage@.recovery_threshold,
{
    storage.recovery_threshold
}

/// Set the recovery threshold.
pub fn set_recovery_threshold(storage: &mut AccountStorage, threshold: u32)
    ensures
        final(storage)@ == (StorageView { recovery_threshold: Some(threshold), ..old(storage)@ }),
{
    proof {
        use_type_invariant(&*storage);
    }
    storage.recovery_threshold = Some(threshold);
}

/// Get the recovery timelock in seconds. Defaults to DEFAULT_RECOVERY_TIMELOCK_SECONDS.
pub fn get_recovery_timelock(storage: &AccountStorage) -> (seconds: u64)
    ensures
        seconds == effective_timelock(storage@),
{
    match storage.recovery_timelock {
        Some(t) => t,
        None => DEFAULT_RECOVERY_TIMELOCK_SECONDS,
    }
}

/// Set the recovery timelock in seconds.
pub fn set_recovery_timelock(storage: &mut AccountStorage, seconds: u64)
    ensures
        final(storage)@ == (StorageView { recovery_timelock: Some(seconds), ..old(storage)@ }),
{
    proof {
        use_type_invariant(&*storage);
    }
    storage.recovery_timelock = Some(seconds);
}

/// Get the pending recovery request, if any.
pub fn get_pending_recovery(storage: &AccountStorage) -> (request: Option<RecoveryRequest>)
    ensures
        opt_request(request) == storage@.pending_recovery,
{
    match &storage.pending_recovery {
        Some(r) => Some(r.copy()),
        None => None,
    }
}

/// Set the pending recovery request.
pub fn set_pending_recovery(storage: &mut AccountStorage, request: &RecoveryRequest)
    ensures
        final(storage)@ == (StorageView { pending_recovery: Some(request@), ..old(storage)@ }),
{
    proof {
        use_type_invariant(&*storage);
    }
    storage.pending_recovery = Some(request.copy());
}

/// Clear the pending recovery request.
pub fn clear_pending_recovery(storage: &mut AccountStorage)
    ensures
        final(storage)@ == (StorageView { pending_recovery: None, ..old(storage)@ }),
{
    proof {
        use_type_invariant(&*storage);
    }
    storage.pending_recovery = None;
}

} // verus!
