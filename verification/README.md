# soroban_passkey_account

A Soroban custom account that authenticates with WebAuthn passkeys (secp256r1)
and supports guardian-based social recovery, with its logic verified by Verus.

Layout:

- `src/` — the verified library.
  - `storage.rs`: `AccountStorage`, the account's state (one slot per storage key),
    its plain-value view `StorageView`, and the typed read/write helpers.
  - `webauthn.rs`: authenticatorData counter parsing and clientDataJSON field
    extraction (origin, challenge), specified over byte sequences.
  - `base64url.rs`: unpadded base64url encoding, used to bind an assertion's
    challenge to the transaction payload it signs.
  - `crypto.rs`: the Soroban host's SHA-256, reached through a trusted wrapper.
  - `account.rs`: initialization, signer management, and the two verified halves
    of the passkey check (lookup and digest; counter, origin and challenge).
  - `recovery.rs`: guardians, threshold, timelock, and the recovery flow.
  - `laws.rs`: properties that span calls (replay defence, payload binding,
    roundtrips, duplicate-free guardian and approval lists, removed guardians not
    counted). Every entry point also keeps `account_invariant`.
- `app/` — the Soroban contract: authorization checks, the secp256r1 host check,
  and moving state between Soroban storage and `AccountStorage`.
- `tests/` — tests of the library.
