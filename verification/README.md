# daily_lottery

A proof-of-chance daily lottery for Solana. Participants buy tickets with a
commitment to a secret phrase, reveal the phrase during the upload window, and
the XOR of the reveal digests seeds a ticket-weighted draw of one or more
winners, who are then paid in batches from the lottery's vault.

Layout:

- `src/` is the library, verified with Verus: account state and its
  transitions, instruction decoding, ticket purchases, attestations, reveal
  uploads (by the provider, or by a participant itself with `AttestReveal`)
  and the winner vote, chunked winner finalization, payouts, refund
  settlement and the refund claims (`ClaimRefund`) that follow it, and the
  closing of accounts no longer needed. Every public function has a
  contract; the laws that span several calls (payouts conserve the vault, no
  winner is paid twice, a refund is paid once, the
  drawn ticket's owner is the winner and is not drawn again, over any
  sequence of finalization calls the winners stay distinct, within the target
  and add up to the drawn ticket total, any
  rearrangement of the reveals gives the same entropy, decoding reads the
  Borsh encoding of every instruction, and others) are public proof functions.
- `app/` is the on-chain program around it: the entrypoint, account reads and
  writes, system-program calls, lamport moves and event logs.
- `tests/` runs the library on concrete values.

Hashing (`sha2`, `solana-sha256-hasher`), program-address derivation
(`solana-program`) and Borsh list decoding (`borsh`) are called from the
library through small trusted wrappers whose contracts state what they are
relied on for.
