//! Serialized sizes of the program's accounts (8-byte discriminator plus the
//! packed fields).
use vstd::prelude::*;

verus! {

/// Maximum number of winners of one lottery (sizes the paid-winner bitmap).
pub const MAX_WINNERS: usize = 256;

/// Bytes of the paid-winner bitmap: one bit per possible winner.
pub const PAID_BITMAP_BYTES: usize = (MAX_WINNERS + 7) / 8;

/// Config account: discriminator, authority, ticket price, service charge,
/// lottery count, buy window, upload window, winners cap.
pub const CONFIG_SIZE: usize = 8 + 32 + 8 + 2 + 8 + 4 + 4 + 4;

/// Lottery account: discriminator and every field, the bitmap with its
/// 4-byte length prefix, and the snapshot of ticket price and service charge.
pub const LOTTERY_SIZE: usize = 8 + 8 + 32 + 32 + 8 + 8 + 8 + 8 + 8 + 8 + 1 + 8 + 8 + 8 + 32 + 1
    + 1 + 32 + 1 + 8 + 8 + 8 + 32 + 8 + 8 + (4 + PAID_BITMAP_BYTES) + 4 + 1 + 8 + 2;

/// Participant account: discriminator, lottery, wallet, reveal hash,
/// tickets, attested flag, attestation time, vote, reveal score.
pub const PARTICIPANT_SIZE: usize = 8 + 32 + 32 + 32 + 8 + 1 + 8 + 8 + 8;

/// Vault account: discriminator, lottery, bump.
pub const VAULT_SIZE: usize = 8 + 32 + 1;

} // verus!
