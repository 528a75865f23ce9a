//! Size limits for lucky words and reveals.
use vstd::prelude::*;

verus! {

/// Max bytes for the UTF-8 lucky words string.
pub const MAX_LUCKY_WORD_BYTES: usize = 32;

/// Max bytes for the salt (raw bytes, shown as hex off-chain).
pub const MAX_SALT_BYTES: usize = 16;

/// Max bytes for a reveal plaintext: lucky words, a 0x1f separator, salt.
pub const MAX_REVEAL_PLAINTEXT_BYTES: usize = MAX_LUCKY_WORD_BYTES + 1 + MAX_SALT_BYTES;

} // verus!
