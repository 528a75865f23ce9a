//! The vault that holds one lottery's funds (seeds `["vault", lottery]`).
use vstd::prelude::*;
use crate::address::Address;
use crate::utils::crypto::views_of;
use crate::utils::pda::vault_tag;

verus! {

/// Custody record of a lottery's vault.
#[derive(Debug, Clone, Copy)]
pub struct Vault {
    /// The lottery that owns the vault.
    pub lottery: Address,
    /// Bump seed of the vault address, kept for signing.
    pub bump: u8,
}

impl Default for Vault {
    fn default() -> (v: Vault)
        ensures
            v.lottery.bytes@ == Seq::new(32, |i: int| 0u8),
            v.bump == 0,
    {
        Vault { lottery: Address::zero(), bump: 0 }
    }
}

impl Vault {
    /// A vault for `lottery`.
    pub fn new(lottery: Address, bump: u8) -> (v: Vault)
        ensures
            v == (Vault { lottery, bump }),
    {
        Vault { lottery, bump }
    }

    /// The signing seeds of the vault: `"vault"`, the lottery address, and
    /// the bump seed.
    pub fn get_seeds(&self) -> (s: Vec<Vec<u8>>)
        ensures
            views_of(s@) == seq![vault_tag(), self.lottery.bytes@, seq![self.bump]],
    {
        let tag: [u8; 5] = [0x76, 0x61, 0x75, 0x6c, 0x74];
        let mut tag_v: Vec<u8> = Vec::new();
        crate::utils::bytes::extend_bytes(&mut tag_v, tag.as_slice());
        let mut lottery_v: Vec<u8> = Vec::new();
        crate::utils::bytes::extend_bytes(&mut lottery_v, self.lottery.bytes.as_slice());
        let mut bump_v: Vec<u8> = Vec::new();
        bump_v.push(self.bump);
        let mut s: Vec<Vec<u8>> = Vec::new();
        s.push(tag_v);
        s.push(lottery_v);
        s.push(bump_v);
        proof {
            assert(tag@ =~= vault_tag());
            assert(views_of(s@) =~= seq![vault_tag(), self.lottery.bytes@, seq![self.bump]]);
        }
        s
    }

    /// Whether the vault belongs to `expected_lottery`.
    pub fn validate_lottery(&self, expected_lottery: &Address) -> (r: bool)
        ensures
            r <==> self.lottery.bytes@ == expected_lottery.bytes@,
    {
        self.lottery.equals(expected_lottery)
    }
}

} // verus!
