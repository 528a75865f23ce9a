//! Creating a lottery and its vault.
use vstd::prelude::*;
use crate::address::Address;
use crate::error::Error;
use crate::state::config::Config;
use crate::state::lottery::{Lottery, DAY_SECS};
use crate::state::vault::Vault;
use crate::state::sizes::PAID_BITMAP_BYTES;
use crate::utils::pda::{derive_lottery_pda, derive_vault_pda, derived_bump, derives_to, lottery_seeds, vault_seeds};

verus! {

/// What creating a lottery writes: the new lottery and vault, the config
/// with the advanced counter, and the bump seeds of the two addresses.
pub struct CreatedLottery {
    pub lottery: Lottery,
    pub vault: Vault,
    pub config: Config,
    pub lottery_bump: u8,
    pub vault_bump: u8,
}

/// Creates lottery number `lottery_count + 1` at `current_time`; the
/// lottery keeps the config's ticket price and service charge of now.  A signer
/// other than the authority fails with `Unauthorized`; a lottery or vault
/// key other than the derived address (or one that cannot be derived)
/// with `InvalidSeeds`.
pub fn plan_create_lottery(
    program_id: &Address,
    config_key: &Address,
    config: &Config,
    signer: &Address,
    lottery_key: &Address,
    vault_key: &Address,
    current_time: i64,
) -> (r: Result<CreatedLottery, Error>)
    requires
        config.lottery_count < u64::MAX,
        current_time <= i64::MAX - 2 * DAY_SECS,
    ensures
        ({
            let id = (config.lottery_count + 1) as u64;
            let lottery_ok = derives_to(lottery_seeds(config_key.bytes@, id), program_id.bytes@, lottery_key.bytes@);
            let vault_ok = derives_to(vault_seeds(lottery_key.bytes@), program_id.bytes@, vault_key.bytes@);
            let lottery_bump = derived_bump(lottery_seeds(config_key.bytes@, id), program_id.bytes@);
            let vault_bump = derived_bump(vault_seeds(lottery_key.bytes@), program_id.bytes@);
            &&& signer.bytes@ != config.authority.bytes@ ==> r is Err && r->Err_0 == Error::Unauthorized
            &&& signer.bytes@ == config.authority.bytes@ && !lottery_ok ==> r is Err && r->Err_0
                == Error::InvalidSeeds
            &&& signer.bytes@ == config.authority.bytes@ && lottery_ok && !vault_ok ==> r is Err && r->Err_0
                == Error::InvalidSeeds
            &&& signer.bytes@ == config.authority.bytes@ && lottery_ok && vault_ok ==> r is Ok && {
                let c = r->Ok_0;
                &&& c.config == Config { lottery_count: id, ..*config }
                &&& c.lottery.id == id
                &&& c.lottery.config == *config_key
                &&& c.lottery.authority == config.authority
                &&& c.lottery.created_at_unix == current_time
                &&& c.lottery.buy_start_unix == current_time
                &&& c.lottery.buy_deadline_unix == current_time + DAY_SECS
                &&& c.lottery.upload_start_unix == current_time + DAY_SECS
                &&& c.lottery.upload_deadline_unix == current_time + 2 * DAY_SECS
                &&& c.lottery.vault == *vault_key
                &&& c.lottery.vault_bump == vault_bump
                &&& c.lottery.participants_count == 0
                &&& c.lottery.total_tickets == 0
                &&& c.lottery.total_funds == 0
                &&& c.lottery.ticket_price_lamports == config.ticket_price_lamports
                &&& c.lottery.service_charge_bps == config.service_charge_bps
                &&& !c.lottery.settled
                &&& c.lottery.settlement_start_unix == 0
                &&& c.lottery.status == 0
                &&& c.lottery.provider_uploaded_count == 0
                &&& c.lottery.poc_aggregate_hash@ == Seq::new(32, |i: int| 0u8)
                &&& !c.lottery.uploads_complete
                &&& c.lottery.attested_count == 0
                &&& c.lottery.selected_number_of_winners == 1
                &&& c.lottery.winners_merkle_root@ == Seq::new(32, |i: int| 0u8)
                &&& c.lottery.winners_count == 0
                &&& c.lottery.total_payout == 0
                &&& c.lottery.paid_winners_bitmap@ == Seq::new(PAID_BITMAP_BYTES as nat, |i: int| 0u8)
                &&& c.lottery.settlement_batches_completed == 0
                &&& !c.lottery.settlement_complete
                &&& c.vault == Vault { lottery: *lottery_key, bump: vault_bump }
                &&& c.lottery_bump == lottery_bump
                &&& c.vault_bump == vault_bump
            }
        }),
{
    if !signer.equals(&config.authority) {
        return Err(Error::Unauthorized);
    }
    let lottery_id: u64 = config.lottery_count + 1;
    let (lottery_pubkey, lottery_bump) = derive_lottery_pda(program_id, config_key, lottery_id)?;
    if !lottery_key.equals(&lottery_pubkey) {
        return Err(Error::InvalidSeeds);
    }
    let (vault_pubkey, vault_bump) = derive_vault_pda(program_id, &lottery_pubkey)?;
    if !vault_key.equals(&vault_pubkey) {
        return Err(Error::InvalidSeeds);
    }
    let mut lottery = Lottery::new(lottery_id, *config_key, config.authority, current_time, *vault_key, vault_bump);
    lottery.ticket_price_lamports = config.ticket_price_lamports;
    lottery.service_charge_bps = config.service_charge_bps;
    let vault = Vault::new(*lottery_key, vault_bump);
    let updated = Config { lottery_count: lottery_id, ..*config };
    Ok(CreatedLottery { lottery, vault, config: updated, lottery_bump, vault_bump })
}

} // verus!
