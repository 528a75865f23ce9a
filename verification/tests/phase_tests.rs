use daily_lottery::address::Address;
use daily_lottery::error::Error;
use daily_lottery::instructions::begin_buy_phase::plan_begin_buy_phase;
use daily_lottery::instructions::begin_reveal_phase::plan_begin_reveal_phase;
use daily_lottery::instructions::begin_settlement_phase::plan_begin_settlement_phase;
use daily_lottery::instructions::begin_upload_phase::plan_begin_upload_phase;
use daily_lottery::instructions::create_lottery::plan_create_lottery;
use daily_lottery::instructions::finalize_no_attesters::plan_finalize_no_attesters;
use daily_lottery::instructions::update_service_charge::apply_service_charge;
use daily_lottery::instructions::update_windows::apply_windows;
use daily_lottery::state::{Config, Lottery};
use daily_lottery::utils::crypto::aggregate_hashes;
use daily_lottery::utils::pda::{derive_lottery_pda, derive_vault_pda};
use solana_program::pubkey::Pubkey;

fn unique() -> Address {
    Address::new_from_array(Pubkey::new_unique().to_bytes())
}

fn config() -> Config {
    Config {
        authority: unique(),
        ticket_price_lamports: 1_000,
        service_charge_bps: 500,
        lottery_count: 0,
        buy_window_secs: 100,
        upload_window_secs: 200,
        max_winners_cap: 32,
    }
}

fn created(program_id: &Address, cfg: &Config) -> (Address, Lottery) {
    let config_key = unique();
    let (lottery_key, _) = derive_lottery_pda(program_id, &config_key, cfg.lottery_count + 1).unwrap();
    let (vault_key, _) = derive_vault_pda(program_id, &lottery_key).unwrap();
    let c = plan_create_lottery(program_id, &config_key, cfg, &cfg.authority, &lottery_key, &vault_key, 1_000).unwrap();
    (lottery_key, c.lottery)
}

#[test]
fn creating_a_lottery_derives_its_accounts() {
    let program_id = unique();
    let cfg = config();
    let config_key = unique();
    let (lottery_key, _) = derive_lottery_pda(&program_id, &config_key, 1).unwrap();
    let (vault_key, vault_bump) = derive_vault_pda(&program_id, &lottery_key).unwrap();
    let c = plan_create_lottery(&program_id, &config_key, &cfg, &cfg.authority, &lottery_key, &vault_key, 1_000).unwrap();
    assert_eq!(c.config.lottery_count, 1);
    assert_eq!(c.lottery.id, 1);
    assert_eq!(c.lottery.vault, vault_key);
    assert_eq!(c.vault_bump, vault_bump);
    assert_eq!(c.vault.lottery, lottery_key);
    assert_eq!(
        plan_create_lottery(&program_id, &config_key, &cfg, &unique(), &lottery_key, &vault_key, 1_000).err(),
        Some(Error::Unauthorized)
    );
    assert_eq!(
        plan_create_lottery(&program_id, &config_key, &cfg, &cfg.authority, &unique(), &vault_key, 1_000).err(),
        Some(Error::InvalidSeeds)
    );
}

#[test]
fn single_participant_uploads_complete_when_the_window_opens() {
    let program_id = unique();
    let cfg = config();
    let (lottery_key, mut lottery) = created(&program_id, &cfg);
    lottery.participants_count = 1;
    let plan = plan_begin_reveal_phase(&program_id, &lottery_key, lottery, &cfg, &cfg.authority, 1_500, 60, 60).unwrap();
    let empty: Vec<[u8; 32]> = vec![];
    assert_eq!(plan.auto_completed, Some(aggregate_hashes(&empty)));
    assert!(plan.lottery.uploads_complete);
    assert_eq!(plan.lottery.selected_number_of_winners, 1);
    assert_eq!(plan.lottery.upload_start_unix, 1_500);
    assert_eq!(plan.lottery.upload_deadline_unix, 1_000 + 2 * 86_400 + 60);
}

#[test]
fn reveal_phase_uses_default_windows_and_never_shortens() {
    let program_id = unique();
    let cfg = config();
    let (lottery_key, mut lottery) = created(&program_id, &cfg);
    lottery.participants_count = 2;
    let plan = plan_begin_reveal_phase(&program_id, &lottery_key, lottery.clone(), &cfg, &cfg.authority, 1_500, 0, 0).unwrap();
    assert_eq!(plan.auto_completed, None);
    assert_eq!(plan.lottery.upload_start_unix, 1_500);
    assert_eq!(plan.lottery.upload_deadline_unix, 1_000 + 2 * 86_400 + 200);
    assert_eq!(
        plan_begin_reveal_phase(&program_id, &lottery_key, lottery.clone(), &cfg, &unique(), 1_500, 0, 0).err(),
        Some(Error::Unauthorized)
    );
    lottery.settlement_start_unix = 1;
    assert_eq!(
        plan_begin_reveal_phase(&program_id, &lottery_key, lottery, &cfg, &cfg.authority, 1_500, 0, 0).err(),
        Some(Error::InvalidPhaseTransition)
    );
}

#[test]
fn buy_and_upload_phases_open_now() {
    let program_id = unique();
    let cfg = config();
    let (lottery_key, mut lottery) = created(&program_id, &cfg);
    assert_eq!(
        plan_begin_buy_phase(&program_id, &lottery_key, lottery.clone(), &cfg, &cfg.authority, 1_500, 0).err(),
        Some(Error::InvalidPhaseTransition)
    );
    lottery.buy_start_unix = 0;
    lottery.buy_deadline_unix = 0;
    lottery.upload_start_unix = 0;
    let l = plan_begin_buy_phase(&program_id, &lottery_key, lottery.clone(), &cfg, &cfg.authority, 1_500, 0).unwrap();
    assert_eq!(l.buy_start_unix, 1_500);
    assert_eq!(l.buy_deadline_unix, 1_600);
    assert_eq!(
        plan_begin_upload_phase(&program_id, &lottery_key, lottery.clone(), &cfg, &cfg.authority, 1_500, 0).err(),
        Some(Error::InvalidInstruction)
    );
    let mut after_buy = l;
    after_buy.participants_count = 2;
    let up = plan_begin_upload_phase(&program_id, &lottery_key, after_buy, &cfg, &cfg.authority, 1_700, 0).unwrap();
    assert_eq!(up.lottery.upload_start_unix, 1_700);
    assert_eq!(up.lottery.upload_deadline_unix, 1_000 + 2 * 86_400);
}

#[test]
fn settlement_starts_after_uploads() {
    let program_id = unique();
    let cfg = config();
    let (lottery_key, mut lottery) = created(&program_id, &cfg);
    lottery.participants_count = 2;
    lottery.attested_count = 1;
    assert_eq!(
        plan_begin_settlement_phase(&program_id, &lottery_key, lottery.clone(), &cfg, &cfg.authority, 1_500).err(),
        Some(Error::InvalidInstruction)
    );
    let started = plan_begin_settlement_phase(
        &program_id,
        &lottery_key,
        lottery.clone(),
        &cfg,
        &cfg.authority,
        lottery.upload_deadline_unix + 1,
    )
    .unwrap();
    assert_eq!(started.settlement_start_unix, lottery.upload_deadline_unix + 1);
    assert_eq!(
        plan_begin_settlement_phase(&program_id, &lottery_key, started, &cfg, &cfg.authority, 5).err(),
        Some(Error::InvalidPhaseTransition)
    );
}

#[test]
fn admin_updates_require_the_authority() {
    let cfg = config();
    let (updated, old) = apply_service_charge(&cfg, &cfg.authority, 250).unwrap();
    assert_eq!(updated.service_charge_bps, 250);
    assert_eq!(old, 500);
    assert_eq!(apply_service_charge(&cfg, &unique(), 250).err(), Some(daily_lottery::error::Error::Unauthorized));
    let w = apply_windows(&cfg, &cfg.authority, 0, 300).unwrap();
    assert_eq!(w.buy_window_secs, 100);
    assert_eq!(w.upload_window_secs, 300);
    assert!(apply_windows(&cfg, &unique(), 1, 1).is_err());
}

#[test]
fn created_lottery_keeps_its_price_and_service_charge() {
    let program_id = unique();
    let cfg = config();
    let (_, mut lottery) = created(&program_id, &cfg);
    assert_eq!(lottery.ticket_price_lamports, 1_000);
    assert_eq!(lottery.service_charge_bps, 500);

    let (updated, old_bps) = apply_service_charge(&cfg, &cfg.authority, 2_000).unwrap();
    assert_eq!(old_bps, 500);
    assert_eq!(updated.service_charge_bps, 2_000);

    lottery.participants_count = 2;
    lottery.total_funds = 10_000;
    let refund = plan_finalize_no_attesters(lottery.clone(), lottery.upload_deadline_unix).unwrap();
    assert_eq!(refund.service_fee, 500);
    assert_eq!(refund.net_refund, 9_500);
}
