use daily_lottery::address::Address;
use daily_lottery::error::Error;
use daily_lottery::instructions::buy_tickets::plan_buy_tickets;
use daily_lottery::instructions::claim_refund::{
    plan_claim_refund, plan_close_participant, plan_close_refund_vault,
};
use daily_lottery::instructions::finalize_no_attesters::plan_finalize_no_attesters;
use daily_lottery::instructions::{decode_instruction, Instruction};
use daily_lottery::state::{Lottery, Participant};
use daily_lottery::utils::pda::derive_participant_pda;
use solana_program::pubkey::Pubkey;

fn unique() -> Address {
    Address::new_from_array(Pubkey::new_unique().to_bytes())
}

struct Buyer {
    wallet: Address,
    key: Address,
    participant: Participant,
}

/// A lottery at 1_000_000 lamports a ticket with two one-ticket buyers,
/// settled without a draw after its upload deadline.
fn refunded_lottery(program_id: &Address, lottery_key: &Address) -> (Lottery, Vec<Buyer>) {
    let mut lottery = Lottery::new(1, unique(), unique(), 1_000, unique(), 0);
    lottery.ticket_price_lamports = 1_000_000;
    lottery.service_charge_bps = 500;
    let mut buyers = Vec::new();
    for seed in [1u8, 2u8] {
        let wallet = unique();
        let (key, _) = derive_participant_pda(program_id, lottery_key, &wallet).unwrap();
        let plan = plan_buy_tickets(program_id, lottery_key, &wallet, &key, lottery, None, Some([seed; 32]), 1, 1_500)
            .unwrap();
        lottery = plan.lottery;
        buyers.push(Buyer { wallet, key, participant: plan.participant });
    }
    lottery.upload_deadline_unix = 3_000;
    let settled = plan_finalize_no_attesters(lottery, 3_001).unwrap();
    (settled.lottery, buyers)
}

#[test]
fn finalize_no_attesters_refund_path_still_works() {
    let program_id = unique();
    let lottery_key = unique();
    let (lottery, buyers) = refunded_lottery(&program_id, &lottery_key);
    assert!(lottery.settled);
    assert_eq!(lottery.winners_count, 0);
    let vault = 2_000_000 + 890_880;

    let a = &buyers[0];
    let (lottery, claimed_a, refund_a) =
        plan_claim_refund(&program_id, &lottery_key, &a.key, &program_id, lottery, a.participant, &a.wallet, vault)
            .unwrap();
    assert_eq!(refund_a, 1_000_000);
    assert!(claimed_a.refund_claimed());
    assert_eq!(claimed_a.tickets_bought, 1);
    assert_eq!(lottery.settlement_batches_completed, 1);
    let vault = vault - refund_a;

    let double = plan_claim_refund(&program_id, &lottery_key, &a.key, &program_id, lottery.clone(), claimed_a, &a.wallet, vault);
    assert_eq!(double.err(), Some(Error::RefundAlreadyClaimed));

    let b = &buyers[1];
    let (lottery, _, refund_b) =
        plan_claim_refund(&program_id, &lottery_key, &b.key, &program_id, lottery, b.participant, &b.wallet, vault)
            .unwrap();
    assert_eq!(refund_b, 1_000_000);
    assert_eq!(lottery.settlement_batches_completed, 2);
}

#[test]
fn refund_claims_check_the_lottery_the_account_and_the_vault() {
    let program_id = unique();
    let lottery_key = unique();
    let (lottery, buyers) = refunded_lottery(&program_id, &lottery_key);
    let a = &buyers[0];
    let claim = |l: Lottery, p: Participant, key: &Address, owner: &Address, vault: u64| {
        plan_claim_refund(&program_id, &lottery_key, key, owner, l, p, &a.wallet, vault).err()
    };

    let mut unsettled = lottery.clone();
    unsettled.settled = false;
    assert_eq!(claim(unsettled, a.participant, &a.key, &program_id, 5_000_000), Some(Error::RefundUnavailable));
    let mut with_winners = lottery.clone();
    with_winners.winners_count = 1;
    assert_eq!(claim(with_winners, a.participant, &a.key, &program_id, 5_000_000), Some(Error::RefundUnavailable));
    assert_eq!(claim(lottery.clone(), a.participant, &buyers[1].key, &program_id, 5_000_000), Some(Error::InvalidSeeds));
    assert_eq!(claim(lottery.clone(), a.participant, &a.key, &unique(), 5_000_000), Some(Error::IncorrectOwner));
    let mut foreign = a.participant;
    foreign.lottery = unique();
    assert_eq!(claim(lottery.clone(), foreign, &a.key, &program_id, 5_000_000), Some(Error::InvalidAccountData));
    assert_eq!(claim(lottery.clone(), a.participant, &a.key, &program_id, 999_999), Some(Error::InsufficientFunds));
    let mut huge = a.participant;
    huge.tickets_bought = u64::MAX;
    assert_eq!(claim(lottery.clone(), huge, &a.key, &program_id, u64::MAX), Some(Error::MathOverflow));
    let mut counted = lottery;
    counted.settlement_batches_completed = u32::MAX;
    let (kept, _, refund) =
        plan_claim_refund(&program_id, &lottery_key, &a.key, &program_id, counted, a.participant, &a.wallet, 5_000_000)
            .unwrap();
    assert_eq!(refund, 1_000_000);
    assert_eq!(kept.settlement_batches_completed, u32::MAX);
}

#[test]
fn participant_can_close_after_refund_claim() {
    let program_id = unique();
    let lottery_key = unique();
    let (lottery, buyers) = refunded_lottery(&program_id, &lottery_key);
    let a = &buyers[0];
    let rent = 1_559_040;
    let close = |l: &Lottery, p: &Participant, rent: u64, wallet: u64| {
        plan_close_participant(&program_id, &lottery_key, &a.key, &program_id, l, p, &a.wallet, rent, wallet)
    };

    assert_eq!(close(&lottery, &a.participant, rent, 10).err(), Some(Error::InvalidLotteryState));

    let (lottery, claimed, _) =
        plan_claim_refund(&program_id, &lottery_key, &a.key, &program_id, lottery, a.participant, &a.wallet, 3_000_000)
            .unwrap();
    assert_eq!(close(&lottery, &claimed, rent, 10), Ok((rent, 10 + rent)));
    assert_eq!(close(&lottery, &claimed, 0, 10).err(), Some(Error::InvalidAccount));
    assert_eq!(close(&lottery, &claimed, rent, u64::MAX).err(), Some(Error::MathOverflow));

    let mut paid_out = lottery;
    paid_out.settled = true;
    paid_out.winners_count = 2;
    assert_eq!(close(&paid_out, &a.participant, rent, 10).err(), Some(Error::InvalidLotteryState));
    paid_out.settlement_complete = true;
    assert_eq!(close(&paid_out, &a.participant, rent, 10), Ok((rent, 10 + rent)));
}

#[test]
fn refund_vault_can_close_after_all_refunds_claimed() {
    let program_id = unique();
    let lottery_key = unique();
    let (lottery, buyers) = refunded_lottery(&program_id, &lottery_key);
    let vault_rent = 890_880;
    let mut vault = 2_000_000 + vault_rent;

    let a = &buyers[0];
    let (lottery, _, refund) =
        plan_claim_refund(&program_id, &lottery_key, &a.key, &program_id, lottery, a.participant, &a.wallet, vault)
            .unwrap();
    vault -= refund;
    assert_eq!(plan_close_refund_vault(&lottery, vault, 50).err(), Some(Error::RefundUnavailable));

    let b = &buyers[1];
    let (lottery, _, refund) =
        plan_claim_refund(&program_id, &lottery_key, &b.key, &program_id, lottery, b.participant, &b.wallet, vault)
            .unwrap();
    vault -= refund;
    assert_eq!(vault, vault_rent);
    assert_eq!(plan_close_refund_vault(&lottery, vault, 50), Ok((vault_rent, 50 + vault_rent)));
    assert_eq!(plan_close_refund_vault(&lottery, vault, u64::MAX), Ok((vault_rent, u64::MAX)));
    assert_eq!(plan_close_refund_vault(&lottery, 0, 50).err(), Some(Error::RefundUnavailable));
}

#[test]
fn refund_instructions_decode_from_their_tags() {
    assert!(matches!(decode_instruction(&[15u8]), Ok(Instruction::ClaimRefund)));
    assert!(matches!(decode_instruction(&[16u8]), Ok(Instruction::CloseParticipant)));
    assert!(matches!(decode_instruction(&[17u8]), Ok(Instruction::CloseRefundVault)));
    assert!(matches!(decode_instruction(&[18u8]), Err(Error::InvalidInstruction)));
}

#[test]
fn refund_errors_have_their_own_codes() {
    assert_eq!(Error::RefundUnavailable.code(), 34);
    assert_eq!(Error::RefundAlreadyClaimed.code(), 35);
    assert_eq!(u32::from(Error::RefundAlreadyClaimed), 35);
}
