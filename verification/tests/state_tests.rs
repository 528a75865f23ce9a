use daily_lottery::address::Address;
use daily_lottery::state::finalization_ledger::{FINALIZATION_LEDGER_SIZE, WINNER_PAGE_SIZE};
use daily_lottery::state::sizes::MAX_WINNERS;
use daily_lottery::state::{
    Config, FinalizationLedger, Lottery, LotteryStatus, Participant, SelectedWinner, Vault,
    VoteTally, WinnerPage, WINNERS_PER_PAGE,
};
use solana_program::pubkey::Pubkey;

fn unique() -> Address {
    Address::new_from_array(Pubkey::new_unique().to_bytes())
}

#[test]
fn config_test_validate_service_charge() {
    assert!(Config::validate_service_charge(0));
    assert!(Config::validate_service_charge(500));
    assert!(Config::validate_service_charge(9999));
    assert!(!Config::validate_service_charge(10000));
    assert!(!Config::validate_service_charge(15000));
}

#[test]
fn test_validate_max_winners_cap() {
    assert!(Config::validate_max_winners_cap(1));
    assert!(Config::validate_max_winners_cap(MAX_WINNERS as u32));
    assert!(!Config::validate_max_winners_cap(0));
    assert!(!Config::validate_max_winners_cap(MAX_WINNERS as u32 + 1));
}

#[test]
fn test_effective_max_winners() {
    let mut config = Config {
        max_winners_cap: 32,
        ..Config::default()
    };
    assert_eq!(config.effective_max_winners(1), 1);
    assert_eq!(config.effective_max_winners(2), 1);
    assert_eq!(config.effective_max_winners(40), 32);

    config.max_winners_cap = 0;
    assert_eq!(config.effective_max_winners(10), 1);
}

#[test]
fn next_lottery_id_counts_up_and_stops_at_the_limit() {
    let mut config = Config::default();
    assert_eq!(config.next_lottery_id(), Ok(1));
    assert_eq!(config.lottery_count, 1);
    config.lottery_count = u64::MAX;
    assert!(config.next_lottery_id().is_err());
    assert_eq!(config.lottery_count, u64::MAX);
}

#[test]
fn fixed_accounts_cover_one_thousand_winners_below_eight_kib() {
    assert_eq!(FinalizationLedger::size_for(1), FinalizationLedger::size_for(1_000));
    assert!(FINALIZATION_LEDGER_SIZE < 8 * 1024);
    assert!(WINNER_PAGE_SIZE < 8 * 1024);
    assert_eq!(1_000usize.div_ceil(WINNERS_PER_PAGE), 10);

    let mut page = WinnerPage::new(unique(), 1, 0);
    let mut data = vec![0u8; WINNER_PAGE_SIZE];
    for _ in 0..WINNERS_PER_PAGE {
        page.append(&mut data, SelectedWinner { wallet: unique(), tickets: 1 }).unwrap();
    }
    assert_eq!(page.count as usize, WINNERS_PER_PAGE);
    assert!(page.append(&mut data, SelectedWinner::default()).is_err());
}

#[test]
fn winner_page_reads_back_what_was_appended() {
    let mut page = WinnerPage::new(unique(), 1, 0);
    let mut data = vec![0u8; WINNER_PAGE_SIZE];
    let a = SelectedWinner { wallet: unique(), tickets: 7 };
    let b = SelectedWinner { wallet: unique(), tickets: 300 };
    assert_eq!(page.append(&mut data, a), Ok(0));
    assert_eq!(page.append(&mut data, b), Ok(1));
    assert_eq!(page.winner(&data, 0), Some(a));
    assert_eq!(page.winner(&data, 1), Some(b));
    assert_eq!(page.winner(&data, 2), None);
    assert!(!page.is_paid(&data, 1));
    page.mark_paid(&mut data, 1).unwrap();
    assert!(page.is_paid(&data, 1));
    assert!(!page.is_paid(&data, 0));
    assert!(page.mark_paid(&mut data, 1).is_err());
}

#[test]
fn ledger_records_winners_until_the_target() {
    let mut ledger = FinalizationLedger::new(unique(), 3, 50);
    ledger.target_winners = 1;
    ledger.total_eligible_tickets = 10;
    assert_eq!(ledger.remaining_tickets(), Ok(10));
    let before = ledger.winners_commitment;
    ledger.record_winner(SelectedWinner { wallet: unique(), tickets: 4 }).unwrap();
    assert_eq!(ledger.selected_count, 1);
    assert_eq!(ledger.remaining_tickets(), Ok(6));
    assert_ne!(ledger.winners_commitment, before);
    assert!(ledger.record_winner(SelectedWinner { wallet: unique(), tickets: 1 }).is_err());
    ledger.begin_selection_round(5);
    assert_eq!(ledger.round_draw_index, 5);
    assert!(!ledger.pending_winner_found);
    ledger.complete(99);
    assert!(ledger.completed);
    assert_eq!(ledger.completed_at_unix, 99);
}

#[test]
fn test_lottery_creation() {
    let config = unique();
    let authority = unique();
    let vault = unique();
    let created_at = 1000;

    let lottery = Lottery::new(1, config, authority, created_at, vault, 255);

    assert_eq!(lottery.id, 1);
    assert_eq!(lottery.config, config);
    assert_eq!(lottery.authority, authority);
    assert_eq!(lottery.created_at_unix, created_at);
    assert_eq!(lottery.vault, vault);
    assert_eq!(lottery.vault_bump, 255);
    assert!(lottery.is_active());
    assert!(!lottery.settled);
}

#[test]
fn lottery_test_ticket_addition() {
    let mut lottery = Lottery::default();

    lottery.add_tickets(5, 5000).unwrap();
    assert_eq!(lottery.total_tickets, 5);
    assert_eq!(lottery.total_funds, 5000);

    lottery.add_tickets(3, 3000).unwrap();
    assert_eq!(lottery.total_tickets, 8);
    assert_eq!(lottery.total_funds, 8000);
}

#[test]
fn test_windows() {
    let current_time = 1000;

    let mut lottery = Lottery::new(1, Address::zero(), Address::zero(), current_time, Address::zero(), 0);
    assert!(lottery.is_in_buy_window(current_time));
    assert!(lottery.is_in_buy_window(current_time + 12 * 60 * 60));
    assert!(!lottery.is_in_buy_window(lottery.buy_deadline_unix));
    assert!(!lottery.is_in_buy_window(current_time + 25 * 60 * 60));

    lottery.upload_start_unix = current_time + 60;
    assert!(!lottery.is_in_buy_window(current_time + 60));
}

#[test]
fn test_stateless_phase_computation() {
    let mut lottery = Lottery::new(1, Address::zero(), Address::zero(), 1000, Address::zero(), 0);

    lottery.buy_start_unix = 1000;
    lottery.buy_deadline_unix = 2000;
    lottery.upload_start_unix = 2000;
    lottery.upload_deadline_unix = 3000;

    assert_eq!(lottery.phase(1500), "buy");
    assert_eq!(lottery.phase(2000), "upload");

    assert_eq!(lottery.phase(2500), "upload");
    assert_eq!(lottery.phase(3000), "upload");

    lottery.settlement_start_unix = 2400;
    assert_eq!(lottery.phase(2500), "settlement");
    assert_eq!(lottery.phase(3000), "settlement");
    lottery.settlement_start_unix = 0;

    assert_eq!(lottery.phase(3500), "settlement");

    lottery.settle();
    assert_eq!(lottery.phase(3500), "settled");
}

#[test]
fn test_single_participant_auto_settle() {
    let mut lottery = Lottery::new(1, Address::zero(), Address::zero(), 1000, Address::zero(), 0);

    lottery.buy_start_unix = 1000;
    lottery.buy_deadline_unix = 2000;
    lottery.upload_start_unix = 2000;
    lottery.upload_deadline_unix = 3000;
    lottery.participants_count = 1;

    assert_eq!(lottery.phase(1500), "buy");
    assert_eq!(lottery.phase(2500), "upload");

    assert_eq!(lottery.phase(3500), "settled");
    assert!(lottery.is_effectively_settled(3500));

    lottery.participants_count = 2;
    assert_eq!(lottery.phase(3500), "settlement");
    assert!(!lottery.is_effectively_settled(3500));
}

#[test]
fn lottery_settlement_bookkeeping() {
    let mut lottery = Lottery::new(1, Address::zero(), Address::zero(), 1000, Address::zero(), 0);
    lottery.participants_count = 3;
    assert!(lottery.set_selected_winners(0).is_err());
    assert!(lottery.set_selected_winners(3).is_err());
    lottery.set_selected_winners(2).unwrap();
    assert_eq!(lottery.selected_number_of_winners, 2);

    lottery.initialize_settlement([9u8; 32], 2, 100).unwrap();
    assert_eq!(lottery.winners_count, 2);
    assert!(!lottery.is_winner_paid(0));
    assert!(!lottery.all_winners_paid());
    assert!(lottery.complete_settlement().is_err());
    lottery.mark_winner_paid(0).unwrap();
    assert!(lottery.is_winner_paid(0));
    assert!(!lottery.is_winner_paid(1));
    assert!(lottery.mark_winner_paid(2).is_err());
    lottery.mark_winner_paid(1).unwrap();
    assert!(lottery.all_winners_paid());
    lottery.increment_settlement_batch();
    assert_eq!(lottery.settlement_batches_completed, 1);
    lottery.complete_settlement().unwrap();
    assert!(lottery.settled && lottery.settlement_complete);
    assert_eq!(lottery.get_status(), LotteryStatus::Settled);
    assert!(lottery.initialize_settlement([0u8; 32], 1, 1).is_err());
}

#[test]
fn test_new_participant() {
    let lottery = unique();
    let wallet = unique();
    let proof_hash = [1u8; 32];

    let participant = Participant::new(lottery, wallet, proof_hash, 5);

    assert_eq!(participant.lottery, lottery);
    assert_eq!(participant.wallet, wallet);
    assert_eq!(participant.proof_of_chance_hash, proof_hash);
    assert_eq!(participant.tickets_bought, 5);
    assert!(!participant.attested_uploaded);
    assert!(!participant.is_new());
    assert!(participant.has_tickets());
}

#[test]
fn participant_test_ticket_addition() {
    let mut participant = Participant { tickets_bought: 3, ..Default::default() };

    participant.add_tickets(2).unwrap();
    assert_eq!(participant.tickets_bought, 5);

    participant.add_tickets(0).unwrap();
    assert_eq!(participant.tickets_bought, 5);
}

#[test]
fn test_proof_hash_validation() {
    let mut participant = Participant { tickets_bought: 0, ..Default::default() };
    let hash1 = [1u8; 32];
    let hash2 = [2u8; 32];

    participant.set_proof_hash(hash1).unwrap();
    assert_eq!(participant.proof_of_chance_hash, hash1);

    participant.add_tickets(1).unwrap();
    assert!(participant.set_proof_hash(hash2).is_err());

    assert!(participant.validate_proof_hash(hash1));
    assert!(!participant.validate_proof_hash(hash2));
}

#[test]
fn test_attestation() {
    let mut participant = Participant::default();
    let timestamp = 1000;

    participant.attest_upload(timestamp).unwrap();
    assert!(participant.attested_uploaded);
    assert_eq!(participant.attested_at_unix, timestamp);

    assert!(participant.attest_upload(timestamp + 100).is_err());
}

#[test]
fn test_ticket_range() {
    let participant = Participant { tickets_bought: 5, ..Default::default() };

    let (start, end) = participant.get_ticket_range(10);
    assert_eq!(start, 10);
    assert_eq!(end, 15);

    let (start, end) = participant.get_ticket_range(0);
    assert_eq!(start, 0);
    assert_eq!(end, 5);
}

#[test]
fn test_settlement_flag_masks_vote() {
    let mut participant = Participant::default();
    participant.set_vote_number_of_winners(3).unwrap();
    participant.mark_reveal_included();
    participant.mark_settlement_included();

    assert_eq!(participant.voted_winners(), 3);
    assert!(participant.reveal_included());
    assert!(participant.settlement_included());
}

#[test]
fn vote_cannot_change_after_attestation() {
    let mut participant = Participant::default();
    participant.set_vote_number_of_winners(2).unwrap();
    participant.attest_upload(5).unwrap();
    assert!(participant.set_vote_number_of_winners(4).is_err());
    assert_eq!(participant.voted_winners(), 2);
}

#[test]
fn test_vault_creation() {
    let lottery = unique();
    let bump = 255;

    let vault = Vault::new(lottery, bump);

    assert_eq!(vault.lottery, lottery);
    assert_eq!(vault.bump, bump);
}

#[test]
fn test_vault_validation() {
    let lottery1 = unique();
    let lottery2 = unique();
    let vault = Vault::new(lottery1, 255);

    assert!(vault.validate_lottery(&lottery1));
    assert!(!vault.validate_lottery(&lottery2));
}

#[test]
fn test_seeds_generation() {
    let lottery = unique();
    let bump = 200;
    let vault = Vault::new(lottery, bump);

    let seeds = vault.get_seeds();
    assert_eq!(seeds[0], b"vault");
    assert_eq!(seeds[1], lottery.bytes.to_vec());
    assert_eq!(seeds[2], vec![bump]);
}

#[test]
fn vote_selects_most_weight_then_earliest_then_smallest() {
    let mut tally = VoteTally::new(Address::zero(), 4, 5);
    tally.add_vote(3, 10, 50);
    tally.add_vote(2, 10, 40);
    tally.add_vote(4, 7, 10);
    assert_eq!(tally.selected_winners(6), 2);
    let mut tie = VoteTally::new(Address::zero(), 4, 5);
    tie.add_vote(3, 10, 40);
    tie.add_vote(2, 10, 40);
    assert_eq!(tie.selected_winners(6), 2);
    tie.add_vote(4, 11, 90);
    assert_eq!(tie.selected_winners(6), 4);
    assert_eq!(tie.selected_winners(4), 2);
    let empty = VoteTally::new(Address::zero(), 4, 5);
    assert_eq!(empty.selected_winners(6), 1);
}
