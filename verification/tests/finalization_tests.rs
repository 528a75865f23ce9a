use daily_lottery::address::Address;
use daily_lottery::error::Error;
use daily_lottery::instructions::finalize_winners::{
    aggregate_participant, bytes_to_hex, check_finalization_root, check_winner_page,
    complete_finalization, compute_seed, draw_index, extend_participants_commitment,
    finalization_gate, finalization_pass, phase_name, process_aggregation_chunk,
    process_selection_chunk, record_round_winner, require_wallet_order, select_participant,
    ChunkReport, FinalizationEntry, FinalizationPass,
};
use daily_lottery::instructions::settle_payout_batch::{
    check_payout_page, payout_gate, settle_payout_batch, WinnerProof,
};
use daily_lottery::state::finalization_ledger::WINNER_PAGE_SIZE;
use daily_lottery::state::{
    Config, FinalizationLedger, Lottery, WinnerPage, FINALIZATION_PHASE_COMPLETED,
    FINALIZATION_PHASE_SELECTING,
};
use sha2::{Digest, Sha256};
use solana_program::pubkey::Pubkey;

fn unique() -> Address {
    Address::new_from_array(Pubkey::new_unique().to_bytes())
}

fn wallet(b: u8) -> Address {
    let mut bytes = [b; 32];
    bytes[31] = 0xee;
    Address::new_from_array(bytes)
}

fn entry(w: Address, tickets: u64) -> FinalizationEntry {
    FinalizationEntry {
        wallet: w,
        tickets_bought: tickets,
        reveal_digest: [w.bytes[0]; 32],
        finalization_generation: 0,
        selected_generation: 0,
        selected_round: 0,
    }
}

fn reference_draw(seed: &[u8; 32], round: u32, remaining: u64) -> u64 {
    let m = remaining as u128;
    let floor = m.wrapping_neg() % m;
    for nonce in 0u32..=u32::MAX {
        let mut h = Sha256::new();
        h.update(b"IKIGAI_RPD_V3_DRAW");
        h.update(seed);
        h.update((round as u64).to_le_bytes());
        h.update(nonce.to_le_bytes());
        let d = h.finalize();
        let mut first = [0u8; 16];
        first.copy_from_slice(&d[..16]);
        let sample = u128::from_le_bytes(first);
        if sample >= floor {
            return (sample % m) as u64;
        }
    }
    unreachable!()
}

fn setup(participants: u64, funds: u64) -> (Config, Lottery, Address) {
    let config = Config { max_winners_cap: 32, service_charge_bps: 500, ..Config::default() };
    let lottery_key = unique();
    let mut lottery = Lottery::new(1, unique(), unique(), 1000, unique(), 0);
    lottery.participants_count = participants;
    lottery.attested_count = participants;
    lottery.provider_uploaded_count = participants;
    lottery.selected_number_of_winners = 2;
    lottery.total_funds = funds;
    lottery.poc_aggregate_hash = [7u8; 32];
    lottery.service_charge_bps = config.service_charge_bps;
    lottery.uploads_complete = true;
    (config, lottery, lottery_key)
}

#[test]
fn draw_index_matches_rejection_sampling() {
    let seed = [42u8; 32];
    for (round, remaining) in [(0u32, 1u64), (0, 6), (3, 1_000_003), (7, u64::MAX)] {
        let d = draw_index(&seed, round, remaining).unwrap();
        assert!(d < remaining);
        assert_eq!(d, reference_draw(&seed, round, remaining));
    }
    assert_eq!(draw_index(&seed, 0, 0), Err(Error::InvalidInstruction));
}

#[test]
fn seed_and_commitment_hash_their_fields_in_order() {
    let w = wallet(3);
    let c = extend_participants_commitment([1u8; 32], 5, &w, 9, [2u8; 32]);
    let mut h = Sha256::new();
    h.update(b"IKIGAI_RPD_V3_POOL");
    h.update([1u8; 32]);
    h.update(5u64.to_le_bytes());
    h.update(w.bytes);
    h.update(9u64.to_le_bytes());
    h.update([2u8; 32]);
    assert_eq!(c[..], h.finalize()[..]);

    let s = compute_seed(11, 2, 30, [4u8; 32], [5u8; 32]);
    let mut h = Sha256::new();
    h.update(b"IKIGAI_RPD_V3_SEED");
    h.update(11u64.to_le_bytes());
    h.update(2u64.to_le_bytes());
    h.update(30u64.to_le_bytes());
    h.update([4u8; 32]);
    h.update([5u8; 32]);
    assert_eq!(s[..], h.finalize()[..]);
}

#[test]
fn hex_and_phase_names() {
    assert_eq!(bytes_to_hex(&[0x00, 0x0f, 0xa5, 0xff]), "000fa5ff");
    assert_eq!(bytes_to_hex(&[]), "");
    assert_eq!(phase_name(0), "aggregating");
    assert_eq!(phase_name(1), "selecting");
    assert_eq!(phase_name(2), "completed");
    assert_eq!(phase_name(9), "unknown");
    assert_eq!(finalization_pass(1), Ok(FinalizationPass::Selecting));
    assert_eq!(finalization_pass(3), Err(Error::InvalidAccountData));
}

#[test]
fn aggregation_requires_increasing_wallets_and_fresh_participants() {
    let root = FinalizationLedger::new(unique(), 3, 10);
    let (after, record) = aggregate_participant(root, entry(wallet(5), 2)).unwrap();
    assert_eq!(after.processed_count, 1);
    assert_eq!(after.eligible_count, 1);
    assert_eq!(after.total_eligible_tickets, 2);
    assert!(after.has_last_wallet);
    assert_eq!(after.last_processed_wallet, wallet(5));
    assert_eq!(record.finalization_generation, 1);
    assert_eq!(
        after.participants_commitment,
        extend_participants_commitment([0u8; 32], 0, &wallet(5), 2, [5u8; 32])
    );
    assert_eq!(require_wallet_order(&after, &wallet(6)), Ok(()));
    assert_eq!(aggregate_participant(after, entry(wallet(5), 1)).unwrap_err(), Error::InvalidInstruction);
    assert_eq!(aggregate_participant(after, entry(wallet(4), 1)).unwrap_err(), Error::InvalidInstruction);
    assert_eq!(aggregate_participant(after, entry(wallet(6), 0)).unwrap_err(), Error::InvalidAccountData);
    let mut counted = entry(wallet(6), 1);
    counted.finalization_generation = 1;
    assert_eq!(aggregate_participant(after, counted).unwrap_err(), Error::InvalidAccountData);
}

#[test]
fn finalization_selects_distinct_owners_and_pays_out() {
    let (config, mut lottery, lottery_key) = setup(3, 3_000);
    let mut root = FinalizationLedger::new(lottery_key, 3, 100);
    let mut entries = vec![entry(wallet(1), 1), entry(wallet(2), 2), entry(wallet(3), 3)];

    let report = process_aggregation_chunk(&config, &mut lottery, &mut root, &mut entries).unwrap();
    assert_eq!(
        report,
        ChunkReport { batch_size: 3, processed_count: 3, required_count: 3, completed: false }
    );
    assert_eq!(root.phase, FINALIZATION_PHASE_SELECTING);
    assert_eq!(root.eligible_count, 3);
    assert_eq!(root.total_eligible_tickets, 6);
    assert_eq!(root.target_winners, 2);
    assert_eq!(lottery.selected_number_of_winners, 2);
    let mut commitment = [0u8; 32];
    for (i, e) in entries.iter().enumerate() {
        assert_eq!(e.finalization_generation, 1);
        commitment = extend_participants_commitment(commitment, i as u64, &e.wallet, e.tickets_bought, e.reveal_digest);
    }
    assert_eq!(root.participants_commitment, commitment);
    let seed = compute_seed(1, 3, 6, [7u8; 32], commitment);
    assert_eq!(root.seed, seed);
    assert_eq!(root.round_draw_index, reference_draw(&seed, 0, 6));

    let mut page = WinnerPage::new(lottery_key, root.generation, 0);
    let mut data = vec![0u8; WINNER_PAGE_SIZE];
    let mut winners = Vec::new();
    loop {
        let draw = root.round_draw_index;
        let chunk = process_selection_chunk(&mut root, &mut entries).unwrap();
        assert_eq!(chunk.batch_size, 3);
        let w = chunk.round_winner.unwrap();
        let mut seen = 0u64;
        let mut owner = None;
        for e in entries.iter() {
            if winners.contains(&e.wallet) {
                continue;
            }
            if draw >= seen && draw < seen + e.tickets_bought {
                owner = Some(e.wallet);
            }
            seen += e.tickets_bought;
        }
        assert_eq!(owner, Some(w.wallet));
        assert!(!winners.contains(&w.wallet));
        winners.push(w.wallet);
        let record = record_round_winner(&mut lottery, &mut root, &mut page, &mut data, w, 200).unwrap();
        assert_eq!(record.winner_index as usize, winners.len() - 1);
        if record.completed {
            let payout = record.payout.unwrap();
            assert_eq!(payout.winners_count, 2);
            assert_eq!(payout.service_fee, 150);
            assert_eq!(payout.per_winner, 1_425);
            assert_eq!(payout.total_payout, 2_850);
            break;
        }
        assert_eq!(record.processed_count, 0);
    }
    assert_eq!(root.phase, FINALIZATION_PHASE_COMPLETED);
    assert_eq!(lottery.winners_count, 2);
    assert_eq!(lottery.total_payout, 2_850);
    assert_eq!(lottery.winners_merkle_root, root.winners_commitment);
    assert_eq!(lottery.settlement_start_unix, 200);
    assert_eq!(page.count, 2);

    let batch = vec![
        WinnerProof { index: 0, recipient: winners[0], amount: 1_425, merkle_proof: vec![] },
        WinnerProof { index: 1, recipient: winners[1], amount: 1_425, merkle_proof: vec![] },
    ];
    assert_eq!(payout_gate(&config.authority, &config.authority, &lottery, 1, &batch), Ok(Some(0)));
    assert_eq!(check_payout_page(&page, &lottery_key, 0), Ok(()));
    let recipients = vec![winners[0], winners[1]];
    let paid = settle_payout_batch(lottery, &page, data, 0, &batch, &recipients, 3_100).unwrap();
    assert_eq!(paid.payments.len(), 2);
    assert_eq!(paid.payments[0].amount, 1_425);
    assert_eq!(paid.payments[1].recipient, winners[1]);
    let close = paid.close.unwrap();
    assert_eq!(close.service_fee, 150);
    assert_eq!(close.remainder, 0);
    assert_eq!(close.rent_reclaimed, 3_100 - 2_850 - 150);
    assert_eq!(paid.vault_lamports, 0);
    assert!(paid.lottery.settled && paid.lottery.settlement_complete);
    assert_eq!(paid.lottery.settlement_batches_completed, 1);
}

#[test]
fn payouts_are_checked_against_the_page_and_never_repeated() {
    let (config, mut lottery, lottery_key) = setup(3, 3_000);
    let mut root = FinalizationLedger::new(lottery_key, 3, 100);
    let mut entries = vec![entry(wallet(1), 1), entry(wallet(2), 2), entry(wallet(3), 3)];
    process_aggregation_chunk(&config, &mut lottery, &mut root, &mut entries).unwrap();
    let mut page = WinnerPage::new(lottery_key, root.generation, 0);
    let mut data = vec![0u8; WINNER_PAGE_SIZE];
    let mut winners = Vec::new();
    loop {
        let w = process_selection_chunk(&mut root, &mut entries).unwrap().round_winner.unwrap();
        winners.push(w.wallet);
        if record_round_winner(&mut lottery, &mut root, &mut page, &mut data, w, 200).unwrap().completed {
            break;
        }
    }
    let first = vec![WinnerProof { index: 0, recipient: winners[0], amount: 1_425, merkle_proof: vec![] }];
    let wrong_amount = vec![WinnerProof { index: 0, recipient: winners[0], amount: 1_000, merkle_proof: vec![] }];
    let wrong_wallet = vec![WinnerProof { index: 0, recipient: winners[1], amount: 1_425, merkle_proof: vec![] }];
    let r = settle_payout_batch(lottery.clone(), &page, data.clone(), 0, &wrong_amount, &winners, 5_000);
    assert_eq!(r.err(), Some(Error::InvalidInstruction));
    let r = settle_payout_batch(lottery.clone(), &page, data.clone(), 0, &wrong_wallet, &winners, 5_000);
    assert_eq!(r.err(), Some(Error::InvalidInstruction));
    let r = settle_payout_batch(lottery.clone(), &page, data.clone(), 0, &first, &vec![winners[1]], 5_000);
    assert_eq!(r.err(), Some(Error::InvalidAccount));
    let r = settle_payout_batch(lottery.clone(), &page, data.clone(), 0, &first, &vec![], 5_000);
    assert_eq!(r.err(), Some(Error::MissingAccount));
    let r = settle_payout_batch(lottery.clone(), &page, data.clone(), 0, &first, &winners, 100);
    assert_eq!(r.err(), Some(Error::InsufficientFunds));

    let once = settle_payout_batch(lottery, &page, data, 0, &first, &winners, 5_000).unwrap();
    assert_eq!(once.payments.len(), 1);
    assert_eq!(once.vault_lamports, 5_000 - 1_425);
    assert!(once.close.is_none());
    let twice = settle_payout_batch(once.lottery, &page, once.page_data, 0, &first, &winners, once.vault_lamports).unwrap();
    assert!(twice.payments.is_empty());
    assert_eq!(twice.vault_lamports, 5_000 - 1_425);
    assert_eq!(twice.lottery.settlement_batches_completed, 2);
}

#[test]
fn selection_rejects_participants_not_counted_by_aggregation() {
    let (config, mut lottery, lottery_key) = setup(2, 2_000);
    let mut root = FinalizationLedger::new(lottery_key, 2, 100);
    let mut entries = vec![entry(wallet(1), 1), entry(wallet(2), 1)];
    process_aggregation_chunk(&config, &mut lottery, &mut root, &mut entries).unwrap();
    assert_eq!(root.phase, FINALIZATION_PHASE_SELECTING);
    let mut corrupted = entries[0];
    corrupted.finalization_generation = 0;
    assert_eq!(select_participant(root, corrupted).unwrap_err(), Error::InvalidAccountData);
    let before = root;
    let mut chunk = vec![corrupted];
    assert_eq!(process_selection_chunk(&mut root, &mut chunk).unwrap_err(), Error::InvalidAccountData);
    assert_eq!(root.round_processed_count, before.round_processed_count);
}

#[test]
fn aggregation_chunks_can_be_split() {
    let (config, mut lottery, lottery_key) = setup(3, 3_000);
    let mut whole_root = FinalizationLedger::new(lottery_key, 3, 100);
    let mut whole = vec![entry(wallet(1), 4), entry(wallet(2), 5), entry(wallet(3), 6)];
    let mut whole_lottery = lottery.clone();
    process_aggregation_chunk(&config, &mut whole_lottery, &mut whole_root, &mut whole).unwrap();

    let mut root = FinalizationLedger::new(lottery_key, 3, 100);
    let mut first = vec![entry(wallet(1), 4)];
    let r = process_aggregation_chunk(&config, &mut lottery, &mut root, &mut first).unwrap();
    assert_eq!(r.processed_count, 1);
    assert_eq!(root.phase, 0);
    let mut rest = vec![entry(wallet(2), 5), entry(wallet(3), 6)];
    process_aggregation_chunk(&config, &mut lottery, &mut root, &mut rest).unwrap();
    assert_eq!(root.seed, whole_root.seed);
    assert_eq!(root.round_draw_index, whole_root.round_draw_index);
    let mut again = vec![entry(wallet(4), 1)];
    assert_eq!(
        process_aggregation_chunk(&config, &mut lottery, &mut root, &mut again).unwrap_err(),
        Error::InvalidInstruction
    );
}

#[test]
fn finalization_gate_and_stored_accounts() {
    let (_config, mut lottery, lottery_key) = setup(3, 3_000);
    assert_eq!(finalization_gate(&lottery, 0, 2), Ok(true));
    assert_eq!(finalization_gate(&lottery, 0, 0), Err(Error::MissingAccount));
    lottery.uploads_complete = false;
    lottery.upload_deadline_unix = 500;
    assert_eq!(finalization_gate(&lottery, 400, 2), Err(Error::InvalidInstruction));
    assert_eq!(finalization_gate(&lottery, 501, 2), Ok(true));
    lottery.provider_uploaded_count = 2;
    assert_eq!(finalization_gate(&lottery, 501, 2), Err(Error::InvalidPhaseTransition));
    lottery.provider_uploaded_count = 3;
    lottery.attested_count = 0;
    assert_eq!(finalization_gate(&lottery, 501, 2), Err(Error::NoAttestedParticipants));
    lottery.participants_count = 1;
    assert_eq!(finalization_gate(&lottery, 501, 2), Err(Error::InvalidInstruction));
    lottery.settled = true;
    assert_eq!(finalization_gate(&lottery, 501, 2), Ok(false));

    let root = FinalizationLedger::new(lottery_key, 3, 1);
    assert_eq!(check_finalization_root(&root, &lottery_key, 3), Ok(()));
    assert_eq!(check_finalization_root(&root, &lottery_key, 4), Err(Error::InvalidAccountData));
    let page = WinnerPage::new(lottery_key, 1, 2);
    assert_eq!(check_winner_page(&page, &lottery_key, 1, 2), Ok(()));
    assert_eq!(check_winner_page(&page, &lottery_key, 2, 2), Err(Error::InvalidAccountData));
}

#[test]
fn completing_without_enough_funds_changes_nothing() {
    let (_config, mut lottery, lottery_key) = setup(3, 1);
    let mut root = FinalizationLedger::new(lottery_key, 3, 1);
    root.selected_count = 2;
    let before = root;
    assert_eq!(
        complete_finalization(&mut lottery, &mut root, 5).unwrap_err(),
        Error::InsufficientFunds
    );
    assert_eq!(root.selected_count, before.selected_count);
    assert_eq!(lottery.winners_count, 0);
    assert_eq!(lottery.settlement_start_unix, 0);
}
