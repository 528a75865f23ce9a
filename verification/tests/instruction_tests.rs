use daily_lottery::address::Address;
use daily_lottery::error::Error;
use daily_lottery::instructions::attest_reveal::plan_attest_reveal;
use daily_lottery::instructions::attest_uploaded::{
    attestation_message, attestation_signed, parse_ed25519_ix, plan_attest_uploaded,
};
use daily_lottery::instructions::buy_tickets::plan_buy_tickets;
use daily_lottery::instructions::finalize_no_attesters::{plan_finalize_no_attesters, RefundReason};
use daily_lottery::instructions::initialize::initial_config;
use daily_lottery::instructions::upload_reveals::{
    apply_reveal, begin_reveal_upload, check_vote_tally, finish_upload_reveals, reveal_order,
    reveal_score, vote_tally_max_winners,
};
use daily_lottery::instructions::{decode_instruction, Instruction};
use daily_lottery::state::{Config, Lottery, Participant, VoteTally};
use daily_lottery::utils::crypto::{compute_reveal_digest, xor_reveal_digests};
use daily_lottery::utils::pda::derive_participant_pda;
use solana_program::pubkey::Pubkey;

fn unique() -> Address {
    Address::new_from_array(Pubkey::new_unique().to_bytes())
}

fn config() -> Config {
    Config {
        authority: unique(),
        ticket_price_lamports: 1_000,
        service_charge_bps: 500,
        lottery_count: 1,
        buy_window_secs: 86_400,
        upload_window_secs: 86_400,
        max_winners_cap: 32,
    }
}

#[test]
fn initialize_checks_its_parameters() {
    let authority = unique();
    let cfg = initial_config(authority, 1_000, 500, 32).unwrap();
    assert_eq!(cfg.lottery_count, 0);
    assert_eq!(cfg.buy_window_secs, 86_400);
    assert_eq!(initial_config(authority, 1_000, 10_000, 32).unwrap_err(), Error::InvalidServiceCharge);
    assert_eq!(initial_config(authority, 1_000, 500, 0).unwrap_err(), Error::InvalidInstruction);
    assert_eq!(initial_config(authority, 1_000, 500, 257).unwrap_err(), Error::InvalidInstruction);
}

#[test]
fn decode_reads_tags_and_fields() {
    let mut data = vec![3u8, 0];
    data.extend_from_slice(&7u64.to_le_bytes());
    match decode_instruction(&data).unwrap() {
        Instruction::BuyTickets { proof_of_chance_hash, number_of_tickets } => {
            assert_eq!(proof_of_chance_hash, None);
            assert_eq!(number_of_tickets, 7);
        }
        other => panic!("unexpected {:?}", other),
    }
    let mut data = vec![3u8, 1];
    data.extend_from_slice(&[9u8; 32]);
    data.extend_from_slice(&2u64.to_le_bytes());
    match decode_instruction(&data).unwrap() {
        Instruction::BuyTickets { proof_of_chance_hash, number_of_tickets } => {
            assert_eq!(proof_of_chance_hash, Some([9u8; 32]));
            assert_eq!(number_of_tickets, 2);
        }
        other => panic!("unexpected {:?}", other),
    }
    assert!(decode_instruction(&[]).is_err());
    assert!(decode_instruction(&[4u8, 1, 2]).is_err());
    assert!(decode_instruction(&[200u8]).is_err());
    let mut init = vec![0u8];
    init.extend_from_slice(&5u64.to_le_bytes());
    init.extend_from_slice(&250u16.to_le_bytes());
    init.extend_from_slice(&8u32.to_le_bytes());
    match decode_instruction(&init).unwrap() {
        Instruction::Initialize { ticket_price_lamports, service_charge_bps, max_winners_cap } => {
            assert_eq!((ticket_price_lamports, service_charge_bps, max_winners_cap), (5, 250, 8));
        }
        other => panic!("unexpected {:?}", other),
    }
    let wallet = unique();
    let entries: Vec<([u8; 32], Vec<u8>)> = vec![(wallet.bytes, b"hi".to_vec())];
    let mut upload = vec![5u8];
    upload.extend_from_slice(&borsh::to_vec(&entries).unwrap());
    match decode_instruction(&upload).unwrap() {
        Instruction::UploadReveals { entries } => {
            assert_eq!(entries.len(), 1);
            assert_eq!(entries[0].0, wallet);
            assert_eq!(entries[0].1, b"hi".to_vec());
        }
        other => panic!("unexpected {:?}", other),
    }
}

fn open_lottery() -> Lottery {
    let cfg = config();
    let mut lottery = Lottery::new(1, unique(), unique(), 1_000, unique(), 0);
    lottery.ticket_price_lamports = cfg.ticket_price_lamports;
    lottery.service_charge_bps = cfg.service_charge_bps;
    lottery
}

#[test]
fn buying_creates_then_extends_a_participant() {
    let program_id = unique();
    let lottery_key = unique();
    let buyer = unique();
    let (participant_key, _) = derive_participant_pda(&program_id, &lottery_key, &buyer).unwrap();
    let cfg = config();
    let lottery = open_lottery();

    let first = plan_buy_tickets(&program_id, &lottery_key, &buyer, &participant_key, lottery.clone(), None, Some([3u8; 32]), 2, 1_500).unwrap();
    assert!(first.new_participant);
    assert_eq!(first.total_cost, 2_000);
    assert_eq!(first.lottery.participants_count, 1);
    assert_eq!(first.lottery.total_tickets, 2);
    assert_eq!(first.lottery.total_funds, 2_000);
    assert_eq!(first.participant.tickets_bought, 2);
    assert_eq!(first.participant.proof_of_chance_hash, [3u8; 32]);

    let second = plan_buy_tickets(&program_id, &lottery_key, &buyer, &participant_key, first.lottery, Some(first.participant), None, 3, 1_600).unwrap();
    assert!(!second.new_participant);
    assert_eq!(second.lottery.participants_count, 1);
    assert_eq!(second.lottery.total_tickets, 5);
    assert_eq!(second.participant.tickets_bought, 5);

    let zero = plan_buy_tickets(&program_id, &lottery_key, &buyer, &participant_key, lottery.clone(), None, Some([3u8; 32]), 0, 1_500);
    assert_eq!(zero.err(), Some(Error::InvalidTicketCount));
    let missing = plan_buy_tickets(&program_id, &lottery_key, &buyer, &participant_key, lottery.clone(), None, None, 1, 1_500);
    assert_eq!(missing.err(), Some(Error::MissingProofOfChance));
    let mismatch = plan_buy_tickets(&program_id, &lottery_key, &buyer, &participant_key, lottery.clone(), Some(first.participant), Some([4u8; 32]), 1, 1_500);
    assert_eq!(mismatch.err(), Some(Error::ProofHashMismatch));
    let late = plan_buy_tickets(&program_id, &lottery_key, &buyer, &participant_key, lottery.clone(), None, Some([3u8; 32]), 1, 1_000 + 86_400);
    assert_eq!(late.err(), Some(Error::OutsideTimeWindow));
    let wrong_key = plan_buy_tickets(&program_id, &lottery_key, &buyer, &unique(), lottery.clone(), None, Some([3u8; 32]), 1, 1_500);
    assert_eq!(wrong_key.err(), Some(Error::InvalidSeeds));
    let too_much = plan_buy_tickets(&program_id, &lottery_key, &buyer, &participant_key, lottery, None, Some([3u8; 32]), u64::MAX, 1_500);
    assert_eq!(too_much.err(), Some(Error::MathOverflow));
}

fn ed25519_ix(pubkey: &[u8; 32], message: &[u8]) -> Vec<u8> {
    let mut data = vec![1u8, 0];
    let sig_off: u16 = 16;
    let pk_off: u16 = 16 + 64;
    let msg_off: u16 = pk_off + 32;
    for v in [sig_off, u16::MAX, pk_off, u16::MAX, msg_off, message.len() as u16, u16::MAX] {
        data.extend_from_slice(&v.to_le_bytes());
    }
    data.extend_from_slice(&[0u8; 64]);
    data.extend_from_slice(pubkey);
    data.extend_from_slice(message);
    data
}

#[test]
fn ed25519_instructions_are_parsed_strictly() {
    let key = [5u8; 32];
    let data = ed25519_ix(&key, b"hello");
    let (pk, msg) = parse_ed25519_ix(&data).unwrap();
    assert_eq!(pk, key.to_vec());
    assert_eq!(msg, b"hello".to_vec());
    let mut two = data.clone();
    two[0] = 2;
    assert!(parse_ed25519_ix(&two).is_none());
    let mut foreign = data.clone();
    foreign[4] = 0;
    assert!(parse_ed25519_ix(&foreign).is_none());
    assert!(parse_ed25519_ix(&data[..data.len() - 1]).is_none());
    assert!(parse_ed25519_ix(&data[..15]).is_none());
}

#[test]
fn attestation_needs_the_provider_signature() {
    let cfg = config();
    let lottery_key = unique();
    let wallet = unique();
    let ed = unique();
    let mut lottery = open_lottery();
    lottery.participants_count = 3;
    lottery.upload_start_unix = 2_000;
    lottery.upload_deadline_unix = 3_000;
    let participant = Participant::new(lottery_key, wallet, [8u8; 32], 2);
    let message = attestation_message(&lottery_key, &wallet, &[8u8; 32], 2);
    let mut expected = b"IKIGAI_ATTEST_V2".to_vec();
    expected.extend_from_slice(&lottery_key.bytes);
    expected.extend_from_slice(&wallet.bytes);
    expected.extend_from_slice(&[8u8; 32]);
    expected.extend_from_slice(&2u64.to_le_bytes());
    assert_eq!(message, expected);

    let signed = vec![(unique(), vec![1u8]), (ed, ed25519_ix(&cfg.authority.bytes, &message))];
    assert!(attestation_signed(&signed, &ed, &cfg.authority, &message));
    assert!(!attestation_signed(&signed, &unique(), &cfg.authority, &message));

    let ok = plan_attest_uploaded(lottery.clone(), participant, &cfg, &lottery_key, &wallet, &signed, &ed, 2_500, 2).unwrap();
    assert!(ok.participant.attested_uploaded);
    assert_eq!(ok.participant.attested_at_unix, 2_500);
    assert_eq!(ok.participant.voted_winners(), 2);
    assert_eq!(ok.lottery.attested_count, 1);
    assert!(!ok.began_settlement);

    let unsigned: Vec<(Address, Vec<u8>)> = vec![];
    assert_eq!(
        plan_attest_uploaded(lottery.clone(), participant, &cfg, &lottery_key, &wallet, &unsigned, &ed, 2_500, 2).err(),
        Some(Error::InvalidAttestation)
    );
    assert_eq!(
        plan_attest_uploaded(lottery.clone(), participant, &cfg, &lottery_key, &wallet, &signed, &ed, 1_500, 2).err(),
        Some(Error::OutsideTimeWindow)
    );
    assert_eq!(
        plan_attest_uploaded(lottery.clone(), participant, &cfg, &lottery_key, &wallet, &signed, &ed, 2_500, 3).err(),
        Some(Error::InvalidInstruction)
    );
    assert_eq!(
        plan_attest_uploaded(lottery.clone(), participant, &cfg, &lottery_key, &unique(), &signed, &ed, 2_500, 2).err(),
        Some(Error::Unauthorized)
    );
    assert_eq!(
        plan_attest_uploaded(lottery, ok.participant, &cfg, &lottery_key, &wallet, &signed, &ed, 2_500, 2).err(),
        Some(Error::AttestationAlreadySubmitted)
    );
}

#[test]
fn attestation_respects_the_configured_cap() {
    let mut cfg = config();
    cfg.max_winners_cap = 1;
    let lottery_key = unique();
    let wallet = unique();
    let ed = unique();
    let mut lottery = open_lottery();
    lottery.participants_count = 3;
    lottery.upload_start_unix = 2_000;
    lottery.upload_deadline_unix = 3_000;
    let participant = Participant::new(lottery_key, wallet, [8u8; 32], 1);
    let message = attestation_message(&lottery_key, &wallet, &[8u8; 32], 2);
    let signed = vec![(ed, ed25519_ix(&cfg.authority.bytes, &message))];
    assert_eq!(
        plan_attest_uploaded(lottery, participant, &cfg, &lottery_key, &wallet, &signed, &ed, 2_500, 2).err(),
        Some(Error::InvalidInstruction)
    );
}

#[test]
fn single_participant_attestation_accepts_a_vote_of_one() {
    let cfg = config();
    let lottery_key = unique();
    let wallet = unique();
    let ed = unique();
    let mut lottery = open_lottery();
    lottery.participants_count = 1;
    lottery.upload_start_unix = 2_000;
    lottery.upload_deadline_unix = 3_000;
    let participant = Participant::new(lottery_key, wallet, [8u8; 32], 1);
    let message = attestation_message(&lottery_key, &wallet, &[8u8; 32], 1);
    let signed = vec![(ed, ed25519_ix(&cfg.authority.bytes, &message))];
    let ok = plan_attest_uploaded(lottery, participant, &cfg, &lottery_key, &wallet, &signed, &ed, 2_500, 1).unwrap();
    assert_eq!(ok.lottery.attested_count, 1);
    assert_eq!(ok.participant.voted_number_of_winners, 1);
    assert!(ok.began_settlement);
    assert_eq!(ok.lottery.settlement_start_unix, 2_500);
}

#[test]
fn reveals_are_ordered_by_wallet_and_checked() {
    let mut a = [0u8; 32];
    a[0] = 9;
    let mut b = [0u8; 32];
    b[0] = 3;
    let mut c = [0u8; 32];
    c[0] = 3;
    c[1] = 1;
    let entries = vec![
        (Address::new_from_array(a), b"x".to_vec()),
        (Address::new_from_array(b), b"y".to_vec()),
        (Address::new_from_array(c), b"z".to_vec()),
    ];
    assert_eq!(reveal_order(&entries).unwrap(), vec![1, 2, 0]);
    let dup = vec![(Address::new_from_array(a), b"x".to_vec()), (Address::new_from_array(a), b"y".to_vec())];
    assert_eq!(reveal_order(&dup).unwrap_err(), Error::InvalidUploads);
    let long = vec![(Address::new_from_array(a), vec![0u8; 50])];
    assert_eq!(reveal_order(&long).unwrap_err(), Error::InvalidUploads);
    let max = vec![(Address::new_from_array(a), vec![0u8; 49])];
    assert_eq!(reveal_order(&max).unwrap(), vec![0]);
}

#[test]
fn reveal_scores_count_trimmed_lucky_words() {
    assert_eq!(reveal_score(b"  Hello World \x1fsalt"), 11);
    assert_eq!(reveal_score(b"abc"), 3);
    assert_eq!(reveal_score(b"\x1fsalt"), 0);
    assert_eq!(reveal_score("\u{3000}caf\u{e9}\u{a0}\x1f".as_bytes()), 4);
    assert_eq!(reveal_score(b" \xff\xfe \x1f"), 2);
    assert_eq!(reveal_score(b"\t\n \r"), 0);
}

#[test]
fn uploading_a_reveal_checks_it_and_tallies_the_vote() {
    let program_id = unique();
    let lottery_key = unique();
    let wallet = unique();
    let (participant_key, _) = derive_participant_pda(&program_id, &lottery_key, &wallet).unwrap();
    let plaintext = b"lucky words\x1fsalt".to_vec();
    let commitment = solana_sha256_hasher::hash(&plaintext).to_bytes();
    let mut participant = Participant::new(lottery_key, wallet, commitment, 4);
    participant.set_vote_number_of_winners(2).unwrap();
    participant.attest_upload(10).unwrap();
    let mut tally = VoteTally::new(lottery_key, vote_tally_max_winners(3), 3);
    assert_eq!(tally.max_winners, 2);
    assert_eq!(check_vote_tally(&tally, &lottery_key, 2), Ok(()));
    assert_eq!(check_vote_tally(&tally, &lottery_key, 3), Err(Error::InvalidInstruction));

    let mut wrong = participant;
    let bad = apply_reveal(&program_id, &lottery_key, 3, &participant_key, &program_id, &mut wrong, b"other", &mut tally);
    assert_eq!(bad, Err(Error::RevealMismatch));
    assert_eq!(wrong.reveal_score, 0);

    let owner = unique();
    let not_owned = apply_reveal(&program_id, &lottery_key, 3, &participant_key, &owner, &mut wrong, &plaintext, &mut tally);
    assert_eq!(not_owned, Err(Error::IncorrectOwner));

    let digest = apply_reveal(&program_id, &lottery_key, 3, &participant_key, &program_id, &mut participant, &plaintext, &mut tally).unwrap();
    assert_eq!(digest, compute_reveal_digest(&wallet, &plaintext));
    assert!(participant.reveal_included());
    assert_eq!(participant.reveal_score, 11);
    assert_eq!(tally.weights[2], 4);
    assert_eq!(tally.first_seen[2], 10);
    let again = apply_reveal(&program_id, &lottery_key, 3, &participant_key, &program_id, &mut participant, &plaintext, &mut tally);
    assert_eq!(again, Err(Error::InvalidUploads));

    let mut lottery = open_lottery();
    lottery.participants_count = 3;
    lottery.attested_count = 1;
    lottery.poc_aggregate_hash = [1u8; 32];
    finish_upload_reveals(&mut lottery, &mut tally, &[digest], 1).unwrap();
    assert_eq!(lottery.provider_uploaded_count, 1);
    assert!(lottery.uploads_complete);
    assert_eq!(lottery.poc_aggregate_hash, xor_reveal_digests([1u8; 32], &[digest]));
    assert_eq!(lottery.selected_number_of_winners, 2);
    assert_eq!(tally.processed_count, 1);
}

#[test]
fn reveal_uploads_open_only_in_phase() {
    let mut lottery = open_lottery();
    lottery.participants_count = 2;
    lottery.attested_count = 1;
    lottery.upload_deadline_unix = 3_000;
    assert_eq!(begin_reveal_upload(&mut lottery, 2_000), Err(Error::InvalidPhaseTransition));
    assert_eq!(lottery.settlement_start_unix, 0);
    assert_eq!(begin_reveal_upload(&mut lottery, 3_001), Ok(()));
    assert_eq!(lottery.settlement_start_unix, 3_001);
    lottery.attested_count = 0;
    lottery.settlement_start_unix = 0;
    assert_eq!(begin_reveal_upload(&mut lottery, 3_001), Err(Error::NoAttestedParticipants));
    lottery.uploads_complete = true;
    assert_eq!(begin_reveal_upload(&mut lottery, 3_001), Err(Error::InvalidPhaseTransition));
}

#[test]
fn refund_settlement_without_a_draw() {
    let mut lottery = open_lottery();
    lottery.participants_count = 2;
    lottery.total_funds = 2_000;
    lottery.upload_deadline_unix = 3_000;
    assert_eq!(plan_finalize_no_attesters(lottery.clone(), 2_999).err(), Some(Error::InvalidInstruction));
    let done = plan_finalize_no_attesters(lottery.clone(), 3_000).unwrap();
    assert!(done.lottery.settled);
    assert_eq!(done.lottery.winners_count, 0);
    assert_eq!(done.service_fee, 100);
    assert_eq!(done.net_refund, 1_900);
    assert_eq!(done.reason, RefundReason::NoAttestations);
    assert_eq!(done.reason.text(), "No attestations submitted");
    assert_eq!(plan_finalize_no_attesters(done.lottery, 3_000).err(), Some(Error::LotteryAlreadySettled));

    let mut uploaded = lottery.clone();
    uploaded.attested_count = 1;
    uploaded.provider_uploaded_count = 1;
    assert_eq!(plan_finalize_no_attesters(uploaded, 3_000).err(), Some(Error::InvalidInstruction));

    let mut no_reveals = lottery.clone();
    no_reveals.attested_count = 2;
    let r = plan_finalize_no_attesters(no_reveals, 3_000).unwrap();
    assert_eq!(r.reason, RefundReason::NoRevealsUploaded);

    let mut single = lottery;
    single.participants_count = 1;
    single.uploads_complete = true;
    let r = plan_finalize_no_attesters(single, 2_000).unwrap();
    assert_eq!(r.reason, RefundReason::SingleParticipant);
    assert_eq!(r.reason.text(), "Single participant refunded");
}

#[test]
fn decodes_payout_batches_in_borsh_format() {
    let recipient = [5u8; 32];
    let mut data = vec![10u8];
    data.extend_from_slice(&3u64.to_le_bytes());
    data.extend_from_slice(&1u32.to_le_bytes());
    data.extend_from_slice(&1u32.to_le_bytes());
    data.extend_from_slice(&101u64.to_le_bytes());
    data.extend_from_slice(&recipient);
    data.extend_from_slice(&900u64.to_le_bytes());
    data.extend_from_slice(&2u32.to_le_bytes());
    data.extend_from_slice(&[1u8; 32]);
    data.extend_from_slice(&[2u8; 32]);
    match decode_instruction(&data).unwrap() {
        Instruction::SettlePayoutBatch { lottery_id, batch_index, winners } => {
            assert_eq!((lottery_id, batch_index), (3, 1));
            assert_eq!(winners.len(), 1);
            assert_eq!(winners[0].index, 101);
            assert_eq!(winners[0].recipient, Address::new_from_array(recipient));
            assert_eq!(winners[0].amount, 900);
            assert_eq!(winners[0].merkle_proof, vec![[1u8; 32], [2u8; 32]]);
        }
        other => panic!("unexpected {:?}", other),
    }
    let mut trailing = data.clone();
    trailing.push(0);
    assert_eq!(decode_instruction(&trailing).err(), Some(Error::InvalidInstruction));
    let short = &data[..data.len() - 1];
    assert_eq!(decode_instruction(short).err(), Some(Error::InvalidInstruction));
}

#[test]
fn participants_can_reveal_on_chain_themselves() {
    let program_id = unique();
    let lottery_key = unique();
    let wallet = unique();
    let (participant_key, _) = derive_participant_pda(&program_id, &lottery_key, &wallet).unwrap();
    let plaintext = b"self-a\x1fsalt".to_vec();
    let commitment = solana_sha256_hasher::hash(&plaintext).to_bytes();
    let participant = Participant::new(lottery_key, wallet, commitment, 3);
    let cfg = config();
    let mut lottery = open_lottery();
    lottery.participants_count = 2;
    lottery.poc_aggregate_hash = [1u8; 32];
    let now = 1_000 + 86_400 + 100;
    let mut tally = VoteTally::new(lottery_key, 1, 0);

    let run = |l: Lottery, p: Participant, text: &[u8], vote: u64, t: &mut VoteTally| {
        plan_attest_reveal(&program_id, &lottery_key, &participant_key, &program_id, l, p, &cfg, &wallet, text, vote, now, t)
    };
    assert_eq!(run(lottery.clone(), participant, b"", 1, &mut tally).err(), Some(Error::InvalidUploads));
    assert_eq!(run(lottery.clone(), participant, b"other", 1, &mut tally).err(), Some(Error::RevealMismatch));
    assert_eq!(run(lottery.clone(), participant, &plaintext, 2, &mut tally).err(), Some(Error::InvalidInstruction));
    assert_eq!(tally.processed_count, 0);
    assert_eq!(tally.weights[1], 0);

    let (after, revealed, digest) = run(lottery.clone(), participant, &plaintext, 1, &mut tally).unwrap();
    assert_eq!(digest, compute_reveal_digest(&wallet, &plaintext));
    assert_eq!(after.attested_count, 1);
    assert_eq!(after.provider_uploaded_count, 1);
    assert_eq!(after.poc_aggregate_hash, xor_reveal_digests([1u8; 32], &[digest]));
    assert!(!after.uploads_complete);
    assert_eq!(after.selected_number_of_winners, 1);
    assert!(revealed.attested_uploaded);
    assert!(revealed.reveal_included());
    assert_eq!(revealed.voted_winners(), 1);
    assert_eq!(tally.weights[1], 3);
    assert_eq!(tally.first_seen[1], now);
    assert_eq!(tally.processed_count, 1);
    assert_eq!(tally.total_attested, 1);
    assert_eq!(
        run(after, revealed, &plaintext, 1, &mut tally).err(),
        Some(Error::AttestationAlreadySubmitted)
    );

    let mut data = vec![14u8];
    data.extend_from_slice(&1u64.to_le_bytes());
    data.extend_from_slice(&(plaintext.len() as u32).to_le_bytes());
    data.extend_from_slice(&plaintext);
    match decode_instruction(&data).unwrap() {
        Instruction::AttestReveal { voted_number_of_winners, reveal_plaintext } => {
            assert_eq!(voted_number_of_winners, 1);
            assert_eq!(reveal_plaintext, plaintext);
        }
        other => panic!("unexpected {:?}", other),
    }
    data.push(0);
    assert_eq!(decode_instruction(&data).err(), Some(Error::InvalidInstruction));
}
