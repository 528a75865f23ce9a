//! Permissionless, chunked finalization of a lottery.
//!
//! Finalization runs over the participants in increasing byte order of
//! their wallets, a chunk per transaction; the ledger remembers the last
//! wallet of the pass, so no participant is skipped or taken twice.  The
//! aggregation pass counts every participant holding tickets as eligible,
//! sums the tickets and commits to the participants; it ends by fixing the
//! number of winners and deriving the draw seed.  Each selection round then
//! draws one ticket among those not yet won and walks the participants
//! again to find its owner.  Accounts are read and written by the caller;
//! this module decides.
use vstd::prelude::*;
use vstd::string::StringExecFns;
use crate::address::{Address, bytes_lt, address_lt};
use crate::error::Error;
use crate::utils::bytes::{le_bytes, le_value, read_le, write_le, extend_bytes};
use crate::utils::crypto::{sha256, sha256_digest};
use crate::state::config::{Config, effective_max_winners_of};
use crate::state::lottery::Lottery;
use crate::state::finalization_ledger::{
    FinalizationLedger, SelectedWinner, WinnerPage, winners_commitment_message, with_entry,
    FINALIZATION_PHASE_AGGREGATING, FINALIZATION_PHASE_SELECTING, FINALIZATION_PHASE_COMPLETED,
    WINNERS_PER_PAGE, WINNER_PAGE_SIZE,
};
use crate::state::sizes::{MAX_WINNERS, PAID_BITMAP_BYTES};
use crate::utils::validation::{compute_service_fee, service_fee_of};

verus! {

/// Name of the winner selection rule, reported with the computed winners.
pub const WINNER_ALGO_RULE_VERSION: &'static str = "reveal-plaintext-draw-v6-indexed";

/// What finalization reads and records of one participant.
#[derive(Debug, Clone, Copy)]
pub struct FinalizationEntry {
    pub wallet: Address,
    pub tickets_bought: u64,
    /// Digest of the participant's reveal (zero when it never revealed).
    pub reveal_digest: [u8; 32],
    /// Generation of the last aggregation pass that counted the participant.
    pub finalization_generation: u32,
    /// Generation in which the participant was drawn (0: never).
    pub selected_generation: u32,
    /// Round in which the participant was drawn.
    pub selected_round: u32,
}

impl FinalizationEntry {
    /// Whether the participant was drawn in `generation`.
    pub fn selected_in_generation(&self, generation: u32) -> (r: bool)
        ensures
            r == (self.selected_generation == generation),
    {
        self.selected_generation == generation
    }

    /// Records that the participant was drawn in `round` of `generation`.
    pub fn mark_selected(&mut self, generation: u32, round: u32)
        ensures
            *final(self) == (FinalizationEntry {
                selected_generation: generation,
                selected_round: round,
                ..*old(self)
            }),
    {
        self.selected_generation = generation;
        self.selected_round = round;
    }

    /// Records that the aggregation pass of `generation` counted the
    /// participant.
    pub fn mark_finalized_for_generation(&mut self, generation: u32)
        ensures
            *final(self) == (FinalizationEntry { finalization_generation: generation, ..*old(self) }),
    {
        self.finalization_generation = generation;
    }
}

/// Whether `wallet` may come next in the current pass: it is the first of
/// the pass or comes after the last wallet of the pass.
pub open spec fn wallet_in_order(root: FinalizationLedger, wallet: Address) -> bool {
    !root.has_last_wallet || bytes_lt(root.last_processed_wallet.bytes@, wallet.bytes@)
}

/// Fails with `InvalidInstruction` unless `wallet` may come next in the
/// current pass (see `wallet_in_order`).
pub fn require_wallet_order(root: &FinalizationLedger, wallet: &Address) -> (r: Result<(), Error>)
    ensures
        r == (if wallet_in_order(*root, *wallet) {
            Ok(())
        } else {
            Err::<(), Error>(Error::InvalidInstruction)
        }),
{
    if root.has_last_wallet && !address_lt(&root.last_processed_wallet, wallet) {
        return Err(Error::InvalidInstruction);
    }
    Ok(())
}

/// The bytes of `"IKIGAI_RPD_V3_POOL"`.
pub open spec fn pool_domain() -> Seq<u8> {
    seq![0x49u8, 0x4b, 0x49, 0x47, 0x41, 0x49, 0x5f, 0x52, 0x50, 0x44, 0x5f, 0x56, 0x33, 0x5f, 0x50,
        0x4f, 0x4f, 0x4c]
}

/// The bytes of `"IKIGAI_RPD_V3_SEED"`.
pub open spec fn seed_domain() -> Seq<u8> {
    seq![0x49u8, 0x4b, 0x49, 0x47, 0x41, 0x49, 0x5f, 0x52, 0x50, 0x44, 0x5f, 0x56, 0x33, 0x5f, 0x53,
        0x45, 0x45, 0x44]
}

/// The bytes of `"IKIGAI_RPD_V3_DRAW"`.
pub open spec fn draw_domain() -> Seq<u8> {
    seq![0x49u8, 0x4b, 0x49, 0x47, 0x41, 0x49, 0x5f, 0x52, 0x50, 0x44, 0x5f, 0x56, 0x33, 0x5f, 0x44,
        0x52, 0x41, 0x57]
}

/// The bytes hashed to extend the participants commitment: domain tag,
/// previous commitment, the participant's position in the pass, wallet,
/// tickets (integers as 8 little-endian bytes) and reveal digest.
pub open spec fn participants_commitment_message(
    current: Seq<u8>,
    position: u64,
    wallet: Seq<u8>,
    tickets: u64,
    reveal_digest: Seq<u8>,
) -> Seq<u8> {
    pool_domain() + current + le_bytes(position as nat, 8) + wallet + le_bytes(
        tickets as nat,
        8,
    ) + reveal_digest
}

/// The participants commitment extended with one eligible participant.
pub fn extend_participants_commitment(
    current: [u8; 32],
    position: u64,
    wallet: &Address,
    tickets: u64,
    reveal_digest: [u8; 32],
) -> (r: [u8; 32])
    ensures
        r@ == sha256_digest(
            participants_commitment_message(current@, position, wallet.bytes@, tickets, reveal_digest@),
        ),
{
    let domain: [u8; 18] = [
        0x49, 0x4b, 0x49, 0x47, 0x41, 0x49, 0x5f, 0x52, 0x50, 0x44, 0x5f, 0x56, 0x33, 0x5f, 0x50, 0x4f,
        0x4f, 0x4c,
    ];
    let mut data: Vec<u8> = Vec::new();
    extend_bytes(&mut data, domain.as_slice());
    extend_bytes(&mut data, current.as_slice());
    let index_le = write_le(position as u128, 8);
    extend_bytes(&mut data, index_le.as_slice());
    extend_bytes(&mut data, wallet.bytes.as_slice());
    let tickets_le = write_le(tickets as u128, 8);
    extend_bytes(&mut data, tickets_le.as_slice());
    extend_bytes(&mut data, reveal_digest.as_slice());
    proof {
        assert(domain@ =~= pool_domain());
        assert(data@ =~= participants_commitment_message(
            current@,
            position,
            wallet.bytes@,
            tickets,
            reveal_digest@,
        ));
    }
    sha256(data.as_slice())
}

/// The bytes hashed into the draw seed: domain tag, lottery id, eligible
/// participant count, eligible ticket total (8 little-endian bytes each),
/// reveal aggregate and participants commitment.
pub open spec fn seed_message(
    lottery_id: u64,
    eligible_count: u64,
    total_tickets: u64,
    aggregate: Seq<u8>,
    participants_commitment: Seq<u8>,
) -> Seq<u8> {
    seed_domain() + le_bytes(lottery_id as nat, 8) + le_bytes(eligible_count as nat, 8) + le_bytes(
        total_tickets as nat,
        8,
    ) + aggregate + participants_commitment
}

/// The seed from which every winner of the lottery is drawn.
pub fn compute_seed(
    lottery_id: u64,
    eligible_count: u64,
    total_tickets: u64,
    aggregate: [u8; 32],
    participants_commitment: [u8; 32],
) -> (r: [u8; 32])
    ensures
        r@ == sha256_digest(
            seed_message(lottery_id, eligible_count, total_tickets, aggregate@, participants_commitment@),
        ),
{
    let domain: [u8; 18] = [
        0x49, 0x4b, 0x49, 0x47, 0x41, 0x49, 0x5f, 0x52, 0x50, 0x44, 0x5f, 0x56, 0x33, 0x5f, 0x53, 0x45,
        0x45, 0x44,
    ];
    let mut data: Vec<u8> = Vec::new();
    extend_bytes(&mut data, domain.as_slice());
    let id_le = write_le(lottery_id as u128, 8);
    extend_bytes(&mut data, id_le.as_slice());
    let eligible_le = write_le(eligible_count as u128, 8);
    extend_bytes(&mut data, eligible_le.as_slice());
    let total_le = write_le(total_tickets as u128, 8);
    extend_bytes(&mut data, total_le.as_slice());
    extend_bytes(&mut data, aggregate.as_slice());
    extend_bytes(&mut data, participants_commitment.as_slice());
    proof {
        assert(domain@ =~= seed_domain());
        assert(data@ =~= seed_message(
            lottery_id,
            eligible_count,
            total_tickets,
            aggregate@,
            participants_commitment@,
        ));
    }
    sha256(data.as_slice())
}

/// The bytes hashed for draw attempt `nonce` of `round`: domain tag, seed,
/// round (8 little-endian bytes) and nonce (4 little-endian bytes).
pub open spec fn draw_message(seed: Seq<u8>, round: u32, nonce: nat) -> Seq<u8> {
    draw_domain() + seed + le_bytes(round as nat, 8) + le_bytes(nonce, 4)
}

/// The 128-bit sample of draw attempt `nonce`: the first 16 bytes of its
/// digest, little-endian.
pub open spec fn draw_sample(seed: Seq<u8>, round: u32, nonce: nat) -> nat {
    le_value(sha256_digest(draw_message(seed, round, nonce)).subrange(0, 16))
}

/// Samples below `2^128 mod modulus` are rejected, so that the accepted
/// ones are uniform modulo `modulus`.
pub open spec fn rejection_floor(modulus: nat) -> nat {
    ((0x1_0000_0000_0000_0000_0000_0000_0000_0000 - modulus) % (modulus as int)) as nat
}

/// The first nonce from `from` on whose sample is not rejected, among the
/// 32-bit nonces.
pub open spec fn first_accepted_nonce(seed: Seq<u8>, round: u32, modulus: nat, from: nat) -> Option<nat>
    decreases 0x1_0000_0000 - from,
{
    if from > 0xffff_ffff {
        None
    } else if draw_sample(seed, round, from) >= rejection_floor(modulus) {
        Some(from)
    } else {
        first_accepted_nonce(seed, round, modulus, from + 1)
    }
}

/// The ticket drawn in `round` among `remaining` tickets: the first
/// accepted sample modulo `remaining`.  `InvalidInstruction` with no
/// tickets; `WinnerSelectionFailed` when every 32-bit nonce is rejected.
pub open spec fn draw_outcome(seed: Seq<u8>, round: u32, remaining: u64) -> Result<u64, Error> {
    if remaining == 0 {
        Err(Error::InvalidInstruction)
    } else {
        match first_accepted_nonce(seed, round, remaining as nat, 0) {
            Some(n) => Ok((draw_sample(seed, round, n) % (remaining as nat)) as u64),
            None => Err(Error::WinnerSelectionFailed),
        }
    }
}

/// Draws a ticket index below `remaining` for `round` by rejection sampling
/// over SHA-256 of the seed, the round and a nonce.
pub fn draw_index(seed: &[u8; 32], round: u32, remaining: u64) -> (r: Result<u64, Error>)
    ensures
        r == draw_outcome(seed@, round, remaining),
        r is Ok ==> r->Ok_0 < remaining,
{
    if remaining == 0 {
        return Err(Error::InvalidInstruction);
    }
    let modulus: u128 = remaining as u128;
    let floor: u128 = (u128::MAX - modulus + 1) % modulus;
    let domain: [u8; 18] = [
        0x49, 0x4b, 0x49, 0x47, 0x41, 0x49, 0x5f, 0x52, 0x50, 0x44, 0x5f, 0x56, 0x33, 0x5f, 0x44, 0x52,
        0x41, 0x57,
    ];
    proof {
        assert(domain@ =~= draw_domain());
    }
    let round_le = write_le(round as u128, 8);
    let mut nonce: u64 = 0;
    while nonce <= 0xffff_ffff
        invariant
            remaining > 0,
            modulus == remaining,
            floor == rejection_floor(modulus as nat),
            nonce <= 0x1_0000_0000,
            domain@ == draw_domain(),
            round_le@ == le_bytes(round as nat, 8),
            first_accepted_nonce(seed@, round, remaining as nat, 0) == first_accepted_nonce(
                seed@,
                round,
                remaining as nat,
                nonce as nat,
            ),
        decreases 0x1_0000_0000 - nonce,
    {
        let mut data: Vec<u8> = Vec::new();
        extend_bytes(&mut data, domain.as_slice());
        extend_bytes(&mut data, seed.as_slice());
        extend_bytes(&mut data, round_le.as_slice());
        let nonce_le = write_le(nonce as u128, 4);
        extend_bytes(&mut data, nonce_le.as_slice());
        proof {
            assert(data@ =~= draw_message(seed@, round, nonce as nat));
        }
        let digest = sha256(data.as_slice());
        let sample: u128 = read_le(digest.as_slice(), 0, 16);
        proof {
            assert(digest@.subrange(0, 16) =~= sha256_digest(draw_message(seed@, round, nonce as nat)).subrange(0, 16));
        }
        if sample >= floor {
            assert(sample % modulus < modulus) by (nonlinear_arith)
                requires
                    modulus > 0,
            ;
            return Ok((sample % modulus) as u64);
        }
        nonce = nonce + 1;
    }
    Err(Error::WinnerSelectionFailed)
}

/// The name under which a finalization phase is reported.
pub open spec fn finalization_phase_name(phase: u8) -> Seq<char> {
    if phase == FINALIZATION_PHASE_AGGREGATING {
        "aggregating"@
    } else if phase == FINALIZATION_PHASE_SELECTING {
        "selecting"@
    } else if phase == FINALIZATION_PHASE_COMPLETED {
        "completed"@
    } else {
        "unknown"@
    }
}

/// The name of a finalization phase: "aggregating", "selecting",
/// "completed", or "unknown" for any other value.
pub fn phase_name(phase: u8) -> (r: &'static str)
    ensures
        r@ == finalization_phase_name(phase),
{
    if phase == FINALIZATION_PHASE_AGGREGATING {
        "aggregating"
    } else if phase == FINALIZATION_PHASE_SELECTING {
        "selecting"
    } else if phase == FINALIZATION_PHASE_COMPLETED {
        "completed"
    } else {
        "unknown"
    }
}

/// The lower-case hexadecimal digit of `n`.
pub open spec fn hex_char(n: nat) -> char {
    if n < 10 {
        (48 + n) as char
    } else {
        (87 + n) as char
    }
}

/// Two lower-case hexadecimal digits per byte, most significant first.
pub open spec fn hex_of(bytes: Seq<u8>) -> Seq<char>
    decreases bytes.len(),
{
    if bytes.len() == 0 {
        Seq::empty()
    } else {
        hex_of(bytes.drop_last()) + seq![
            hex_char((bytes.last() / 16) as nat),
            hex_char((bytes.last() % 16) as nat),
        ]
    }
}

fn hex_digit(n: u8) -> (r: &'static str)
    requires
        n < 16,
    ensures
        r@ == seq![hex_char(n as nat)],
{
    match n {
        0 => { proof { reveal_strlit("0"); } "0" },
        1 => { proof { reveal_strlit("1"); } "1" },
        2 => { proof { reveal_strlit("2"); } "2" },
        3 => { proof { reveal_strlit("3"); } "3" },
        4 => { proof { reveal_strlit("4"); } "4" },
        5 => { proof { reveal_strlit("5"); } "5" },
        6 => { proof { reveal_strlit("6"); } "6" },
        7 => { proof { reveal_strlit("7"); } "7" },
        8 => { proof { reveal_strlit("8"); } "8" },
        9 => { proof { reveal_strlit("9"); } "9" },
        10 => { proof { reveal_strlit("a"); } "a" },
        11 => { proof { reveal_strlit("b"); } "b" },
        12 => { proof { reveal_strlit("c"); } "c" },
        13 => { proof { reveal_strlit("d"); } "d" },
        14 => { proof { reveal_strlit("e"); } "e" },
        _ => { proof { reveal_strlit("f"); } "f" },
    }
}

/// The bytes in lower-case hexadecimal.
pub fn bytes_to_hex(bytes: &[u8]) -> (r: String)
    ensures
        r@ == hex_of(bytes@),
{
    let mut out = String::new();
    let mut i: usize = 0;
    while i < bytes.len()
        invariant
            i <= bytes@.len(),
            out@ == hex_of(bytes@.subrange(0, i as int)),
        decreases bytes@.len() - i,
    {
        let b = bytes[i];
        out.append(hex_digit(b / 16));
        out.append(hex_digit(b % 16));
        proof {
            assert(bytes@.subrange(0, i + 1).drop_last() =~= bytes@.subrange(0, i as int));
        }
        i = i + 1;
    }
    proof {
        assert(bytes@.subrange(0, bytes@.len() as int) =~= bytes@);
    }
    out
}

/// What a chunk reports: participants handled, progress of the current
/// pass against the participants required, and whether finalization
/// completed.
#[derive(Debug, Clone, Copy, PartialEq, Eq, Structural)]
pub struct ChunkReport {
    pub batch_size: u64,
    pub processed_count: u64,
    pub required_count: u64,
    pub completed: bool,
}

/// The bytes of a 32-byte array.
pub open spec fn bytes32(a: [u8; 32]) -> Seq<u8> {
    a@
}

/// The 32-byte array whose bytes are `s`.
pub open spec fn array32(s: Seq<u8>) -> [u8; 32] {
    choose|a: [u8; 32]| #[trigger] bytes32(a) == s
}

/// An array is the array of its own bytes.
pub proof fn lemma_array32(a: [u8; 32])
    ensures
        array32(a@) == a,
{
    assert(bytes32(a) == a@);
    let c = array32(a@);
    assert(c@ == a@);
    assert(c =~= a);
}

/// The address whose bytes are all zero.
pub open spec fn zero_address() -> Address {
    Address { bytes: array32(Seq::new(32, |i: int| 0u8)) }
}

proof fn lemma_zero_address(a: Address)
    requires
        a.bytes@ == Seq::new(32, |i: int| 0u8),
    ensures
        a == zero_address(),
{
    lemma_array32(a.bytes);
}

/// One participant of the aggregation pass: its wallet must come next
/// (`InvalidInstruction`), it must hold tickets and not have been counted
/// in this generation (`InvalidAccountData`), and no counter may overflow
/// (`MathOverflow`).  It is counted as eligible, its tickets are added, it
/// enters the participants commitment at its position, and its wallet
/// becomes the last of the pass.  Its record is marked with the
/// generation.
pub open spec fn aggregation_step(root: FinalizationLedger, e: FinalizationEntry) -> Result<
    (FinalizationLedger, FinalizationEntry),
    Error,
> {
    if !wallet_in_order(root, e.wallet) {
        Err(Error::InvalidInstruction)
    } else if e.tickets_bought == 0 || e.finalization_generation == root.generation {
        Err(Error::InvalidAccountData)
    } else if root.processed_count == u64::MAX || root.eligible_count == u64::MAX
        || root.total_eligible_tickets + e.tickets_bought > u64::MAX {
        Err(Error::MathOverflow)
    } else {
        let after = FinalizationLedger {
            processed_count: (root.processed_count + 1) as u64,
            eligible_count: (root.eligible_count + 1) as u64,
            total_eligible_tickets: (root.total_eligible_tickets + e.tickets_bought) as u64,
            participants_commitment: array32(
                sha256_digest(
                    participants_commitment_message(
                        root.participants_commitment@,
                        root.processed_count,
                        e.wallet.bytes@,
                        e.tickets_bought,
                        e.reveal_digest@,
                    ),
                ),
            ),
            has_last_wallet: true,
            last_processed_wallet: e.wallet,
            ..root
        };
        Ok((after, FinalizationEntry { finalization_generation: root.generation, ..e }))
    }
}

/// The aggregation pass over `es` in order: the ledger and the records
/// after it, or the first error.
pub open spec fn aggregate_entries(root: FinalizationLedger, es: Seq<FinalizationEntry>) -> Result<
    (FinalizationLedger, Seq<FinalizationEntry>),
    Error,
>
    decreases es.len(),
{
    if es.len() == 0 {
        Ok((root, Seq::empty()))
    } else {
        match aggregate_entries(root, es.drop_last()) {
            Err(e) => Err(e),
            Ok((r, done)) => match aggregation_step(r, es.last()) {
                Err(e) => Err(e),
                Ok((r2, e2)) => Ok((r2, done.push(e2))),
            },
        }
    }
}

/// An error in a prefix of the pass is the error of the whole pass.
pub proof fn lemma_aggregate_error_stays(root: FinalizationLedger, es: Seq<FinalizationEntry>, k: int)
    requires
        0 <= k <= es.len(),
        aggregate_entries(root, es.subrange(0, k)) is Err,
    ensures
        aggregate_entries(root, es) == aggregate_entries(root, es.subrange(0, k)),
    decreases es.len() - k,
{
    if k < es.len() {
        assert(es.subrange(0, k + 1).drop_last() =~= es.subrange(0, k));
        lemma_aggregate_error_stays(root, es, k + 1);
    } else {
        assert(es.subrange(0, k) =~= es);
    }
}

/// The number of winners: the voted number (at least one), capped by
/// `cap` and by the eligible participants.
pub open spec fn target_winners_of(selected: u64, cap: u64, eligible: u64) -> u64 {
    let at_least_one: u64 = if selected < 1 { 1 } else { selected };
    let capped: u64 = if at_least_one < cap { at_least_one } else { cap };
    if capped < eligible { capped } else { eligible }
}

/// The number of winners is the vote, kept within bounds: at least one, at
/// most the cap and at most the eligible participants; a vote inside those
/// bounds is taken as it is.
pub proof fn lemma_target_winners_bounded(selected: u64, cap: u64, eligible: u64)
    requires
        cap >= 1,
        eligible >= 1,
    ensures
        1 <= target_winners_of(selected, cap, eligible),
        target_winners_of(selected, cap, eligible) <= cap,
        target_winners_of(selected, cap, eligible) <= eligible,
        selected >= 1 ==> target_winners_of(selected, cap, eligible) <= selected,
        1 <= selected <= cap && selected <= eligible ==> target_winners_of(selected, cap, eligible) == selected,
{
}

/// The ledger when a selection round starts that looks for ticket `draw`.
pub open spec fn round_started(root: FinalizationLedger, draw: u64) -> FinalizationLedger {
    FinalizationLedger {
        phase: FINALIZATION_PHASE_SELECTING,
        round_processed_count: 0,
        round_remaining_tickets_seen: 0,
        round_draw_index: draw,
        pending_winner: zero_address(),
        pending_winner_tickets: 0,
        pending_winner_found: false,
        has_last_wallet: false,
        last_processed_wallet: zero_address(),
        ..root
    }
}

/// The end of a chunk of the aggregation pass.  Counting more participants
/// than required fails with `InvalidInstruction`; fewer leave everything
/// as it is.  Once all are counted, no eligible ticket fails with
/// `NoAttestedParticipants`; otherwise the number of winners is fixed
/// (`target_winners_of` with the configured cap; `InvalidInstruction` when
/// the lottery cannot take it), the seed is derived and the first round
/// draws among all eligible tickets.  The result holds the ledger and the
/// lottery's number of winners.
pub open spec fn aggregation_completion(config: Config, lottery: Lottery, root: FinalizationLedger) -> Result<
    (FinalizationLedger, u64),
    Error,
> {
    if root.processed_count > root.required_count {
        Err(Error::InvalidInstruction)
    } else if root.processed_count < root.required_count {
        Ok((root, lottery.selected_number_of_winners))
    } else if root.eligible_count == 0 || root.total_eligible_tickets == 0 {
        Err(Error::NoAttestedParticipants)
    } else {
        let target = target_winners_of(
            lottery.selected_number_of_winners,
            effective_max_winners_of(config.max_winners_cap, lottery.participants_count),
            root.eligible_count,
        );
        let seed = array32(
            sha256_digest(
                seed_message(
                    lottery.id,
                    root.eligible_count,
                    root.total_eligible_tickets,
                    lottery.poc_aggregate_hash@,
                    root.participants_commitment@,
                ),
            ),
        );
        if target > u32::MAX {
            Err(Error::MathOverflow)
        } else if !(1 <= target && lottery.participants_count > 1 && target
            <= lottery.participants_count - 1) {
            Err(Error::InvalidInstruction)
        } else if root.selected_tickets_total > root.total_eligible_tickets {
            Err(Error::MathOverflow)
        } else {
            match draw_outcome(
                seed@,
                0,
                (root.total_eligible_tickets - root.selected_tickets_total) as u64,
            ) {
                Err(e) => Err(e),
                Ok(draw) => Ok(
                    (
                        round_started(
                            FinalizationLedger {
                                target_winners: target as u32,
                                seed,
                                current_round: 0,
                                ..root
                            },
                            draw,
                        ),
                        target,
                    ),
                ),
            }
        }
    }
}

/// A chunk of the aggregation pass: the participants in order, then the
/// end of the chunk.  The ledger, the records and the lottery's number of
/// winners after it, or the first error.
pub open spec fn aggregation_chunk_outcome(
    config: Config,
    lottery: Lottery,
    root: FinalizationLedger,
    es: Seq<FinalizationEntry>,
) -> Result<(FinalizationLedger, Seq<FinalizationEntry>, u64), Error> {
    match aggregate_entries(root, es) {
        Err(e) => Err(e),
        Ok((r, done)) => match aggregation_completion(config, lottery, r) {
            Err(e) => Err(e),
            Ok((r2, winners)) => Ok((r2, done, winners)),
        },
    }
}

/// Handles one participant of the aggregation pass (see `aggregation_step`).
pub fn aggregate_participant(root: FinalizationLedger, entry: FinalizationEntry) -> (r: Result<
    (FinalizationLedger, FinalizationEntry),
    Error,
>)
    ensures
        r == aggregation_step(root, entry),
{
    require_wallet_order(&root, &entry.wallet)?;
    if entry.tickets_bought == 0 || entry.finalization_generation == root.generation {
        return Err(Error::InvalidAccountData);
    }
    let mut participant = entry;
    participant.mark_finalized_for_generation(root.generation);
    let mut next = root;
    next.processed_count = match root.processed_count.checked_add(1) {
        Some(v) => v,
        None => return Err(Error::MathOverflow),
    };
    next.eligible_count = match root.eligible_count.checked_add(1) {
        Some(v) => v,
        None => return Err(Error::MathOverflow),
    };
    next.total_eligible_tickets = match root.total_eligible_tickets.checked_add(participant.tickets_bought) {
        Some(v) => v,
        None => return Err(Error::MathOverflow),
    };
    next.participants_commitment = extend_participants_commitment(
        root.participants_commitment,
        root.processed_count,
        &participant.wallet,
        participant.tickets_bought,
        participant.reveal_digest,
    );
    proof {
        lemma_array32(next.participants_commitment);
    }
    next.has_last_wallet = true;
    next.last_processed_wallet = participant.wallet;
    Ok((next, participant))
}

/// Ends a chunk of the aggregation pass (see `aggregation_completion`).
pub fn complete_aggregation(config: &Config, lottery: &Lottery, root: FinalizationLedger) -> (r: Result<
    (FinalizationLedger, u64),
    Error,
>)
    ensures
        r == aggregation_completion(*config, *lottery, root),
{
    if root.processed_count > root.required_count {
        return Err(Error::InvalidInstruction);
    }
    if root.processed_count < root.required_count {
        return Ok((root, lottery.selected_number_of_winners));
    }
    if root.eligible_count == 0 || root.total_eligible_tickets == 0 {
        return Err(Error::NoAttestedParticipants);
    }
    let selected: u64 = if lottery.selected_number_of_winners < 1 {
        1
    } else {
        lottery.selected_number_of_winners
    };
    let cap = config.effective_max_winners(lottery.participants_count);
    let capped: u64 = if selected < cap { selected } else { cap };
    let target: u64 = if capped < root.eligible_count { capped } else { root.eligible_count };
    if target > u32::MAX as u64 {
        return Err(Error::MathOverflow);
    }
    if target == 0 || lottery.participants_count <= 1 || target > lottery.participants_count - 1 {
        return Err(Error::InvalidInstruction);
    }
    let mut next = root;
    next.target_winners = target as u32;
    next.seed = compute_seed(
        lottery.id,
        root.eligible_count,
        root.total_eligible_tickets,
        lottery.poc_aggregate_hash,
        root.participants_commitment,
    );
    proof {
        lemma_array32(next.seed);
    }
    let remaining = next.remaining_tickets()?;
    let draw = draw_index(&next.seed, 0, remaining)?;
    next.current_round = 0;
    let ghost before = next;
    next.begin_selection_round(draw);
    proof {
        lemma_zero_address(next.pending_winner);
        lemma_zero_address(next.last_processed_wallet);
        assert(next == round_started(before, draw));
    }
    Ok((next, target))
}

/// Processes a chunk of the aggregation pass: each participant in order
/// (`aggregate_participant`), then the end of the chunk
/// (`complete_aggregation`).  On success the ledger, the records and the
/// lottery's number of winners are those of `aggregation_chunk_outcome`;
/// on error nothing changes.
pub fn process_aggregation_chunk(
    config: &Config,
    lottery: &mut Lottery,
    root: &mut FinalizationLedger,
    entries: &mut Vec<FinalizationEntry>,
) -> (r: Result<ChunkReport, Error>)
    ensures
        match aggregation_chunk_outcome(*config, *old(lottery), *old(root), old(entries)@) {
            Ok((ledger, records, winners)) => {
                &&& r == Ok::<ChunkReport, Error>(
                    ChunkReport {
                        batch_size: old(entries)@.len() as u64,
                        processed_count: ledger.processed_count,
                        required_count: ledger.required_count,
                        completed: false,
                    },
                )
                &&& *final(root) == ledger
                &&& final(entries)@ == records
                &&& *final(lottery) == (Lottery { selected_number_of_winners: winners, ..*old(lottery) })
            },
            Err(e) => {
                &&& r == Err::<ChunkReport, Error>(e)
                &&& *final(root) == *old(root)
                &&& final(entries)@ == old(entries)@
                &&& *final(lottery) == *old(lottery)
            },
        },
{
    let start = *root;
    let mut cur: FinalizationLedger = *root;
    let mut done: Vec<FinalizationEntry> = Vec::new();
    let mut i: usize = 0;
    while i < entries.len()
        invariant
            i <= entries@.len(),
            start == *root,
            aggregate_entries(start, entries@.subrange(0, i as int)) == Ok::<
                (FinalizationLedger, Seq<FinalizationEntry>),
                Error,
            >((cur, done@)),
        decreases entries@.len() - i,
    {
        let e = entries[i];
        proof {
            assert(entries@.subrange(0, i + 1).drop_last() =~= entries@.subrange(0, i as int));
            assert(entries@.subrange(0, i + 1).last() == e);
        }
        match aggregate_participant(cur, e) {
            Err(err) => {
                proof {
                    lemma_aggregate_error_stays(start, entries@, i + 1);
                }
                return Err(err);
            },
            Ok((next, record)) => {
                cur = next;
                done.push(record);
            },
        }
        i = i + 1;
    }
    proof {
        assert(entries@.subrange(0, entries@.len() as int) =~= entries@);
    }
    let (finished, winners) = complete_aggregation(config, lottery, cur)?;
    if winners != lottery.selected_number_of_winners {
        let set = lottery.set_selected_winners(winners);
        proof {
            assert(set is Ok);
        }
    }
    let report = ChunkReport {
        batch_size: entries.len() as u64,
        processed_count: finished.processed_count,
        required_count: finished.required_count,
        completed: false,
    };
    *root = finished;
    *entries = done;
    Ok(report)
}

/// One participant of a selection round: its wallet must come next in the
/// round (`InvalidInstruction`), it must have been counted by this
/// generation's aggregation and hold tickets (`InvalidAccountData`), and no
/// counter may overflow (`MathOverflow`).  A participant not yet drawn in
/// this generation owns the next tickets of the round; if the drawn ticket
/// is among them and no owner was found yet, it becomes the round's winner
/// and its record is marked drawn in this round.  Its wallet becomes the
/// last of the round.
pub open spec fn selection_step(root: FinalizationLedger, e: FinalizationEntry) -> Result<
    (FinalizationLedger, FinalizationEntry),
    Error,
> {
    if !wallet_in_order(root, e.wallet) {
        Err(Error::InvalidInstruction)
    } else if e.finalization_generation != root.generation || e.tickets_bought == 0 {
        Err(Error::InvalidAccountData)
    } else if root.round_processed_count == u64::MAX {
        Err(Error::MathOverflow)
    } else {
        let counted = FinalizationLedger {
            round_processed_count: (root.round_processed_count + 1) as u64,
            has_last_wallet: true,
            last_processed_wallet: e.wallet,
            ..root
        };
        if e.selected_generation != root.generation {
            let start = root.round_remaining_tickets_seen;
            if start + e.tickets_bought > u64::MAX {
                Err(Error::MathOverflow)
            } else {
                let end = (start + e.tickets_bought) as u64;
                if !root.pending_winner_found && start <= root.round_draw_index < end {
                    Ok(
                        (
                            FinalizationLedger {
                                pending_winner: e.wallet,
                                pending_winner_tickets: e.tickets_bought,
                                pending_winner_found: true,
                                round_remaining_tickets_seen: end,
                                ..counted
                            },
                            FinalizationEntry {
                                selected_generation: root.generation,
                                selected_round: root.current_round,
                                ..e
                            },
                        ),
                    )
                } else {
                    Ok((FinalizationLedger { round_remaining_tickets_seen: end, ..counted }, e))
                }
            }
        } else {
            Ok((counted, e))
        }
    }
}

/// A selection round over `es` in order: the ledger and the records after
/// it, or the first error.
pub open spec fn select_entries(root: FinalizationLedger, es: Seq<FinalizationEntry>) -> Result<
    (FinalizationLedger, Seq<FinalizationEntry>),
    Error,
>
    decreases es.len(),
{
    if es.len() == 0 {
        Ok((root, Seq::empty()))
    } else {
        match select_entries(root, es.drop_last()) {
            Err(e) => Err(e),
            Ok((r, done)) => match selection_step(r, es.last()) {
                Err(e) => Err(e),
                Ok((r2, e2)) => Ok((r2, done.push(e2))),
            },
        }
    }
}

/// An error in a prefix of a round is the error of the whole round.
pub proof fn lemma_select_error_stays(root: FinalizationLedger, es: Seq<FinalizationEntry>, k: int)
    requires
        0 <= k <= es.len(),
        select_entries(root, es.subrange(0, k)) is Err,
    ensures
        select_entries(root, es) == select_entries(root, es.subrange(0, k)),
    decreases es.len() - k,
{
    if k < es.len() {
        assert(es.subrange(0, k + 1).drop_last() =~= es.subrange(0, k));
        lemma_select_error_stays(root, es, k + 1);
    } else {
        assert(es.subrange(0, k) =~= es);
    }
}

/// The end of a chunk of a selection round.  More participants than
/// required fail with `InvalidInstruction`; fewer leave the round open
/// (`None`).  Once all are handled, the tickets seen must be exactly those
/// not yet drawn and an owner must have been found (`WinnerNotFound`;
/// `MathOverflow` when more were drawn than are eligible): the round's
/// winner.
pub open spec fn selection_round_end(root: FinalizationLedger) -> Result<Option<SelectedWinner>, Error> {
    if root.round_processed_count > root.required_count {
        Err(Error::InvalidInstruction)
    } else if root.round_processed_count < root.required_count {
        Ok(None)
    } else if root.selected_tickets_total > root.total_eligible_tickets {
        Err(Error::MathOverflow)
    } else if root.round_remaining_tickets_seen != root.total_eligible_tickets
        - root.selected_tickets_total || !root.pending_winner_found {
        Err(Error::WinnerNotFound)
    } else {
        Ok(Some(SelectedWinner { wallet: root.pending_winner, tickets: root.pending_winner_tickets }))
    }
}

/// Handles one participant of a selection round (see `selection_step`).
pub fn select_participant(root: FinalizationLedger, entry: FinalizationEntry) -> (r: Result<
    (FinalizationLedger, FinalizationEntry),
    Error,
>)
    ensures
        r == selection_step(root, entry),
{
    require_wallet_order(&root, &entry.wallet)?;
    if entry.finalization_generation != root.generation || entry.tickets_bought == 0 {
        return Err(Error::InvalidAccountData);
    }
    let mut next = root;
    let mut participant = entry;
    next.round_processed_count = match root.round_processed_count.checked_add(1) {
        Some(v) => v,
        None => return Err(Error::MathOverflow),
    };
    next.has_last_wallet = true;
    next.last_processed_wallet = participant.wallet;
    if !participant.selected_in_generation(root.generation) {
        let start = root.round_remaining_tickets_seen;
        let end = match start.checked_add(participant.tickets_bought) {
            Some(v) => v,
            None => return Err(Error::MathOverflow),
        };
        if !root.pending_winner_found && root.round_draw_index >= start && root.round_draw_index < end {
            next.pending_winner = participant.wallet;
            next.pending_winner_tickets = participant.tickets_bought;
            next.pending_winner_found = true;
            participant.mark_selected(root.generation, root.current_round);
        }
        next.round_remaining_tickets_seen = end;
    }
    Ok((next, participant))
}

/// What a chunk of a selection round reports: participants handled, and
/// the round's winner once the round is over.
#[derive(Debug, Clone, Copy)]
pub struct SelectionChunk {
    pub batch_size: u64,
    pub round_winner: Option<SelectedWinner>,
}

/// Processes a chunk of a selection round: each participant in order
/// (`select_participant`), then the end of the chunk
/// (`selection_round_end`).  On error nothing changes.
pub fn process_selection_chunk(root: &mut FinalizationLedger, entries: &mut Vec<FinalizationEntry>) -> (r:
    Result<SelectionChunk, Error>)
    ensures
        match select_entries(*old(root), old(entries)@) {
            Ok((ledger, records)) => match selection_round_end(ledger) {
                Ok(winner) => {
                    &&& r is Ok
                    &&& r->Ok_0.batch_size == old(entries)@.len()
                    &&& r->Ok_0.round_winner == winner
                    &&& *final(root) == ledger
                    &&& final(entries)@ == records
                },
                Err(e) => {
                    &&& r == Err::<SelectionChunk, Error>(e)
                    &&& *final(root) == *old(root)
                    &&& final(entries)@ == old(entries)@
                },
            },
            Err(e) => {
                &&& r == Err::<SelectionChunk, Error>(e)
                &&& *final(root) == *old(root)
                &&& final(entries)@ == old(entries)@
            },
        },
{
    let start = *root;
    let mut cur: FinalizationLedger = *root;
    let mut done: Vec<FinalizationEntry> = Vec::new();
    let mut i: usize = 0;
    while i < entries.len()
        invariant
            i <= entries@.len(),
            start == *root,
            select_entries(start, entries@.subrange(0, i as int)) == Ok::<
                (FinalizationLedger, Seq<FinalizationEntry>),
                Error,
            >((cur, done@)),
        decreases entries@.len() - i,
    {
        let e = entries[i];
        proof {
            assert(entries@.subrange(0, i + 1).drop_last() =~= entries@.subrange(0, i as int));
            assert(entries@.subrange(0, i + 1).last() == e);
        }
        match select_participant(cur, e) {
            Err(err) => {
                proof {
                    lemma_select_error_stays(start, entries@, i + 1);
                }
                return Err(err);
            },
            Ok((next, record)) => {
                cur = next;
                done.push(record);
            },
        }
        i = i + 1;
    }
    proof {
        assert(entries@.subrange(0, entries@.len() as int) =~= entries@);
    }
    if cur.round_processed_count > cur.required_count {
        return Err(Error::InvalidInstruction);
    }
    let mut round_winner: Option<SelectedWinner> = None;
    if cur.round_processed_count == cur.required_count {
        let expected = cur.remaining_tickets()?;
        if cur.round_remaining_tickets_seen != expected || !cur.pending_winner_found {
            return Err(Error::WinnerNotFound);
        }
        round_winner = Some(SelectedWinner { wallet: cur.pending_winner, tickets: cur.pending_winner_tickets });
    }
    let batch_size = entries.len() as u64;
    *root = cur;
    *entries = done;
    Ok(SelectionChunk { batch_size, round_winner })
}

/// What finalizing pays: the winners, what each gets, the total paid to
/// them and the service fee.
#[derive(Debug, Clone, Copy, PartialEq, Eq, Structural)]
pub struct FinalizationPayout {
    pub winners_count: u64,
    pub total_payout: u64,
    pub per_winner: u64,
    pub service_fee: u64,
}

/// The payout of `total_funds` among `winners_count` winners: the service
/// fee at `bps` comes off (`MathOverflow` if it does not fit), the rest is
/// split evenly and rounded down (`InsufficientFunds` with no winner or
/// less than a lamport each).
pub open spec fn payout_of(total_funds: u64, bps: u16, winners_count: u64) -> Result<FinalizationPayout, Error> {
    let fee = service_fee_of(total_funds, bps);
    if fee > u64::MAX {
        Err(Error::MathOverflow)
    } else {
        let pool: int = if total_funds >= fee { total_funds - fee } else { 0 };
        if winners_count == 0 || pool < winners_count {
            Err(Error::InsufficientFunds)
        } else {
            let per = pool / (winners_count as int);
            Ok(
                FinalizationPayout {
                    winners_count,
                    total_payout: (per * winners_count) as u64,
                    per_winner: per as u64,
                    service_fee: fee as u64,
                },
            )
        }
    }
}

/// Why `lottery` cannot be finalized with `winners_count` winners, if it
/// cannot: the payout at the lottery's service charge fails, settlement is already complete
/// (`LotteryAlreadySettled`), or there are more than `MAX_WINNERS` winners
/// (`InvalidInstruction`).
pub open spec fn completion_error(lottery: Lottery, winners_count: u64) -> Option<Error> {
    match payout_of(lottery.total_funds, lottery.service_charge_bps, winners_count) {
        Err(e) => Some(e),
        Ok(_) => if lottery.settlement_complete {
            Some(Error::LotteryAlreadySettled)
        } else if winners_count > MAX_WINNERS {
            Some(Error::InvalidInstruction)
        } else {
            None
        },
    }
}

/// `after` is `before` with settlement set up for the payout `p` under the
/// winners commitment: count and total payout recorded, the paid bits of
/// the winners cleared, and settlement started at `current_time` unless it
/// had started.
pub open spec fn finalized_lottery(
    before: Lottery,
    after: Lottery,
    commitment: [u8; 32],
    p: FinalizationPayout,
    current_time: i64,
) -> bool {
    &&& after.paid_winners_bitmap@.len() == before.paid_winners_bitmap@.len()
    &&& forall|i: int|
        0 <= i < after.paid_winners_bitmap@.len() ==> #[trigger] after.paid_winners_bitmap@[i] == if i
            < (p.winners_count + 7) / 8 {
            0u8
        } else {
            before.paid_winners_bitmap@[i]
        }
    &&& after == Lottery {
        winners_merkle_root: commitment,
        winners_count: p.winners_count,
        total_payout: p.total_payout,
        settlement_start_unix: if before.settlement_start_unix == 0 {
            current_time
        } else {
            before.settlement_start_unix
        },
        paid_winners_bitmap: after.paid_winners_bitmap,
        ..before
    }
}

/// The ledger marked completed at `t`.
pub open spec fn completed_ledger(root: FinalizationLedger, t: i64) -> FinalizationLedger {
    FinalizationLedger {
        phase: FINALIZATION_PHASE_COMPLETED,
        completed: true,
        completed_at_unix: t,
        has_last_wallet: false,
        last_processed_wallet: zero_address(),
        ..root
    }
}

/// Completes finalization with the winners selected so far: pays the
/// winners' share (see `payout_of`, at the lottery's service charge)
/// through settlement and marks the
/// ledger completed.  On error (`completion_error`) nothing changes.
pub fn complete_finalization(
    lottery: &mut Lottery,
    root: &mut FinalizationLedger,
    current_time: i64,
) -> (r: Result<FinalizationPayout, Error>)
    requires
        old(lottery).paid_winners_bitmap@.len() >= PAID_BITMAP_BYTES,
    ensures
        completion_error(*old(lottery), old(root).selected_count as u64) is Some ==> {
            &&& r == Err::<FinalizationPayout, Error>(
                completion_error(*old(lottery), old(root).selected_count as u64)->0,
            )
            &&& *final(lottery) == *old(lottery)
            &&& *final(root) == *old(root)
        },
        completion_error(*old(lottery), old(root).selected_count as u64) is None ==> {
            &&& payout_of(old(lottery).total_funds, old(lottery).service_charge_bps, old(root).selected_count as u64)
                == Ok::<FinalizationPayout, Error>(r->Ok_0)
            &&& r is Ok
            &&& finalized_lottery(*old(lottery), *final(lottery), old(root).winners_commitment, r->Ok_0, current_time)
            &&& *final(root) == completed_ledger(*old(root), current_time)
        },
{
    let winners_count: u64 = root.selected_count as u64;
    let service_fee = compute_service_fee(lottery.total_funds, lottery.service_charge_bps)?;
    let winners_pool: u64 = lottery.total_funds.saturating_sub(service_fee);
    if winners_count == 0 || winners_pool < winners_count {
        return Err(Error::InsufficientFunds);
    }
    let per_winner: u64 = winners_pool / winners_count;
    assert(per_winner * winners_count <= winners_pool) by (nonlinear_arith)
        requires
            per_winner == winners_pool / winners_count,
            winners_count > 0,
    ;
    let total_payout: u64 = per_winner * winners_count;
    lottery.initialize_settlement(root.winners_commitment, winners_count, total_payout)?;
    if lottery.settlement_start_unix == 0 {
        lottery.settlement_start_unix = current_time;
    }
    root.complete(current_time);
    proof {
        lemma_zero_address(root.last_processed_wallet);
    }
    Ok(FinalizationPayout { winners_count, total_payout, per_winner, service_fee })
}

/// The ledger after recording `winner` as the next winner (see
/// `FinalizationLedger::record_winner`).
pub open spec fn winner_recorded(root: FinalizationLedger, winner: SelectedWinner) -> FinalizationLedger {
    FinalizationLedger {
        selected_count: (root.selected_count + 1) as u32,
        selected_tickets_total: (root.selected_tickets_total + winner.tickets) as u64,
        winners_commitment: array32(
            sha256_digest(winners_commitment_message(root.winners_commitment@, root.selected_count, winner)),
        ),
        ..root
    }
}

/// Why recording a round's winner fails, if it does: the page is full or
/// its data too short (`InvalidInstruction`); every winner was already
/// selected (`InvalidInstruction`); the drawn ticket total overflows
/// (`MathOverflow`); with the last winner, finalization cannot complete
/// (`completion_error`); otherwise the next round cannot be drawn.
pub open spec fn round_winner_error(
    lottery: Lottery,
    root: FinalizationLedger,
    page: WinnerPage,
    page_len: nat,
    winner: SelectedWinner,
) -> Option<Error> {
    if page.count >= WINNERS_PER_PAGE || page_len < WINNER_PAGE_SIZE {
        Some(Error::InvalidInstruction)
    } else if root.selected_count >= root.target_winners {
        Some(Error::InvalidInstruction)
    } else if root.selected_tickets_total + winner.tickets > u64::MAX {
        Some(Error::MathOverflow)
    } else {
        let recorded = winner_recorded(root, winner);
        if recorded.selected_count == recorded.target_winners {
            completion_error(lottery, recorded.selected_count as u64)
        } else if root.current_round == u32::MAX {
            Some(Error::MathOverflow)
        } else if recorded.selected_tickets_total > recorded.total_eligible_tickets {
            Some(Error::MathOverflow)
        } else {
            match draw_outcome(
                recorded.seed@,
                (root.current_round + 1) as u32,
                (recorded.total_eligible_tickets - recorded.selected_tickets_total) as u64,
            ) {
                Err(e) => Some(e),
                Ok(_) => None,
            }
        }
    }
}

/// What recording a round's winner reports: the winner's index and place
/// in the winner pages, whether finalization completed (and then its
/// payout), and the participants counted in the pass that follows.
#[derive(Debug, Clone, Copy)]
pub struct RoundRecord {
    pub winner_index: u64,
    pub page_index: u32,
    pub page_offset: u32,
    pub completed: bool,
    pub processed_count: u64,
    pub payout: Option<FinalizationPayout>,
}

/// Records the winner of a finished selection round: appends it to its
/// winner page and to the ledger; after the last winner completes
/// finalization (`complete_finalization`), otherwise draws the next round
/// among the tickets not yet drawn.  On error (`round_winner_error`)
/// nothing changes.
pub fn record_round_winner(
    lottery: &mut Lottery,
    root: &mut FinalizationLedger,
    page: &mut WinnerPage,
    page_data: &mut [u8],
    winner: SelectedWinner,
    current_time: i64,
) -> (r: Result<RoundRecord, Error>)
    requires
        old(lottery).paid_winners_bitmap@.len() >= PAID_BITMAP_BYTES,
    ensures
        ({
            let err = round_winner_error(
                *old(lottery),
                *old(root),
                *old(page),
                old(page_data)@.len(),
                winner,
            );
            let recorded = winner_recorded(*old(root), winner);
            &&& err is Some ==> {
                &&& r == Err::<RoundRecord, Error>(err->0)
                &&& *final(lottery) == *old(lottery)
                &&& *final(root) == *old(root)
                &&& *final(page) == *old(page)
                &&& final(page_data)@ == old(page_data)@
            }
            &&& err is None ==> {
                &&& r is Ok
                &&& *final(page) == (WinnerPage { count: (old(page).count + 1) as u16, ..*old(page) })
                &&& final(page_data)@ == with_entry(old(page_data)@, old(page).count as nat, winner)
                &&& r->Ok_0.winner_index == old(root).selected_count
                &&& r->Ok_0.page_index == old(root).selected_count / 100
                &&& r->Ok_0.page_offset == old(root).selected_count % 100
                &&& if recorded.selected_count == recorded.target_winners {
                    &&& r->Ok_0.completed
                    &&& r->Ok_0.processed_count == old(root).required_count
                    &&& r->Ok_0.payout is Some
                    &&& payout_of(old(lottery).total_funds, old(lottery).service_charge_bps, recorded.selected_count as u64)
                        == Ok::<FinalizationPayout, Error>(r->Ok_0.payout->0)
                    &&& finalized_lottery(
                        *old(lottery),
                        *final(lottery),
                        recorded.winners_commitment,
                        r->Ok_0.payout->0,
                        current_time,
                    )
                    &&& *final(root) == completed_ledger(recorded, current_time)
                } else {
                    &&& !r->Ok_0.completed
                    &&& r->Ok_0.processed_count == 0
                    &&& r->Ok_0.payout is None
                    &&& *final(lottery) == *old(lottery)
                    &&& *final(root) == round_started(
                        FinalizationLedger { current_round: (old(root).current_round + 1) as u32, ..recorded },
                        draw_outcome(
                            recorded.seed@,
                            (old(root).current_round + 1) as u32,
                            (recorded.total_eligible_tickets - recorded.selected_tickets_total) as u64,
                        )->Ok_0,
                    )
                }
            }
        }),
{
    if page.count as usize >= WINNERS_PER_PAGE || page_data.len() < WINNER_PAGE_SIZE {
        return Err(Error::InvalidInstruction);
    }
    let winner_index: u64 = root.selected_count as u64;
    let page_index: u32 = root.selected_count / 100;
    let page_offset: u32 = root.selected_count % 100;
    let mut next = *root;
    next.record_winner(winner)?;
    proof {
        lemma_array32(next.winners_commitment);
    }
    let ghost recorded = next;
    let mut completed = false;
    let mut payout: Option<FinalizationPayout> = None;
    if next.selected_count == next.target_winners {
        let p = complete_finalization(lottery, &mut next, current_time)?;
        completed = true;
        payout = Some(p);
    } else {
        next.current_round = match next.current_round.checked_add(1) {
            Some(v) => v,
            None => return Err(Error::MathOverflow),
        };
        let remaining = next.remaining_tickets()?;
        let draw = draw_index(&next.seed, next.current_round, remaining)?;
        let ghost before = next;
        next.begin_selection_round(draw);
        proof {
            lemma_zero_address(next.pending_winner);
            lemma_zero_address(next.last_processed_wallet);
            assert(next == round_started(before, draw));
        }
    }
    let appended = page.append(page_data, winner);
    proof {
        assert(appended is Ok);
    }
    let processed_count: u64 = if completed {
        next.required_count
    } else {
        next.round_processed_count
    };
    *root = next;
    Ok(RoundRecord { winner_index, page_index, page_offset, completed, processed_count, payout })
}

/// Whether finalization has work to do for `lottery` at `current_time`
/// with `participant_accounts` participant accounts: `false` when it is
/// already settled; `InvalidInstruction` with at most one participant,
/// `NoAttestedParticipants` when nobody attested, `InvalidPhaseTransition`
/// while a participant that attested has no reveal uploaded (settlement
/// stays blocked until every attested reveal is in), `InvalidInstruction`
/// while uploads are neither complete nor past their deadline, and
/// `MissingAccount` without participant accounts.
pub open spec fn finalization_gate_of(lottery: Lottery, current_time: i64, participant_accounts: usize) -> Result<
    bool,
    Error,
> {
    if lottery.settlement_complete || lottery.settled {
        Ok(false)
    } else if lottery.participants_count <= 1 {
        Err(Error::InvalidInstruction)
    } else if lottery.attested_count == 0 {
        Err(Error::NoAttestedParticipants)
    } else if lottery.provider_uploaded_count < lottery.attested_count {
        Err(Error::InvalidPhaseTransition)
    } else if !lottery.uploads_complete && !(lottery.upload_deadline_unix > 0 && current_time
        > lottery.upload_deadline_unix) {
        Err(Error::InvalidInstruction)
    } else if participant_accounts == 0 {
        Err(Error::MissingAccount)
    } else {
        Ok(true)
    }
}

/// Decides `finalization_gate_of`.
pub fn finalization_gate(lottery: &Lottery, current_time: i64, participant_accounts: usize) -> (r: Result<
    bool,
    Error,
>)
    ensures
        r == finalization_gate_of(*lottery, current_time, participant_accounts),
{
    if lottery.settlement_complete || lottery.settled {
        return Ok(false);
    }
    if lottery.participants_count <= 1 {
        return Err(Error::InvalidInstruction);
    }
    if lottery.attested_count == 0 {
        return Err(Error::NoAttestedParticipants);
    }
    if lottery.provider_uploaded_count < lottery.attested_count {
        return Err(Error::InvalidPhaseTransition);
    }
    let upload_elapsed = lottery.upload_deadline_unix > 0 && current_time > lottery.upload_deadline_unix;
    if !lottery.uploads_complete && !upload_elapsed {
        return Err(Error::InvalidInstruction);
    }
    if participant_accounts == 0 {
        return Err(Error::MissingAccount);
    }
    Ok(true)
}

/// Settlement is blocked while an attested reveal is missing: as long as
/// fewer reveals are uploaded than participants attested, finalization of
/// an unsettled lottery with several participants makes no progress.
pub proof fn lemma_missing_reveal_blocks_finalization(lottery: Lottery, current_time: i64, participant_accounts: usize)
    requires
        !lottery.settlement_complete,
        !lottery.settled,
        lottery.participants_count > 1,
        lottery.provider_uploaded_count < lottery.attested_count,
    ensures
        finalization_gate_of(lottery, current_time, participant_accounts) == Err::<bool, Error>(
            Error::InvalidPhaseTransition,
        ),
{
}

/// The pass a finalization ledger is in.
#[derive(Debug, Clone, Copy, PartialEq, Eq, Structural)]
pub enum FinalizationPass {
    Aggregating,
    Selecting,
    Completed,
}

/// The pass of a ledger's phase; `InvalidAccountData` for an unknown phase.
pub fn finalization_pass(phase: u8) -> (r: Result<FinalizationPass, Error>)
    ensures
        r == (if phase == FINALIZATION_PHASE_AGGREGATING {
            Ok(FinalizationPass::Aggregating)
        } else if phase == FINALIZATION_PHASE_SELECTING {
            Ok(FinalizationPass::Selecting)
        } else if phase == FINALIZATION_PHASE_COMPLETED {
            Ok(FinalizationPass::Completed)
        } else {
            Err::<FinalizationPass, Error>(Error::InvalidAccountData)
        }),
{
    if phase == FINALIZATION_PHASE_AGGREGATING {
        Ok(FinalizationPass::Aggregating)
    } else if phase == FINALIZATION_PHASE_SELECTING {
        Ok(FinalizationPass::Selecting)
    } else if phase == FINALIZATION_PHASE_COMPLETED {
        Ok(FinalizationPass::Completed)
    } else {
        Err(Error::InvalidAccountData)
    }
}

/// Fails with `InvalidAccountData` unless a stored ledger belongs to the
/// lottery, has the current protocol version and requires every
/// participant.
pub fn check_finalization_root(root: &FinalizationLedger, lottery_key: &Address, participants_count: u64) -> (r:
    Result<(), Error>)
    ensures
        r == (if root.lottery.bytes@ != lottery_key.bytes@ || root.protocol_version
            != crate::state::finalization_ledger::FINALIZATION_PROTOCOL_VERSION || root.required_count
            != participants_count {
            Err::<(), Error>(Error::InvalidAccountData)
        } else {
            Ok(())
        }),
{
    if !root.lottery.equals(lottery_key) || root.protocol_version
        != crate::state::finalization_ledger::FINALIZATION_PROTOCOL_VERSION || root.required_count
        != participants_count {
        return Err(Error::InvalidAccountData);
    }
    Ok(())
}

/// Fails with `InvalidAccountData` unless a stored winner page belongs to
/// the lottery, the generation and the page index.
pub fn check_winner_page(page: &WinnerPage, lottery_key: &Address, generation: u32, page_index: u32) -> (r:
    Result<(), Error>)
    ensures
        r == (if page.lottery.bytes@ != lottery_key.bytes@ || page.generation != generation
            || page.page_index != page_index {
            Err::<(), Error>(Error::InvalidAccountData)
        } else {
            Ok(())
        }),
{
    if !page.lottery.equals(lottery_key) || page.generation != generation || page.page_index != page_index {
        return Err(Error::InvalidAccountData);
    }
    Ok(())
}

/// Tickets of the participants `es`.
pub open spec fn tickets_of(es: Seq<FinalizationEntry>) -> nat
    decreases es.len(),
{
    if es.len() == 0 {
        0
    } else {
        tickets_of(es.drop_last()) + es.last().tickets_bought as nat
    }
}

/// A successful aggregation pass takes the participants in strictly
/// increasing wallet order (after the last wallet of the pass), counts
/// every one as eligible and adds up exactly their tickets, marks every
/// record with the generation, ends with the last of them as the last
/// wallet of the pass, and leaves the rest of the ledger as it was.
pub proof fn lemma_aggregation_counts(root: FinalizationLedger, es: Seq<FinalizationEntry>)
    requires
        aggregate_entries(root, es) is Ok,
    ensures
        ({
            let (r, done) = aggregate_entries(root, es)->Ok_0;
            &&& r.processed_count == root.processed_count + es.len()
            &&& r.eligible_count == root.eligible_count + es.len()
            &&& r.total_eligible_tickets == root.total_eligible_tickets + tickets_of(es)
            &&& done.len() == es.len()
            &&& es.len() > 0 ==> wallet_in_order(root, es[0].wallet)
            &&& forall|i: int, j: int|
                0 <= i < j < es.len() ==> bytes_lt(#[trigger] es[i].wallet.bytes@, #[trigger] es[j].wallet.bytes@)
            &&& es.len() > 0 ==> r.has_last_wallet && r.last_processed_wallet == es.last().wallet
            &&& forall|i: int|
                0 <= i < es.len() ==> #[trigger] done[i] == (FinalizationEntry {
                    finalization_generation: root.generation,
                    ..es[i]
                })
            &&& r.generation == root.generation
            &&& r.required_count == root.required_count
            &&& r.phase == root.phase
            &&& r.selected_count == root.selected_count
            &&& r.selected_tickets_total == root.selected_tickets_total
        }),
    decreases es.len(),
{
    if es.len() > 0 {
        let init = es.drop_last();
        lemma_aggregation_counts(root, init);
        let (r0, done0) = aggregate_entries(root, init)->Ok_0;
        let (r, done) = aggregate_entries(root, es)->Ok_0;
        assert(done == done0.push(aggregation_step(r0, es.last())->Ok_0.1));
        if init.len() > 0 {
            assert(init[0] == es[0]);
            assert(r0.last_processed_wallet == init.last().wallet);
            assert(init.last() == es[es.len() - 2]);
        }
        assert forall|i: int, j: int| 0 <= i < j < es.len() implies bytes_lt(
            #[trigger] es[i].wallet.bytes@,
            #[trigger] es[j].wallet.bytes@,
        ) by {
            if j < es.len() - 1 {
                assert(init[i] == es[i] && init[j] == es[j]);
            } else if i < es.len() - 2 {
                assert(init[i] == es[i]);
                assert(init[init.len() - 1] == es[es.len() - 2]);
                crate::address::lemma_bytes_lt_order(
                    es[i].wallet.bytes@,
                    es[es.len() - 2].wallet.bytes@,
                    es[j].wallet.bytes@,
                );
            }
        }
        assert forall|i: int| 0 <= i < es.len() implies #[trigger] done[i] == (FinalizationEntry {
            finalization_generation: root.generation,
            ..es[i]
        }) by {
            if i < es.len() - 1 {
                assert(init[i] == es[i]);
                assert(done[i] == done0[i]);
            }
        }
    }
}

/// Whether a participant owns tickets in a selection round of
/// `generation`: it was not drawn in that generation.
pub open spec fn open_in_round(e: FinalizationEntry, generation: u32) -> bool {
    e.selected_generation != generation
}

/// Tickets of the participants among `es` that own tickets in a round of
/// `generation`.
pub open spec fn open_tickets(es: Seq<FinalizationEntry>, generation: u32) -> nat
    decreases es.len(),
{
    if es.len() == 0 {
        0
    } else {
        open_tickets(es.drop_last(), generation) + if open_in_round(es.last(), generation) {
            es.last().tickets_bought as nat
        } else {
            0nat
        }
    }
}

/// Whether participant `i` of `es` owns ticket `draw` of a round that had
/// already seen `seen` tickets before `es`: the participant's tickets come
/// right after those of the open participants before it.
pub open spec fn owns_drawn_ticket(es: Seq<FinalizationEntry>, i: int, generation: u32, seen: nat, draw: nat) -> bool {
    &&& 0 <= i < es.len()
    &&& open_in_round(es[i], generation)
    &&& seen + open_tickets(es.subrange(0, i), generation) <= draw
    &&& draw < seen + open_tickets(es.subrange(0, i), generation) + es[i].tickets_bought
}

/// A successful chunk of a selection round lays the open participants'
/// tickets end to end: it sees exactly their tickets, participants already
/// drawn in this generation own none, and the owner of the drawn ticket is
/// found.  A winner found in the chunk owns the drawn ticket and its record
/// is marked drawn; once a winner is found it stays the winner; and when
/// the drawn ticket lies among the tickets seen in the chunk, a winner is
/// found.
pub proof fn lemma_round_finds_owner(root: FinalizationLedger, es: Seq<FinalizationEntry>)
    requires
        select_entries(root, es) is Ok,
    ensures
        ({
            let (r, done) = select_entries(root, es)->Ok_0;
            let gen = root.generation;
            let seen = root.round_remaining_tickets_seen as nat;
            let draw = root.round_draw_index as nat;
            &&& r.round_remaining_tickets_seen == seen + open_tickets(es, gen)
            &&& r.round_processed_count == root.round_processed_count + es.len()
            &&& r.round_draw_index == root.round_draw_index
            &&& r.generation == gen
            &&& done.len() == es.len()
            &&& root.pending_winner_found ==> r.pending_winner_found && r.pending_winner
                == root.pending_winner && r.pending_winner_tickets == root.pending_winner_tickets
            &&& (!root.pending_winner_found && r.pending_winner_found) ==> exists|i: int|
                #[trigger] owns_drawn_ticket(es, i, gen, seen, draw) && r.pending_winner == es[i].wallet
                    && r.pending_winner_tickets == es[i].tickets_bought && done[i].selected_generation
                    == gen
            &&& (!root.pending_winner_found && seen <= draw < seen + open_tickets(es, gen))
                ==> r.pending_winner_found
            &&& forall|i: int|
                0 <= i < es.len() && !open_in_round(es[i], gen) ==> #[trigger] done[i] == es[i]
            &&& forall|i: int| 0 <= i < es.len() ==> (#[trigger] done[i]).wallet == es[i].wallet
        }),
    decreases es.len(),
{
    if es.len() > 0 {
        let last = es.len() - 1;
        let init = es.drop_last();
        lemma_round_finds_owner(root, init);
        let (r0, done0) = select_entries(root, init)->Ok_0;
        let (r, done) = select_entries(root, es)->Ok_0;
        let gen = root.generation;
        let seen = root.round_remaining_tickets_seen as nat;
        let draw = root.round_draw_index as nat;
        assert(done == done0.push(selection_step(r0, es.last())->Ok_0.1));
        assert(init =~= es.subrange(0, last));
        assert forall|i: int| 0 <= i < es.len() && !open_in_round(es[i], gen) implies #[trigger] done[i]
            == es[i] by {
            if i < last {
                assert(init[i] == es[i]);
                assert(done[i] == done0[i]);
            }
        }
        assert forall|i: int| 0 <= i < es.len() implies (#[trigger] done[i]).wallet == es[i].wallet by {
            if i < last {
                assert(init[i] == es[i]);
                assert(done[i] == done0[i]);
            }
        }
        if !root.pending_winner_found && r.pending_winner_found {
            if r0.pending_winner_found {
                let i = choose|i: int|
                    #[trigger] owns_drawn_ticket(init, i, gen, seen, draw) && r0.pending_winner
                        == init[i].wallet && r0.pending_winner_tickets == init[i].tickets_bought
                        && done0[i].selected_generation == gen;
                assert(init.subrange(0, i) =~= es.subrange(0, i));
                assert(init[i] == es[i]);
                assert(done[i] == done0[i]);
                assert(owns_drawn_ticket(es, i, gen, seen, draw));
            } else {
                assert(es.subrange(0, last) =~= init);
                assert(owns_drawn_ticket(es, last, gen, seen, draw));
            }
        }
    }
}

/// A participant drawn in one round is not drawn again: when a round over
/// the participants (distinct wallets) draws a winner and a later round of
/// the same generation runs over the records as that round left them, the
/// later round's winner is another wallet.
pub proof fn lemma_drawn_participant_not_redrawn(
    first: FinalizationLedger,
    es: Seq<FinalizationEntry>,
    second: FinalizationLedger,
)
    requires
        forall|i: int, j: int|
            0 <= i < j < es.len() ==> (#[trigger] es[i]).wallet.bytes@ != (#[trigger] es[j]).wallet.bytes@,
        select_entries(first, es) is Ok,
        !first.pending_winner_found,
        select_entries(first, es)->Ok_0.0.pending_winner_found,
        second.generation == first.generation,
        !second.pending_winner_found,
        select_entries(second, select_entries(first, es)->Ok_0.1) is Ok,
        select_entries(second, select_entries(first, es)->Ok_0.1)->Ok_0.0.pending_winner_found,
    ensures
        select_entries(second, select_entries(first, es)->Ok_0.1)->Ok_0.0.pending_winner.bytes@
            != select_entries(first, es)->Ok_0.0.pending_winner.bytes@,
{
    let gen = first.generation;
    let (r1, done) = select_entries(first, es)->Ok_0;
    let (r2, done2) = select_entries(second, done)->Ok_0;
    lemma_round_finds_owner(first, es);
    lemma_round_finds_owner(second, done);
    let i = choose|i: int|
        #[trigger] owns_drawn_ticket(
            es,
            i,
            gen,
            first.round_remaining_tickets_seen as nat,
            first.round_draw_index as nat,
        ) && r1.pending_winner == es[i].wallet && r1.pending_winner_tickets == es[i].tickets_bought
            && done[i].selected_generation == gen;
    let k = choose|k: int|
        #[trigger] owns_drawn_ticket(
            done,
            k,
            gen,
            second.round_remaining_tickets_seen as nat,
            second.round_draw_index as nat,
        ) && r2.pending_winner == done[k].wallet && r2.pending_winner_tickets == done[k].tickets_bought
            && done2[k].selected_generation == gen;
    assert(open_in_round(done[k], gen));
    assert(k != i);
    assert(done[k].wallet == es[k].wallet);
    if k < i {
        assert(es[k].wallet.bytes@ != es[i].wallet.bytes@);
    } else {
        assert(es[i].wallet.bytes@ != es[k].wallet.bytes@);
    }
}

/// A participant drawn in a generation stays out of it: when a round of
/// that generation runs over records (distinct wallets) in which the
/// participant's record is marked drawn, the round leaves that record as it
/// was, and a winner the round finds is another wallet.  Since every round
/// marks its winner, the winners of all the rounds of a generation are
/// distinct, however many rounds there are.
pub proof fn lemma_marked_participant_not_drawn(root: FinalizationLedger, es: Seq<FinalizationEntry>, k: int)
    requires
        forall|i: int, j: int|
            0 <= i < j < es.len() ==> (#[trigger] es[i]).wallet.bytes@ != (#[trigger] es[j]).wallet.bytes@,
        select_entries(root, es) is Ok,
        0 <= k < es.len(),
        es[k].selected_generation == root.generation,
    ensures
        select_entries(root, es)->Ok_0.1[k] == es[k],
        !root.pending_winner_found && select_entries(root, es)->Ok_0.0.pending_winner_found
            ==> select_entries(root, es)->Ok_0.0.pending_winner.bytes@ != es[k].wallet.bytes@,
{
    let gen = root.generation;
    let (r, done) = select_entries(root, es)->Ok_0;
    lemma_round_finds_owner(root, es);
    assert(!open_in_round(es[k], gen));
    if !root.pending_winner_found && r.pending_winner_found {
        let i = choose|i: int|
            #[trigger] owns_drawn_ticket(
                es,
                i,
                gen,
                root.round_remaining_tickets_seen as nat,
                root.round_draw_index as nat,
            ) && r.pending_winner == es[i].wallet && r.pending_winner_tickets == es[i].tickets_bought
                && done[i].selected_generation == gen;
        assert(open_in_round(es[i], gen));
        assert(i != k);
        if i < k {
            assert(es[i].wallet.bytes@ != es[k].wallet.bytes@);
        } else {
            assert(es[k].wallet.bytes@ != es[i].wallet.bytes@);
        }
    }
}

/// The ledger after recording each of `ws` in turn as a round's winner.
pub open spec fn winners_recorded(root: FinalizationLedger, ws: Seq<SelectedWinner>) -> FinalizationLedger
    decreases ws.len(),
{
    if ws.len() == 0 {
        root
    } else {
        winner_recorded(winners_recorded(root, ws.drop_last()), ws.last())
    }
}

/// Tickets of the winners `ws`.
pub open spec fn winner_tickets(ws: Seq<SelectedWinner>) -> nat
    decreases ws.len(),
{
    if ws.len() == 0 {
        0
    } else {
        winner_tickets(ws.drop_last()) + ws.last().tickets as nat
    }
}

/// Winners recorded one after another, each within the target and the
/// ticket total: the ledger counts them, its drawn ticket total is the
/// total before plus exactly their tickets, and it never passes the target.
pub proof fn lemma_recorded_winners_add_up(root: FinalizationLedger, ws: Seq<SelectedWinner>)
    requires
        root.selected_count + ws.len() <= root.target_winners,
        root.selected_tickets_total + winner_tickets(ws) <= u64::MAX,
    ensures
        winners_recorded(root, ws).selected_count == root.selected_count + ws.len(),
        winners_recorded(root, ws).selected_tickets_total == root.selected_tickets_total + winner_tickets(ws),
        winners_recorded(root, ws).target_winners == root.target_winners,
        winners_recorded(root, ws).selected_count <= winners_recorded(root, ws).target_winners,
    decreases ws.len(),
{
    if ws.len() > 0 {
        lemma_recorded_winners_add_up(root, ws.drop_last());
    }
}

/// A selection round leaves the ledger's winner count, drawn ticket total,
/// target, eligible total, generation and phase as they were, and every
/// record keeps its tickets.
proof fn lemma_round_keeps_totals(root: FinalizationLedger, es: Seq<FinalizationEntry>)
    requires
        select_entries(root, es) is Ok,
    ensures
        ({
            let (r, done) = select_entries(root, es)->Ok_0;
            &&& r.selected_count == root.selected_count
            &&& r.selected_tickets_total == root.selected_tickets_total
            &&& r.target_winners == root.target_winners
            &&& r.total_eligible_tickets == root.total_eligible_tickets
            &&& r.generation == root.generation
            &&& r.phase == root.phase
            &&& done.len() == es.len()
            &&& forall|i: int| 0 <= i < es.len() ==> (#[trigger] done[i]).tickets_bought == es[i].tickets_bought
        }),
    decreases es.len(),
{
    if es.len() > 0 {
        let init = es.drop_last();
        lemma_round_keeps_totals(root, init);
        let (r0, done0) = select_entries(root, init)->Ok_0;
        let (r, done) = select_entries(root, es)->Ok_0;
        assert(done == done0.push(selection_step(r0, es.last())->Ok_0.1));
        assert forall|i: int| 0 <= i < es.len() implies (#[trigger] done[i]).tickets_bought == es[i].tickets_bought by {
            if i < es.len() - 1 {
                assert(init[i] == es[i]);
                assert(done[i] == done0[i]);
            }
        }
    }
}

/// The open tickets of a prefix are at most those of the whole.
proof fn lemma_open_tickets_prefix(es: Seq<FinalizationEntry>, generation: u32, k: int)
    requires
        0 <= k <= es.len(),
    ensures
        open_tickets(es.subrange(0, k), generation) <= open_tickets(es, generation),
    decreases es.len(),
{
    if k == es.len() {
        assert(es.subrange(0, k) =~= es);
    } else {
        assert(es.drop_last().subrange(0, k) =~= es.subrange(0, k));
        lemma_open_tickets_prefix(es.drop_last(), generation, k);
    }
}

/// Whether the records hold distinct wallets.
pub open spec fn distinct_wallets(records: Seq<FinalizationEntry>) -> bool {
    forall|i: int, j: int|
        0 <= i < j < records.len() ==> (#[trigger] records[i]).wallet.bytes@ != (#[trigger] records[j]).wallet.bytes@
}

/// Whether record `k` is `wallet`'s, marked drawn in `generation`.
pub open spec fn drawn_record(records: Seq<FinalizationEntry>, k: int, wallet: Address, generation: u32) -> bool {
    &&& 0 <= k < records.len()
    &&& records[k].wallet.bytes@ == wallet.bytes@
    &&& records[k].selected_generation == generation
}

/// Whether `wallet`'s record is marked drawn in `generation`.
pub open spec fn marked_drawn(records: Seq<FinalizationEntry>, wallet: Address, generation: u32) -> bool {
    exists|k: int| #[trigger] drawn_record(records, k, wallet, generation)
}

/// What holds of a winner selection after every call: the ledger counts
/// the winners `winners` selected so far, at most its target; their wallets
/// are pairwise distinct and their records marked drawn in the ledger's
/// generation; the drawn ticket total is exactly the sum of their tickets
/// and at most the eligible total; the participant records hold distinct
/// wallets; and during a round, a winner already found owns no more tickets
/// than the round has seen, has its record marked, and is none of `winners`.
pub open spec fn selection_ok(
    root: FinalizationLedger,
    records: Seq<FinalizationEntry>,
    winners: Seq<SelectedWinner>,
) -> bool {
    &&& distinct_wallets(records)
    &&& root.selected_count == winners.len()
    &&& winners.len() <= root.target_winners
    &&& root.selected_tickets_total == winner_tickets(winners)
    &&& root.selected_tickets_total <= root.total_eligible_tickets
    &&& forall|i: int, j: int|
        0 <= i < j < winners.len() ==> (#[trigger] winners[i]).wallet.bytes@ != (#[trigger] winners[j]).wallet.bytes@
    &&& forall|j: int| 0 <= j < winners.len() ==> marked_drawn(records, (#[trigger] winners[j]).wallet, root.generation)
    &&& root.pending_winner_found && root.phase == FINALIZATION_PHASE_SELECTING ==> {
        &&& root.pending_winner_tickets <= root.round_remaining_tickets_seen
        &&& marked_drawn(records, root.pending_winner, root.generation)
        &&& forall|j: int|
            0 <= j < winners.len() ==> (#[trigger] winners[j]).wallet.bytes@ != root.pending_winner.bytes@
    }
}

/// A selection begins sound: with the participants in strictly increasing
/// wallet order (as aggregation leaves them), no winner counted and no
/// ticket drawn, `selection_ok` holds with no winners.
pub proof fn lemma_selection_begins(root: FinalizationLedger, records: Seq<FinalizationEntry>)
    requires
        forall|i: int, j: int|
            0 <= i < j < records.len() ==> bytes_lt(
                #[trigger] records[i].wallet.bytes@,
                #[trigger] records[j].wallet.bytes@,
            ),
        root.selected_count == 0,
        root.selected_tickets_total == 0,
        !root.pending_winner_found,
    ensures
        selection_ok(root, records, Seq::empty()),
{
    assert forall|i: int, j: int| 0 <= i < j < records.len() implies (#[trigger] records[i]).wallet.bytes@
        != (#[trigger] records[j]).wallet.bytes@ by {
        let a = records[i].wallet.bytes@;
        crate::address::lemma_bytes_lt_order(a, a, a);
    }
}

/// Every chunk of a selection round keeps `selection_ok`: processing the
/// records `a..b` (as `process_selection_chunk` does) leaves the winners as
/// they were, over the records with that part replaced by what the chunk
/// wrote back.
pub proof fn lemma_selection_chunk_keeps(
    root: FinalizationLedger,
    records: Seq<FinalizationEntry>,
    winners: Seq<SelectedWinner>,
    a: int,
    b: int,
)
    requires
        selection_ok(root, records, winners),
        0 <= a <= b <= records.len(),
        select_entries(root, records.subrange(a, b)) is Ok,
    ensures
        ({
            let (r, done) = select_entries(root, records.subrange(a, b))->Ok_0;
            selection_ok(r, records.subrange(0, a) + done + records.subrange(b, records.len() as int), winners)
        }),
{
    let es = records.subrange(a, b);
    let gen = root.generation;
    let (r, done) = select_entries(root, es)->Ok_0;
    lemma_round_finds_owner(root, es);
    lemma_round_keeps_totals(root, es);
    let new = records.subrange(0, a) + done + records.subrange(b, records.len() as int);
    assert(new.len() == records.len());
    assert forall|i: int| 0 <= i < records.len() implies (#[trigger] new[i]).wallet == records[i].wallet by {
        if a <= i < b {
            assert(new[i] == done[i - a]);
            assert(es[i - a] == records[i]);
        }
    }
    assert forall|k: int| 0 <= k < records.len() && records[k].selected_generation == gen implies #[trigger] new[k]
        == records[k] by {
        if a <= k < b {
            assert(es[k - a] == records[k]);
            assert(!open_in_round(es[k - a], gen));
            assert(new[k] == done[k - a]);
        }
    }
    assert forall|w: Address| marked_drawn(records, w, gen) implies #[trigger] marked_drawn(new, w, gen) by {
        let k = choose|k: int| drawn_record(records, k, w, gen);
        assert(new[k] == records[k]);
        assert(drawn_record(new, k, w, gen));
    }
    assert forall|i: int, j: int| 0 <= i < j < new.len() implies (#[trigger] new[i]).wallet.bytes@
        != (#[trigger] new[j]).wallet.bytes@ by {
        assert(new[i].wallet == records[i].wallet);
        assert(new[j].wallet == records[j].wallet);
    }
    assert forall|j: int| 0 <= j < winners.len() implies marked_drawn(new, (#[trigger] winners[j]).wallet, gen) by {
        assert(marked_drawn(records, winners[j].wallet, gen));
    }
    if r.pending_winner_found && r.phase == FINALIZATION_PHASE_SELECTING {
        if root.pending_winner_found {
            assert(marked_drawn(records, root.pending_winner, gen));
        } else {
            let seen = root.round_remaining_tickets_seen as nat;
            let draw = root.round_draw_index as nat;
            let i = choose|i: int|
                #[trigger] owns_drawn_ticket(es, i, gen, seen, draw) && r.pending_winner == es[i].wallet
                    && r.pending_winner_tickets == es[i].tickets_bought && done[i].selected_generation == gen;
            lemma_open_tickets_prefix(es, gen, i + 1);
            assert(es.subrange(0, i + 1).drop_last() =~= es.subrange(0, i));
            assert(es.subrange(0, i + 1).last() == es[i]);
            assert(new[a + i] == done[i]);
            assert(drawn_record(new, a + i, r.pending_winner, gen));
            assert(records[a + i] == es[i]);
            assert forall|j: int| 0 <= j < winners.len() implies (#[trigger] winners[j]).wallet.bytes@
                != r.pending_winner.bytes@ by {
                assert(marked_drawn(records, winners[j].wallet, gen));
                let k = choose|k: int| drawn_record(records, k, winners[j].wallet, gen);
                assert(open_in_round(es[i], gen));
                if winners[j].wallet.bytes@ == r.pending_winner.bytes@ {
                    if k < a + i {
                        assert(records[k].wallet.bytes@ != records[a + i].wallet.bytes@);
                    } else {
                        assert(records[a + i].wallet.bytes@ != records[k].wallet.bytes@);
                    }
                }
            }
        }
    }
}

/// Recording a round's winner keeps `selection_ok`: when a round of the
/// selecting phase ends with a winner (`selection_round_end`) and fewer
/// winners than the target were selected (else `record_round_winner`
/// refuses), the winner joins the winners, whether the next round starts
/// (`round_started`, at any round and draw) or finalization completes
/// (`completed_ledger`, at any time).  With `lemma_selection_begins` and
/// `lemma_selection_chunk_keeps`, after any sequence of `FinalizeWinners`
/// calls the winners so far are at most the target, pairwise distinct, and
/// their tickets add up to the drawn total, at most the eligible total.
pub proof fn lemma_selection_winner_recorded(
    root: FinalizationLedger,
    records: Seq<FinalizationEntry>,
    winners: Seq<SelectedWinner>,
    next_round: u32,
    draw: u64,
    completed_at: i64,
)
    requires
        selection_ok(root, records, winners),
        root.phase == FINALIZATION_PHASE_SELECTING,
        selection_round_end(root) matches Ok(Some(_w)),
        root.selected_count < root.target_winners,
    ensures
        ({
            let w = selection_round_end(root)->Ok_0->0;
            let recorded = winner_recorded(root, w);
            &&& selection_ok(
                round_started(FinalizationLedger { current_round: next_round, ..recorded }, draw),
                records,
                winners.push(w),
            )
            &&& selection_ok(completed_ledger(recorded, completed_at), records, winners.push(w))
        }),
{
    let w = selection_round_end(root)->Ok_0->0;
    let ws = winners.push(w);
    let gen = root.generation;
    assert(ws.drop_last() =~= winners);
    assert(ws.last() == w);
    assert(winner_tickets(ws) == winner_tickets(winners) + w.tickets);
    assert forall|i: int, j: int| 0 <= i < j < ws.len() implies (#[trigger] ws[i]).wallet.bytes@
        != (#[trigger] ws[j]).wallet.bytes@ by {
        assert(ws[i] == winners[i]);
        if j < winners.len() {
            assert(ws[j] == winners[j]);
        }
    }
    assert forall|j: int| 0 <= j < ws.len() implies marked_drawn(records, (#[trigger] ws[j]).wallet, gen) by {
        if j < winners.len() {
            assert(ws[j] == winners[j]);
        }
    }
}

/// With a valid rate, finalizing never pays out more than the funds: the
/// winners' total plus the service fee fits in the funds, every winner
/// gets the same amount, and less than one lamport per winner is left
/// over.
pub proof fn lemma_payout_within_funds(total_funds: u64, bps: u16, winners_count: u64)
    requires
        bps < 10_000,
        payout_of(total_funds, bps, winners_count) is Ok,
    ensures
        ({
            let p = payout_of(total_funds, bps, winners_count)->Ok_0;
            &&& p.total_payout + p.service_fee <= total_funds
            &&& p.total_payout == p.per_winner * winners_count
            &&& p.per_winner >= 1
            &&& total_funds - p.service_fee - p.total_payout < winners_count
        }),
{
    crate::utils::validation::lemma_service_fee_within_funds(total_funds, bps);
    let fee = service_fee_of(total_funds, bps);
    let pool: int = total_funds - fee;
    let per = pool / (winners_count as int);
    assert(per * winners_count <= pool && pool - per * winners_count < winners_count && per >= 1)
        by (nonlinear_arith)
        requires
            winners_count > 0,
            pool >= winners_count,
            per == pool / (winners_count as int),
    ;
}

} // verus!
