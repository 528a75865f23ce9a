//! Fixed-size finalization state of a lottery round and the pages that hold
//! its selected winners.
//!
//! Winner records live in bounded `WinnerPage` accounts, so neither
//! finalization nor payout needs an account whose size grows with the winner
//! cap.  A page's header is a small value; its entries and paid bitmap sit
//! in the account bytes behind the header and are accessed by offset.
use vstd::prelude::*;
use crate::address::Address;
use crate::error::Error;
use crate::utils::bytes::{le_bytes, le_value, read_le, write_le, extend_bytes, lemma_le_bytes_len,
    lemma_le_bytes_roundtrip, lemma_pow256_values};
use crate::utils::crypto::{sha256, sha256_digest};

verus! {

pub const FINALIZATION_PROTOCOL_VERSION: u16 = 2;

pub const FINALIZATION_PHASE_AGGREGATING: u8 = 0;

pub const FINALIZATION_PHASE_SELECTING: u8 = 1;

pub const FINALIZATION_PHASE_COMPLETED: u8 = 2;

/// Winners recorded in one page.
pub const WINNERS_PER_PAGE: usize = 100;

/// Serialized size of a finalization ledger account.
pub const FINALIZATION_LEDGER_SIZE: usize = 8 + 32 + 2 + 1 + 4 + 8 + 8 + 8 + 8 + 32 + 32 + 4 + 4 + 4
    + 8 + 8 + 8 + 8 + 32 + 8 + 1 + 1 + 32 + 32 + 1 + 8 + 8 + 64;

/// Bytes of one winner entry: wallet and ticket count.
pub const SELECTED_WINNER_SIZE: usize = 32 + 8;

/// Bytes of a page's serialized header.
pub const WINNER_PAGE_HEADER_SIZE: usize = 8 + 32 + 4 + 4 + 2 + 64;

/// Offset of the first winner entry in a page's account data.
pub const WINNER_PAGE_ENTRIES_OFFSET: usize = WINNER_PAGE_HEADER_SIZE;

/// Offset of the paid bitmap in a page's account data.
pub const WINNER_PAGE_BITMAP_OFFSET: usize = WINNER_PAGE_ENTRIES_OFFSET + WINNERS_PER_PAGE
    * SELECTED_WINNER_SIZE;

/// Bytes of a page's paid bitmap.
pub const WINNER_PAGE_BITMAP_SIZE: usize = (WINNERS_PER_PAGE + 7) / 8;

/// Size of a winner page account.
pub const WINNER_PAGE_SIZE: usize = WINNER_PAGE_BITMAP_OFFSET + WINNER_PAGE_BITMAP_SIZE;

/// A winner chosen by finalization.
#[derive(Debug, Default, Clone, Copy, PartialEq, Eq)]
pub struct SelectedWinner {
    pub wallet: Address,
    pub tickets: u64,
}

impl Default for Address {
    fn default() -> (a: Address)
        ensures
            a.bytes@ == Seq::new(32, |i: int| 0u8),
    {
        Address::zero()
    }
}

/// Progress of a lottery's chunked finalization: aggregation of the
/// eligible participants, then one selection round per winner.
#[derive(Debug, Clone, Copy)]
pub struct FinalizationLedger {
    pub lottery: Address,
    pub protocol_version: u16,
    pub phase: u8,
    pub generation: u32,
    pub required_count: u64,
    pub processed_count: u64,
    pub eligible_count: u64,
    pub total_eligible_tickets: u64,
    pub seed: [u8; 32],
    pub participants_commitment: [u8; 32],
    pub target_winners: u32,
    pub current_round: u32,
    pub selected_count: u32,
    pub selected_tickets_total: u64,
    pub round_processed_count: u64,
    pub round_remaining_tickets_seen: u64,
    pub round_draw_index: u64,
    pub pending_winner: Address,
    pub pending_winner_tickets: u64,
    pub pending_winner_found: bool,
    pub has_last_wallet: bool,
    pub last_processed_wallet: Address,
    pub winners_commitment: [u8; 32],
    pub completed: bool,
    pub started_at_unix: i64,
    pub completed_at_unix: i64,
    pub reserved: [u8; 64],
}

/// The domain tag of the winners commitment.
pub open spec fn winners_domain() -> Seq<u8> {
    seq![0x49u8, 0x4b, 0x49, 0x47, 0x41, 0x49, 0x5f, 0x57, 0x49, 0x4e, 0x4e, 0x45, 0x52, 0x53, 0x5f,
        0x56, 0x32]
}

/// The bytes hashed to extend the winners commitment with winner `index`:
/// domain tag, previous commitment, index (4 bytes LE), wallet, tickets
/// (8 bytes LE).
pub open spec fn winners_commitment_message(current: Seq<u8>, index: u32, winner: SelectedWinner) -> Seq<u8> {
    winners_domain() + current + le_bytes(index as nat, 4) + winner.wallet.bytes@ + le_bytes(
        winner.tickets as nat,
        8,
    )
}

/// The winners commitment extended with winner `index`.
pub fn extend_winners_commitment(current: [u8; 32], index: u32, winner: &SelectedWinner) -> (r: [u8; 32])
    ensures
        r@ == sha256_digest(winners_commitment_message(current@, index, *winner)),
{
    let domain: [u8; 17] = [
        0x49, 0x4b, 0x49, 0x47, 0x41, 0x49, 0x5f, 0x57, 0x49, 0x4e, 0x4e, 0x45, 0x52, 0x53, 0x5f, 0x56,
        0x32,
    ];
    let mut data: Vec<u8> = Vec::new();
    extend_bytes(&mut data, domain.as_slice());
    extend_bytes(&mut data, current.as_slice());
    let index_le = write_le(index as u128, 4);
    extend_bytes(&mut data, index_le.as_slice());
    extend_bytes(&mut data, winner.wallet.bytes.as_slice());
    let tickets_le = write_le(winner.tickets as u128, 8);
    extend_bytes(&mut data, tickets_le.as_slice());
    proof {
        assert(domain@ =~= winners_domain());
        assert(data@ =~= winners_commitment_message(current@, index, *winner));
    }
    sha256(data.as_slice())
}

impl FinalizationLedger {
    /// Account size of a ledger; the same for every winner cap.
    pub fn size_for(_max_winners: usize) -> (r: usize)
        ensures
            r == FINALIZATION_LEDGER_SIZE,
    {
        FINALIZATION_LEDGER_SIZE
    }

    /// A ledger that starts aggregating `required_count` participants.
    pub fn new(lottery: Address, required_count: u64, started_at_unix: i64) -> (l: FinalizationLedger)
        ensures
            l.lottery == lottery,
            l.protocol_version == FINALIZATION_PROTOCOL_VERSION,
            l.phase == FINALIZATION_PHASE_AGGREGATING,
            l.generation == 1,
            l.required_count == required_count,
            l.processed_count == 0,
            l.eligible_count == 0,
            l.total_eligible_tickets == 0,
            l.seed@ == Seq::new(32, |i: int| 0u8),
            l.participants_commitment@ == Seq::new(32, |i: int| 0u8),
            l.target_winners == 0,
            l.current_round == 0,
            l.selected_count == 0,
            l.selected_tickets_total == 0,
            l.round_processed_count == 0,
            l.round_remaining_tickets_seen == 0,
            l.round_draw_index == 0,
            l.pending_winner.bytes@ == Seq::new(32, |i: int| 0u8),
            l.pending_winner_tickets == 0,
            !l.pending_winner_found,
            !l.has_last_wallet,
            l.last_processed_wallet.bytes@ == Seq::new(32, |i: int| 0u8),
            l.winners_commitment@ == Seq::new(32, |i: int| 0u8),
            !l.completed,
            l.started_at_unix == started_at_unix,
            l.completed_at_unix == 0,
            l.reserved@ == Seq::new(64, |i: int| 0u8),
    {
        let zero: [u8; 32] = [0u8; 32];
        let reserved: [u8; 64] = [0u8; 64];
        proof {
            assert(zero@ =~= Seq::new(32, |i: int| 0u8));
            assert(reserved@ =~= Seq::new(64, |i: int| 0u8));
        }
        FinalizationLedger {
            lottery,
            protocol_version: FINALIZATION_PROTOCOL_VERSION,
            phase: FINALIZATION_PHASE_AGGREGATING,
            generation: 1,
            required_count,
            processed_count: 0,
            eligible_count: 0,
            total_eligible_tickets: 0,
            seed: zero,
            participants_commitment: zero,
            target_winners: 0,
            current_round: 0,
            selected_count: 0,
            selected_tickets_total: 0,
            round_processed_count: 0,
            round_remaining_tickets_seen: 0,
            round_draw_index: 0,
            pending_winner: Address::zero(),
            pending_winner_tickets: 0,
            pending_winner_found: false,
            has_last_wallet: false,
            last_processed_wallet: Address::zero(),
            winners_commitment: zero,
            completed: false,
            started_at_unix,
            completed_at_unix: 0,
            reserved,
        }
    }

    /// Forgets the last processed wallet.
    pub fn reset_pass_cursor(&mut self)
        ensures
            final(self).last_processed_wallet.bytes@ == Seq::new(32, |i: int| 0u8),
            *final(self) == (FinalizationLedger {
                has_last_wallet: false,
                last_processed_wallet: final(self).last_processed_wallet,
                ..*old(self)
            }),
    {
        self.has_last_wallet = false;
        self.last_processed_wallet = Address::zero();
    }

    /// Starts a selection round that looks for ticket `draw_index` among the
    /// tickets not yet drawn.
    pub fn begin_selection_round(&mut self, draw_index: u64)
        ensures
            final(self).pending_winner.bytes@ == Seq::new(32, |i: int| 0u8),
            final(self).last_processed_wallet.bytes@ == Seq::new(32, |i: int| 0u8),
            *final(self) == (FinalizationLedger {
                phase: FINALIZATION_PHASE_SELECTING,
                round_processed_count: 0,
                round_remaining_tickets_seen: 0,
                round_draw_index: draw_index,
                pending_winner: final(self).pending_winner,
                pending_winner_tickets: 0,
                pending_winner_found: false,
                has_last_wallet: false,
                last_processed_wallet: final(self).last_processed_wallet,
                ..*old(self)
            }),
    {
        self.phase = FINALIZATION_PHASE_SELECTING;
        self.round_processed_count = 0;
        self.round_remaining_tickets_seen = 0;
        self.round_draw_index = draw_index;
        self.pending_winner = Address::zero();
        self.pending_winner_tickets = 0;
        self.pending_winner_found = false;
        self.reset_pass_cursor();
    }

    /// Eligible tickets not yet drawn; `MathOverflow` if more were drawn
    /// than are eligible.
    pub fn remaining_tickets(&self) -> (r: Result<u64, Error>)
        ensures
            self.selected_tickets_total <= self.total_eligible_tickets ==> r == Ok::<u64, Error>(
                (self.total_eligible_tickets - self.selected_tickets_total) as u64,
            ),
            self.selected_tickets_total > self.total_eligible_tickets ==> r == Err::<u64, Error>(
                Error::MathOverflow,
            ),
    {
        match self.total_eligible_tickets.checked_sub(self.selected_tickets_total) {
            Some(v) => Ok(v),
            None => Err(Error::MathOverflow),
        }
    }

    /// Records the next winner: counts it, adds its tickets to the drawn
    /// total and extends the winners commitment.  `InvalidInstruction`
    /// (unchanged) once every target winner is selected; `MathOverflow`
    /// when the drawn ticket total overflows (the count already advanced).
    pub fn record_winner(&mut self, winner: SelectedWinner) -> (r: Result<(), Error>)
        ensures
            old(self).selected_count >= old(self).target_winners ==> r == Err::<(), Error>(
                Error::InvalidInstruction,
            ) && *final(self) == *old(self),
            old(self).selected_count < old(self).target_winners && old(self).selected_tickets_total
                + winner.tickets > u64::MAX ==> r == Err::<(), Error>(Error::MathOverflow) && *final(self)
                == (FinalizationLedger {
                selected_count: (old(self).selected_count + 1) as u32,
                ..*old(self)
            }),
            old(self).selected_count < old(self).target_winners && old(self).selected_tickets_total
                + winner.tickets <= u64::MAX ==> r == Ok::<(), Error>(()) && final(self).winners_commitment@
                == sha256_digest(
                winners_commitment_message(old(self).winners_commitment@, old(self).selected_count, winner),
            ) && *final(self) == (FinalizationLedger {
                selected_count: (old(self).selected_count + 1) as u32,
                selected_tickets_total: (old(self).selected_tickets_total + winner.tickets) as u64,
                winners_commitment: final(self).winners_commitment,
                ..*old(self)
            }),
    {
        if self.selected_count >= self.target_winners {
            return Err(Error::InvalidInstruction);
        }
        self.selected_count = self.selected_count + 1;
        match self.selected_tickets_total.checked_add(winner.tickets) {
            Some(v) => self.selected_tickets_total = v,
            None => return Err(Error::MathOverflow),
        }
        self.winners_commitment = extend_winners_commitment(
            self.winners_commitment,
            self.selected_count - 1,
            &winner,
        );
        Ok(())
    }

    /// Marks finalization completed at `timestamp`.
    pub fn complete(&mut self, timestamp: i64)
        ensures
            final(self).last_processed_wallet.bytes@ == Seq::new(32, |i: int| 0u8),
            *final(self) == (FinalizationLedger {
                phase: FINALIZATION_PHASE_COMPLETED,
                completed: true,
                completed_at_unix: timestamp,
                has_last_wallet: false,
                last_processed_wallet: final(self).last_processed_wallet,
                ..*old(self)
            }),
    {
        self.phase = FINALIZATION_PHASE_COMPLETED;
        self.completed = true;
        self.completed_at_unix = timestamp;
        self.reset_pass_cursor();
    }
}

/// Header of a fixed-size winner page account.
#[derive(Debug, Clone, Copy)]
pub struct WinnerPage {
    pub lottery: Address,
    pub generation: u32,
    pub page_index: u32,
    pub count: u16,
    pub reserved: [u8; 64],
}

impl Default for WinnerPage {
    fn default() -> (p: WinnerPage)
        ensures
            p.lottery.bytes@ == Seq::new(32, |i: int| 0u8),
            p.generation == 0,
            p.page_index == 0,
            p.count == 0,
            p.reserved@ == Seq::new(64, |i: int| 0u8),
    {
        let reserved: [u8; 64] = [0u8; 64];
        proof {
            assert(reserved@ =~= Seq::new(64, |i: int| 0u8));
        }
        WinnerPage { lottery: Address::zero(), generation: 0, page_index: 0, count: 0, reserved }
    }
}

/// Offset of entry `offset` in a page's account data.
pub open spec fn entry_start(offset: nat) -> nat {
    WINNER_PAGE_ENTRIES_OFFSET as nat + offset * SELECTED_WINNER_SIZE as nat
}

/// Entries lie inside a page, before its paid bitmap.
pub proof fn lemma_entry_bounds(offset: nat)
    requires
        offset < WINNERS_PER_PAGE,
    ensures
        entry_start(offset) + SELECTED_WINNER_SIZE <= WINNER_PAGE_BITMAP_OFFSET,
        WINNER_PAGE_BITMAP_OFFSET == 4114,
        WINNER_PAGE_SIZE == 4127,
        SELECTED_WINNER_SIZE == 40,
        WINNER_PAGE_ENTRIES_OFFSET == 114,
{
    assert(offset * 40 <= 99 * 40) by (nonlinear_arith)
        requires
            offset < 100,
    ;
}

/// The page data with entry `offset` holding `winner`: wallet bytes then
/// tickets as 8 little-endian bytes.
pub open spec fn with_entry(data: Seq<u8>, offset: nat, winner: SelectedWinner) -> Seq<u8> {
    let start = entry_start(offset) as int;
    data.subrange(0, start) + winner.wallet.bytes@ + le_bytes(winner.tickets as nat, 8) + data.subrange(
        start + 40,
        data.len() as int,
    )
}

/// Whether entry `offset` is marked paid in the page data.
pub open spec fn page_paid_bit(data: Seq<u8>, offset: nat) -> bool {
    data[(WINNER_PAGE_BITMAP_OFFSET + offset / 8) as int] & (1u8 << ((offset % 8) as u8)) != 0u8
}

proof fn lemma_page_bit(b: u8, k: u8, j: u8)
    requires
        k < 8,
        j < 8,
    ensures
        (b | (1u8 << k)) & (1u8 << k) != 0u8,
        j != k ==> (((b | (1u8 << k)) & (1u8 << j)) != 0u8) == ((b & (1u8 << j)) != 0u8),
{
    assert((b | (1u8 << k)) & (1u8 << k) != 0u8) by (bit_vector)
        requires
            k < 8,
    ;
    assert(j != k ==> (((b | (1u8 << k)) & (1u8 << j)) != 0u8) == ((b & (1u8 << j)) != 0u8))
        by (bit_vector)
        requires
            k < 8,
            j < 8,
    ;
}

impl WinnerPage {
    /// An empty page `page_index` of `generation` for `lottery`.
    pub fn new(lottery: Address, generation: u32, page_index: u32) -> (p: WinnerPage)
        ensures
            p.lottery == lottery,
            p.generation == generation,
            p.page_index == page_index,
            p.count == 0,
            p.reserved@ == Seq::new(64, |i: int| 0u8),
    {
        WinnerPage { lottery, generation, page_index, ..WinnerPage::default() }
    }

    fn entry_offset(offset: usize) -> (r: usize)
        requires
            offset < WINNERS_PER_PAGE,
        ensures
            r == entry_start(offset as nat),
            r + SELECTED_WINNER_SIZE <= WINNER_PAGE_BITMAP_OFFSET,
    {
        proof {
            lemma_entry_bounds(offset as nat);
        }
        WINNER_PAGE_ENTRIES_OFFSET + offset * SELECTED_WINNER_SIZE
    }

    /// Writes `winner` as the next entry and returns its offset.
    /// `InvalidInstruction` (nothing written) when the page is full or the
    /// data is shorter than a page.
    pub fn append(&mut self, account_data: &mut [u8], winner: SelectedWinner) -> (r: Result<u16, Error>)
        ensures
            (old(self).count >= WINNERS_PER_PAGE || old(account_data)@.len() < WINNER_PAGE_SIZE) ==> r
                == Err::<u16, Error>(Error::InvalidInstruction) && *final(self) == *old(self)
                && final(account_data)@ == old(account_data)@,
            !(old(self).count >= WINNERS_PER_PAGE || old(account_data)@.len() < WINNER_PAGE_SIZE) ==> r
                == Ok::<u16, Error>(old(self).count) && *final(self) == (WinnerPage {
                count: (old(self).count + 1) as u16,
                ..*old(self)
            }) && final(account_data)@ == with_entry(old(account_data)@, old(self).count as nat, winner),
    {
        let offset: usize = self.count as usize;
        if offset >= WINNERS_PER_PAGE || account_data.len() < WINNER_PAGE_SIZE {
            return Err(Error::InvalidInstruction);
        }
        let start: usize = Self::entry_offset(offset);
        let ghost before = account_data@;
        let tickets_le = write_le(winner.tickets as u128, 8);
        let mut i: usize = 0;
        while i < 40
            invariant
                start == entry_start(offset as nat),
                start + 40 <= WINNER_PAGE_BITMAP_OFFSET,
                before.len() >= WINNER_PAGE_SIZE,
                account_data@.len() == before.len(),
                tickets_le@ == le_bytes(winner.tickets as nat, 8),
                tickets_le@.len() == 8,
                i <= 40,
                forall|j: int|
                    0 <= j < before.len() ==> #[trigger] account_data@[j] == if start <= j < start + i {
                        if j < start + 32 {
                            winner.wallet.bytes@[j - start]
                        } else {
                            tickets_le@[j - start - 32]
                        }
                    } else {
                        before[j]
                    },
            decreases 40 - i,
        {
            let b: u8 = if i < 32 {
                winner.wallet.bytes[i]
            } else {
                tickets_le[i - 32]
            };
            account_data[start + i] = b;
            i = i + 1;
        }
        proof {
            lemma_le_bytes_len(winner.tickets as nat, 8);
            assert(account_data@ =~= with_entry(before, offset as nat, winner));
        }
        self.count = self.count + 1;
        Ok(offset as u16)
    }

    /// The winner stored at `offset`, or `None` past the last entry or for
    /// data shorter than a page.
    pub fn winner(&self, account_data: &[u8], offset: usize) -> (r: Option<SelectedWinner>)
        requires
            offset < self.count && account_data@.len() >= WINNER_PAGE_SIZE ==> entry_start(offset as nat)
                + SELECTED_WINNER_SIZE <= account_data@.len(),
        ensures
            (offset >= self.count || account_data@.len() < WINNER_PAGE_SIZE) ==> r is None,
            !(offset >= self.count || account_data@.len() < WINNER_PAGE_SIZE) ==> r is Some && r->0.wallet.bytes@
                == account_data@.subrange(
                entry_start(offset as nat) as int,
                (entry_start(offset as nat) + 32) as int,
            ) && r->0.tickets == le_value(
                account_data@.subrange(
                    (entry_start(offset as nat) + 32) as int,
                    (entry_start(offset as nat) + 40) as int,
                ),
            ),
    {
        if offset >= self.count as usize || account_data.len() < WINNER_PAGE_SIZE {
            return None;
        }
        proof {
            assert(offset * 40 <= 65535 * 40) by (nonlinear_arith)
                requires
                    offset < 65536,
            ;
        }
        let start: usize = WINNER_PAGE_ENTRIES_OFFSET + offset * SELECTED_WINNER_SIZE;
        let data_len: usize = account_data.len();
        let mut wallet: [u8; 32] = [0u8; 32];
        let mut i: usize = 0;
        while i < 32
            invariant
                data_len == account_data@.len(),
                start == entry_start(offset as nat),
                start + 40 <= account_data@.len(),
                wallet@.len() == 32,
                i <= 32,
                forall|j: int| 0 <= j < i ==> #[trigger] wallet@[j] == account_data@[start + j],
            decreases 32 - i,
        {
            wallet[i] = account_data[start + i];
            i = i + 1;
        }
        let tickets: u128 = read_le(account_data, start + 32, 8);
        proof {
            assert(wallet@ =~= account_data@.subrange(start as int, start + 32));
            lemma_pow256_values();
        }
        Some(SelectedWinner { wallet: Address { bytes: wallet }, tickets: tickets as u64 })
    }

    /// Whether entry `offset` is marked paid.
    pub fn is_paid(&self, account_data: &[u8], offset: usize) -> (r: bool)
        requires
            offset < self.count && account_data@.len() >= WINNER_PAGE_SIZE ==> WINNER_PAGE_BITMAP_OFFSET
                + offset / 8 < account_data@.len(),
        ensures
            r <==> offset < self.count && account_data@.len() >= WINNER_PAGE_SIZE && page_paid_bit(
                account_data@,
                offset as nat,
            ),
    {
        if offset >= self.count as usize || account_data.len() < WINNER_PAGE_SIZE {
            return false;
        }
        let bit: u8 = (offset % 8) as u8;
        account_data[WINNER_PAGE_BITMAP_OFFSET + offset / 8] & (1u8 << bit) != 0u8
    }

    /// Marks entry `offset` paid; `WinnerAlreadyPaid` (nothing written) for
    /// an entry past the last, data shorter than a page, or an entry already
    /// paid.
    pub fn mark_paid(&self, account_data: &mut [u8], offset: usize) -> (r: Result<(), Error>)
        requires
            offset < self.count && old(account_data)@.len() >= WINNER_PAGE_SIZE ==> WINNER_PAGE_BITMAP_OFFSET
                + offset / 8 < old(account_data)@.len(),
        ensures
            ({
                let fails = offset >= self.count || old(account_data)@.len() < WINNER_PAGE_SIZE
                    || page_paid_bit(old(account_data)@, offset as nat);
                &&& fails ==> r == Err::<(), Error>(Error::WinnerAlreadyPaid) && final(account_data)@ == old(
                    account_data,
                )@
                &&& !fails ==> r == Ok::<(), Error>(()) && final(account_data)@ == old(account_data)@.update(
                    (WINNER_PAGE_BITMAP_OFFSET + offset / 8) as int,
                    old(account_data)@[(WINNER_PAGE_BITMAP_OFFSET + offset / 8) as int] | (1u8 << ((
                    offset % 8) as u8)),
                )
            }),
    {
        if offset >= self.count as usize || account_data.len() < WINNER_PAGE_SIZE || self.is_paid(
            account_data,
            offset,
        ) {
            return Err(Error::WinnerAlreadyPaid);
        }
        let idx: usize = WINNER_PAGE_BITMAP_OFFSET + offset / 8;
        let bit: u8 = (offset % 8) as u8;
        let b: u8 = account_data[idx];
        account_data[idx] = b | (1u8 << bit);
        Ok(())
    }
}

/// Reading an entry back gives what was appended there: after `append`
/// writes `winner` at `offset`, `winner(offset)` returns it, and every other
/// entry reads as before.
pub proof fn lemma_append_then_read(data: Seq<u8>, offset: nat, winner: SelectedWinner, other: nat)
    requires
        data.len() >= WINNER_PAGE_SIZE,
        offset < WINNERS_PER_PAGE,
        other < WINNERS_PER_PAGE,
    ensures
        ({
            let after = with_entry(data, offset, winner);
            let s = entry_start(offset) as int;
            let o = entry_start(other) as int;
            &&& after.len() == data.len()
            &&& after.subrange(s, s + 32) == winner.wallet.bytes@
            &&& le_value(after.subrange(s + 32, s + 40)) == winner.tickets
            &&& other != offset ==> after.subrange(o, o + 40) == data.subrange(o, o + 40)
            &&& after.subrange(WINNER_PAGE_BITMAP_OFFSET as int, data.len() as int) == data.subrange(
                WINNER_PAGE_BITMAP_OFFSET as int,
                data.len() as int,
            )
        }),
{
    let after = with_entry(data, offset, winner);
    let s = entry_start(offset) as int;
    let o = entry_start(other) as int;
    lemma_entry_bounds(offset);
    lemma_entry_bounds(other);
    if other < offset {
        assert(o + 40 <= s) by (nonlinear_arith)
            requires
                o == 114 + other * 40,
                s == 114 + offset * 40,
                other < offset,
        ;
    } else if other > offset {
        assert(s + 40 <= o) by (nonlinear_arith)
            requires
                o == 114 + other * 40,
                s == 114 + offset * 40,
                other > offset,
        ;
    }
    lemma_le_bytes_len(winner.tickets as nat, 8);
    lemma_pow256_values();
    lemma_le_bytes_roundtrip(winner.tickets as nat, 8);
    assert(after.subrange(s, s + 32) =~= winner.wallet.bytes@);
    assert(after.subrange(s + 32, s + 40) =~= le_bytes(winner.tickets as nat, 8));
    if other != offset {
        assert(after.subrange(o, o + 40) =~= data.subrange(o, o + 40));
    }
    assert(after.subrange(WINNER_PAGE_BITMAP_OFFSET as int, data.len() as int) =~= data.subrange(
        WINNER_PAGE_BITMAP_OFFSET as int,
        data.len() as int,
    ));
}

/// Marking an entry paid makes it read as paid, leaves every other entry's
/// paid mark as it was, and so a second payment of the same entry is
/// refused.
pub proof fn lemma_mark_paid_exact(data: Seq<u8>, offset: nat, other: nat)
    requires
        data.len() >= WINNER_PAGE_SIZE,
        offset < WINNERS_PER_PAGE,
        other < WINNERS_PER_PAGE,
    ensures
        ({
            let idx = (WINNER_PAGE_BITMAP_OFFSET + offset / 8) as int;
            let after = data.update(idx, data[idx] | (1u8 << ((offset % 8) as u8)));
            &&& page_paid_bit(after, offset)
            &&& other != offset ==> page_paid_bit(after, other) == page_paid_bit(data, other)
        }),
{
    let idx = (WINNER_PAGE_BITMAP_OFFSET + offset / 8) as int;
    lemma_page_bit(data[idx], (offset % 8) as u8, (other % 8) as u8);
    if other != offset && other / 8 == offset / 8 {
        assert(other % 8 != offset % 8);
    }
}

} // verus!
