//! One lottery instance: its windows, tickets, funds, reveal progress and
//! settlement (seeds `["lottery", config, lottery_id_le]`).
//!
//! A lottery moves through four phases that are derived from its timestamps
//! and flags: buy, upload (participants reveal off-chain and attest
//! on-chain), settlement, and settled.
use vstd::prelude::*;
use crate::address::Address;
use crate::error::Error;
use crate::state::bitmap::{bit_set, with_bit_set, lemma_with_bit_set, lemma_set_bit_u8};
use crate::state::sizes::{MAX_WINNERS, PAID_BITMAP_BYTES};

verus! {

/// Stored status of a lottery; the phase is derived from timers.
#[derive(Debug, Clone, Copy, PartialEq, Eq, Structural)]
pub enum LotteryStatus {
    /// Not settled; the phase follows from the timers.
    Active,
    /// Closed and settled.
    Settled,
}

impl Default for LotteryStatus {
    fn default() -> (s: LotteryStatus)
        ensures
            s == LotteryStatus::Active,
    {
        LotteryStatus::Active
    }
}

/// The status stored as `value`: 1 is settled, every other byte active.
pub open spec fn status_from_u8(value: u8) -> LotteryStatus {
    if value == 1 {
        LotteryStatus::Settled
    } else {
        LotteryStatus::Active
    }
}

/// The byte that stores a status.
pub open spec fn status_to_u8(status: LotteryStatus) -> u8 {
    match status {
        LotteryStatus::Active => 0,
        LotteryStatus::Settled => 1,
    }
}

impl From<u8> for LotteryStatus {
    fn from(value: u8) -> (s: LotteryStatus) {
        match value {
            0 => LotteryStatus::Active,
            1 => LotteryStatus::Settled,
            _ => LotteryStatus::Active,
        }
    }
}

impl vstd::std_specs::convert::FromSpecImpl<u8> for LotteryStatus {
    open spec fn obeys_from_spec() -> bool {
        true
    }

    open spec fn from_spec(v: u8) -> LotteryStatus {
        status_from_u8(v)
    }
}

impl From<LotteryStatus> for u8 {
    fn from(status: LotteryStatus) -> (v: u8) {
        match status {
            LotteryStatus::Active => 0,
            LotteryStatus::Settled => 1,
        }
    }
}

impl vstd::std_specs::convert::FromSpecImpl<LotteryStatus> for u8 {
    open spec fn obeys_from_spec() -> bool {
        true
    }

    open spec fn from_spec(v: LotteryStatus) -> u8 {
        status_to_u8(v)
    }
}

/// The phase of a lottery at a given time.
#[derive(Debug, Clone, Copy, PartialEq, Eq, Structural)]
pub enum LotteryPhase {
    Buy,
    Upload,
    Settlement,
    Settled,
}

/// The name under which a phase is reported.
pub open spec fn phase_name_of(p: LotteryPhase) -> Seq<char> {
    match p {
        LotteryPhase::Buy => "buy"@,
        LotteryPhase::Upload => "upload"@,
        LotteryPhase::Settlement => "settlement"@,
        LotteryPhase::Settled => "settled"@,
    }
}

/// Seconds in a day: the default length of the buy and upload windows.
pub const DAY_SECS: i64 = 86_400;

/// State of one lottery instance.
#[derive(Debug, Clone)]
pub struct Lottery {
    /// Sequential id, starting from 1.
    pub id: u64,
    /// The config account that created this lottery.
    pub config: Address,
    /// Authority copied from the config.
    pub authority: Address,
    /// Creation time.
    pub created_at_unix: i64,
    /// Buy window start.
    pub buy_start_unix: i64,
    /// Buy window end (exclusive for buying).
    pub buy_deadline_unix: i64,
    /// Upload window start (0 when not set).
    pub upload_start_unix: i64,
    /// Upload window end.
    pub upload_deadline_unix: i64,
    /// When settlement began (0 if not started).
    pub settlement_start_unix: i64,
    /// Stored status (see `LotteryStatus`).
    pub status: u8,
    /// Tickets sold across all participants.
    pub total_tickets: u64,
    /// Lamports collected from ticket sales.
    pub total_funds: u64,
    /// Reveals uploaded so far.
    pub provider_uploaded_count: u64,
    /// Aggregate of the uploaded reveal digests (draw entropy).
    pub poc_aggregate_hash: [u8; 32],
    /// Whether every reveal needed for settlement is in.
    pub uploads_complete: bool,
    /// Whether the lottery is settled.
    pub settled: bool,
    /// The vault holding the funds.
    pub vault: Address,
    /// Bump seed of the vault address.
    pub vault_bump: u8,
    /// Participants that attested their reveal upload.
    pub attested_count: u64,
    /// Distinct wallets that bought at least one ticket.
    pub participants_count: u64,
    /// Number of winners chosen by the vote (1 by default).
    pub selected_number_of_winners: u64,
    /// Commitment to the list of winners.
    pub winners_merkle_root: [u8; 32],
    /// Number of winners after finalization.
    pub winners_count: u64,
    /// Total paid out to winners.
    pub total_payout: u64,
    /// Bit `i` set when winner `i` has been paid.
    pub paid_winners_bitmap: Vec<u8>,
    /// Payout batches processed.
    pub settlement_batches_completed: u32,
    /// Whether every winner has been paid.
    pub settlement_complete: bool,
    /// Ticket price of the config when the lottery was created.
    pub ticket_price_lamports: u64,
    /// Service charge of the config when the lottery was created; the
    /// lottery's payouts and refunds use it, whatever the config says later.
    pub service_charge_bps: u16,
}

impl Default for Lottery {
    fn default() -> (l: Lottery)
        ensures
            l.is_zeroed(),
    {
        let zero: [u8; 32] = [0u8; 32];
        proof {
            assert(zero@ =~= Seq::new(32, |i: int| 0u8));
        }
        Lottery {
            id: 0,
            config: Address::zero(),
            authority: Address::zero(),
            created_at_unix: 0,
            buy_start_unix: 0,
            buy_deadline_unix: 0,
            upload_start_unix: 0,
            upload_deadline_unix: 0,
            settlement_start_unix: 0,
            status: 0,
            total_tickets: 0,
            total_funds: 0,
            provider_uploaded_count: 0,
            poc_aggregate_hash: zero,
            uploads_complete: false,
            settled: false,
            vault: Address::zero(),
            vault_bump: 0,
            attested_count: 0,
            participants_count: 0,
            selected_number_of_winners: 0,
            winners_merkle_root: zero,
            winners_count: 0,
            total_payout: 0,
            paid_winners_bitmap: Vec::new(),
            settlement_batches_completed: 0,
            settlement_complete: false,
            ticket_price_lamports: 0,
            service_charge_bps: 0,
        }
    }
}

impl Lottery {
    /// Every field zero, false or empty.
    pub open spec fn is_zeroed(&self) -> bool {
        &&& self.id == 0
        &&& self.config.bytes@ == Seq::new(32, |i: int| 0u8)
        &&& self.authority.bytes@ == Seq::new(32, |i: int| 0u8)
        &&& self.created_at_unix == 0
        &&& self.buy_start_unix == 0
        &&& self.buy_deadline_unix == 0
        &&& self.upload_start_unix == 0
        &&& self.upload_deadline_unix == 0
        &&& self.settlement_start_unix == 0
        &&& self.status == 0
        &&& self.total_tickets == 0
        &&& self.total_funds == 0
        &&& self.provider_uploaded_count == 0
        &&& self.poc_aggregate_hash@ == Seq::new(32, |i: int| 0u8)
        &&& !self.uploads_complete
        &&& !self.settled
        &&& self.vault.bytes@ == Seq::new(32, |i: int| 0u8)
        &&& self.vault_bump == 0
        &&& self.attested_count == 0
        &&& self.participants_count == 0
        &&& self.selected_number_of_winners == 0
        &&& self.winners_merkle_root@ == Seq::new(32, |i: int| 0u8)
        &&& self.winners_count == 0
        &&& self.total_payout == 0
        &&& self.paid_winners_bitmap@.len() == 0
        &&& self.settlement_batches_completed == 0
        &&& !self.settlement_complete
        &&& self.ticket_price_lamports == 0
        &&& self.service_charge_bps == 0
    }

    /// The phase at `current_time`: settled when the flag is set, or when a
    /// single-participant lottery is past its upload deadline; settlement
    /// once settlement has begun; upload inside the upload window; buy up to
    /// the buy deadline; settlement after that.
    pub open spec fn phase_of(&self, current_time: i64) -> LotteryPhase {
        if self.settled {
            LotteryPhase::Settled
        } else if self.participants_count == 1 && self.upload_deadline_unix > 0 && current_time
            > self.upload_deadline_unix {
            LotteryPhase::Settled
        } else if self.settlement_start_unix > 0 {
            LotteryPhase::Settlement
        } else if self.upload_start_unix > 0 && current_time >= self.upload_start_unix && current_time
            <= self.upload_deadline_unix {
            LotteryPhase::Upload
        } else if current_time <= self.buy_deadline_unix {
            LotteryPhase::Buy
        } else {
            LotteryPhase::Settlement
        }
    }

    /// Whether winner `index` is recorded as paid.
    pub open spec fn winner_paid(&self, index: u64) -> bool {
        index < self.winners_count && bit_set(self.paid_winners_bitmap@, index as nat)
    }

    /// Whether every winner is recorded as paid.
    pub open spec fn every_winner_paid(&self) -> bool {
        forall|i: u64| i < self.winners_count ==> #[trigger] self.winner_paid(i)
    }

    /// A new lottery created at `created_at_unix`: buying opens at once for a
    /// day, the upload window follows for another day, one winner by default,
    /// and a zeroed paid-winner bitmap with room for `MAX_WINNERS`.
    pub fn new(
        id: u64,
        config: Address,
        authority: Address,
        created_at_unix: i64,
        vault: Address,
        vault_bump: u8,
    ) -> (l: Lottery)
        requires
            created_at_unix <= i64::MAX - 2 * DAY_SECS,
        ensures
            l.id == id,
            l.config == config,
            l.authority == authority,
            l.created_at_unix == created_at_unix,
            l.buy_start_unix == created_at_unix,
            l.buy_deadline_unix == created_at_unix + DAY_SECS,
            l.upload_start_unix == created_at_unix + DAY_SECS,
            l.upload_deadline_unix == created_at_unix + 2 * DAY_SECS,
            l.settlement_start_unix == 0,
            l.status == 0,
            l.total_tickets == 0,
            l.total_funds == 0,
            l.provider_uploaded_count == 0,
            l.poc_aggregate_hash@ == Seq::new(32, |i: int| 0u8),
            !l.uploads_complete,
            !l.settled,
            l.vault == vault,
            l.vault_bump == vault_bump,
            l.attested_count == 0,
            l.participants_count == 0,
            l.selected_number_of_winners == 1,
            l.winners_merkle_root@ == Seq::new(32, |i: int| 0u8),
            l.winners_count == 0,
            l.total_payout == 0,
            l.paid_winners_bitmap@ == Seq::new(PAID_BITMAP_BYTES as nat, |i: int| 0u8),
            l.settlement_batches_completed == 0,
            !l.settlement_complete,
            l.ticket_price_lamports == 0,
            l.service_charge_bps == 0,
    {
        let (buy_start_unix, buy_deadline_unix, upload_start_unix, upload_deadline_unix) =
            Self::calculate_windows(created_at_unix);
        let mut bitmap: Vec<u8> = Vec::new();
        let mut i: usize = 0;
        while i < PAID_BITMAP_BYTES
            invariant
                i <= PAID_BITMAP_BYTES,
                bitmap@ == Seq::new(i as nat, |j: int| 0u8),
            decreases PAID_BITMAP_BYTES - i,
        {
            bitmap.push(0u8);
            i = i + 1;
            proof {
                assert(bitmap@ =~= Seq::new(i as nat, |j: int| 0u8));
            }
        }
        Lottery {
            id,
            config,
            authority,
            created_at_unix,
            buy_start_unix,
            buy_deadline_unix,
            upload_start_unix,
            upload_deadline_unix,
            settlement_start_unix: 0,
            status: u8::from(LotteryStatus::Active),
            total_tickets: 0,
            total_funds: 0,
            provider_uploaded_count: 0,
            poc_aggregate_hash: [0u8; 32],
            uploads_complete: false,
            settled: false,
            vault,
            vault_bump,
            attested_count: 0,
            participants_count: 0,
            selected_number_of_winners: 1,
            winners_merkle_root: [0u8; 32],
            winners_count: 0,
            total_payout: 0,
            paid_winners_bitmap: bitmap,
            settlement_batches_completed: 0,
            settlement_complete: false,
            ticket_price_lamports: 0,
            service_charge_bps: 0,
        }
    }

    /// The default windows: buy for a day from creation, then upload for a
    /// day.
    fn calculate_windows(created_at_unix: i64) -> (r: (i64, i64, i64, i64))
        requires
            created_at_unix <= i64::MAX - 2 * DAY_SECS,
        ensures
            r.0 == created_at_unix,
            r.1 == created_at_unix + DAY_SECS,
            r.2 == created_at_unix + DAY_SECS,
            r.3 == created_at_unix + 2 * DAY_SECS,
    {
        let buy_start = created_at_unix;
        let buy_deadline = created_at_unix + DAY_SECS;
        let upload_start = created_at_unix + DAY_SECS;
        let upload_deadline = created_at_unix + 2 * DAY_SECS;
        (buy_start, buy_deadline, upload_start, upload_deadline)
    }

    /// The stored status.
    pub fn get_status(&self) -> (s: LotteryStatus)
        ensures
            s == status_from_u8(self.status),
    {
        LotteryStatus::from(self.status)
    }

    /// Stores a status.
    pub fn set_status(&mut self, status: LotteryStatus)
        ensures
            *final(self) == (Lottery { status: status_to_u8(status), ..*old(self) }),
    {
        self.status = u8::from(status);
    }

    /// Whether the lottery is active: status active and not settled.
    pub fn is_active(&self) -> (r: bool)
        ensures
            r <==> (status_from_u8(self.status) == LotteryStatus::Active && !self.settled),
    {
        self.get_status() == LotteryStatus::Active && !self.settled
    }

    /// Whether `current_time` is inside the buy window: never once the upload
    /// window has started, otherwise `buy_start <= t < buy_deadline` with a
    /// set start.
    pub fn is_in_buy_window(&self, current_time: i64) -> (r: bool)
        ensures
            r <==> !(self.upload_start_unix > 0 && current_time >= self.upload_start_unix) && self.buy_start_unix
                > 0 && current_time >= self.buy_start_unix && current_time < self.buy_deadline_unix,
    {
        if self.upload_start_unix > 0 && current_time >= self.upload_start_unix {
            return false;
        }
        self.buy_start_unix > 0 && current_time >= self.buy_start_unix && current_time
            < self.buy_deadline_unix
    }

    /// Whether `current_time` is inside the upload window (both ends
    /// included).
    pub fn is_in_upload_window(&self, current_time: i64) -> (r: bool)
        ensures
            r <==> self.upload_start_unix > 0 && current_time >= self.upload_start_unix && current_time
                <= self.upload_deadline_unix,
    {
        self.upload_start_unix > 0 && current_time >= self.upload_start_unix && current_time
            <= self.upload_deadline_unix
    }

    /// The phase at `current_time` (see `phase_of`).
    pub fn phase_kind(&self, current_time: i64) -> (p: LotteryPhase)
        ensures
            p == self.phase_of(current_time),
    {
        if self.settled {
            return LotteryPhase::Settled;
        }
        if self.participants_count == 1 && self.upload_deadline_unix > 0 && current_time
            > self.upload_deadline_unix {
            return LotteryPhase::Settled;
        }
        if self.settlement_start_unix > 0 {
            return LotteryPhase::Settlement;
        }
        if self.upload_start_unix > 0 && current_time >= self.upload_start_unix && current_time
            <= self.upload_deadline_unix {
            return LotteryPhase::Upload;
        }
        if current_time <= self.buy_deadline_unix {
            return LotteryPhase::Buy;
        }
        LotteryPhase::Settlement
    }

    /// The phase at `current_time` by name: "buy", "upload", "settlement"
    /// or "settled".
    pub fn phase(&self, current_time: i64) -> (r: &'static str)
        ensures
            r@ == phase_name_of(self.phase_of(current_time)),
    {
        match self.phase_kind(current_time) {
            LotteryPhase::Buy => "buy",
            LotteryPhase::Upload => "upload",
            LotteryPhase::Settlement => "settlement",
            LotteryPhase::Settled => "settled",
        }
    }

    /// Whether the lottery counts as settled at `current_time`.
    pub fn is_effectively_settled(&self, current_time: i64) -> (r: bool)
        ensures
            r <==> self.phase_of(current_time) == LotteryPhase::Settled,
    {
        self.phase_kind(current_time) == LotteryPhase::Settled
    }

    /// Adds sold tickets and their payment.  On overflow of the ticket total
    /// nothing changes; on overflow of the funds the ticket total has
    /// already been updated; both fail with `MathOverflow`.
    pub fn add_tickets(&mut self, count: u64, lamports: u64) -> (r: Result<(), Error>)
        ensures
            old(self).total_tickets + count > u64::MAX ==> r == Err::<(), Error>(Error::MathOverflow)
                && *final(self) == *old(self),
            old(self).total_tickets + count <= u64::MAX && old(self).total_funds + lamports > u64::MAX
                ==> r == Err::<(), Error>(Error::MathOverflow) && *final(self) == (Lottery {
                total_tickets: (old(self).total_tickets + count) as u64,
                ..*old(self)
            }),
            old(self).total_tickets + count <= u64::MAX && old(self).total_funds + lamports <= u64::MAX
                ==> r == Ok::<(), Error>(()) && *final(self) == (Lottery {
                total_tickets: (old(self).total_tickets + count) as u64,
                total_funds: (old(self).total_funds + lamports) as u64,
                ..*old(self)
            }),
    {
        match self.total_tickets.checked_add(count) {
            Some(v) => self.total_tickets = v,
            None => return Err(Error::MathOverflow),
        }
        match self.total_funds.checked_add(lamports) {
            Some(v) => self.total_funds = v,
            None => return Err(Error::MathOverflow),
        }
        Ok(())
    }

    /// Counts one more attestation; `MathOverflow` (unchanged) at the limit.
    pub fn add_attestation(&mut self) -> (r: Result<(), Error>)
        ensures
            old(self).attested_count < u64::MAX ==> r == Ok::<(), Error>(()) && *final(self) == (Lottery {
                attested_count: (old(self).attested_count + 1) as u64,
                ..*old(self)
            }),
            old(self).attested_count == u64::MAX ==> r == Err::<(), Error>(Error::MathOverflow)
                && *final(self) == *old(self),
    {
        match self.attested_count.checked_add(1) {
            Some(v) => {
                self.attested_count = v;
                Ok(())
            },
            None => Err(Error::MathOverflow),
        }
    }

    /// Marks the uploads complete and stores their aggregate hash.
    pub fn mark_uploads_complete(&mut self, aggregate_hash: [u8; 32])
        ensures
            *final(self) == (Lottery {
                uploads_complete: true,
                poc_aggregate_hash: aggregate_hash,
                ..*old(self)
            }),
    {
        self.uploads_complete = true;
        self.poc_aggregate_hash = aggregate_hash;
    }

    /// Marks the lottery settled.
    pub fn settle(&mut self)
        ensures
            *final(self) == (Lottery { settled: true, status: 1, ..*old(self) }),
    {
        self.settled = true;
        self.set_status(LotteryStatus::Settled);
    }

    /// Replaces the upload window; `InvalidInstruction` (unchanged) when the
    /// start is zero or the deadline is not after the start.
    pub fn adjust_upload_window(&mut self, new_start: i64, new_deadline: i64) -> (r: Result<(), Error>)
        ensures
            (new_start == 0 || new_deadline <= new_start) ==> r == Err::<(), Error>(Error::InvalidInstruction)
                && *final(self) == *old(self),
            !(new_start == 0 || new_deadline <= new_start) ==> r == Ok::<(), Error>(()) && *final(self) == (
            Lottery { upload_start_unix: new_start, upload_deadline_unix: new_deadline, ..*old(self) }),
    {
        if new_start == 0 || new_deadline <= new_start {
            return Err(Error::InvalidInstruction);
        }
        self.upload_start_unix = new_start;
        self.upload_deadline_unix = new_deadline;
        Ok(())
    }

    /// Counts one more participant; `MathOverflow` (unchanged) at the limit.
    pub fn add_participant(&mut self) -> (r: Result<(), Error>)
        ensures
            old(self).participants_count < u64::MAX ==> r == Ok::<(), Error>(()) && *final(self) == (
            Lottery { participants_count: (old(self).participants_count + 1) as u64, ..*old(self) }),
            old(self).participants_count == u64::MAX ==> r == Err::<(), Error>(Error::MathOverflow)
                && *final(self) == *old(self),
    {
        match self.participants_count.checked_add(1) {
            Some(v) => {
                self.participants_count = v;
                Ok(())
            },
            None => Err(Error::MathOverflow),
        }
    }

    /// Sets the number of winners, which must be between 1 and
    /// `participants_count - 1`; otherwise `InvalidInstruction`, unchanged.
    pub fn set_selected_winners(&mut self, count: u64) -> (r: Result<(), Error>)
        ensures
            (1 <= count && old(self).participants_count > 1 && count <= old(self).participants_count - 1)
                ==> r == Ok::<(), Error>(()) && *final(self) == (Lottery {
                selected_number_of_winners: count,
                ..*old(self)
            }),
            !(1 <= count && old(self).participants_count > 1 && count <= old(self).participants_count - 1)
                ==> r == Err::<(), Error>(Error::InvalidInstruction) && *final(self) == *old(self),
    {
        if count == 0 {
            return Err(Error::InvalidInstruction);
        }
        if self.participants_count <= 1 {
            return Err(Error::InvalidInstruction);
        }
        if count > self.participants_count - 1 {
            return Err(Error::InvalidInstruction);
        }
        self.selected_number_of_winners = count;
        Ok(())
    }

    /// Records the finalized winners: their commitment, count and total
    /// payout, and clears the paid bits of every winner.  Fails with
    /// `LotteryAlreadySettled` once settlement is complete and with
    /// `InvalidInstruction` above `MAX_WINNERS` winners, changing nothing.
    pub fn initialize_settlement(
        &mut self,
        winners_merkle_root: [u8; 32],
        winners_count: u64,
        total_payout: u64,
    ) -> (r: Result<(), Error>)
        requires
            !old(self).settlement_complete && winners_count <= MAX_WINNERS ==> old(self).paid_winners_bitmap@.len() >= (winners_count + 7) / 8,
        ensures
            old(self).settlement_complete ==> r == Err::<(), Error>(Error::LotteryAlreadySettled)
                && *final(self) == *old(self),
            !old(self).settlement_complete && winners_count > MAX_WINNERS ==> r == Err::<(), Error>(
                Error::InvalidInstruction,
            ) && *final(self) == *old(self),
            !old(self).settlement_complete && winners_count <= MAX_WINNERS ==> {
                &&& r == Ok::<(), Error>(())
                &&& final(self).paid_winners_bitmap@.len() == old(self).paid_winners_bitmap@.len()
                &&& forall|i: int|
                    0 <= i < final(self).paid_winners_bitmap@.len() ==> #[trigger] final(self).paid_winners_bitmap@[i] == if i < (winners_count + 7) / 8 {
                        0u8
                    } else {
                        old(self).paid_winners_bitmap@[i]
                    }
                &&& *final(self) == (Lottery {
                    winners_merkle_root,
                    winners_count,
                    total_payout,
                    paid_winners_bitmap: final(self).paid_winners_bitmap,
                    ..*old(self)
                })
            },
    {
        if self.settlement_complete {
            return Err(Error::LotteryAlreadySettled);
        }
        if winners_count > MAX_WINNERS as u64 {
            return Err(Error::InvalidInstruction);
        }
        self.winners_merkle_root = winners_merkle_root;
        self.winners_count = winners_count;
        self.total_payout = total_payout;
        let bytes_needed: usize = ((winners_count + 7) / 8) as usize;
        let ghost before = self.paid_winners_bitmap@;
        let ghost pre = *self;
        let mut i: usize = 0;
        while i < bytes_needed
            invariant
                *self == (Lottery { paid_winners_bitmap: self.paid_winners_bitmap, ..pre }),
                bytes_needed == (winners_count + 7) / 8,
                bytes_needed <= before.len(),
                i <= bytes_needed,
                self.paid_winners_bitmap@.len() == before.len(),
                forall|j: int|
                    0 <= j < before.len() ==> #[trigger] self.paid_winners_bitmap@[j] == if j < i {
                        0u8
                    } else {
                        before[j]
                    },
            decreases bytes_needed - i,
        {
            self.paid_winners_bitmap.set(i, 0u8);
            i = i + 1;
        }
        Ok(())
    }

    /// Whether winner `winner_index` is paid: it is a winner and its bit is
    /// set.
    pub fn is_winner_paid(&self, winner_index: u64) -> (r: bool)
        ensures
            r == self.winner_paid(winner_index),
    {
        if winner_index >= self.winners_count {
            return false;
        }
        let byte_index: u64 = winner_index / 8;
        let bit_index: u8 = (winner_index % 8) as u8;
        if byte_index >= self.paid_winners_bitmap.len() as u64 {
            return false;
        }
        (self.paid_winners_bitmap[byte_index as usize] >> bit_index) & 1u8 == 1u8
    }

    /// Records winner `winner_index` as paid, growing the bitmap with zero
    /// bytes if it is too short; `InvalidInstruction` (unchanged) for an
    /// index that is not a winner.
    pub fn mark_winner_paid(&mut self, winner_index: u64) -> (r: Result<(), Error>)
        requires
            winner_index < old(self).winners_count ==> winner_index / 8 < usize::MAX,
        ensures
            winner_index >= old(self).winners_count ==> r == Err::<(), Error>(Error::InvalidInstruction)
                && *final(self) == *old(self),
            winner_index < old(self).winners_count ==> r == Ok::<(), Error>(()) && final(self).paid_winners_bitmap@ == with_bit_set(old(self).paid_winners_bitmap@, winner_index as nat)
                && *final(self) == (Lottery {
                paid_winners_bitmap: final(self).paid_winners_bitmap,
                ..*old(self)
            }),
    {
        if winner_index >= self.winners_count {
            return Err(Error::InvalidInstruction);
        }
        let byte_index: usize = (winner_index / 8) as usize;
        let bit_index: u8 = (winner_index % 8) as u8;
        let ghost before = self.paid_winners_bitmap@;
        let ghost pre = *self;
        while byte_index >= self.paid_winners_bitmap.len()
            invariant
                *self == (Lottery { paid_winners_bitmap: self.paid_winners_bitmap, ..pre }),
                byte_index == winner_index / 8,
                byte_index < usize::MAX,
                before.len() <= self.paid_winners_bitmap@.len() <= if byte_index < before.len() {
                    before.len() as int
                } else {
                    byte_index + 1
                },
                self.paid_winners_bitmap@ == before + Seq::new(
                    (self.paid_winners_bitmap@.len() - before.len()) as nat,
                    |i: int| 0u8,
                ),
            decreases byte_index + 1 - self.paid_winners_bitmap@.len(),
        {
            let ghost prev = self.paid_winners_bitmap@;
            self.paid_winners_bitmap.push(0u8);
            proof {
                assert(self.paid_winners_bitmap@ =~= before + Seq::new(
                    (self.paid_winners_bitmap@.len() - before.len()) as nat,
                    |i: int| 0u8,
                ));
            }
        }
        let b: u8 = self.paid_winners_bitmap[byte_index];
        self.paid_winners_bitmap.set(byte_index, b | (1u8 << bit_index));
        proof {
            assert(self.paid_winners_bitmap@ =~= with_bit_set(before, winner_index as nat));
        }
        Ok(())
    }

    /// Counts one more payout batch, saturating at `u32::MAX`.
    pub fn increment_settlement_batch(&mut self)
        ensures
            *final(self) == (Lottery {
                settlement_batches_completed: if old(self).settlement_batches_completed < u32::MAX {
                    (old(self).settlement_batches_completed + 1) as u32
                } else {
                    u32::MAX
                },
                ..*old(self)
            }),
    {
        self.settlement_batches_completed = self.settlement_batches_completed.saturating_add(1);
    }

    /// Whether every winner is recorded as paid (true when there are none).
    pub fn all_winners_paid(&self) -> (r: bool)
        ensures
            r == self.every_winner_paid(),
    {
        if self.winners_count == 0 {
            return true;
        }
        let mut i: u64 = 0;
        while i < self.winners_count
            invariant
                i <= self.winners_count,
                forall|j: u64| j < i ==> #[trigger] self.winner_paid(j),
            decreases self.winners_count - i,
        {
            if !self.is_winner_paid(i) {
                return false;
            }
            i = i + 1;
        }
        true
    }

    /// Completes settlement once every winner is paid (marking the lottery
    /// settled); `InvalidInstruction` (unchanged) otherwise.
    pub fn complete_settlement(&mut self) -> (r: Result<(), Error>)
        ensures
            !old(self).every_winner_paid() ==> r == Err::<(), Error>(Error::InvalidInstruction)
                && *final(self) == *old(self),
            old(self).every_winner_paid() ==> r == Ok::<(), Error>(()) && *final(self) == (Lottery {
                settlement_complete: true,
                settled: true,
                status: 1,
                ..*old(self)
            }),
    {
        if !self.all_winners_paid() {
            return Err(Error::InvalidInstruction);
        }
        self.settlement_complete = true;
        self.settle();
        Ok(())
    }
}

/// Marking a winner paid records exactly that winner: afterwards it counts
/// as paid and every other winner's paid status is unchanged.
pub proof fn lemma_mark_winner_paid_exact(before: Lottery, after: Lottery, index: u64, other: u64)
    requires
        index < before.winners_count,
        after.winners_count == before.winners_count,
        after.paid_winners_bitmap@ == with_bit_set(before.paid_winners_bitmap@, index as nat),
    ensures
        after.winner_paid(index),
        other != index ==> after.winner_paid(other) == before.winner_paid(other),
{
    lemma_with_bit_set(before.paid_winners_bitmap@, index as nat, other as nat);
}

/// After settlement is initialized no winner counts as paid.
pub proof fn lemma_initialized_settlement_unpaid(l: Lottery, index: u64)
    requires
        forall|i: int|
            0 <= i < l.paid_winners_bitmap@.len() && i < (l.winners_count + 7) / 8
                ==> #[trigger] l.paid_winners_bitmap@[i] == 0u8,
    ensures
        !l.winner_paid(index),
{
    if index < l.winners_count && (index / 8) < l.paid_winners_bitmap@.len() {
        assert(index / 8 < (l.winners_count + 7) / 8);
        assert(l.paid_winners_bitmap@[(index / 8) as int] == 0u8);
        lemma_set_bit_u8(0u8, 0, (index % 8) as u8);
    }
}

/// A settled lottery reports the settled phase at every time.
pub proof fn lemma_settled_phase(l: Lottery, current_time: i64)
    requires
        l.settled,
    ensures
        l.phase_of(current_time) == LotteryPhase::Settled,
{
}

} // verus!
