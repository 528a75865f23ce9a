//! Ledger of paid winners and payout batches of one lottery.
use vstd::prelude::*;
use crate::address::Address;
use crate::error::Error;
use crate::state::bitmap::{bit_set, with_bit_set};

verus! {

/// Paid-winner bitmap and batch progress of a lottery.
#[derive(Debug, Clone)]
pub struct WinnersLedger {
    /// The lottery of the ledger.
    pub lottery: Address,
    /// Number of winners.
    pub winners_count: u64,
    /// Bit `i` set when winner `i` has been paid.
    pub paid_bitmap: Vec<u8>,
    /// Payout batches completed.
    pub settlement_batches_completed: u32,
}

impl WinnersLedger {
    /// Whether winner `index` is recorded as paid.
    pub open spec fn winner_paid(&self, index: u64) -> bool {
        index < self.winners_count && bit_set(self.paid_bitmap@, index as nat)
    }

    /// Account size for `winners_count` winners: header, the bitmap (at least
    /// one byte) with its length prefix, and the batch counter.
    pub fn size_for(winners_count: u64) -> (r: usize)
        requires
            winners_count <= usize::MAX,
        ensures
            r == 56 + if (winners_count + 7) / 8 > 1 { (winners_count + 7) / 8 } else { 1 },
    {
        let count: usize = winners_count as usize;
        let bytes: usize = count / 8 + if count % 8 == 0 { 0 } else { 1 };
        let bytes_needed: usize = if bytes > 1 { bytes } else { 1 };
        8 + 32 + 8 + 4 + bytes_needed + 4
    }

    /// Whether winner `winner_index` is paid.
    pub fn is_winner_paid(&self, winner_index: u64) -> (r: bool)
        ensures
            r == self.winner_paid(winner_index),
    {
        if winner_index >= self.winners_count {
            return false;
        }
        let byte_index: u64 = winner_index / 8;
        let bit_index: u8 = (winner_index % 8) as u8;
        if byte_index >= self.paid_bitmap.len() as u64 {
            return false;
        }
        (self.paid_bitmap[byte_index as usize] >> bit_index) & 1u8 == 1u8
    }

    /// Records winner `winner_index` as paid, growing the bitmap when needed;
    /// `InvalidInstruction` (unchanged) for an index that is not a winner.
    pub fn mark_winner_paid(&mut self, winner_index: u64) -> (r: Result<(), Error>)
        requires
            winner_index < old(self).winners_count ==> winner_index / 8 < usize::MAX,
        ensures
            winner_index >= old(self).winners_count ==> r == Err::<(), Error>(Error::InvalidInstruction)
                && *final(self) == *old(self),
            winner_index < old(self).winners_count ==> r == Ok::<(), Error>(()) && final(self).paid_bitmap@
                == with_bit_set(old(self).paid_bitmap@, winner_index as nat) && *final(self) == (
            WinnersLedger { paid_bitmap: final(self).paid_bitmap, ..*old(self) }),
    {
        if winner_index >= self.winners_count {
            return Err(Error::InvalidInstruction);
        }
        let byte_index: usize = (winner_index / 8) as usize;
        let bit_index: u8 = (winner_index % 8) as u8;
        let ghost before = self.paid_bitmap@;
        let ghost pre = *self;
        while byte_index >= self.paid_bitmap.len()
            invariant
                *self == (WinnersLedger { paid_bitmap: self.paid_bitmap, ..pre }),
                byte_index == winner_index / 8,
                byte_index < usize::MAX,
                before.len() <= self.paid_bitmap@.len() <= if byte_index < before.len() {
                    before.len() as int
                } else {
                    byte_index + 1
                },
                self.paid_bitmap@ == before + Seq::new(
                    (self.paid_bitmap@.len() - before.len()) as nat,
                    |i: int| 0u8,
                ),
            decreases byte_index + 1 - self.paid_bitmap@.len(),
        {
            self.paid_bitmap.push(0u8);
            proof {
                assert(self.paid_bitmap@ =~= before + Seq::new(
                    (self.paid_bitmap@.len() - before.len()) as nat,
                    |i: int| 0u8,
                ));
            }
        }
        let b: u8 = self.paid_bitmap[byte_index];
        self.paid_bitmap.set(byte_index, b | (1u8 << bit_index));
        proof {
            assert(self.paid_bitmap@ =~= with_bit_set(before, winner_index as nat));
        }
        Ok(())
    }

    /// Whether every winner has been paid.
    pub fn all_winners_paid(&self) -> (r: bool)
        ensures
            r <==> forall|i: u64| i < self.winners_count ==> #[trigger] self.winner_paid(i),
    {
        let mut i: u64 = 0;
        while i < self.winners_count
            invariant
                i <= self.winners_count,
                forall|j: u64| j < i ==> #[trigger] self.winner_paid(j),
            decreases self.winners_count - i,
        {
            if !self.is_winner_paid(i) {
                return false;
            }
            i = i + 1;
        }
        true
    }
}

} // verus!
