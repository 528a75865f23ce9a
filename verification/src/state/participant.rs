//! A participant of one lottery: the commitment to its secret phrase, its
//! tickets, its attestation and vote (seeds `["participant", lottery,
//! wallet]`).
use vstd::prelude::*;
use crate::address::{Address, bytes32_eq};
use crate::error::Error;

verus! {

/// High bit of `voted_number_of_winners`: the reveal has been processed.
pub const REVEAL_INCLUDED_FLAG: u64 = 0x8000_0000_0000_0000;

/// Second-highest bit of `voted_number_of_winners`: the participant has been
/// processed during settlement.
pub const SETTLEMENT_INCLUDED_FLAG: u64 = 0x4000_0000_0000_0000;

/// Third-highest bit of `voted_number_of_winners`: the participant's refund
/// has been paid out of a lottery settled without winners.
pub const REFUND_CLAIMED_FLAG: u64 = 0x2000_0000_0000_0000;

/// The bits of `voted_number_of_winners` that hold the vote itself.
pub open spec fn vote_bits(v: u64) -> u64 {
    v & !(REVEAL_INCLUDED_FLAG | SETTLEMENT_INCLUDED_FLAG | REFUND_CLAIMED_FLAG)
}

/// Participant state for one lottery.
#[derive(Debug, Clone, Copy)]
pub struct Participant {
    /// The lottery participated in.
    pub lottery: Address,
    /// The participant's wallet.
    pub wallet: Address,
    /// SHA-256 of the secret phrase, fixed on the first purchase.
    pub proof_of_chance_hash: [u8; 32],
    /// Tickets bought, over all purchases.
    pub tickets_bought: u64,
    /// Whether the participant attested uploading its reveal.
    pub attested_uploaded: bool,
    /// When the attestation was made.
    pub attested_at_unix: i64,
    /// The vote for the number of winners (0 when not voted); its two top
    /// bits are the reveal-included and settlement-included flags.
    pub voted_number_of_winners: u64,
    /// Length of the revealed lucky words; informational only.
    pub reveal_score: u64,
}

impl Default for Participant {
    fn default() -> (p: Participant)
        ensures
            p.lottery.bytes@ == Seq::new(32, |i: int| 0u8),
            p.wallet.bytes@ == Seq::new(32, |i: int| 0u8),
            p.proof_of_chance_hash@ == Seq::new(32, |i: int| 0u8),
            p.tickets_bought == 0,
            !p.attested_uploaded,
            p.attested_at_unix == 0,
            p.voted_number_of_winners == 0,
            p.reveal_score == 0,
    {
        let zero: [u8; 32] = [0u8; 32];
        proof {
            assert(zero@ =~= Seq::new(32, |i: int| 0u8));
        }
        Participant {
            lottery: Address::zero(),
            wallet: Address::zero(),
            proof_of_chance_hash: zero,
            tickets_bought: 0,
            attested_uploaded: false,
            attested_at_unix: 0,
            voted_number_of_winners: 0,
            reveal_score: 0,
        }
    }
}

impl Participant {
    /// A participant on its first purchase.
    pub fn new(lottery: Address, wallet: Address, proof_of_chance_hash: [u8; 32], initial_tickets: u64) -> (p:
        Participant)
        ensures
            p == (Participant {
                lottery,
                wallet,
                proof_of_chance_hash,
                tickets_bought: initial_tickets,
                attested_uploaded: false,
                attested_at_unix: 0,
                voted_number_of_winners: 0,
                reveal_score: 0,
            }),
    {
        Participant {
            lottery,
            wallet,
            proof_of_chance_hash,
            tickets_bought: initial_tickets,
            attested_uploaded: false,
            attested_at_unix: 0,
            voted_number_of_winners: 0,
            reveal_score: 0,
        }
    }

    /// Whether no ticket has been bought yet.
    pub fn is_new(&self) -> (r: bool)
        ensures
            r <==> self.tickets_bought == 0,
    {
        self.tickets_bought == 0
    }

    /// Adds tickets; `MathOverflow` (unchanged) when the total overflows.
    pub fn add_tickets(&mut self, count: u64) -> (r: Result<(), Error>)
        ensures
            old(self).tickets_bought + count <= u64::MAX ==> r == Ok::<(), Error>(()) && *final(self) == (
            Participant { tickets_bought: (old(self).tickets_bought + count) as u64, ..*old(self) }),
            old(self).tickets_bought + count > u64::MAX ==> r == Err::<(), Error>(Error::MathOverflow)
                && *final(self) == *old(self),
    {
        match self.tickets_bought.checked_add(count) {
            Some(v) => {
                self.tickets_bought = v;
                Ok(())
            },
            None => Err(Error::MathOverflow),
        }
    }

    /// Whether `provided_hash` is the stored commitment.
    pub fn validate_proof_hash(&self, provided_hash: [u8; 32]) -> (r: bool)
        ensures
            r <==> self.proof_of_chance_hash@ == provided_hash@,
    {
        bytes32_eq(&self.proof_of_chance_hash, &provided_hash)
    }

    /// Sets the commitment of a participant that has no tickets yet;
    /// `InvalidInstruction` (unchanged) otherwise.
    pub fn set_proof_hash(&mut self, hash: [u8; 32]) -> (r: Result<(), Error>)
        ensures
            old(self).tickets_bought == 0 ==> r == Ok::<(), Error>(()) && *final(self) == (Participant {
                proof_of_chance_hash: hash,
                ..*old(self)
            }),
            old(self).tickets_bought != 0 ==> r == Err::<(), Error>(Error::InvalidInstruction)
                && *final(self) == *old(self),
    {
        if !self.is_new() {
            return Err(Error::InvalidInstruction);
        }
        self.proof_of_chance_hash = hash;
        Ok(())
    }

    /// Records the attestation at `timestamp`; `InvalidInstruction`
    /// (unchanged) when already attested.
    pub fn attest_upload(&mut self, timestamp: i64) -> (r: Result<(), Error>)
        ensures
            !old(self).attested_uploaded ==> r == Ok::<(), Error>(()) && *final(self) == (Participant {
                attested_uploaded: true,
                attested_at_unix: timestamp,
                ..*old(self)
            }),
            old(self).attested_uploaded ==> r == Err::<(), Error>(Error::InvalidInstruction) && *final(self)
                == *old(self),
    {
        if self.attested_uploaded {
            return Err(Error::InvalidInstruction);
        }
        self.attested_uploaded = true;
        self.attested_at_unix = timestamp;
        Ok(())
    }

    /// Records the vote (its flag bits cleared) before attestation;
    /// `InvalidInstruction` (unchanged) once attested.
    pub fn set_vote_number_of_winners(&mut self, voted_count: u64) -> (r: Result<(), Error>)
        ensures
            !old(self).attested_uploaded ==> r == Ok::<(), Error>(()) && *final(self) == (Participant {
                voted_number_of_winners: vote_bits(voted_count),
                ..*old(self)
            }),
            old(self).attested_uploaded ==> r == Err::<(), Error>(Error::InvalidInstruction) && *final(self)
                == *old(self),
    {
        if self.attested_uploaded {
            return Err(Error::InvalidInstruction);
        }
        self.voted_number_of_winners = voted_count & !(REVEAL_INCLUDED_FLAG | SETTLEMENT_INCLUDED_FLAG | REFUND_CLAIMED_FLAG);
        Ok(())
    }

    /// The recorded vote, without the flag bits.
    pub fn voted_winners(&self) -> (r: u64)
        ensures
            r == vote_bits(self.voted_number_of_winners),
    {
        self.voted_number_of_winners & !(REVEAL_INCLUDED_FLAG | SETTLEMENT_INCLUDED_FLAG | REFUND_CLAIMED_FLAG)
    }

    /// Whether the reveal has been processed.
    pub fn reveal_included(&self) -> (r: bool)
        ensures
            r <==> (self.voted_number_of_winners & REVEAL_INCLUDED_FLAG) != 0,
    {
        (self.voted_number_of_winners & REVEAL_INCLUDED_FLAG) != 0
    }

    /// Marks the reveal processed (idempotent).
    pub fn mark_reveal_included(&mut self)
        ensures
            *final(self) == (Participant {
                voted_number_of_winners: old(self).voted_number_of_winners | REVEAL_INCLUDED_FLAG,
                ..*old(self)
            }),
    {
        self.voted_number_of_winners = self.voted_number_of_winners | REVEAL_INCLUDED_FLAG;
    }

    /// Whether the participant has been processed during settlement.
    pub fn settlement_included(&self) -> (r: bool)
        ensures
            r <==> (self.voted_number_of_winners & SETTLEMENT_INCLUDED_FLAG) != 0,
    {
        (self.voted_number_of_winners & SETTLEMENT_INCLUDED_FLAG) != 0
    }

    /// Marks the participant processed during settlement (idempotent).
    pub fn mark_settlement_included(&mut self)
        ensures
            *final(self) == (Participant {
                voted_number_of_winners: old(self).voted_number_of_winners | SETTLEMENT_INCLUDED_FLAG,
                ..*old(self)
            }),
    {
        self.voted_number_of_winners = self.voted_number_of_winners | SETTLEMENT_INCLUDED_FLAG;
    }

    /// Whether the participant's refund has been paid.
    pub fn refund_claimed(&self) -> (r: bool)
        ensures
            r <==> (self.voted_number_of_winners & REFUND_CLAIMED_FLAG) != 0,
    {
        (self.voted_number_of_winners & REFUND_CLAIMED_FLAG) != 0
    }

    /// Marks the participant's refund paid (idempotent).
    pub fn mark_refund_claimed(&mut self)
        ensures
            *final(self) == (Participant {
                voted_number_of_winners: old(self).voted_number_of_winners | REFUND_CLAIMED_FLAG,
                ..*old(self)
            }),
    {
        self.voted_number_of_winners = self.voted_number_of_winners | REFUND_CLAIMED_FLAG;
    }

    /// Whether the participant holds any ticket.
    pub fn has_tickets(&self) -> (r: bool)
        ensures
            r <==> self.tickets_bought > 0,
    {
        self.tickets_bought > 0
    }

    /// The participant's ticket indexes `[start, end)` when
    /// `previous_total` tickets precede them.
    pub fn get_ticket_range(&self, previous_total: u64) -> (r: (u64, u64))
        requires
            previous_total + self.tickets_bought <= u64::MAX,
        ensures
            r.0 == previous_total,
            r.1 == previous_total + self.tickets_bought,
    {
        let start = previous_total;
        let end = previous_total + self.tickets_bought;
        (start, end)
    }
}

/// The two processing flags never disturb the vote: after recording a vote
/// and then setting either flag (in any order, any number of times), the
/// vote read back is the recorded one, and each flag reads as set.
pub proof fn lemma_flags_keep_vote(voted_count: u64)
    ensures
        vote_bits(vote_bits(voted_count) | REVEAL_INCLUDED_FLAG) == vote_bits(voted_count),
        vote_bits(vote_bits(voted_count) | SETTLEMENT_INCLUDED_FLAG) == vote_bits(voted_count),
        vote_bits((vote_bits(voted_count) | REVEAL_INCLUDED_FLAG) | SETTLEMENT_INCLUDED_FLAG) == vote_bits(
            voted_count,
        ),
        ((vote_bits(voted_count) | REVEAL_INCLUDED_FLAG) | SETTLEMENT_INCLUDED_FLAG) & REVEAL_INCLUDED_FLAG
            != 0,
        ((vote_bits(voted_count) | REVEAL_INCLUDED_FLAG) | SETTLEMENT_INCLUDED_FLAG) & SETTLEMENT_INCLUDED_FLAG
            != 0,
        vote_bits(voted_count) & REVEAL_INCLUDED_FLAG == 0,
        vote_bits(voted_count) & SETTLEMENT_INCLUDED_FLAG == 0,
{
    assert(((voted_count & !(0x8000_0000_0000_0000u64 | 0x4000_0000_0000_0000u64 | 0x2000_0000_0000_0000u64)) | 0x8000_0000_0000_0000u64)
        & !(0x8000_0000_0000_0000u64 | 0x4000_0000_0000_0000u64 | 0x2000_0000_0000_0000u64) == voted_count & !(
    0x8000_0000_0000_0000u64 | 0x4000_0000_0000_0000u64 | 0x2000_0000_0000_0000u64)) by (bit_vector);
    assert(((voted_count & !(0x8000_0000_0000_0000u64 | 0x4000_0000_0000_0000u64 | 0x2000_0000_0000_0000u64)) | 0x4000_0000_0000_0000u64)
        & !(0x8000_0000_0000_0000u64 | 0x4000_0000_0000_0000u64 | 0x2000_0000_0000_0000u64) == voted_count & !(
    0x8000_0000_0000_0000u64 | 0x4000_0000_0000_0000u64 | 0x2000_0000_0000_0000u64)) by (bit_vector);
    assert((((voted_count & !(0x8000_0000_0000_0000u64 | 0x4000_0000_0000_0000u64 | 0x2000_0000_0000_0000u64))
        | 0x8000_0000_0000_0000u64) | 0x4000_0000_0000_0000u64) & !(0x8000_0000_0000_0000u64
        | 0x4000_0000_0000_0000u64 | 0x2000_0000_0000_0000u64) == voted_count & !(0x8000_0000_0000_0000u64
        | 0x4000_0000_0000_0000u64 | 0x2000_0000_0000_0000u64)) by (bit_vector);
    assert((((voted_count & !(0x8000_0000_0000_0000u64 | 0x4000_0000_0000_0000u64 | 0x2000_0000_0000_0000u64))
        | 0x8000_0000_0000_0000u64) | 0x4000_0000_0000_0000u64) & 0x8000_0000_0000_0000u64 != 0)
        by (bit_vector);
    assert((((voted_count & !(0x8000_0000_0000_0000u64 | 0x4000_0000_0000_0000u64 | 0x2000_0000_0000_0000u64))
        | 0x8000_0000_0000_0000u64) | 0x4000_0000_0000_0000u64) & 0x4000_0000_0000_0000u64 != 0)
        by (bit_vector);
    assert((voted_count & !(0x8000_0000_0000_0000u64 | 0x4000_0000_0000_0000u64 | 0x2000_0000_0000_0000u64)) & 0x8000_0000_0000_0000u64
        == 0) by (bit_vector);
    assert((voted_count & !(0x8000_0000_0000_0000u64 | 0x4000_0000_0000_0000u64 | 0x2000_0000_0000_0000u64)) & 0x4000_0000_0000_0000u64
        == 0) by (bit_vector);
}

/// A vote below 2^61 (every meaningful winner count) is recorded as is.
pub proof fn lemma_small_vote_recorded(voted_count: u64)
    requires
        voted_count < 0x2000_0000_0000_0000,
    ensures
        vote_bits(voted_count) == voted_count,
{
    assert(voted_count < 0x2000_0000_0000_0000u64 ==> voted_count & !(0x8000_0000_0000_0000u64
        | 0x4000_0000_0000_0000u64 | 0x2000_0000_0000_0000u64) == voted_count) by (bit_vector);
}

/// Marking a refund paid disturbs nothing else: the vote and the other two
/// flags read as before, and the refund flag reads as set.
pub proof fn lemma_refund_flag_keeps_state(v: u64)
    ensures
        vote_bits(v | REFUND_CLAIMED_FLAG) == vote_bits(v),
        (v | REFUND_CLAIMED_FLAG) & REVEAL_INCLUDED_FLAG == v & REVEAL_INCLUDED_FLAG,
        (v | REFUND_CLAIMED_FLAG) & SETTLEMENT_INCLUDED_FLAG == v & SETTLEMENT_INCLUDED_FLAG,
        (v | REFUND_CLAIMED_FLAG) & REFUND_CLAIMED_FLAG != 0,
{
    assert((v | 0x2000_0000_0000_0000u64) & !(0x8000_0000_0000_0000u64 | 0x4000_0000_0000_0000u64
        | 0x2000_0000_0000_0000u64) == v & !(0x8000_0000_0000_0000u64 | 0x4000_0000_0000_0000u64
        | 0x2000_0000_0000_0000u64)) by (bit_vector);
    assert((v | 0x2000_0000_0000_0000u64) & 0x8000_0000_0000_0000u64 == v & 0x8000_0000_0000_0000u64)
        by (bit_vector);
    assert((v | 0x2000_0000_0000_0000u64) & 0x4000_0000_0000_0000u64 == v & 0x4000_0000_0000_0000u64)
        by (bit_vector);
    assert((v | 0x2000_0000_0000_0000u64) & 0x2000_0000_0000_0000u64 != 0) by (bit_vector);
}

} // verus!
