//! Buying tickets.
//!
//! A buyer pays the lottery's ticket price (fixed when it was created)
//! times the tickets into the vault.  The first purchase
//! of a wallet creates its participant, which must commit to a
//! proof-of-chance hash; later purchases may repeat the hash, which must
//! then match.
use vstd::prelude::*;
use crate::address::Address;
use crate::error::Error;
use crate::state::lottery::{Lottery, LotteryStatus, status_from_u8};
use crate::state::participant::Participant;
use crate::utils::pda::{derive_participant_pda, participant_seeds, derives_to};

verus! {

/// Whether tickets can be bought at `current_time`: the upload window has
/// not started, the lottery is active, and the time is inside the buy
/// window.
pub open spec fn buying_open(lottery: Lottery, current_time: i64) -> bool {
    &&& !(lottery.upload_start_unix > 0 && current_time >= lottery.upload_start_unix)
    &&& status_from_u8(lottery.status) == LotteryStatus::Active && !lottery.settled
    &&& lottery.buy_start_unix > 0 && current_time >= lottery.buy_start_unix
    &&& current_time < lottery.buy_deadline_unix
}

/// Why a purchase fails, if it does: no tickets (`InvalidTicketCount`),
/// outside the buy window
/// (`OutsideTimeWindow`), a participant account other than the buyer's
/// address (`InvalidSeeds`), a price overflow (`MathOverflow`); for a known
/// participant, one of another lottery or wallet (`InvalidAccountData`) or
/// a repeated hash that differs (`ProofHashMismatch`); for a new one, no
/// hash (`MissingProofOfChance`) or a participant count overflow
/// (`MathOverflow`); then ticket or fund totals that overflow
/// (`MathOverflow`).
pub open spec fn purchase_error(
    program_id: Address,
    lottery_key: Address,
    buyer: Address,
    participant_key: Address,
    lottery: Lottery,
    existing: Option<Participant>,
    proof_of_chance_hash: Option<[u8; 32]>,
    number_of_tickets: u64,
    current_time: i64,
) -> Option<Error> {
    let cost = lottery.ticket_price_lamports * number_of_tickets;
    if number_of_tickets == 0 {
        Some(Error::InvalidTicketCount)
    } else if !buying_open(lottery, current_time) {
        Some(Error::OutsideTimeWindow)
    } else if !derives_to(participant_seeds(lottery_key.bytes@, buyer.bytes@), program_id.bytes@, participant_key.bytes@) {
        Some(Error::InvalidSeeds)
    } else if cost > u64::MAX {
        Some(Error::MathOverflow)
    } else {
        let tickets_before: int = match existing {
            Some(p) => p.tickets_bought as int,
            None => 0,
        };
        let participant_error = match existing {
            Some(p) => if p.lottery.bytes@ != lottery_key.bytes@ || p.wallet.bytes@ != buyer.bytes@ {
                Some(Error::InvalidAccountData)
            } else if proof_of_chance_hash is Some && p.proof_of_chance_hash@
                != proof_of_chance_hash->0@ {
                Some(Error::ProofHashMismatch)
            } else {
                None
            },
            None => if proof_of_chance_hash is None {
                Some(Error::MissingProofOfChance)
            } else if lottery.participants_count == u64::MAX {
                Some(Error::MathOverflow)
            } else {
                None
            },
        };
        if participant_error is Some {
            participant_error
        } else if tickets_before + number_of_tickets > u64::MAX {
            Some(Error::MathOverflow)
        } else if lottery.total_tickets + number_of_tickets > u64::MAX || lottery.total_funds + cost
            > u64::MAX {
            Some(Error::MathOverflow)
        } else {
            None
        }
    }
}

/// Resending the stored commitment changes nothing: for a known
/// participant, a purchase that carries a hash equal to its stored hash
/// fails exactly as, and only where, the same purchase without a hash
/// does; only a differing hash is refused with `ProofHashMismatch`.
pub proof fn lemma_resent_hash_is_accepted(
    program_id: Address,
    lottery_key: Address,
    buyer: Address,
    participant_key: Address,
    lottery: Lottery,
    p: Participant,
    hash: [u8; 32],
    number_of_tickets: u64,
    current_time: i64,
)
    ensures
        hash@ == p.proof_of_chance_hash@ ==> purchase_error(
            program_id,
            lottery_key,
            buyer,
            participant_key,
            lottery,
            Some(p),
            Some(hash),
            number_of_tickets,
            current_time,
        ) == purchase_error(
            program_id,
            lottery_key,
            buyer,
            participant_key,
            lottery,
            Some(p),
            None,
            number_of_tickets,
            current_time,
        ),
        purchase_error(
            program_id,
            lottery_key,
            buyer,
            participant_key,
            lottery,
            Some(p),
            None,
            number_of_tickets,
            current_time,
        ) != Some(Error::ProofHashMismatch),
{
}

/// What a purchase writes: the lottery and the participant after it, the
/// lamports the buyer pays into the vault, and whether the participant is
/// new (its account is then created).
pub struct TicketPurchase {
    pub lottery: Lottery,
    pub participant: Participant,
    pub total_cost: u64,
    pub new_participant: bool,
}

/// Buys `number_of_tickets` tickets for `buyer` at `current_time` (see
/// `purchase_error` for refusals).  The cost is the lottery's ticket price times the
/// tickets; a new participant is counted and starts with the given hash.
pub fn plan_buy_tickets(
    program_id: &Address,
    lottery_key: &Address,
    buyer: &Address,
    participant_key: &Address,
    lottery: Lottery,
    existing: Option<Participant>,
    proof_of_chance_hash: Option<[u8; 32]>,
    number_of_tickets: u64,
    current_time: i64,
) -> (r: Result<TicketPurchase, Error>)
    ensures
        ({
            let err = purchase_error(
                *program_id,
                *lottery_key,
                *buyer,
                *participant_key,
                lottery,
                existing,
                proof_of_chance_hash,
                number_of_tickets,
                current_time,
            );
            let cost = (lottery.ticket_price_lamports * number_of_tickets) as u64;
            &&& err is Some ==> r == Err::<TicketPurchase, Error>(err->0)
            &&& (r == Err::<TicketPurchase, Error>(Error::ProofHashMismatch) ==> existing is Some
                && proof_of_chance_hash is Some && existing->0.proof_of_chance_hash@ != proof_of_chance_hash->0@)
            &&& err is None ==> {
                &&& r is Ok
                &&& r->Ok_0.total_cost == cost
                &&& r->Ok_0.new_participant == existing is None
                &&& r->Ok_0.lottery == (Lottery {
                    participants_count: if existing is None {
                        (lottery.participants_count + 1) as u64
                    } else {
                        lottery.participants_count
                    },
                    total_tickets: (lottery.total_tickets + number_of_tickets) as u64,
                    total_funds: (lottery.total_funds + cost) as u64,
                    ..lottery
                })
                &&& r->Ok_0.participant == match existing {
                    Some(p) => Participant {
                        tickets_bought: (p.tickets_bought + number_of_tickets) as u64,
                        ..p
                    },
                    None => Participant {
                        lottery: *lottery_key,
                        wallet: *buyer,
                        proof_of_chance_hash: proof_of_chance_hash->0,
                        tickets_bought: number_of_tickets,
                        attested_uploaded: false,
                        attested_at_unix: 0,
                        voted_number_of_winners: 0,
                        reveal_score: 0,
                    },
                }
            }
        }),
{
    crate::utils::validation::validate_ticket_count(number_of_tickets)?;
    let upload_started = lottery.upload_start_unix > 0 && current_time >= lottery.upload_start_unix;
    if upload_started {
        return Err(Error::OutsideTimeWindow);
    }
    if !lottery.is_active() || !lottery.is_in_buy_window(current_time) {
        return Err(Error::OutsideTimeWindow);
    }
    let (expected, _bump) = derive_participant_pda(program_id, lottery_key, buyer)?;
    if !expected.equals(participant_key) {
        return Err(Error::InvalidSeeds);
    }
    let total_cost = match lottery.ticket_price_lamports.checked_mul(number_of_tickets) {
        Some(v) => v,
        None => return Err(Error::MathOverflow),
    };
    let mut lottery = lottery;
    let new_participant = existing.is_none();
    let mut participant = match existing {
        Some(p) => {
            if !p.lottery.equals(lottery_key) || !p.wallet.equals(buyer) {
                return Err(Error::InvalidAccountData);
            }
            match proof_of_chance_hash {
                Some(hash) => {
                    if !p.validate_proof_hash(hash) {
                        return Err(Error::ProofHashMismatch);
                    }
                },
                None => {},
            }
            p
        },
        None => {
            let proof_hash = match proof_of_chance_hash {
                Some(h) => h,
                None => return Err(Error::MissingProofOfChance),
            };
            let p = Participant::new(*lottery_key, *buyer, proof_hash, 0);
            lottery.add_participant()?;
            p
        },
    };
    participant.add_tickets(number_of_tickets)?;
    lottery.add_tickets(number_of_tickets, total_cost)?;
    Ok(TicketPurchase { lottery, participant, total_cost, new_participant })
}

} // verus!
