//! Refunds of a lottery settled without winners, and the closing of the
//! accounts that such a lottery no longer needs.
//!
//! A lottery settled without a draw keeps every participant's payment in its
//! vault.  Each participant claims its own refund, the ticket price of the
//! lottery times its tickets, once; every claim is counted in the lottery's
//! completed settlement batches.  A participant account closes (its rent
//! going back to the wallet) after its refund was paid, or once a lottery
//! with winners has completed settlement; the vault closes (its rent going to
//! the authority) once every participant has claimed.
use vstd::prelude::*;
use crate::address::Address;
use crate::error::Error;
use crate::state::lottery::Lottery;
use crate::state::participant::{Participant, REFUND_CLAIMED_FLAG, lemma_refund_flag_keeps_state};
use crate::utils::pda::{assert_pda_owned, participant_seed_list, participant_seeds, derives_to, lemma_seed_lists_valid};

verus! {

/// Whether the lottery was settled without winners and paid nothing out.
pub open spec fn refundable(lottery: Lottery) -> bool {
    lottery.settled && lottery.winners_count == 0 && lottery.total_payout == 0
}

/// A participant's refund: the lottery's ticket price times its tickets.
pub open spec fn refund_of(lottery: Lottery, participant: Participant) -> int {
    lottery.ticket_price_lamports as int * participant.tickets_bought as int
}

/// Why a participant account does not belong to `wallet` in the lottery at
/// `lottery_key`, if it does not: not at the derived address
/// (`InvalidSeeds`), not owned by the program (`IncorrectOwner`), or holding
/// another lottery or wallet (`InvalidAccountData`).
pub open spec fn participant_account_error(
    program_id: Address,
    lottery_key: Address,
    participant_key: Address,
    participant_owner: Address,
    participant: Participant,
    wallet: Address,
) -> Option<Error> {
    if !derives_to(participant_seeds(lottery_key.bytes@, wallet.bytes@), program_id.bytes@, participant_key.bytes@) {
        Some(Error::InvalidSeeds)
    } else if participant_owner.bytes@ != program_id.bytes@ {
        Some(Error::IncorrectOwner)
    } else if participant.lottery.bytes@ != lottery_key.bytes@ || participant.wallet.bytes@ != wallet.bytes@ {
        Some(Error::InvalidAccountData)
    } else {
        None
    }
}

/// Why a refund claim is refused, if it is: a participant account that is
/// not the wallet's (`participant_account_error`); a lottery not settled
/// without winners, or a participant without tickets (`RefundUnavailable`);
/// a refund already paid (`RefundAlreadyClaimed`); a refund that does not
/// fit in a `u64` (`MathOverflow`); a vault holding less than the refund
/// (`InsufficientFunds`).
pub open spec fn claim_refund_error(
    program_id: Address,
    lottery_key: Address,
    participant_key: Address,
    participant_owner: Address,
    lottery: Lottery,
    participant: Participant,
    wallet: Address,
    vault_lamports: u64,
) -> Option<Error> {
    let account = participant_account_error(
        program_id,
        lottery_key,
        participant_key,
        participant_owner,
        participant,
        wallet,
    );
    if account is Some {
        account
    } else if !refundable(lottery) || participant.tickets_bought == 0 {
        Some(Error::RefundUnavailable)
    } else if participant.voted_number_of_winners & REFUND_CLAIMED_FLAG != 0 {
        Some(Error::RefundAlreadyClaimed)
    } else if refund_of(lottery, participant) > u64::MAX {
        Some(Error::MathOverflow)
    } else if vault_lamports < refund_of(lottery, participant) {
        Some(Error::InsufficientFunds)
    } else {
        None
    }
}

/// The lottery after one more refund was paid: one more completed claim
/// (the count stays at `u32::MAX` once there; the vault of a lottery with
/// more participants than that then never closes, and its rent stays put).
pub open spec fn lottery_after_claim(lottery: Lottery) -> Lottery {
    Lottery {
        settlement_batches_completed: if lottery.settlement_batches_completed == u32::MAX {
            u32::MAX
        } else {
            (lottery.settlement_batches_completed + 1) as u32
        },
        ..lottery
    }
}

/// The participant after its refund was paid: the refund flag set.
pub open spec fn participant_after_claim(participant: Participant) -> Participant {
    Participant { voted_number_of_winners: participant.voted_number_of_winners | REFUND_CLAIMED_FLAG, ..participant }
}

/// Pays `wallet`'s refund out of the vault holding `vault_lamports` (see
/// `claim_refund_error` for refusals).  On success the result holds the
/// lottery with the claim counted (`lottery_after_claim`), the participant
/// marked refunded (`participant_after_claim`) and the refund, the ticket
/// price of the lottery times the participant's tickets, to move from the
/// vault to the wallet.
pub fn plan_claim_refund(
    program_id: &Address,
    lottery_key: &Address,
    participant_key: &Address,
    participant_owner: &Address,
    lottery: Lottery,
    participant: Participant,
    wallet: &Address,
    vault_lamports: u64,
) -> (r: Result<(Lottery, Participant, u64), Error>)
    ensures
        ({
            let err = claim_refund_error(
                *program_id,
                *lottery_key,
                *participant_key,
                *participant_owner,
                lottery,
                participant,
                *wallet,
                vault_lamports,
            );
            &&& err is Some ==> r == Err::<(Lottery, Participant, u64), Error>(err->0)
            &&& err is None ==> r == Ok::<(Lottery, Participant, u64), Error>(
                (
                    lottery_after_claim(lottery),
                    participant_after_claim(participant),
                    refund_of(lottery, participant) as u64,
                ),
            )
        }),
{
    let seeds = participant_seed_list(lottery_key, wallet);
    proof {
        lemma_seed_lists_valid(lottery_key.bytes@, lottery_key.bytes@, wallet.bytes@, 0, 0);
    }
    assert_pda_owned(program_id, participant_key, participant_owner, &seeds)?;
    if !participant.lottery.equals(lottery_key) || !participant.wallet.equals(wallet) {
        return Err(Error::InvalidAccountData);
    }
    if !lottery.settled || lottery.winners_count != 0 || lottery.total_payout != 0 {
        return Err(Error::RefundUnavailable);
    }
    if !participant.has_tickets() {
        return Err(Error::RefundUnavailable);
    }
    if participant.refund_claimed() {
        return Err(Error::RefundAlreadyClaimed);
    }
    let refund = match lottery.ticket_price_lamports.checked_mul(participant.tickets_bought) {
        Some(v) => v,
        None => return Err(Error::MathOverflow),
    };
    if vault_lamports < refund {
        return Err(Error::InsufficientFunds);
    }
    let claims = lottery.settlement_batches_completed.saturating_add(1);
    let mut claimed = participant;
    claimed.mark_refund_claimed();
    let mut counted = lottery;
    counted.settlement_batches_completed = claims;
    Ok((counted, claimed, refund))
}

/// Whether a participant account may close: its lottery was settled without
/// winners and its refund was paid, or its lottery had winners and completed
/// settlement.
pub open spec fn participant_closable(lottery: Lottery, participant: Participant) -> bool {
    ||| lottery.settled && lottery.winners_count == 0 && participant.voted_number_of_winners & REFUND_CLAIMED_FLAG != 0
    ||| lottery.settlement_complete && lottery.winners_count > 0
}

/// Why closing a participant account is refused, if it is: an account that
/// is not the wallet's (`participant_account_error`); a participant that may
/// not close yet (`InvalidLotteryState`); an account without lamports
/// (`InvalidAccount`); a wallet balance that would overflow (`MathOverflow`).
pub open spec fn close_participant_error(
    program_id: Address,
    lottery_key: Address,
    participant_key: Address,
    participant_owner: Address,
    lottery: Lottery,
    participant: Participant,
    wallet: Address,
    participant_lamports: u64,
    wallet_lamports: u64,
) -> Option<Error> {
    let account = participant_account_error(
        program_id,
        lottery_key,
        participant_key,
        participant_owner,
        participant,
        wallet,
    );
    if account is Some {
        account
    } else if !participant_closable(lottery, participant) {
        Some(Error::InvalidLotteryState)
    } else if participant_lamports == 0 {
        Some(Error::InvalidAccount)
    } else if wallet_lamports + participant_lamports > u64::MAX {
        Some(Error::MathOverflow)
    } else {
        None
    }
}

/// Closes the participant account holding `participant_lamports` into the
/// wallet holding `wallet_lamports` (see `close_participant_error` for
/// refusals).  On success the result is the rent reclaimed (all of the
/// account's lamports) and the wallet's new balance.
pub fn plan_close_participant(
    program_id: &Address,
    lottery_key: &Address,
    participant_key: &Address,
    participant_owner: &Address,
    lottery: &Lottery,
    participant: &Participant,
    wallet: &Address,
    participant_lamports: u64,
    wallet_lamports: u64,
) -> (r: Result<(u64, u64), Error>)
    ensures
        ({
            let err = close_participant_error(
                *program_id,
                *lottery_key,
                *participant_key,
                *participant_owner,
                *lottery,
                *participant,
                *wallet,
                participant_lamports,
                wallet_lamports,
            );
            &&& err is Some ==> r == Err::<(u64, u64), Error>(err->0)
            &&& err is None ==> r == Ok::<(u64, u64), Error>(
                (participant_lamports, (wallet_lamports + participant_lamports) as u64),
            )
        }),
{
    let seeds = participant_seed_list(lottery_key, wallet);
    proof {
        lemma_seed_lists_valid(lottery_key.bytes@, lottery_key.bytes@, wallet.bytes@, 0, 0);
    }
    assert_pda_owned(program_id, participant_key, participant_owner, &seeds)?;
    if !participant.lottery.equals(lottery_key) || !participant.wallet.equals(wallet) {
        return Err(Error::InvalidAccountData);
    }
    let refund_path = lottery.settled && lottery.winners_count == 0 && participant.refund_claimed();
    let winners_path = lottery.settlement_complete && lottery.winners_count > 0;
    if !refund_path && !winners_path {
        return Err(Error::InvalidLotteryState);
    }
    if participant_lamports == 0 {
        return Err(Error::InvalidAccount);
    }
    match wallet_lamports.checked_add(participant_lamports) {
        Some(balance) => Ok((participant_lamports, balance)),
        None => Err(Error::MathOverflow),
    }
}

/// Why closing a refund lottery's vault is refused, if it is
/// (`RefundUnavailable` each time): a lottery not settled without winners;
/// fewer claims than participants; an empty vault.
pub open spec fn close_refund_vault_error(lottery: Lottery, vault_lamports: u64) -> Option<Error> {
    if !refundable(lottery) || (lottery.settlement_batches_completed as int) < lottery.participants_count
        || vault_lamports == 0 {
        Some(Error::RefundUnavailable)
    } else {
        None
    }
}

/// Closes the vault holding `vault_lamports` of a refund lottery into the
/// authority's wallet holding `authority_lamports` (see
/// `close_refund_vault_error` for refusals).  On success the result is the
/// rent reclaimed (all of the vault's lamports) and the authority's new
/// balance, saturated at `u64::MAX`.
pub fn plan_close_refund_vault(lottery: &Lottery, vault_lamports: u64, authority_lamports: u64) -> (r: Result<
    (u64, u64),
    Error,
>)
    ensures
        ({
            let err = close_refund_vault_error(*lottery, vault_lamports);
            &&& err is Some ==> r == Err::<(u64, u64), Error>(err->0)
            &&& err is None ==> r == Ok::<(u64, u64), Error>(
                (
                    vault_lamports,
                    if authority_lamports + vault_lamports > u64::MAX {
                        u64::MAX
                    } else {
                        (authority_lamports + vault_lamports) as u64
                    },
                ),
            )
        }),
{
    if !lottery.settled || lottery.winners_count != 0 || lottery.total_payout != 0 {
        return Err(Error::RefundUnavailable);
    }
    if (lottery.settlement_batches_completed as u64) < lottery.participants_count {
        return Err(Error::RefundUnavailable);
    }
    if vault_lamports == 0 {
        return Err(Error::RefundUnavailable);
    }
    Ok((vault_lamports, authority_lamports.saturating_add(vault_lamports)))
}

/// A refund is owed once: to a participant of the lottery with tickets and
/// no refund yet, of a lottery settled without winners whose vault holds at
/// least the refund, the first claim succeeds (paying the ticket price times
/// the tickets, see `plan_claim_refund`); claiming again for the same
/// participant then fails with `RefundAlreadyClaimed`, whatever the vault
/// holds.
pub proof fn lemma_refund_paid_once(
    program_id: Address,
    lottery_key: Address,
    participant_key: Address,
    participant_owner: Address,
    lottery: Lottery,
    participant: Participant,
    wallet: Address,
    vault_lamports: u64,
    later_vault_lamports: u64,
)
    requires
        participant_account_error(
            program_id,
            lottery_key,
            participant_key,
            participant_owner,
            participant,
            wallet,
        ) is None,
        refundable(lottery),
        participant.tickets_bought > 0,
        participant.voted_number_of_winners & REFUND_CLAIMED_FLAG == 0,
        vault_lamports >= refund_of(lottery, participant),
    ensures
        claim_refund_error(
            program_id,
            lottery_key,
            participant_key,
            participant_owner,
            lottery,
            participant,
            wallet,
            vault_lamports,
        ) is None,
        claim_refund_error(
            program_id,
            lottery_key,
            participant_key,
            participant_owner,
            lottery_after_claim(lottery),
            participant_after_claim(participant),
            wallet,
            later_vault_lamports,
        ) == Some(Error::RefundAlreadyClaimed),
{
    lemma_refund_flag_keeps_state(participant.voted_number_of_winners);
}

/// A participant whose refund was just paid may close its account: with
/// lamports in it and room in the wallet, closing succeeds.
pub proof fn lemma_claim_allows_close(
    program_id: Address,
    lottery_key: Address,
    participant_key: Address,
    participant_owner: Address,
    lottery: Lottery,
    participant: Participant,
    wallet: Address,
    vault_lamports: u64,
    participant_lamports: u64,
    wallet_lamports: u64,
)
    requires
        claim_refund_error(
            program_id,
            lottery_key,
            participant_key,
            participant_owner,
            lottery,
            participant,
            wallet,
            vault_lamports,
        ) is None,
        participant_lamports > 0,
        wallet_lamports + participant_lamports <= u64::MAX,
    ensures
        close_participant_error(
            program_id,
            lottery_key,
            participant_key,
            participant_owner,
            lottery_after_claim(lottery),
            participant_after_claim(participant),
            wallet,
            participant_lamports,
            wallet_lamports,
        ) is None,
{
    lemma_refund_flag_keeps_state(participant.voted_number_of_winners);
}

} // verus!
