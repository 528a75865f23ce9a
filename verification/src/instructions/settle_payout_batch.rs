//! Paying out a batch of finalized winners.
//!
//! Each payout is checked against the winner page that finalization wrote:
//! the winner must be stored there under its wallet, be owed exactly the
//! per-winner amount and not be paid yet; a winner paid before (in both the
//! page and the lottery) is skipped.  Once every winner is paid, the
//! service fee, the rounding remainder and the vault's remaining rent go to
//! the authority and the lottery is settled.  The caller moves the
//! lamports; this module decides how many, to whom.
use vstd::prelude::*;
use crate::address::Address;
use crate::error::Error;
use crate::state::bitmap::{bit_set, with_bit_set};
use crate::state::finalization_ledger::{
    WinnerPage, entry_start, page_paid_bit, WINNERS_PER_PAGE, WINNER_PAGE_SIZE,
    WINNER_PAGE_BITMAP_OFFSET,
};
use crate::state::lottery::Lottery;
use crate::utils::validation::{compute_service_fee, service_fee_of};

verus! {

/// One payout of a batch: the winner's index, its wallet and the amount.
#[derive(Debug, Clone)]
pub struct WinnerProof {
    /// Index of the winner.
    pub index: u64,
    /// Wallet that receives the payout.
    pub recipient: Address,
    /// Payout in lamports.
    pub amount: u64,
    /// Kept for compatibility; payouts are checked against the winner page.
    pub merkle_proof: Vec<[u8; 32]>,
}

/// A payout made: the position of the recipient account in the batch, the
/// winner's index and wallet, and the lamports moved from the vault.
#[derive(Debug, Clone, Copy)]
pub struct Payment {
    pub position: u64,
    pub winner_index: u64,
    pub recipient: Address,
    pub amount: u64,
}

/// What closing settlement moves from the vault to the authority: the
/// service fee, the rounding remainder, and the rest of the vault (its
/// rent), after which the vault is empty.
#[derive(Debug, Clone, Copy, PartialEq, Eq, Structural)]
pub struct SettlementClose {
    pub service_fee: u64,
    pub remainder: u64,
    pub rent_reclaimed: u64,
}

/// The outcome of a payout batch: the lottery and winner page data after
/// it, the payments in order, the vault balance after them, and the close
/// of settlement once every winner is paid.
pub struct PayoutBatch {
    pub lottery: Lottery,
    pub page_data: Vec<u8>,
    pub payments: Vec<Payment>,
    pub vault_lamports: u64,
    pub close: Option<SettlementClose>,
}

/// Checks a payout batch before its winner page is read: the authority
/// account must be the config's (`Unauthorized`), the lottery must be the
/// one named (`InvalidInstruction`), must have winners and the batch must
/// not be empty (`InvalidInstruction`).  A lottery whose settlement is
/// complete needs nothing (`None`); otherwise the result is the page of the
/// batch's first winner (`MathOverflow` past `u32::MAX`).
pub fn payout_gate(
    authority_key: &Address,
    config_authority: &Address,
    lottery: &Lottery,
    lottery_id: u64,
    winners: &Vec<WinnerProof>,
) -> (r: Result<Option<u32>, Error>)
    ensures
        r == (if authority_key.bytes@ != config_authority.bytes@ {
            Err(Error::Unauthorized)
        } else if lottery.id != lottery_id {
            Err(Error::InvalidInstruction)
        } else if lottery.settlement_complete {
            Ok(None)
        } else if lottery.winners_count == 0 || winners@.len() == 0 {
            Err(Error::InvalidInstruction)
        } else if winners@[0].index / 100 > u32::MAX {
            Err(Error::MathOverflow)
        } else {
            Ok::<Option<u32>, Error>(Some((winners@[0].index / 100) as u32))
        }),
{
    if !authority_key.equals(config_authority) {
        return Err(Error::Unauthorized);
    }
    if lottery.id != lottery_id {
        return Err(Error::InvalidInstruction);
    }
    if lottery.settlement_complete {
        return Ok(None);
    }
    if lottery.winners_count == 0 {
        return Err(Error::InvalidInstruction);
    }
    if winners.len() == 0 {
        return Err(Error::InvalidInstruction);
    }
    let page_index: u64 = winners[0].index / WINNERS_PER_PAGE as u64;
    if page_index > u32::MAX as u64 {
        return Err(Error::MathOverflow);
    }
    Ok(Some(page_index as u32))
}

/// Fails with `InvalidAccountData` unless the winner page belongs to the
/// lottery and has the expected index.
pub fn check_payout_page(page: &WinnerPage, lottery_key: &Address, page_index: u32) -> (r: Result<(), Error>)
    ensures
        r == (if page.lottery.bytes@ != lottery_key.bytes@ || page.page_index != page_index {
            Err::<(), Error>(Error::InvalidAccountData)
        } else {
            Ok(())
        }),
{
    if !page.lottery.equals(lottery_key) || page.page_index != page_index {
        return Err(Error::InvalidAccountData);
    }
    Ok(())
}

/// Whether winner `index` is recorded paid in a lottery's bitmap.
pub open spec fn paid_in(bitmap: Seq<u8>, winners_count: u64, index: u64) -> bool {
    index < winners_count && bit_set(bitmap, index as nat)
}

/// The page data with entry `offset` marked paid.
pub open spec fn page_marked(data: Seq<u8>, offset: nat) -> Seq<u8> {
    let idx = (WINNER_PAGE_BITMAP_OFFSET + offset / 8) as int;
    data.update(idx, data[idx] | (1u8 << ((offset % 8) as u8)))
}

/// One payout of a batch, at `position`, with the lottery's paid bitmap,
/// the page data, the vault balance and the payments so far.  The winner
/// must exist (`InvalidInstruction`), be on this page and be owed exactly
/// `expected` (`InvalidInstruction`), be stored on the page under the
/// recipient's wallet (`InvalidInstruction`); paid in both places it is
/// skipped, paid in only one is `InvalidAccountData`; the recipient account
/// must be the winner's wallet (`InvalidAccount`) and the vault must hold
/// the amount (`InsufficientFunds`).  The winner is then paid and marked
/// paid in both places.
pub open spec fn payout_step(
    winners_count: u64,
    expected: u64,
    page: WinnerPage,
    page_index: u32,
    st: (Seq<u8>, Seq<u8>, u64, Seq<Payment>),
    w: WinnerProof,
    position: nat,
    recipient: Address,
) -> Result<(Seq<u8>, Seq<u8>, u64, Seq<Payment>), Error> {
    let (bitmap, data, vault, payments) = st;
    let offset = (w.index % 100) as nat;
    if w.index >= winners_count {
        Err(Error::InvalidInstruction)
    } else if w.index / 100 != page_index || w.amount != expected {
        Err(Error::InvalidInstruction)
    } else if offset >= page.count || data.len() < WINNER_PAGE_SIZE {
        Err(Error::InvalidInstruction)
    } else if data.subrange(entry_start(offset) as int, (entry_start(offset) + 32) as int) != w.recipient.bytes@ {
        Err(Error::InvalidInstruction)
    } else {
        let page_paid = page_paid_bit(data, offset);
        let lottery_paid = paid_in(bitmap, winners_count, w.index);
        if page_paid && lottery_paid {
            Ok(st)
        } else if page_paid || lottery_paid {
            Err(Error::InvalidAccountData)
        } else if recipient.bytes@ != w.recipient.bytes@ {
            Err(Error::InvalidAccount)
        } else if w.amount > 0 && vault < w.amount {
            Err(Error::InsufficientFunds)
        } else {
            Ok(
                (
                    with_bit_set(bitmap, w.index as nat),
                    page_marked(data, offset),
                    (vault - w.amount) as u64,
                    payments.push(
                        Payment {
                            position: position as u64,
                            winner_index: w.index,
                            recipient: w.recipient,
                            amount: w.amount,
                        },
                    ),
                ),
            )
        }
    }
}

/// The payouts of `ws` in order, the recipient of `ws[i]` being `rs[i]`:
/// the state after them, or the first error.
pub open spec fn payout_fold(
    winners_count: u64,
    expected: u64,
    page: WinnerPage,
    page_index: u32,
    st: (Seq<u8>, Seq<u8>, u64, Seq<Payment>),
    ws: Seq<WinnerProof>,
    rs: Seq<Address>,
) -> Result<(Seq<u8>, Seq<u8>, u64, Seq<Payment>), Error>
    decreases ws.len(),
{
    if ws.len() == 0 {
        Ok(st)
    } else {
        match payout_fold(winners_count, expected, page, page_index, st, ws.drop_last(), rs) {
            Err(e) => Err(e),
            Ok(mid) => payout_step(
                winners_count,
                expected,
                page,
                page_index,
                mid,
                ws.last(),
                (ws.len() - 1) as nat,
                rs[ws.len() - 1],
            ),
        }
    }
}

proof fn lemma_payout_error_stays(
    winners_count: u64,
    expected: u64,
    page: WinnerPage,
    page_index: u32,
    st: (Seq<u8>, Seq<u8>, u64, Seq<Payment>),
    ws: Seq<WinnerProof>,
    rs: Seq<Address>,
    k: int,
)
    requires
        0 <= k <= ws.len(),
        payout_fold(winners_count, expected, page, page_index, st, ws.subrange(0, k), rs) is Err,
    ensures
        payout_fold(winners_count, expected, page, page_index, st, ws, rs) == payout_fold(
            winners_count,
            expected,
            page,
            page_index,
            st,
            ws.subrange(0, k),
            rs,
        ),
    decreases ws.len() - k,
{
    if k < ws.len() {
        assert(ws.subrange(0, k + 1).drop_last() =~= ws.subrange(0, k));
        lemma_payout_error_stays(winners_count, expected, page, page_index, st, ws, rs, k + 1);
    } else {
        assert(ws.subrange(0, k) =~= ws);
    }
}

/// `a` minus `b`, or zero.
pub open spec fn saturating_sub(a: u64, b: u64) -> u64 {
    if a >= b {
        (a - b) as u64
    } else {
        0
    }
}

/// Closing settlement with `vault` lamports left: the service fee at `bps`
/// on the funds (`MathOverflow` if it does not fit), then what is left of
/// the funds after the payouts and the fee, then the rest of the vault;
/// `InsufficientFunds` when the vault cannot cover the fee or remainder.
pub open spec fn settlement_close(total_funds: u64, total_payout: u64, bps: u16, vault: u64) -> Result<
    SettlementClose,
    Error,
> {
    let fee = service_fee_of(total_funds, bps);
    if fee > u64::MAX {
        Err(Error::MathOverflow)
    } else {
        let remainder = saturating_sub(saturating_sub(total_funds, total_payout), fee as u64);
        if fee > 0 && vault < fee {
            Err(Error::InsufficientFunds)
        } else if remainder > 0 && vault - fee < remainder {
            Err(Error::InsufficientFunds)
        } else {
            Ok(
                SettlementClose {
                    service_fee: fee as u64,
                    remainder,
                    rent_reclaimed: (vault - fee - remainder) as u64,
                },
            )
        }
    }
}

/// Whether every one of `winners_count` winners is paid in `bitmap`.
pub open spec fn all_paid_in(bitmap: Seq<u8>, winners_count: u64) -> bool {
    forall|i: u64| i < winners_count ==> #[trigger] bit_set(bitmap, i as nat)
}

proof fn lemma_all_paid_equiv(l: Lottery)
    ensures
        l.every_winner_paid() == all_paid_in(l.paid_winners_bitmap@, l.winners_count),
{
    if l.every_winner_paid() {
        assert forall|i: u64| i < l.winners_count implies #[trigger] bit_set(
            l.paid_winners_bitmap@,
            i as nat,
        ) by {
            assert(l.winner_paid(i));
        }
    }
    if all_paid_in(l.paid_winners_bitmap@, l.winners_count) {
        assert forall|i: u64| i < l.winners_count implies #[trigger] l.winner_paid(i) by {
            assert(bit_set(l.paid_winners_bitmap@, i as nat));
        }
    }
}

/// A payout batch: no winner (`InvalidInstruction`); fewer recipient
/// accounts than payouts (`MissingAccount`); then each payout in order
/// (`payout_step`, owed `total_payout / winners_count` each); once every
/// winner is paid, settlement closes (`settlement_close`, at the lottery's
/// service charge).  The result
/// holds the paid bitmap, the page data, the payments, the vault balance
/// and the close.
pub open spec fn payout_batch_outcome(
    lottery: Lottery,
    page: WinnerPage,
    page_index: u32,
    page_data: Seq<u8>,
    ws: Seq<WinnerProof>,
    rs: Seq<Address>,
    vault: u64,
) -> Result<(Seq<u8>, Seq<u8>, Seq<Payment>, u64, Option<SettlementClose>), Error> {
    if lottery.winners_count == 0 {
        Err(Error::InvalidInstruction)
    } else if rs.len() < ws.len() {
        Err(Error::MissingAccount)
    } else {
        match payout_fold(
            lottery.winners_count,
            lottery.total_payout / lottery.winners_count,
            page,
            page_index,
            (lottery.paid_winners_bitmap@, page_data, vault, Seq::empty()),
            ws,
            rs,
        ) {
            Err(e) => Err(e),
            Ok((bitmap, data, v, payments)) => if all_paid_in(bitmap, lottery.winners_count) {
                match settlement_close(lottery.total_funds, lottery.total_payout, lottery.service_charge_bps, v) {
                    Err(e) => Err(e),
                    Ok(c) => Ok((bitmap, data, payments, 0, Some(c))),
                }
            } else {
                Ok((bitmap, data, payments, v, None))
            },
        }
    }
}

/// Pays one winner of a batch (see `payout_step`), updating the lottery,
/// the page data, the vault balance and the payments.
fn pay_winner(
    lottery: &mut Lottery,
    page: &WinnerPage,
    page_data: &mut Vec<u8>,
    page_index: u32,
    expected: u64,
    vault: &mut u64,
    payments: &mut Vec<Payment>,
    w: &WinnerProof,
    position: usize,
    recipient: &Address,
) -> (r: Result<(), Error>)
    requires
        old(lottery).winners_count / 8 < usize::MAX,
    ensures
        r is Ok ==> {
            &&& payout_step(
                old(lottery).winners_count,
                expected,
                *page,
                page_index,
                (old(lottery).paid_winners_bitmap@, old(page_data)@, *old(vault), old(payments)@),
                *w,
                position as nat,
                *recipient,
            ) == Ok::<(Seq<u8>, Seq<u8>, u64, Seq<Payment>), Error>(
                (final(lottery).paid_winners_bitmap@, final(page_data)@, *final(vault), final(payments)@),
            )
            &&& *final(lottery) == (Lottery {
                paid_winners_bitmap: final(lottery).paid_winners_bitmap,
                ..*old(lottery)
            })
        },
        r is Err ==> payout_step(
            old(lottery).winners_count,
            expected,
            *page,
            page_index,
            (old(lottery).paid_winners_bitmap@, old(page_data)@, *old(vault), old(payments)@),
            *w,
            position as nat,
            *recipient,
        ) == Err::<(Seq<u8>, Seq<u8>, u64, Seq<Payment>), Error>(r->Err_0),
{
    if w.index >= lottery.winners_count {
        return Err(Error::InvalidInstruction);
    }
    let winner_page_index: u64 = w.index / WINNERS_PER_PAGE as u64;
    if winner_page_index != page_index as u64 || w.amount != expected {
        return Err(Error::InvalidInstruction);
    }
    let page_offset: usize = (w.index % WINNERS_PER_PAGE as u64) as usize;
    proof {
        crate::state::finalization_ledger::lemma_entry_bounds(page_offset as nat);
    }
    let stored = match page.winner(page_data.as_slice(), page_offset) {
        Some(s) => s,
        None => return Err(Error::InvalidInstruction),
    };
    if !stored.wallet.equals(&w.recipient) {
        return Err(Error::InvalidInstruction);
    }
    let page_paid = page.is_paid(page_data.as_slice(), page_offset);
    let lottery_paid = lottery.is_winner_paid(w.index);
    if page_paid || lottery_paid {
        if page_paid && lottery_paid {
            return Ok(());
        }
        return Err(Error::InvalidAccountData);
    }
    if !recipient.equals(&w.recipient) {
        return Err(Error::InvalidAccount);
    }
    if w.amount > 0 {
        if *vault < w.amount {
            return Err(Error::InsufficientFunds);
        }
        *vault = *vault - w.amount;
    }
    let marked = page.mark_paid(page_data.as_mut_slice(), page_offset);
    proof {
        assert(marked is Ok);
    }
    let recorded = lottery.mark_winner_paid(w.index);
    proof {
        assert(recorded is Ok);
    }
    payments.push(Payment { position: position as u64, winner_index: w.index, recipient: w.recipient, amount: w.amount });
    Ok(())
}

/// Closes settlement (see `settlement_close`).
fn close_settlement(total_funds: u64, total_payout: u64, bps: u16, vault: u64) -> (r: Result<
    SettlementClose,
    Error,
>)
    ensures
        r == settlement_close(total_funds, total_payout, bps, vault),
{
    let service_fee = compute_service_fee(total_funds, bps)?;
    let payout_remainder = total_funds.saturating_sub(total_payout).saturating_sub(service_fee);
    let mut left: u64 = vault;
    if service_fee > 0 {
        if left < service_fee {
            return Err(Error::InsufficientFunds);
        }
        left = left - service_fee;
    }
    if payout_remainder > 0 {
        if left < payout_remainder {
            return Err(Error::InsufficientFunds);
        }
        left = left - payout_remainder;
    }
    Ok(SettlementClose { service_fee, remainder: payout_remainder, rent_reclaimed: left })
}

/// Processes a payout batch against its winner page (see
/// `payout_batch_outcome`).  The lottery after it records the paid winners
/// and one more batch (saturating), and is settled once settlement closes.
#[verifier::loop_isolation(false)]
pub fn settle_payout_batch(
    lottery: Lottery,
    page: &WinnerPage,
    page_data: Vec<u8>,
    page_index: u32,
    winners: &Vec<WinnerProof>,
    recipients: &Vec<Address>,
    vault_lamports: u64,
) -> (r: Result<PayoutBatch, Error>)
    requires
        lottery.winners_count / 8 < usize::MAX,
    ensures
        match payout_batch_outcome(
            lottery,
            *page,
            page_index,
            page_data@,
            winners@,
            recipients@,
            vault_lamports,
        ) {
            Err(e) => r == Err::<PayoutBatch, Error>(e),
            Ok((bitmap, data, payments, vault, close)) => {
                &&& r is Ok
                &&& r->Ok_0.lottery.paid_winners_bitmap@ == bitmap
                &&& r->Ok_0.lottery == (Lottery {
                    paid_winners_bitmap: r->Ok_0.lottery.paid_winners_bitmap,
                    settlement_batches_completed: if lottery.settlement_batches_completed < u32::MAX {
                        (lottery.settlement_batches_completed + 1) as u32
                    } else {
                        u32::MAX
                    },
                    settlement_complete: close is Some || lottery.settlement_complete,
                    settled: close is Some || lottery.settled,
                    status: if close is Some { 1 } else { lottery.status },
                    ..lottery
                })
                &&& r->Ok_0.page_data@ == data
                &&& r->Ok_0.payments@ == payments
                &&& r->Ok_0.vault_lamports == vault
                &&& r->Ok_0.close == close
            },
        },
{
    if lottery.winners_count == 0 {
        return Err(Error::InvalidInstruction);
    }
    let expected_amount: u64 = lottery.total_payout / lottery.winners_count;
    if recipients.len() < winners.len() {
        return Err(Error::MissingAccount);
    }
    let ghost st0 = (lottery.paid_winners_bitmap@, page_data@, vault_lamports, Seq::<Payment>::empty());
    let ghost start = lottery;
    let mut lottery = lottery;
    let mut page_data = page_data;
    let mut vault: u64 = vault_lamports;
    let mut payments: Vec<Payment> = Vec::new();
    let mut i: usize = 0;
    while i < winners.len()
        invariant
            i <= winners@.len(),
            winners@.len() <= recipients@.len(),
            start.winners_count > 0,
            start.winners_count / 8 < usize::MAX,
            expected_amount == start.total_payout / start.winners_count,
            lottery == (Lottery { paid_winners_bitmap: lottery.paid_winners_bitmap, ..start }),
            payout_fold(
                start.winners_count,
                expected_amount,
                *page,
                page_index,
                st0,
                winners@.subrange(0, i as int),
                recipients@,
            ) == Ok::<(Seq<u8>, Seq<u8>, u64, Seq<Payment>), Error>(
                (lottery.paid_winners_bitmap@, page_data@, vault, payments@),
            ),
        decreases winners@.len() - i,
    {
        proof {
            assert(winners@.subrange(0, i + 1).drop_last() =~= winners@.subrange(0, i as int));
            assert(winners@.subrange(0, i + 1).last() == winners@[i as int]);
        }
        let step = pay_winner(
            &mut lottery,
            page,
            &mut page_data,
            page_index,
            expected_amount,
            &mut vault,
            &mut payments,
            &winners[i],
            i,
            &recipients[i],
        );
        match step {
            Err(e) => {
                proof {
                    assert(payout_fold(
                        start.winners_count,
                        expected_amount,
                        *page,
                        page_index,
                        st0,
                        winners@.subrange(0, i + 1),
                        recipients@,
                    ) == Err::<(Seq<u8>, Seq<u8>, u64, Seq<Payment>), Error>(e));
                    lemma_payout_error_stays(
                        start.winners_count,
                        expected_amount,
                        *page,
                        page_index,
                        st0,
                        winners@,
                        recipients@,
                        i + 1,
                    );
                }
                return Err(e);
            },
            Ok(()) => {},
        }
        i = i + 1;
    }
    proof {
        assert(winners@.subrange(0, winners@.len() as int) =~= winners@);
    }
    lottery.increment_settlement_batch();
    proof {
        lemma_all_paid_equiv(lottery);
    }
    let mut close: Option<SettlementClose> = None;
    if lottery.all_winners_paid() {
        let c = close_settlement(lottery.total_funds, lottery.total_payout, lottery.service_charge_bps, vault)?;
        vault = 0;
        let completed = lottery.complete_settlement();
        proof {
            assert(completed is Ok);
        }
        close = Some(c);
    }
    Ok(PayoutBatch { lottery, page_data, payments, vault_lamports: vault, close })
}

/// Lamports paid out by `payments`.
pub open spec fn paid_total(payments: Seq<Payment>) -> nat
    decreases payments.len(),
{
    if payments.len() == 0 {
        0
    } else {
        paid_total(payments.drop_last()) + payments.last().amount as nat
    }
}

/// A winner that a payout paid is skipped by any later payout of it in the
/// same batch: nothing is paid twice.
pub proof fn lemma_no_double_payout(
    winners_count: u64,
    expected: u64,
    page: WinnerPage,
    page_index: u32,
    st: (Seq<u8>, Seq<u8>, u64, Seq<Payment>),
    w: WinnerProof,
    position: nat,
    recipient: Address,
    later_position: nat,
    later_recipient: Address,
)
    requires
        payout_step(winners_count, expected, page, page_index, st, w, position, recipient) is Ok,
        payout_step(winners_count, expected, page, page_index, st, w, position, recipient)->Ok_0.3.len()
            > st.3.len(),
    ensures
        ({
            let after = payout_step(winners_count, expected, page, page_index, st, w, position, recipient)->Ok_0;
            payout_step(winners_count, expected, page, page_index, after, w, later_position, later_recipient)
                == Ok::<(Seq<u8>, Seq<u8>, u64, Seq<Payment>), Error>(after)
        }),
{
    let offset = (w.index % 100) as nat;
    let after = payout_step(winners_count, expected, page, page_index, st, w, position, recipient)->Ok_0;
    crate::state::finalization_ledger::lemma_mark_paid_exact(st.1, offset, offset);
    crate::state::bitmap::lemma_with_bit_set(st.0, w.index as nat, w.index as nat);
    crate::state::finalization_ledger::lemma_entry_bounds(offset);
    assert(after.1.subrange(entry_start(offset) as int, (entry_start(offset) + 32) as int)
        =~= st.1.subrange(entry_start(offset) as int, (entry_start(offset) + 32) as int));
}

/// A payout moves exactly what it records: the vault loses the amount of
/// the payment, which is the per-winner amount, paid to the wallet stored
/// on the page for that winner; a skipped payout moves nothing.
pub proof fn lemma_payout_step_pays_what_it_records(
    winners_count: u64,
    expected: u64,
    page: WinnerPage,
    page_index: u32,
    st: (Seq<u8>, Seq<u8>, u64, Seq<Payment>),
    w: WinnerProof,
    position: nat,
    recipient: Address,
)
    requires
        payout_step(winners_count, expected, page, page_index, st, w, position, recipient) is Ok,
    ensures
        ({
            let after = payout_step(winners_count, expected, page, page_index, st, w, position, recipient)->Ok_0;
            let offset = (w.index % 100) as nat;
            &&& after.2 + paid_total(after.3) == st.2 + paid_total(st.3)
            &&& after.3.len() == st.3.len() || after.3.len() == st.3.len() + 1
            &&& after.3.len() == st.3.len() ==> after == st
            &&& after.3.len() == st.3.len() + 1 ==> {
                &&& after.3.last().amount == expected
                &&& after.3.last().winner_index == w.index
                &&& after.3.last().position == position as u64
                &&& after.3.last().recipient.bytes@ == st.1.subrange(
                    entry_start(offset) as int,
                    (entry_start(offset) + 32) as int,
                )
                &&& recipient.bytes@ == after.3.last().recipient.bytes@
                &&& after.3.drop_last() == st.3
            }
        }),
{
    let after = payout_step(winners_count, expected, page, page_index, st, w, position, recipient)->Ok_0;
    if after.3.len() != st.3.len() {
        assert(after.3.drop_last() =~= st.3);
    }
}

/// Over a batch, the vault's balance plus everything paid out stays what
/// the vault held plus what was paid before.
pub proof fn lemma_payouts_conserve_vault(
    winners_count: u64,
    expected: u64,
    page: WinnerPage,
    page_index: u32,
    st: (Seq<u8>, Seq<u8>, u64, Seq<Payment>),
    ws: Seq<WinnerProof>,
    rs: Seq<Address>,
)
    requires
        payout_fold(winners_count, expected, page, page_index, st, ws, rs) is Ok,
    ensures
        ({
            let after = payout_fold(winners_count, expected, page, page_index, st, ws, rs)->Ok_0;
            after.2 + paid_total(after.3) == st.2 + paid_total(st.3)
        }),
    decreases ws.len(),
{
    if ws.len() > 0 {
        lemma_payouts_conserve_vault(winners_count, expected, page, page_index, st, ws.drop_last(), rs);
        let mid = payout_fold(winners_count, expected, page, page_index, st, ws.drop_last(), rs)->Ok_0;
        lemma_payout_step_pays_what_it_records(
            winners_count,
            expected,
            page,
            page_index,
            mid,
            ws.last(),
            (ws.len() - 1) as nat,
            rs[ws.len() - 1],
        );
    }
}

/// Closing settlement empties the vault into the fee, the remainder and
/// the reclaimed rent.
pub proof fn lemma_close_empties_vault(total_funds: u64, total_payout: u64, bps: u16, vault: u64)
    requires
        settlement_close(total_funds, total_payout, bps, vault) is Ok,
    ensures
        ({
            let c = settlement_close(total_funds, total_payout, bps, vault)->Ok_0;
            c.service_fee + c.remainder + c.rent_reclaimed == vault
        }),
{
}

} // verus!
