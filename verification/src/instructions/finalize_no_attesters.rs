//! Settling a lottery without a draw.
//!
//! Past the upload deadline, a lottery that nobody attested, or whose
//! reveals were never uploaded, is settled without winners.  The funds stay
//! in the vault, where each participant claims its refund (see
//! `claim_refund`); the reported refund is the funds less the service fee.  A single-participant lottery, whose uploads complete as
//! soon as its upload window opens, need not wait for the deadline.
use vstd::prelude::*;
use crate::error::Error;
use crate::state::lottery::Lottery;
use crate::utils::validation::{compute_service_fee, service_fee_of};

verus! {

/// Why a lottery is refunded.
#[derive(Debug, Clone, Copy, PartialEq, Eq, Structural)]
pub enum RefundReason {
    SingleParticipant,
    NoAttestations,
    NoRevealsUploaded,
}

/// The text under which a refund reason is reported.
pub open spec fn refund_reason_text(reason: RefundReason) -> Seq<char> {
    match reason {
        RefundReason::SingleParticipant => "Single participant refunded"@,
        RefundReason::NoAttestations => "No attestations submitted"@,
        RefundReason::NoRevealsUploaded => "No reveals uploaded by provider"@,
    }
}

impl RefundReason {
    /// The text of the reason (see `refund_reason_text`).
    pub fn text(&self) -> (r: &'static str)
        ensures
            r@ == refund_reason_text(*self),
    {
        match self {
            RefundReason::SingleParticipant => "Single participant refunded",
            RefundReason::NoAttestations => "No attestations submitted",
            RefundReason::NoRevealsUploaded => "No reveals uploaded by provider",
        }
    }
}

/// What settling without a draw decides: the settled lottery, the service
/// fee, the net refund (the funds less the fee), and the reason.
pub struct NoAttestersSettlement {
    pub lottery: Lottery,
    pub service_fee: u64,
    pub net_refund: u64,
    pub reason: RefundReason,
}

/// Settles `lottery` without a draw at `current_time`.  A settled lottery fails with `LotteryAlreadySettled`;
/// before the upload deadline (or without one) unless it is a
/// single-participant lottery with its uploads complete, or when reveals
/// were uploaded for attested participants, with `InvalidInstruction`; a fee
/// that does not fit with `MathOverflow`.  The fee is at the lottery's
/// service charge.  The reason is a single
/// participant, else no attestation, else no upload.
pub fn plan_finalize_no_attesters(
    lottery: Lottery,
    current_time: i64,
) -> (r: Result<NoAttestersSettlement, Error>)
    ensures
        lottery.settled ==> r == Err::<NoAttestersSettlement, Error>(Error::LotteryAlreadySettled),
        !lottery.settled && (lottery.upload_deadline_unix == 0 || current_time < lottery.upload_deadline_unix) && !(
            lottery.participants_count == 1 && lottery.uploads_complete)
            ==> r == Err::<NoAttestersSettlement, Error>(Error::InvalidInstruction),
        !lottery.settled && !((lottery.upload_deadline_unix == 0 || current_time
            < lottery.upload_deadline_unix) && !(lottery.participants_count == 1 && lottery.uploads_complete)) && lottery.attested_count != 0
            && lottery.provider_uploaded_count != 0 ==> r == Err::<NoAttestersSettlement, Error>(
            Error::InvalidInstruction,
        ),
        ({
            let allowed = !lottery.settled && !((lottery.upload_deadline_unix == 0 || current_time
                < lottery.upload_deadline_unix) && !(lottery.participants_count == 1
                && lottery.uploads_complete)) && (lottery.attested_count == 0
                || lottery.provider_uploaded_count == 0);
            let fee = service_fee_of(lottery.total_funds, lottery.service_charge_bps);
            &&& allowed && fee > u64::MAX ==> r == Err::<NoAttestersSettlement, Error>(Error::MathOverflow)
            &&& allowed && fee <= u64::MAX ==> {
                &&& r is Ok
                &&& r->Ok_0.lottery == (Lottery { settled: true, status: 1, ..lottery })
                &&& r->Ok_0.service_fee == fee
                &&& r->Ok_0.net_refund == (if lottery.total_funds >= fee {
                    lottery.total_funds - fee
                } else {
                    0
                })
                &&& r->Ok_0.reason == (if lottery.participants_count == 1 {
                    RefundReason::SingleParticipant
                } else if lottery.attested_count == 0 {
                    RefundReason::NoAttestations
                } else {
                    RefundReason::NoRevealsUploaded
                })
            }
        }),
{
    if lottery.settled {
        return Err(Error::LotteryAlreadySettled);
    }
    let single_completed = lottery.participants_count == 1 && lottery.uploads_complete;
    if (lottery.upload_deadline_unix == 0 || current_time < lottery.upload_deadline_unix) && !single_completed {
        return Err(Error::InvalidInstruction);
    }
    let no_attestations = lottery.attested_count == 0;
    let no_reveals_uploaded = lottery.provider_uploaded_count == 0;
    if !(no_attestations || no_reveals_uploaded) {
        return Err(Error::InvalidInstruction);
    }
    let mut lottery = lottery;
    lottery.settle();
    let service_fee = compute_service_fee(lottery.total_funds, lottery.service_charge_bps)?;
    let net_refund = lottery.total_funds.saturating_sub(service_fee);
    let reason = if lottery.participants_count == 1 {
        RefundReason::SingleParticipant
    } else if no_attestations {
        RefundReason::NoAttestations
    } else {
        RefundReason::NoRevealsUploaded
    };
    Ok(NoAttestersSettlement { lottery, service_fee, net_refund, reason })
}

} // verus!
