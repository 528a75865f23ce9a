//! Starting settlement once the upload window is over or everyone attested.
use vstd::prelude::*;
use crate::address::Address;
use crate::error::Error;
use crate::state::config::Config;
use crate::state::lottery::Lottery;
use crate::instructions::{check_lottery_authority, lottery_authority_error};

verus! {

/// Whether every participant of a lottery with participants has attested.
pub open spec fn all_attested(l: Lottery) -> bool {
    l.participants_count > 0 && l.attested_count == l.participants_count
}

/// Whether the upload deadline has passed at `now`.
pub open spec fn upload_elapsed(l: Lottery, now: i64) -> bool {
    l.upload_deadline_unix > 0 && now > l.upload_deadline_unix
}

/// Starts settlement at `now`.  Besides the checks of
/// `check_lottery_authority`, settlement that already began or completed
/// fails with `InvalidPhaseTransition`, and starting while the upload
/// window is open and some participant has not attested with
/// `InvalidInstruction`.
pub fn plan_begin_settlement_phase(
    program_id: &Address,
    lottery_key: &Address,
    lottery: Lottery,
    config: &Config,
    signer: &Address,
    now: i64,
) -> (r: Result<Lottery, Error>)
    ensures
        ({
            let err = lottery_authority_error(*program_id, *lottery_key, lottery, *config, *signer);
            let begun = lottery.settlement_start_unix > 0 || lottery.settlement_complete;
            &&& err is Some ==> r == Err::<Lottery, Error>(err->0)
            &&& err is None && begun ==> r == Err::<Lottery, Error>(Error::InvalidPhaseTransition)
            &&& err is None && !begun && !(upload_elapsed(lottery, now) || all_attested(lottery)) ==> r
                == Err::<Lottery, Error>(Error::InvalidInstruction)
            &&& err is None && !begun && (upload_elapsed(lottery, now) || all_attested(lottery)) ==> r
                == Ok::<Lottery, Error>(Lottery { settlement_start_unix: now, ..lottery })
        }),
{
    check_lottery_authority(program_id, lottery_key, &lottery, config, signer)?;
    let settlement_started = lottery.settlement_start_unix > 0;
    if settlement_started || lottery.settlement_complete {
        return Err(Error::InvalidPhaseTransition);
    }
    let upload_elapsed = lottery.upload_deadline_unix > 0 && now > lottery.upload_deadline_unix;
    let all_attested = lottery.participants_count > 0 && lottery.attested_count == lottery.participants_count;
    if !(upload_elapsed || all_attested) {
        return Err(Error::InvalidInstruction);
    }
    let mut updated = lottery;
    updated.settlement_start_unix = now;
    Ok(updated)
}

} // verus!
