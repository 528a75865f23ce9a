//! Opening the upload window once buying is over.
use vstd::prelude::*;
use crate::address::Address;
use crate::error::Error;
use crate::state::config::Config;
use crate::state::lottery::Lottery;
use crate::utils::crypto::{aggregate_hashes, sha256_digest};
use crate::instructions::{check_lottery_authority, lottery_authority_error};
use crate::instructions::begin_reveal_phase::{window_or_default, can_open_upload, RevealPhasePlan};

verus! {

/// Opens the upload window at `now` for `upload_secs` (zero: the configured
/// default), never shortening it; a lottery with one participant completes
/// its uploads at once with one winner.  Besides the checks of
/// `check_lottery_authority`, opening before the buy deadline (or without
/// one) fails with `InvalidInstruction`, and an upload window that started
/// or ended, a begun settlement or completed uploads with
/// `InvalidPhaseTransition`.
pub fn plan_begin_upload_phase(
    program_id: &Address,
    lottery_key: &Address,
    lottery: Lottery,
    config: &Config,
    signer: &Address,
    now: i64,
    upload_secs: u32,
) -> (r: Result<RevealPhasePlan, Error>)
    requires
        now + window_or_default(upload_secs, config.upload_window_secs) <= i64::MAX,
    ensures
        ({
            let err = lottery_authority_error(*program_id, *lottery_key, lottery, *config, *signer);
            let deadline = now + window_or_default(upload_secs, config.upload_window_secs);
            let opened = Lottery {
                upload_start_unix: if lottery.upload_start_unix == 0 || now < lottery.upload_start_unix {
                    now
                } else {
                    lottery.upload_start_unix
                },
                upload_deadline_unix: if deadline > lottery.upload_deadline_unix {
                    deadline as i64
                } else {
                    lottery.upload_deadline_unix
                },
                ..lottery
            };
            &&& err is Some ==> r == Err::<RevealPhasePlan, Error>(err->0)
            &&& err is None && (lottery.buy_deadline_unix == 0 || now < lottery.buy_deadline_unix) ==> r
                == Err::<RevealPhasePlan, Error>(Error::InvalidInstruction)
            &&& err is None && !(lottery.buy_deadline_unix == 0 || now < lottery.buy_deadline_unix)
                && !can_open_upload(lottery, now) ==> r == Err::<RevealPhasePlan, Error>(
                Error::InvalidPhaseTransition,
            )
            &&& err is None && !(lottery.buy_deadline_unix == 0 || now < lottery.buy_deadline_unix)
                && can_open_upload(lottery, now) ==> r is Ok && {
                let plan = r->Ok_0;
                if lottery.participants_count == 1 {
                    &&& plan.auto_completed is Some
                    &&& plan.auto_completed->0@ == sha256_digest(Seq::empty())
                    &&& plan.lottery == Lottery {
                        uploads_complete: true,
                        poc_aggregate_hash: plan.auto_completed->0,
                        selected_number_of_winners: 1,
                        ..opened
                    }
                } else {
                    plan.auto_completed is None && plan.lottery == opened
                }
            }
        }),
{
    check_lottery_authority(program_id, lottery_key, &lottery, config, signer)?;
    if lottery.buy_deadline_unix == 0 || now < lottery.buy_deadline_unix {
        return Err(Error::InvalidInstruction);
    }
    let already_started = lottery.upload_start_unix > 0 && now >= lottery.upload_start_unix;
    let already_ended = lottery.upload_deadline_unix > 0 && now > lottery.upload_deadline_unix;
    let settlement_started = lottery.settlement_start_unix > 0;
    let uploads_complete = lottery.uploads_complete || lottery.settlement_complete;
    if already_started || already_ended || settlement_started || uploads_complete {
        return Err(Error::InvalidPhaseTransition);
    }
    let ul: i64 = if upload_secs == 0 {
        config.upload_window_secs as i64
    } else {
        upload_secs as i64
    };
    let mut updated = lottery;
    if updated.upload_start_unix == 0 || now < updated.upload_start_unix {
        updated.upload_start_unix = now;
    }
    let desired_deadline = now + ul;
    if desired_deadline > updated.upload_deadline_unix {
        updated.upload_deadline_unix = desired_deadline;
    }
    if updated.participants_count == 1 && !updated.uploads_complete {
        let empty: Vec<[u8; 32]> = Vec::new();
        let aggregate_hash = aggregate_hashes(empty.as_slice());
        proof {
            assert(empty@ =~= Seq::<[u8; 32]>::empty());
            assert(crate::utils::crypto::concat_hashes(empty@) =~= Seq::<u8>::empty());
        }
        updated.mark_uploads_complete(aggregate_hash);
        updated.selected_number_of_winners = 1;
        return Ok(RevealPhasePlan { lottery: updated, auto_completed: Some(aggregate_hash) });
    }
    Ok(RevealPhasePlan { lottery: updated, auto_completed: None })
}

} // verus!
