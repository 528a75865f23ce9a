//! Opening (or extending) the upload window now.
use vstd::prelude::*;
use crate::address::Address;
use crate::error::Error;
use crate::state::config::Config;
use crate::state::lottery::Lottery;
use crate::utils::crypto::{aggregate_hashes, sha256_digest};
use crate::instructions::{check_lottery_authority, lottery_authority_error};

verus! {

/// A window length: the given one, or the configured default for zero.
pub open spec fn window_or_default(given: u32, default: u32) -> i64 {
    if given == 0 {
        default as i64
    } else {
        given as i64
    }
}

/// Whether the upload window can still be opened at `now`: it has not
/// started or ended, settlement has not begun and uploads are not complete.
pub open spec fn can_open_upload(l: Lottery, now: i64) -> bool {
    !(l.upload_start_unix > 0 && now >= l.upload_start_unix) && !(l.upload_deadline_unix > 0 && now
        > l.upload_deadline_unix) && !(l.settlement_start_unix > 0) && !(l.uploads_complete
        || l.settlement_complete)
}

/// The upload deadline after extending to `now + att` and then by `upl`:
/// never shortened.
pub open spec fn extended_deadline(old_deadline: i64, now: i64, att: i64, upl: i64) -> i64 {
    let d1 = if now + att > old_deadline { now + att } else { old_deadline as int };
    let d2 = if d1 + upl > d1 { d1 + upl } else { d1 };
    d2 as i64
}

/// Opening the upload window never shortens it: the new deadline is at
/// least the old one and at least `att` past `now`.
pub proof fn lemma_upload_window_never_shortened(old_deadline: i64, now: i64, att: i64, upl: i64)
    requires
        att >= 0,
        upl >= 0,
        now + att <= i64::MAX,
        (if now + att > old_deadline { now + att } else { old_deadline as int }) + upl <= i64::MAX,
    ensures
        extended_deadline(old_deadline, now, att, upl) >= old_deadline,
        extended_deadline(old_deadline, now, att, upl) >= now + att,
{
}

/// What opening the upload window writes: the lottery, and for a
/// single-participant lottery the aggregate hash with which its uploads
/// were completed at once.
pub struct RevealPhasePlan {
    pub lottery: Lottery,
    pub auto_completed: Option<[u8; 32]>,
}

/// Opens the upload window at `now` for `attestation_secs` and then extends
/// it by `upload_secs` (zero means the configured default); the window is
/// never shortened.  A lottery with one participant completes its uploads
/// at once with one winner.  Besides the checks of
/// `check_lottery_authority`, a window that already started or ended, a
/// begun settlement or completed uploads fail with `InvalidPhaseTransition`.
pub fn plan_begin_reveal_phase(
    program_id: &Address,
    lottery_key: &Address,
    lottery: Lottery,
    config: &Config,
    signer: &Address,
    now: i64,
    attestation_secs: u32,
    upload_secs: u32,
) -> (r: Result<RevealPhasePlan, Error>)
    requires
        now + window_or_default(attestation_secs, config.upload_window_secs) <= i64::MAX,
        (if now + window_or_default(attestation_secs, config.upload_window_secs) > lottery.upload_deadline_unix {
            now + window_or_default(attestation_secs, config.upload_window_secs)
        } else {
            lottery.upload_deadline_unix as int
        }) + window_or_default(upload_secs, config.upload_window_secs) <= i64::MAX,
    ensures
        ({
            let err = lottery_authority_error(*program_id, *lottery_key, lottery, *config, *signer);
            let att = window_or_default(attestation_secs, config.upload_window_secs);
            let upl = window_or_default(upload_secs, config.upload_window_secs);
            let opened = Lottery {
                upload_start_unix: if lottery.upload_start_unix == 0 || now < lottery.upload_start_unix {
                    now
                } else {
                    lottery.upload_start_unix
                },
                upload_deadline_unix: extended_deadline(lottery.upload_deadline_unix, now, att, upl),
                ..lottery
            };
            &&& err is Some ==> r == Err::<RevealPhasePlan, Error>(err->0)
            &&& err is None && !can_open_upload(lottery, now) ==> r == Err::<RevealPhasePlan, Error>(
                Error::InvalidPhaseTransition,
            )
            &&& err is None && can_open_upload(lottery, now) ==> r is Ok && {
                let plan = r->Ok_0;
                if lottery.participants_count == 1 {
                    &&& plan.auto_completed is Some
                    &&& plan.auto_completed->0@ == sha256_digest(Seq::empty())
                    &&& plan.lottery == Lottery {
                        uploads_complete: true,
                        poc_aggregate_hash: plan.auto_completed->0,
                        selected_number_of_winners: 1,
                        ..opened
                    }
                } else {
                    plan.auto_completed is None && plan.lottery == opened
                }
            }
        }),
{
    check_lottery_authority(program_id, lottery_key, &lottery, config, signer)?;
    let already_started = lottery.upload_start_unix > 0 && now >= lottery.upload_start_unix;
    let already_ended = lottery.upload_deadline_unix > 0 && now > lottery.upload_deadline_unix;
    let settlement_started = lottery.settlement_start_unix > 0;
    let uploads_complete = lottery.uploads_complete || lottery.settlement_complete;
    if already_started || already_ended || settlement_started || uploads_complete {
        return Err(Error::InvalidPhaseTransition);
    }
    let att: i64 = if attestation_secs == 0 {
        config.upload_window_secs as i64
    } else {
        attestation_secs as i64
    };
    let upl: i64 = if upload_secs == 0 {
        config.upload_window_secs as i64
    } else {
        upload_secs as i64
    };
    let mut updated = lottery;
    if updated.upload_start_unix == 0 || now < updated.upload_start_unix {
        updated.upload_start_unix = now;
    }
    let desired_deadline = now + att;
    if desired_deadline > updated.upload_deadline_unix {
        updated.upload_deadline_unix = desired_deadline;
    }
    let desired_upload = updated.upload_deadline_unix + upl;
    if desired_upload > updated.upload_deadline_unix {
        updated.upload_deadline_unix = desired_upload;
    }
    if updated.participants_count == 1 {
        let empty: Vec<[u8; 32]> = Vec::new();
        let aggregate_hash = aggregate_hashes(empty.as_slice());
        proof {
            assert(empty@ =~= Seq::<[u8; 32]>::empty());
            assert(crate::utils::crypto::concat_hashes(empty@) =~= Seq::<u8>::empty());
        }
        updated.mark_uploads_complete(aggregate_hash);
        updated.selected_number_of_winners = 1;
        return Ok(RevealPhasePlan { lottery: updated, auto_completed: Some(aggregate_hash) });
    }
    Ok(RevealPhasePlan { lottery: updated, auto_completed: None })
}

} // verus!
