//! Opening (or extending) the buy window now.
use vstd::prelude::*;
use crate::address::Address;
use crate::error::Error;
use crate::state::config::Config;
use crate::state::lottery::Lottery;
use crate::instructions::{check_lottery_authority, lottery_authority_error};
use crate::instructions::begin_reveal_phase::window_or_default;

verus! {

/// Whether the buy window can still be opened at `now`: buying has not
/// started or ended, the upload window and settlement have not begun, and
/// uploads are not complete.
pub open spec fn can_open_buy(l: Lottery, now: i64) -> bool {
    !(l.buy_start_unix > 0 && now >= l.buy_start_unix) && !(l.buy_deadline_unix > 0 && now
        > l.buy_deadline_unix) && !(l.upload_start_unix > 0 && now >= l.upload_start_unix) && !(
    l.settlement_start_unix > 0) && !(l.uploads_complete || l.settlement_complete)
}

/// Opens the buy window at `now` for `buy_secs` (zero: the configured
/// default), never shortening it.  Besides the checks of
/// `check_lottery_authority`, a buy window that started or ended, a begun
/// upload window or settlement, or completed uploads fail with
/// `InvalidPhaseTransition`.
pub fn plan_begin_buy_phase(
    program_id: &Address,
    lottery_key: &Address,
    lottery: Lottery,
    config: &Config,
    signer: &Address,
    now: i64,
    buy_secs: u32,
) -> (r: Result<Lottery, Error>)
    requires
        now + window_or_default(buy_secs, config.buy_window_secs) <= i64::MAX,
    ensures
        ({
            let err = lottery_authority_error(*program_id, *lottery_key, lottery, *config, *signer);
            let deadline = now + window_or_default(buy_secs, config.buy_window_secs);
            &&& err is Some ==> r == Err::<Lottery, Error>(err->0)
            &&& err is None && !can_open_buy(lottery, now) ==> r == Err::<Lottery, Error>(
                Error::InvalidPhaseTransition,
            )
            &&& err is None && can_open_buy(lottery, now) ==> r == Ok::<Lottery, Error>(
                Lottery {
                    buy_start_unix: if lottery.buy_start_unix == 0 || now < lottery.buy_start_unix {
                        now
                    } else {
                        lottery.buy_start_unix
                    },
                    buy_deadline_unix: if deadline > lottery.buy_deadline_unix {
                        deadline as i64
                    } else {
                        lottery.buy_deadline_unix
                    },
                    ..lottery
                },
            )
        }),
{
    check_lottery_authority(program_id, lottery_key, &lottery, config, signer)?;
    let already_started = lottery.buy_start_unix > 0 && now >= lottery.buy_start_unix;
    let already_ended = lottery.buy_deadline_unix > 0 && now > lottery.buy_deadline_unix;
    let upload_started = lottery.upload_start_unix > 0 && now >= lottery.upload_start_unix;
    let settlement_started = lottery.settlement_start_unix > 0;
    let uploads_complete = lottery.uploads_complete || lottery.settlement_complete;
    if already_started || already_ended || upload_started || settlement_started || uploads_complete {
        return Err(Error::InvalidPhaseTransition);
    }
    let mut updated = lottery;
    if updated.buy_start_unix == 0 || now < updated.buy_start_unix {
        updated.buy_start_unix = now;
    }
    let bw: i64 = if buy_secs == 0 {
        config.buy_window_secs as i64
    } else {
        buy_secs as i64
    };
    let desired_deadline = now + bw;
    if desired_deadline > updated.buy_deadline_unix {
        updated.buy_deadline_unix = desired_deadline;
    }
    Ok(updated)
}

} // verus!
