//! Creating the global configuration.
use vstd::prelude::*;
use crate::address::Address;
use crate::error::Error;
use crate::state::config::Config;
use crate::state::lottery::DAY_SECS;
use crate::state::sizes::MAX_WINNERS;

verus! {

/// The configuration that initialization creates: `authority` administers
/// the lotteries, the ticket price and service charge are as given, no
/// lottery exists yet, and both windows default to a day.  An invalid
/// service charge fails with `InvalidServiceCharge`, a winners cap outside
/// `1..=MAX_WINNERS` with `InvalidInstruction`.
pub fn initial_config(
    authority: Address,
    ticket_price_lamports: u64,
    service_charge_bps: u16,
    max_winners_cap: u32,
) -> (r: Result<Config, Error>)
    ensures
        service_charge_bps >= 10_000 ==> r == Err::<Config, Error>(Error::InvalidServiceCharge),
        service_charge_bps < 10_000 && !(0 < max_winners_cap <= MAX_WINNERS) ==> r == Err::<Config, Error>(
            Error::InvalidInstruction,
        ),
        service_charge_bps < 10_000 && 0 < max_winners_cap <= MAX_WINNERS ==> r == Ok::<Config, Error>(
            Config {
                authority,
                ticket_price_lamports,
                service_charge_bps,
                lottery_count: 0,
                buy_window_secs: DAY_SECS as u32,
                upload_window_secs: DAY_SECS as u32,
                max_winners_cap,
            },
        ),
{
    if !Config::validate_service_charge(service_charge_bps) {
        return Err(Error::InvalidServiceCharge);
    }
    if !Config::validate_max_winners_cap(max_winners_cap) {
        return Err(Error::InvalidInstruction);
    }
    Ok(
        Config {
            authority,
            ticket_price_lamports,
            service_charge_bps,
            lottery_count: 0,
            buy_window_secs: 86_400,
            upload_window_secs: 86_400,
            max_winners_cap,
        },
    )
}

} // verus!
