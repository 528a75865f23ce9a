//! Changing the service charge.
use vstd::prelude::*;
use crate::address::Address;
use crate::error::Error;
use crate::state::config::Config;

verus! {

/// The config with the new service charge, and the old charge.  An invalid
/// charge fails with `InvalidServiceCharge`; a signer other than the
/// config's authority with `Unauthorized`.
pub fn apply_service_charge(config: &Config, signer: &Address, new_bps: u16) -> (r: Result<(Config, u16), Error>)
    ensures
        new_bps >= 10_000 ==> r == Err::<(Config, u16), Error>(Error::InvalidServiceCharge),
        new_bps < 10_000 && signer.bytes@ != config.authority.bytes@ ==> r == Err::<(Config, u16), Error>(
            Error::Unauthorized,
        ),
        new_bps < 10_000 && signer.bytes@ == config.authority.bytes@ ==> r == Ok::<(Config, u16), Error>(
            (Config { service_charge_bps: new_bps, ..*config }, config.service_charge_bps),
        ),
{
    crate::utils::validation::validate_service_charge(new_bps)?;
    if !signer.equals(&config.authority) {
        return Err(Error::Unauthorized);
    }
    let old_bps = config.service_charge_bps;
    let updated = Config { service_charge_bps: new_bps, ..*config };
    Ok((updated, old_bps))
}

} // verus!
