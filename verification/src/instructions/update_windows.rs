//! Changing the default window lengths.
use vstd::prelude::*;
use crate::address::Address;
use crate::error::Error;
use crate::state::config::Config;

verus! {

/// The config with new default windows: each length that is given (not
/// zero) replaces the old one.  A signer other than the authority fails
/// with `Unauthorized`.
pub fn apply_windows(config: &Config, signer: &Address, buy_secs: u32, upload_secs: u32) -> (r: Result<Config, Error>)
    ensures
        signer.bytes@ != config.authority.bytes@ ==> r == Err::<Config, Error>(Error::Unauthorized),
        signer.bytes@ == config.authority.bytes@ ==> r == Ok::<Config, Error>(
            Config {
                buy_window_secs: if buy_secs > 0 { buy_secs } else { config.buy_window_secs },
                upload_window_secs: if upload_secs > 0 { upload_secs } else { config.upload_window_secs },
                ..*config
            },
        ),
{
    if !signer.equals(&config.authority) {
        return Err(Error::Unauthorized);
    }
    let mut updated = *config;
    if buy_secs > 0 {
        updated.buy_window_secs = buy_secs;
    }
    if upload_secs > 0 {
        updated.upload_window_secs = upload_secs;
    }
    Ok(updated)
}

} // verus!
