//! The global configuration of the lottery program (seeds `["config"]`).
use vstd::prelude::*;
use crate::address::Address;
use crate::error::Error;
use crate::state::sizes::MAX_WINNERS;

verus! {

/// System-wide settings: the authority, the ticket price, the service
/// charge, the lottery counter that hands out ids, the default window
/// lengths and the cap on winners per lottery.
#[derive(Debug, Clone, Copy)]
pub struct Config {
    /// Authority that administers lotteries.
    pub authority: Address,
    /// Price of one ticket, in lamports.
    pub ticket_price_lamports: u64,
    /// Service charge in basis points (below 10_000).
    pub service_charge_bps: u16,
    /// Number of lotteries created so far; the next id is one more.
    pub lottery_count: u64,
    /// Default buy window length, in seconds.
    pub buy_window_secs: u32,
    /// Default upload window length, in seconds.
    pub upload_window_secs: u32,
    /// Upper bound on the winners of one lottery.
    pub max_winners_cap: u32,
}

impl Default for Config {
    fn default() -> (c: Config)
        ensures
            c.authority.bytes@ == Seq::new(32, |i: int| 0u8),
            c.ticket_price_lamports == 0,
            c.service_charge_bps == 0,
            c.lottery_count == 0,
            c.buy_window_secs == 0,
            c.upload_window_secs == 0,
            c.max_winners_cap == 0,
    {
        Config {
            authority: Address::zero(),
            ticket_price_lamports: 0,
            service_charge_bps: 0,
            lottery_count: 0,
            buy_window_secs: 0,
            upload_window_secs: 0,
            max_winners_cap: 0,
        }
    }
}

/// The most winners that a lottery with `participants_count` participants
/// can have under a cap of `max_winners_cap`: one when there is at most one
/// participant; otherwise the cap (clamped to `1..=MAX_WINNERS`), but never
/// more than `participants_count - 1`.
pub open spec fn effective_max_winners_of(max_winners_cap: u32, participants_count: u64) -> u64 {
    if participants_count <= 1 {
        1
    } else {
        let capped: u64 = if (max_winners_cap as u64) < (MAX_WINNERS as u64) {
            max_winners_cap as u64
        } else {
            MAX_WINNERS as u64
        };
        let configured: u64 = if capped < 1 { 1 } else { capped };
        if configured < (participants_count - 1) as u64 {
            configured
        } else {
            (participants_count - 1) as u64
        }
    }
}

impl Config {
    /// Whether a service charge is below 100% (10_000 basis points).
    pub fn validate_service_charge(bps: u16) -> (r: bool)
        ensures
            r <==> bps < 10_000,
    {
        bps < 10_000
    }

    /// Whether a winners cap is between 1 and `MAX_WINNERS`.
    pub fn validate_max_winners_cap(max_winners_cap: u32) -> (r: bool)
        ensures
            r <==> 0 < max_winners_cap <= MAX_WINNERS,
    {
        max_winners_cap > 0 && max_winners_cap <= MAX_WINNERS as u32
    }

    /// The most winners this config allows for a lottery with
    /// `participants_count` participants.
    pub fn effective_max_winners(&self, participants_count: u64) -> (r: u64)
        ensures
            r == effective_max_winners_of(self.max_winners_cap, participants_count),
            1 <= r <= MAX_WINNERS,
            participants_count > 1 ==> r <= participants_count - 1,
    {
        if participants_count <= 1 {
            return 1;
        }
        let cap: u64 = self.max_winners_cap as u64;
        let capped: u64 = if cap < MAX_WINNERS as u64 { cap } else { MAX_WINNERS as u64 };
        let configured: u64 = if capped < 1 { 1 } else { capped };
        let others: u64 = participants_count - 1;
        if configured < others { configured } else { others }
    }

    /// Advances the lottery counter and returns the new lottery id;
    /// `MathOverflow` (counter unchanged) when the counter is at `u64::MAX`.
    pub fn next_lottery_id(&mut self) -> (r: Result<u64, Error>)
        ensures
            old(self).lottery_count < u64::MAX ==> {
                &&& r == Ok::<u64, Error>((old(self).lottery_count + 1) as u64)
                &&& *final(self) == Config { lottery_count: (old(self).lottery_count + 1) as u64, ..*old(self) }
            },
            old(self).lottery_count == u64::MAX ==> {
                &&& r == Err::<u64, Error>(Error::MathOverflow)
                &&& *final(self) == *old(self)
            },
    {
        match self.lottery_count.checked_add(1) {
            Some(v) => {
                self.lottery_count = v;
                Ok(v)
            },
            None => Err(Error::MathOverflow),
        }
    }
}

} // verus!
