//! Input and state validation used by the lottery's operations.
//!
//! Each check returns `Ok` exactly when its condition holds and otherwise the
//! one error that the program reports for it.  Checks that the program makes
//! on accounts take the plain values that they read from the account (its
//! signer and writable flags, its key, its balance).
use vstd::prelude::*;
use crate::address::Address;
use crate::error::Error;

verus! {

/// Basis points that make up 100%.
pub const BPS_DENOMINATOR: u64 = 10_000;

/// The service fee charged on `total_funds` at `bps` basis points, rounded
/// down.
pub open spec fn service_fee_of(total_funds: u64, bps: u16) -> int {
    (total_funds as int * bps as int) / 10_000
}

/// Fails with `Unauthorized` unless the account signed the transaction.
pub fn require_signer(is_signer: bool) -> (r: Result<(), Error>)
    ensures
        r == (if is_signer { Ok(()) } else { Err::<(), Error>(Error::Unauthorized) }),
{
    if !is_signer {
        return Err(Error::Unauthorized);
    }
    Ok(())
}

/// Fails with `InvalidAccountData` unless `key` is `expected`.
pub fn require_key_match(key: &Address, expected: &Address) -> (r: Result<(), Error>)
    ensures
        r == (if key.bytes@ == expected.bytes@ {
            Ok(())
        } else {
            Err::<(), Error>(Error::InvalidAccountData)
        }),
{
    if !key.equals(expected) {
        return Err(Error::InvalidAccountData);
    }
    Ok(())
}

/// Fails with `InvalidTicketCount` when no ticket is asked for.
pub fn validate_ticket_count(count: u64) -> (r: Result<(), Error>)
    ensures
        r == (if count == 0 { Err::<(), Error>(Error::InvalidTicketCount) } else { Ok(()) }),
{
    if count == 0 {
        return Err(Error::InvalidTicketCount);
    }
    Ok(())
}

/// Fails with `InvalidServiceCharge` unless the rate is below 100%.
pub fn validate_service_charge(bps: u16) -> (r: Result<(), Error>)
    ensures
        r == (if bps >= 10_000 { Err::<(), Error>(Error::InvalidServiceCharge) } else { Ok(()) }),
{
    if bps >= 10_000 {
        return Err(Error::InvalidServiceCharge);
    }
    Ok(())
}

/// The service fee `total_funds * bps / 10_000` (rounded down, computed
/// without intermediate overflow); `MathOverflow` when it does not fit a
/// `u64`.
pub fn compute_service_fee(total_funds: u64, bps: u16) -> (r: Result<u64, Error>)
    ensures
        service_fee_of(total_funds, bps) <= u64::MAX ==> r == Ok::<u64, Error>(
            service_fee_of(total_funds, bps) as u64,
        ),
        service_fee_of(total_funds, bps) > u64::MAX ==> r == Err::<u64, Error>(Error::MathOverflow),
{
    assert(total_funds as int * bps as int <= u64::MAX as int * u16::MAX as int) by (nonlinear_arith);
    let product: u128 = (total_funds as u128) * (bps as u128);
    let fee: u128 = product / 10_000u128;
    if fee > u64::MAX as u128 {
        return Err(Error::MathOverflow);
    }
    Ok(fee as u64)
}

/// A fee charged at a valid rate (below 100%) never exceeds the funds it is
/// charged on, so it always fits and leaves the rest for the winners.
pub proof fn lemma_service_fee_within_funds(total_funds: u64, bps: u16)
    requires
        bps < 10_000,
    ensures
        0 <= service_fee_of(total_funds, bps) <= total_funds,
{
    assert(0 <= total_funds as int * bps as int <= total_funds as int * 10_000) by (nonlinear_arith)
        requires
            bps < 10_000,
    ;
}

/// Fails with `OutsideTimeWindow` unless `start <= current_time <= end`.
pub fn require_time_in_window(current_time: i64, start: i64, end: i64) -> (r: Result<(), Error>)
    ensures
        r == (if current_time < start || current_time > end {
            Err::<(), Error>(Error::OutsideTimeWindow)
        } else {
            Ok(())
        }),
{
    if current_time < start || current_time > end {
        return Err(Error::OutsideTimeWindow);
    }
    Ok(())
}

/// Fails with `InvalidUploadWindow` unless the window ends after it starts.
pub fn validate_time_window_order(start_time: i64, end_time: i64) -> (r: Result<(), Error>)
    ensures
        r == (if end_time <= start_time {
            Err::<(), Error>(Error::InvalidUploadWindow)
        } else {
            Ok(())
        }),
{
    if end_time <= start_time {
        return Err(Error::InvalidUploadWindow);
    }
    Ok(())
}

/// Fails with `ProofHashMismatch` unless the two hashes are equal.
pub fn validate_proof_hash_match(stored_hash: &[u8; 32], provided_hash: &[u8; 32]) -> (r: Result<(), Error>)
    ensures
        r == (if stored_hash@ == provided_hash@ {
            Ok(())
        } else {
            Err::<(), Error>(Error::ProofHashMismatch)
        }),
{
    if !crate::address::bytes32_eq(stored_hash, provided_hash) {
        return Err(Error::ProofHashMismatch);
    }
    Ok(())
}

/// Fails with `InsufficientFunds` when the balance is below what is needed.
pub fn validate_sufficient_lamports(lamports: u64, required_lamports: u64) -> (r: Result<(), Error>)
    ensures
        r == (if lamports < required_lamports {
            Err::<(), Error>(Error::InsufficientFunds)
        } else {
            Ok(())
        }),
{
    if lamports < required_lamports {
        return Err(Error::InsufficientFunds);
    }
    Ok(())
}

/// `a + b`, or `MathOverflow` when the sum does not fit a `u64`.
pub fn checked_add(a: u64, b: u64) -> (r: Result<u64, Error>)
    ensures
        a + b <= u64::MAX ==> r == Ok::<u64, Error>((a + b) as u64),
        a + b > u64::MAX ==> r == Err::<u64, Error>(Error::MathOverflow),
{
    match a.checked_add(b) {
        Some(v) => Ok(v),
        None => Err(Error::MathOverflow),
    }
}

/// `a * b`, or `MathOverflow` when the product does not fit a `u64`.
pub fn checked_mul(a: u64, b: u64) -> (r: Result<u64, Error>)
    ensures
        a * b <= u64::MAX ==> r == Ok::<u64, Error>((a * b) as u64),
        a * b > u64::MAX ==> r == Err::<u64, Error>(Error::MathOverflow),
{
    match a.checked_mul(b) {
        Some(v) => Ok(v),
        None => Err(Error::MathOverflow),
    }
}

/// Fails with `InvalidInstruction` unless the account is writable.
pub fn require_writable(is_writable: bool) -> (r: Result<(), Error>)
    ensures
        r == (if is_writable { Ok(()) } else { Err::<(), Error>(Error::InvalidInstruction) }),
{
    if !is_writable {
        return Err(Error::InvalidInstruction);
    }
    Ok(())
}

} // verus!
