use daily_lottery::address::Address;
use daily_lottery::error::Error;
use daily_lottery::utils::validation::{
    checked_add, checked_mul, compute_service_fee, require_key_match, require_signer,
    require_time_in_window, require_writable, validate_proof_hash_match, validate_service_charge,
    validate_sufficient_lamports, validate_ticket_count, validate_time_window_order,
};
use solana_program::pubkey::Pubkey;

fn unique() -> Address {
    Address::new_from_array(Pubkey::new_unique().to_bytes())
}

#[test]
fn test_require_signer() {
    assert!(require_signer(true).is_ok());
    assert!(require_signer(false).is_err());
    assert_eq!(require_signer(false), Err(Error::Unauthorized));
}

#[test]
fn test_require_key_match() {
    let key1 = unique();
    let key2 = unique();

    assert!(require_key_match(&key1, &key1).is_ok());
    assert!(require_key_match(&key1, &key2).is_err());
}

#[test]
fn writable_is_required() {
    assert!(require_writable(true).is_ok());
    assert_eq!(require_writable(false), Err(Error::InvalidInstruction));
}

#[test]
fn test_validate_ticket_count() {
    assert!(validate_ticket_count(1).is_ok());
    assert!(validate_ticket_count(100).is_ok());
    assert!(validate_ticket_count(0).is_err());
    assert_eq!(validate_ticket_count(0), Err(Error::InvalidTicketCount));
}

#[test]
fn validation_test_validate_service_charge() {
    assert!(validate_service_charge(0).is_ok());
    assert!(validate_service_charge(500).is_ok());
    assert!(validate_service_charge(9999).is_ok());
    assert!(validate_service_charge(10000).is_err());
    assert!(validate_service_charge(15000).is_err());
}

#[test]
fn test_compute_service_fee() {
    let fee = compute_service_fee(10_000, 250).unwrap();
    assert_eq!(fee, 250);

    let fee_max = compute_service_fee(u64::MAX, 9999).unwrap();
    assert!(fee_max <= u64::MAX);
}

#[test]
fn service_fee_rounds_down_and_reports_overflow() {
    assert_eq!(compute_service_fee(1_999, 500), Ok(99));
    assert_eq!(compute_service_fee(u64::MAX, 9999), Ok(((u64::MAX as u128 * 9999) / 10_000) as u64));
    assert_eq!(compute_service_fee(u64::MAX, 20_000), Err(Error::MathOverflow));
}

#[test]
fn test_validate_time_window_order() {
    assert!(validate_time_window_order(100, 200).is_ok());
    assert!(validate_time_window_order(200, 100).is_err());
    assert!(validate_time_window_order(100, 100).is_err());
}

#[test]
fn time_inside_window_includes_both_ends() {
    assert!(require_time_in_window(100, 100, 200).is_ok());
    assert!(require_time_in_window(200, 100, 200).is_ok());
    assert_eq!(require_time_in_window(99, 100, 200), Err(Error::OutsideTimeWindow));
    assert_eq!(require_time_in_window(201, 100, 200), Err(Error::OutsideTimeWindow));
}

#[test]
fn test_validate_proof_hash_match() {
    let hash1 = [1u8; 32];
    let hash2 = [2u8; 32];

    assert!(validate_proof_hash_match(&hash1, &hash1).is_ok());
    assert!(validate_proof_hash_match(&hash1, &hash2).is_err());
}

#[test]
fn test_validate_sufficient_lamports() {
    assert!(validate_sufficient_lamports(1000, 500).is_ok());
    assert!(validate_sufficient_lamports(1000, 1000).is_ok());
    assert!(validate_sufficient_lamports(1000, 1500).is_err());
}

#[test]
fn test_checked_math() {
    assert_eq!(checked_add(100, 200).unwrap(), 300);
    assert_eq!(checked_mul(10, 20).unwrap(), 200);

    assert!(checked_add(u64::MAX, 1).is_err());
    assert!(checked_mul(u64::MAX, 2).is_err());
}
