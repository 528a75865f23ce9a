use daily_lottery::address::Address;
use daily_lottery::utils::account::validate_account_discriminator;
use daily_lottery::utils::crypto::{
    aggregate_hashes, compute_reveal_digest, discriminator, select_winning_ticket,
    xor_reveal_digests,
};
use sha2::{Digest, Sha256};
use solana_program::pubkey::Pubkey;

fn unique() -> Address {
    Address::new_from_array(Pubkey::new_unique().to_bytes())
}

#[test]
fn test_aggregate_hashes_empty() {
    let empty: Vec<[u8; 32]> = vec![];
    let result = aggregate_hashes(&empty);
    let expected = Sha256::new().finalize();
    assert_eq!(result[..], expected[..]);
}

#[test]
fn test_aggregate_hashes_single() {
    let input = [1u8; 32];
    let result = aggregate_hashes(&[input]);
    let mut hasher = Sha256::new();
    hasher.update(input);
    let expected = hasher.finalize();
    assert_eq!(result[..], expected[..]);
}

#[test]
fn test_aggregate_hashes_multiple() {
    let inputs = [[1u8; 32], [2u8; 32], [3u8; 32]];
    let result = aggregate_hashes(&inputs);

    let result2 = aggregate_hashes(&inputs);
    assert_eq!(result, result2);

    let inputs_reversed = [[3u8; 32], [2u8; 32], [1u8; 32]];
    let result_reversed = aggregate_hashes(&inputs_reversed);
    assert_ne!(result, result_reversed);
}

#[test]
fn aggregate_hashes_is_the_digest_of_the_concatenation() {
    let inputs = [[4u8; 32], [5u8; 32]];
    let mut joined = Vec::new();
    joined.extend_from_slice(&inputs[0]);
    joined.extend_from_slice(&inputs[1]);
    let expected = Sha256::digest(&joined);
    assert_eq!(aggregate_hashes(&inputs)[..], expected[..]);
}

#[test]
fn crypto_reveal_digest_is_deterministic() {
    let wallet = unique();
    let plaintext = b"cool\x1f0123";
    let d1 = compute_reveal_digest(&wallet, plaintext);
    let d2 = compute_reveal_digest(&wallet, plaintext);
    assert_eq!(d1, d2);
}

#[test]
fn crypto_reveal_digest_changes_with_wallet_or_plaintext() {
    let wallet_a = unique();
    let wallet_b = unique();
    let d1 = compute_reveal_digest(&wallet_a, b"hello\x1fabcd");
    let d2 = compute_reveal_digest(&wallet_a, b"hello!\x1fabcd");
    let d3 = compute_reveal_digest(&wallet_b, b"hello\x1fabcd");
    assert_ne!(d1, d2);
    assert_ne!(d1, d3);
}

#[test]
fn reveal_digest_hashes_domain_wallet_length_and_plaintext() {
    let wallet = unique();
    let plaintext = b"abc\x1fsalt";
    let domain: &[u8] = b"IKIGAI_RPD_V2_REVEAL";
    let len = (plaintext.len() as u32).to_le_bytes();
    let expected = solana_sha256_hasher::hashv(&[domain, &wallet.bytes, &len, plaintext]).to_bytes();
    assert_eq!(compute_reveal_digest(&wallet, plaintext), expected);
}

#[test]
fn xor_reveal_digest_is_order_independent() {
    let wallet_a = unique();
    let wallet_b = unique();
    let d1 = compute_reveal_digest(&wallet_a, b"one\x1faaaa");
    let d2 = compute_reveal_digest(&wallet_b, b"two\x1fbbbb");
    let left = xor_reveal_digests([0u8; 32], &[d1, d2]);
    let right = xor_reveal_digests([0u8; 32], &[d2, d1]);
    assert_eq!(left, right);
    assert_ne!(left, [0u8; 32]);
}

#[test]
fn upload_reveals_reveal_digest_is_deterministic() {
    let wallet = unique();
    let plaintext = b"cool\x1f0123";
    let d1 = compute_reveal_digest(&wallet, plaintext);
    let d2 = compute_reveal_digest(&wallet, plaintext);
    assert_eq!(d1, d2);
}

#[test]
fn upload_reveals_reveal_digest_changes_with_wallet_or_plaintext() {
    let wallet_a = unique();
    let wallet_b = unique();
    let d1 = compute_reveal_digest(&wallet_a, b"hello\x1fabcd");
    let d2 = compute_reveal_digest(&wallet_a, b"hello!\x1fabcd");
    let d3 = compute_reveal_digest(&wallet_b, b"hello\x1fabcd");
    assert_ne!(d1, d2);
    assert_ne!(d1, d3);
}

#[test]
fn xor_accumulator_is_order_independent() {
    let wallet_a = unique();
    let wallet_b = unique();
    let d1 = compute_reveal_digest(&wallet_a, b"one\x1faaaa");
    let d2 = compute_reveal_digest(&wallet_b, b"two\x1fbbbb");
    let left = xor_reveal_digests([0u8; 32], &[d1, d2]);
    let right = xor_reveal_digests([0u8; 32], &[d2, d1]);
    assert_eq!(left, right);
}

#[test]
fn xor_accumulator_batches_compose() {
    let d1 = [0x0fu8; 32];
    let d2 = [0xf1u8; 32];
    let d3 = [0x33u8; 32];
    let initial = [0x5au8; 32];
    let all = xor_reveal_digests(initial, &[d1, d2, d3]);
    let first = xor_reveal_digests(initial, &[d1]);
    let then = xor_reveal_digests(first, &[d3, d2]);
    assert_eq!(all, then);
    assert_eq!(all, [0x5a ^ 0x0f ^ 0xf1 ^ 0x33; 32]);
}

#[test]
fn test_select_winning_ticket_zero_tickets() {
    let entropy = [0u8; 32];
    let result = select_winning_ticket(entropy, 0);
    assert_eq!(result, 0);
}

#[test]
fn test_select_winning_ticket_single() {
    let entropy = [255u8; 32];
    let result = select_winning_ticket(entropy, 1);
    assert_eq!(result, 0);
}

#[test]
fn test_select_winning_ticket_multiple() {
    let entropy = [
        1, 0, 0, 0, 0, 0, 0, 0, 0, 0, 0, 0, 0, 0, 0, 0, 0, 0, 0, 0, 0, 0, 0, 0, 0, 0, 0, 0, 0, 0,
        0, 0,
    ];
    let result = select_winning_ticket(entropy, 10);
    assert_eq!(result, 1);

    let result = select_winning_ticket(entropy, 1);
    assert_eq!(result, 0);
}

#[test]
fn test_select_winning_ticket_large() {
    let entropy = [255u8; 32];
    let total_tickets = 1_000_000;
    let result = select_winning_ticket(entropy, total_tickets);
    assert!(result < total_tickets);
    assert_eq!(result as u128, u128::MAX % 1_000_000);
}

#[test]
fn test_discriminator() {
    let disc1 = discriminator("Config");
    let disc2 = discriminator("Lottery");
    let disc3 = discriminator("Config");

    assert_eq!(disc1, disc3);
    assert_ne!(disc1, disc2);
    assert_eq!(disc1.len(), 8);
}

#[test]
fn test_discriminator_anchor_compatibility() {
    let disc = discriminator("Config");
    assert_ne!(disc, [0u8; 8]);
    let disc2 = discriminator("Config");
    assert_eq!(disc, disc2);
}

#[test]
fn discriminator_is_the_prefix_of_the_account_digest() {
    let digest = Sha256::digest(b"account:Lottery");
    assert_eq!(discriminator("Lottery")[..], digest[..8]);
}

#[test]
fn test_validate_discriminator() {
    let mut data = vec![0u8; 100];
    data[..8].copy_from_slice(&discriminator("Config"));

    assert!(validate_account_discriminator(&data, "Config"));
    assert!(!validate_account_discriminator(&data, "Lottery"));
}

#[test]
fn short_account_data_has_no_discriminator() {
    let data = discriminator("Config");
    assert!(!validate_account_discriminator(&data[..7], "Config"));
    assert!(validate_account_discriminator(&data, "Config"));
}
