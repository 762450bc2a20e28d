use eth_ingest::fixed::{gas_quote, u256_from_u64, usd_value};
use ethers_core::types::U256;

#[test]
fn one_native_unit_at_two_hundred_dollars() {
    let wei = U256::from_dec_str("1000000000000000000").unwrap();
    let price = U256::from(200_00000000u64);
    let s = usd_value(wei, price);
    assert_eq!(s, "200.00000000");
    let f: f64 = s.parse().unwrap();
    assert!((f - 200.0).abs() < 1e-9);
}

#[test]
fn small_amount_keeps_precision() {
    // one gwei at $200: dividing first would give zero
    let s = usd_value(U256::from(1_000_000_000u64), U256::from(200_00000000u64));
    assert_eq!(s, "0.00000020");
}

#[test]
fn zero_amount_is_zero_dollars() {
    assert_eq!(usd_value(U256::zero(), U256::from(200_00000000u64)), "0.00000000");
}

#[test]
fn large_amount_beyond_u64() {
    // 1000 native units at $1234.56789012
    let wei = U256::from_dec_str("1000000000000000000000").unwrap();
    let s = usd_value(wei, U256::from(1234_56789012u64));
    assert_eq!(s, "1234567.89012000");
}

#[test]
fn quote_for_twenty_gwei_at_two_thousand_dollars() {
    let q = gas_quote(U256::from(20_000_000_000u64), U256::from(2000_00000000u64));
    assert_eq!(q.gwei, "20.000000000");
    assert_eq!(q.usd_per_gas, "0.00004000");
    assert_eq!(q.transfer_usd, "0.84000000");
}

#[test]
fn quote_truncates_per_gas_before_transfer() {
    // 1 wei at $1.5: per-gas cost truncates to zero, and so does the transfer cost
    let q = gas_quote(U256::from(1u64), U256::from(1_50000000u64));
    assert_eq!(q.gwei, "0.000000001");
    assert_eq!(q.usd_per_gas, "0.00000000");
    assert_eq!(q.transfer_usd, "0.00000000");
}

#[test]
fn u256_from_small_value() {
    assert_eq!(u256_from_u64(12345), U256::from(12345u64));
}
