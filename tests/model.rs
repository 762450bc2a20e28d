use eth_ingest::model::{
    first_transactions, recent_range, EthBlocks, EthTransaction, RawBlock, RawTransactions,
};
use ethers_core::types::{H160, H256, U256, U64};

fn tx(i: u64) -> EthTransaction {
    EthTransaction {
        hash: H256::from_low_u64_be(i),
        from: H160::from_low_u64_be(i + 1),
        to: if i % 2 == 0 { Some(H160::from_low_u64_be(i + 2)) } else { None },
        value: U256::from(i * 10),
        gas_price: Some(U256::from(i)),
        gas: U256::from(21000u64),
    }
}

fn raw(transactions: RawTransactions) -> RawBlock {
    RawBlock {
        number: Some(U64::from(17u64)),
        hash: Some(H256::from_low_u64_be(99)),
        author: Some(H160::from_low_u64_be(7)),
        timestamp: U256::from(1_700_000_000u64),
        transactions,
    }
}

#[test]
fn header_only_keeps_the_true_count() {
    let hashes = vec![H256::from_low_u64_be(1), H256::from_low_u64_be(2), H256::from_low_u64_be(3)];
    let b = EthBlocks::normalize(raw(RawTransactions::Hashes(hashes)), true);
    assert_eq!(b.transaction_number, 3);
    assert!(b.transactions.is_empty());
    assert_eq!(b.number, Some(U64::from(17u64)));
    assert_eq!(b.hash, Some(H256::from_low_u64_be(99)));
    assert_eq!(b.miner_author, Some(H160::from_low_u64_be(7)));
    assert_eq!(b.timestamp, U256::from(1_700_000_000u64));
}

#[test]
fn full_block_keeps_transactions_in_order() {
    let b = EthBlocks::normalize(raw(RawTransactions::Full(vec![tx(0), tx(1), tx(2)])), true);
    assert_eq!(b.transaction_number, 3);
    assert_eq!(b.transactions.len(), 3);
    for (i, t) in b.transactions.iter().enumerate() {
        assert_eq!(t.hash, H256::from_low_u64_be(i as u64));
        assert_eq!(t.value, U256::from(i as u64 * 10));
    }
    assert_eq!(b.transactions[1].to, None);
}

#[test]
fn full_block_without_transactions_asked() {
    let b = EthBlocks::normalize(raw(RawTransactions::Full(vec![tx(0), tx(1)])), false);
    assert_eq!(b.transaction_number, 2);
    assert!(b.transactions.is_empty());
}

#[test]
fn empty_block_has_zero_count() {
    let b = EthBlocks::normalize(raw(RawTransactions::Full(vec![])), true);
    assert_eq!(b.transaction_number, 0);
    assert!(b.transactions.is_empty());
}

#[test]
fn recent_range_of_ten() {
    assert_eq!(recent_range(100, 10), (91, 100));
    assert_eq!(recent_range(9, 10), (0, 9));
    assert_eq!(recent_range(5, 10), (0, 5));
    assert_eq!(recent_range(1000, 501), (500, 1000));
}

#[test]
fn first_ten_transactions() {
    let txs: Vec<EthTransaction> = (0..15).map(tx).collect();
    let r = first_transactions(txs, 10);
    assert_eq!(r.len(), 10);
    assert_eq!(r[9].hash, H256::from_low_u64_be(9));
    let few = first_transactions(vec![tx(0), tx(1), tx(2)], 10);
    assert_eq!(few.len(), 3);
}
