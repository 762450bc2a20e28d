use vstd::prelude::*;
use ethers_core::types::{H160, H256, U256, U64};

verus! {

/// How many of the latest blocks, and of the latest block's transactions, a recent
/// view shows.
pub const RECENT_COUNT: u64 = 10;

/// How many blocks before the chain head a default history download starts.
pub const HISTORY_SPAN: u64 = 500;

/// A transaction in canonical form.
#[derive(Debug)]
pub struct EthTransaction {
    pub hash: H256,
    pub from: H160,
    /// Absent for a contract creation.
    pub to: Option<H160>,
    pub value: U256,
    /// Absent for some transaction types.
    pub gas_price: Option<U256>,
    pub gas: U256,
}

/// A block in canonical form. Its number is the store's key.
#[derive(Debug)]
pub struct EthBlocks {
    pub number: Option<U64>,
    pub hash: Option<H256>,
    pub miner_author: Option<H160>,
    pub timestamp: U256,
    /// The number of transactions the block holds on chain, also when `transactions`
    /// was left empty.
    pub transaction_number: u64,
    /// The block's transactions in on-chain order, or none for a header-only record.
    pub transactions: Vec<EthTransaction>,
}

/// The transactions of a block as the provider hands them over: their hashes only, or
/// whole.
pub enum RawTransactions {
    Hashes(Vec<H256>),
    Full(Vec<EthTransaction>),
}

/// A block as the provider hands it over.
pub struct RawBlock {
    pub number: Option<U64>,
    pub hash: Option<H256>,
    pub author: Option<H160>,
    pub timestamp: U256,
    pub transactions: RawTransactions,
}

/// The number of transactions in a raw block, whichever shape they come in.
pub open spec fn raw_count(t: RawTransactions) -> nat {
    match t {
        RawTransactions::Hashes(v) => v@.len(),
        RawTransactions::Full(v) => v@.len(),
    }
}

/// The transactions a normalised record keeps: the whole list when they came whole and
/// are asked for, none otherwise.
pub open spec fn kept_transactions(t: RawTransactions, keep_transactions: bool) -> Seq<
    EthTransaction,
> {
    match t {
        RawTransactions::Full(v) => if keep_transactions {
            v@
        } else {
            Seq::empty()
        },
        RawTransactions::Hashes(_) => Seq::empty(),
    }
}

impl EthBlocks {
    /// Builds the canonical record of `raw`: number, hash, author and timestamp are
    /// copied, the count is that of the raw transaction list, and the transactions are
    /// kept only when they came whole and `keep_transactions` is set.
    pub fn normalize(raw: RawBlock, keep_transactions: bool) -> (r: EthBlocks)
        requires
            raw_count(raw.transactions) <= u64::MAX,
        ensures
            r.number == raw.number,
            r.hash == raw.hash,
            r.miner_author == raw.author,
            r.timestamp == raw.timestamp,
            r.transaction_number == raw_count(raw.transactions),
            r.transactions@ == kept_transactions(raw.transactions, keep_transactions),
    {
        let (transaction_number, transactions) = match raw.transactions {
            RawTransactions::Hashes(v) => (v.len() as u64, Vec::new()),
            RawTransactions::Full(v) => {
                let n = v.len() as u64;
                if keep_transactions {
                    (n, v)
                } else {
                    (n, Vec::new())
                }
            },
        };
        EthBlocks {
            number: raw.number,
            hash: raw.hash,
            miner_author: raw.author,
            timestamp: raw.timestamp,
            transaction_number,
            transactions,
        }
    }
}

/// The inclusive range of the `count` latest block numbers up to `latest`, cut at zero.
pub fn recent_range(latest: u64, count: u64) -> (r: (u64, u64))
    requires
        count >= 1,
    ensures
        r.1 == latest,
        r.0 == if latest + 1 >= count {
            latest + 1 - count
        } else {
            0
        },
{
    if latest >= count - 1 {
        (latest - (count - 1), latest)
    } else {
        (0, latest)
    }
}

/// The first `limit` transactions of `txs`, or all of them when there are fewer.
pub fn first_transactions(txs: Vec<EthTransaction>, limit: usize) -> (r: Vec<EthTransaction>)
    ensures
        r@ == txs@.take(if limit < txs@.len() {
            limit as int
        } else {
            txs@.len() as int
        }),
{
    let mut txs = txs;
    if limit < txs.len() {
        txs.truncate(limit);
    }
    txs
}

} // verus!
