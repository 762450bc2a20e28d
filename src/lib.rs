//! Ingestion of ledger history: a crawl over a range of block numbers that asks the store
//! before it fetches and retries a failed fetch a bounded number of times, the canonical
//! block and transaction records, and the fixed-point conversion of a gas price to USD.
pub mod words;
pub mod model;
pub mod fixed;
pub mod crawl;
pub mod run;
