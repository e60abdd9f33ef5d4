//! Consensus-search core of a small proof-of-work ledger node: canonical
//! encodings of blocks and transactions, the difficulty codec and adjuster,
//! the decision logic of the mining workers and their manager, and the
//! parsing of RSA keys and peer addresses around them.

pub mod block_struct;
pub mod difficulty;
pub mod key_parser;
pub mod miner;
pub mod net_address;
pub mod tx;
pub mod tx_struct;
pub mod util;
pub mod wallet_struct;
