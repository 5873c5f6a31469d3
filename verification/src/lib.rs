//! Verified core of a Solana wallet tracker: decoding RPC replies into
//! balances and token transfers, and the decisions of the background
//! synchronisation worker.

pub mod amount;
pub mod client;
pub mod common;
pub mod external;
pub mod parser;
pub mod sync;
pub mod worker;
