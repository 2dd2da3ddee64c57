//! Storage of portfolio data (assets, price tickers, quotes and ledger
//! transactions) behind a backend-independent contract, with the row codec
//! for transactions and the rule that picks the applicable quote of an asset.

pub mod codec;
pub mod handler;
pub mod memory;
pub mod model;
pub mod resolver;
pub mod table;
pub mod time;
