//! An append-only, hash-linked ledger of accounts and transferable assets.
//!
//! Every state change (account creation, asset minting, asset transfer) is
//! sealed into a block and appended to the chain; the account and asset
//! tables are the result of applying the chain's transactions in order.

pub mod block;
pub mod blockchain;
pub mod canon;
pub mod chain;
pub mod clock;
pub mod digest;
pub mod invariants;
pub mod ledger;
pub mod model;
pub mod state;
pub mod text;
