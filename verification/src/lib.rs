//! An in-memory payment ledger: wallets named by the public half of a
//! keypair, deposits, transfers authorised by the sender's secret, and the
//! log of the transfers that were applied.

pub mod amount;
pub mod clock;
pub mod error;
pub mod keys;
pub mod laws;
pub mod ledger;
pub mod menu;
pub mod model;
pub mod report;
pub mod trace;
