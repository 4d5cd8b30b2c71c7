//! Escrow marketplace: sealed listings of assets that are swapped atomically
//! against a buyer's staged bucket.
//!
//! The ledger arithmetic, the indexed listing store, the marketplace
//! operations and the laws that relate them are verified by Verus. The
//! modules, leaf first:
//!
//! - `addr`, `coin`, `balance`, `balance_eq`, `balance_laws`: identities and
//!   the balance ledger, its merge, its comparison and the laws of the merge;
//! - `storage`, `state`: the single-key table, the listing store with its
//!   index by id, and the records;
//! - `encoding`, `response`, `utils`: the outbound instructions, the
//!   protocol fee, the ask and the whitelist;
//! - `model`, `execute`, `contract`, `query`: what each operation does, the
//!   operations, the dispatch of requests, and the reports;
//! - `laws`, `invariants`: what holds of the operations together.

pub mod addr;
pub mod balance;
pub mod balance_eq;
pub mod balance_laws;
pub mod coin;
pub mod contract;
pub mod encoding;
pub mod error;
pub mod execute;
pub mod invariants;
pub mod laws;
pub mod model;
pub mod msg;
pub mod query;
pub mod response;
pub mod state;
pub mod storage;
pub mod utils;

pub use crate::error::ContractError;
