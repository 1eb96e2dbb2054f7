//! Cell records with their byte encodings, and transactions built out of them against
//! a verification context of the chain.
//!
//! `molecule` holds the two layouts of the encoding, `cell_message` the capability that
//! every cell record has, `cells` the records, `fixture` the transaction as plain
//! values, `context` the calls into the chain's verification context,
//! `contract_util` the builder that puts cells into a transaction, and `test_env` the
//! build variants of the contracts.

pub mod cell_message;
pub mod cells;
pub mod context;
pub mod contract_util;
pub mod fixture;
pub mod molecule;
pub mod test_env;
