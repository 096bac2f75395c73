//! A minimal append-only ledger: hash-linked blocks of transactions that
//! deterministically mutate an account-balance state, with block-level
//! atomicity and whole-chain integrity auditing.
pub mod account;
pub mod block;
pub mod errors;
pub mod transaction;
pub mod world;
pub mod hashes;
pub mod ledger;

pub use account::Account;
pub use account::AccountType;
pub use block::Block;
pub use errors::AppendError;
pub use ledger::Blockchain;
pub use errors::ChainError;
pub use errors::ExecError;
pub use hashes::byte_vector_to_string;
pub use transaction::Transaction;
pub use transaction::TransactionData;
pub use world::AccountMap;
pub use world::WorldState;
