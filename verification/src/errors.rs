//! Failure outcomes of the ledger's operations. Every failure is reported as
//! a value carrying the context needed to diagnose it; nothing panics.
use vstd::prelude::*;

verus! {

/// Why executing a single transaction against the world state failed.
#[derive(Debug, Clone, Copy, PartialEq, Eq, Structural)]
pub enum ExecError {
    /// The sending identity does not resolve to an account (outside genesis),
    /// or a transfer's sender is missing.
    SenderMissing,
    /// An account with the requested identity already exists.
    AccountAlreadyExists,
    /// Token creation was attempted outside the genesis block.
    TokenCreationOutsideGenesis,
    /// The receiving identity does not resolve to an account.
    ReceiverMissing,
    /// A transfer would underflow the sender's balance or overflow the
    /// receiver's balance.
    Overspent,
    /// The transaction kind is declared but its execution is not implemented.
    NotImplemented,
}

impl ExecError {
    /// A human-readable description of the failure.
    pub fn message(&self) -> (r: &'static str)
        ensures
            match self {
                ExecError::SenderMissing => r@ == "Account does not exist"@,
                ExecError::AccountAlreadyExists => r@ == "User already exists!"@,
                ExecError::TokenCreationOutsideGenesis => r@
                    == "Token creation is only available on initial creation"@,
                ExecError::ReceiverMissing => r@ == "Receiver Account does not exist"@,
                ExecError::Overspent => r@ == "Overspent or Arithmetic error"@,
                ExecError::NotImplemented => r@ == "Unknown Transaction type (not implemented)"@,
            },
    {
        match self {
            ExecError::SenderMissing => "Account does not exist",
            ExecError::AccountAlreadyExists => "User already exists!",
            ExecError::TokenCreationOutsideGenesis => "Token creation is only available on initial creation",
            ExecError::ReceiverMissing => "Receiver Account does not exist",
            ExecError::Overspent => "Overspent or Arithmetic error",
            ExecError::NotImplemented => "Unknown Transaction type (not implemented)",
        }
    }
}

/// Why a block was rejected by `append_block`. A rejected block leaves the
/// ledger exactly as it was.
#[derive(Debug, Clone, Copy, PartialEq, Eq, Structural)]
pub enum AppendError {
    /// The block's `prev_hash` does not point at the current tip of the chain.
    BadLinkage,
    /// The block holds no transactions.
    EmptyBlock,
    /// A transaction failed; `index` is 1-based within the block, and the
    /// whole block was rolled back.
    Execution { index: usize, cause: ExecError },
}

/// Why `check_validity` rejected the chain. Block and transaction numbers
/// are 1-based, except in `PrevHashMismatch`, which reports the 0-based
/// position of the ill-linked block.
#[derive(Debug, Clone, PartialEq, Eq)]
pub enum ChainError {
    /// The stored hash of block number `block` differs from its recomputed
    /// content hash.
    HashMismatch { block: usize },
    /// The genesis block has a previous hash set.
    GenesisPrevHashSet,
    /// Block number `block` has no previous hash at all.
    MissingPrevHash { block: usize },
    /// The previous hash of the block at position `block` is not the stored
    /// hash of its predecessor; both hash strings are carried along.
    PrevHashMismatch { block: usize, expected: String, actual: String },
    /// Transaction number `transaction` of block number `block` declares
    /// itself signed but its signature does not verify.
    InvalidSignature { block: usize, transaction: usize },
}

} // verus!
