use vstd::prelude::*;

verus! {

/// Why a single transaction cannot be applied to the ledger.
#[derive(Debug, Clone, Copy, PartialEq, Eq, Structural)]
pub enum TxError {
    /// The transaction's nonce is not the sender's current nonce.
    InvalidNonce,
    /// The sender's balance is smaller than the transferred amount.
    InsufficientBalance,
    /// Applying the transfer would push the receiver's balance or the
    /// sender's nonce past the largest representable value.
    Overflow,
}

/// Why a block cannot be applied to the world state.
#[derive(Debug, Clone, Copy, PartialEq, Eq, Structural)]
pub enum BlockError {
    /// The block does not extend the last applied block.
    StaleOrForkedBlock,
    /// A transaction in the block failed, and the whole block with it.
    Transaction(TxError),
}

/// Why the chain rejects a submitted block or transaction.
#[derive(Debug, Clone, Copy, PartialEq, Eq, Structural)]
pub enum ChainError {
    /// The consensus engine refused the block (wrong proposer or phase).
    ConsensusRejected,
    /// The block's previous hash is not the current head.
    ForkMismatch,
    /// The world state refused the block.
    Ledger(BlockError),
    /// The transaction's signature does not validate its signed fields.
    InvalidSignature,
    /// The sender's current balance cannot cover the transfer.
    InsufficientBalance,
    /// The same transfer (by its signed fields) is already pending.
    DuplicateTransaction,
    /// No validator is registered, so no proposer can be scheduled.
    NoActiveValidators,
}

} // verus!
