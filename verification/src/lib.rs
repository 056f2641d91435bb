use vstd::prelude::*;

pub mod block;
pub mod chain;
pub mod consensus;
pub mod dpos;
pub mod errors;
pub mod hash;
pub mod keys;
pub mod network;
pub mod pbft;
pub mod transaction;
pub mod world_state;

pub use crate::block::{Block, BlockHeader};
pub use crate::chain::Blockchain;
pub use crate::consensus::ConsensusManager;
pub use crate::dpos::DPoS;
pub use crate::errors::{BlockError, ChainError, TxError};
pub use crate::hash::Hashable;
pub use crate::keys::{verify_signature, KeyPair, PublicKey};
pub use crate::network::{MessageOutcome, NetworkMessage, PendingRequests};
pub use crate::pbft::PBFT;
pub use crate::transaction::Transaction;
pub use crate::world_state::{Account, WorldState};

verus! {

/// Whether the node has been asked to stop. No shutdown signal is wired up,
/// so the answer is always no; callers poll this from their main loop.
pub fn should_shutdown() -> (r: bool)
    ensures
        !r,
{
    false
}

} // verus!
