use vstd::prelude::*;

verus! {

use crate::block::{block_hash_of, Block};
use crate::chain::Blockchain;
use crate::hash::Hashable;
use crate::errors::ChainError;
use crate::keys::sig_valid;
use crate::transaction::{tx_message, Transaction};
use crate::world_state::apply_block_spec;

/// The four messages exchanged with peers; the transport only moves them.
#[derive(Debug)]
pub enum NetworkMessage {
    /// An inbound block proposal or gossip.
    NewBlock(Block),
    /// An inbound pending transaction.
    NewTransaction(Transaction),
    /// A request for the block with this hash.
    BlockRequest(crate::hash::Hash),
    /// The answer to an earlier request.
    BlockResponse(Block),
}

/// What the node must do after handling one inbound message.
#[derive(Debug)]
pub enum MessageOutcome {
    /// The block entered the chain: gossip it on to peers.
    BroadcastBlock(Block),
    /// The transaction entered the pool: gossip it on to peers.
    BroadcastTransaction(Transaction),
    /// A peer asked for a block the store holds: answer with it.
    SendBlockResponse(Block),
    /// A block this node had requested arrived: hand it to the waiter.
    DeliverBlock(Block),
    /// The message was rejected; log the error at the boundary and drop it.
    Rejected(ChainError),
    /// Nothing to do (unknown block asked for, or an unawaited response).
    Ignored,
}

/// The keys on the waiting list.
pub open spec fn request_views(s: Seq<crate::hash::Hash>) -> Seq<Seq<u8>> {
    Seq::new(s.len(), |i: int| s[i]@)
}

/// The index of `key` on the list (meaningful when unique).
pub open spec fn request_index(s: Seq<Seq<u8>>, key: Seq<u8>) -> int {
    choose|i: int| 0 <= i < s.len() && s[i] == key
}

/// The list with `key` taken off; an absent key leaves it untouched.
pub open spec fn remove_request(s: Seq<Seq<u8>>, key: Seq<u8>) -> Seq<Seq<u8>> {
    if s.contains(key) {
        s.remove(request_index(s, key))
    } else {
        s
    }
}

/// The block hashes this node has asked peers for and still awaits. An
/// arriving response is matched here and the entry released; a wait that
/// times out must release its entry too, so that no late response moves
/// abandoned state.
pub struct PendingRequests {
    hashes: Vec<crate::hash::Hash>,
}

impl View for PendingRequests {
    type V = Seq<Seq<u8>>;

    closed spec fn view(&self) -> Seq<Seq<u8>> {
        request_views(self.hashes@)
    }
}

impl PendingRequests {
    /// Each awaited hash is registered once.
    pub closed spec fn wf(&self) -> bool {
        forall|i: int, j: int| 0 <= i < j < self@.len() ==> self@[i] != self@[j]
    }

    /// No request is pending yet.
    pub fn new() -> (p: PendingRequests)
        ensures
            p.wf(),
            p@ == Seq::<Seq<u8>>::empty(),
    {
        let p = PendingRequests { hashes: Vec::new() };
        proof {
            assert(p@ =~= Seq::<Seq<u8>>::empty());
        }
        p
    }

    /// Whether a response for `hash` is awaited.
    pub fn contains(&self, hash: &crate::hash::Hash) -> (r: bool)
        ensures
            r == self@.contains(hash@),
    {
        let mut i: usize = 0;
        while i < self.hashes.len()
            invariant
                i <= self.hashes@.len(),
                forall|j: int| 0 <= j < i ==> self@[j] != hash@,
            decreases self.hashes@.len() - i,
        {
            if self.hashes[i] == *hash {
                proof {
                    assert(self@[i as int] == hash@);
                }
                return true;
            }
            i = i + 1;
        }
        proof {
            assert forall|j: int| 0 <= j < self@.len() implies self@[j] != hash@ by {}
        }
        false
    }

    /// Starts awaiting `hash`; asking again while it is pending is a no-op.
    pub fn register(&mut self, hash: crate::hash::Hash)
        requires
            old(self).wf(),
        ensures
            final(self).wf(),
            final(self)@ == if old(self)@.contains(hash@) {
                old(self)@
            } else {
                old(self)@.push(hash@)
            },
    {
        if !self.contains(&hash) {
            self.hashes.push(hash);
            proof {
                assert(self@ =~= request_views(old(self).hashes@).push(hash@));
                assert forall|i: int, j: int| 0 <= i < j < self@.len() implies self@[i]
                    != self@[j] by {
                    if j < self@.len() - 1 {
                        assert(self@[i] == old(self)@[i] && self@[j] == old(self)@[j]);
                    } else {
                        assert(self@[i] == old(self)@[i]);
                        assert(old(self)@.contains(old(self)@[i]));
                    }
                }
            }
        }
    }

    /// Stops awaiting `hash` — because its response arrived, or because the
    /// wait timed out and must release its entry. Says whether it was
    /// awaited.
    #[verifier::loop_isolation(false)]
    pub fn take(&mut self, hash: &crate::hash::Hash) -> (r: bool)
        requires
            old(self).wf(),
        ensures
            final(self).wf(),
            r == old(self)@.contains(hash@),
            final(self)@ == remove_request(old(self)@, hash@),
    {
        let mut i: usize = 0;
        while i < self.hashes.len()
            invariant
                i <= self.hashes@.len(),
                forall|j: int| 0 <= j < i ==> self@[j] != hash@,
                self.hashes == old(self).hashes,
            decreases self.hashes@.len() - i,
        {
            if self.hashes[i] == *hash {
                proof {
                    assert(self@[i as int] == hash@);
                    assert(old(self)@.contains(hash@));
                    let j = request_index(old(self)@, hash@);
                    assert(old(self)@[j] == hash@);
                    assert(j == i as int);
                }
                self.hashes.remove(i);
                proof {
                    assert(request_views(self.hashes@) =~= request_views(
                        old(self).hashes@,
                    ).remove(i as int));
                    assert forall|a: int, b: int| 0 <= a < b < self@.len() implies self@[a]
                        != self@[b] by {
                        if a < i as int {
                            assert(self@[a] == old(self)@[a]);
                        } else {
                            assert(self@[a] == old(self)@[a + 1]);
                        }
                        if b < i as int {
                            assert(self@[b] == old(self)@[b]);
                        } else {
                            assert(self@[b] == old(self)@[b + 1]);
                        }
                    }
                }
                return true;
            }
            i = i + 1;
        }
        proof {
            assert forall|j: int| 0 <= j < self@.len() implies self@[j] != hash@ by {}
            assert(!old(self)@.contains(hash@));
        }
        false
    }
}

/// Handles one inbound message against the chain, exactly as the chain's
/// own gates decide: an accepted block or transaction is handed back for
/// re-broadcast, a known requested block is answered, an awaited response
/// is matched (and its registration released) and delivered, and anything
/// rejected carries the chain's error out for boundary logging.
#[verifier::loop_isolation(false)]
pub fn handle_network_message(
    chain: &mut Blockchain,
    pending: &mut PendingRequests,
    message: NetworkMessage,
    now: u64,
) -> (outcome: MessageOutcome)
    requires
        old(chain).wf(),
        old(pending).wf(),
    ensures
        final(chain).wf(),
        final(pending).wf(),
        match message {
            NetworkMessage::NewBlock(b) => {
                &&& final(pending)@ == old(pending)@
                &&& (old(chain).accepts_proposal(b@) && b@.header.previous_hash == old(chain).head() && apply_block_spec(old(chain).state(), b@) is Ok) ==> (outcome matches
                    MessageOutcome::BroadcastBlock(bb) && bb@ == b@ && final(chain).head()
                    == block_hash_of(b@.header) && final(chain).state() == apply_block_spec(
                    old(chain).state(),
                    b@,
                )->Ok_0 && final(chain).store() == old(chain).store().insert(
                    block_hash_of(b@.header),
                    b@,
                ))
                &&& !old(chain).accepts_proposal(b@) ==> (outcome matches
                    MessageOutcome::Rejected(e) && e == ChainError::ConsensusRejected && old(chain).core_unchanged(*final(chain)))
                &&& (old(chain).accepts_proposal(b@) && b@.header.previous_hash != old(chain).head()) ==> (outcome matches MessageOutcome::Rejected(e) && e
                    == ChainError::ForkMismatch && old(chain).core_unchanged(*final(chain)))
                &&& (old(chain).accepts_proposal(b@) && b@.header.previous_hash == old(chain).head() && apply_block_spec(old(chain).state(), b@) is Err) ==> (outcome matches
                    MessageOutcome::Rejected(e) && e == ChainError::Ledger(
                    apply_block_spec(old(chain).state(), b@)->Err_0,
                ) && old(chain).core_unchanged(*final(chain)))
            },
            NetworkMessage::NewTransaction(t) => {
                &&& final(pending)@ == old(pending)@
                &&& old(chain).core_unchanged(*final(chain))
                &&& (sig_valid(t@.from, tx_message(t@), t@.signature) && crate::world_state::account_at(
                    old(chain).state().accounts,
                    t@.from,
                ).balance >= t@.amount && !crate::chain::pool_has_identity(
                    old(chain).mempool_view(),
                    t@,
                )) ==> (outcome matches MessageOutcome::BroadcastTransaction(tt) && tt@ == t@
                    && final(chain).mempool_view() == old(chain).mempool_view().push(t@))
                &&& !sig_valid(t@.from, tx_message(t@), t@.signature) ==> (outcome matches
                    MessageOutcome::Rejected(e) && e == ChainError::InvalidSignature && final(chain).mempool_view() == old(chain).mempool_view())
                &&& (sig_valid(t@.from, tx_message(t@), t@.signature)
                    && crate::world_state::account_at(old(chain).state().accounts, t@.from).balance
                    < t@.amount) ==> (outcome matches MessageOutcome::Rejected(e) && e
                    == ChainError::InsufficientBalance && final(chain).mempool_view() == old(chain).mempool_view())
                &&& (sig_valid(t@.from, tx_message(t@), t@.signature)
                    && crate::world_state::account_at(old(chain).state().accounts, t@.from).balance
                    >= t@.amount && crate::chain::pool_has_identity(
                    old(chain).mempool_view(),
                    t@,
                )) ==> (outcome matches MessageOutcome::Rejected(e) && e
                    == ChainError::DuplicateTransaction && final(chain).mempool_view() == old(chain).mempool_view())
            },
            NetworkMessage::BlockRequest(h) => {
                &&& final(pending)@ == old(pending)@
                &&& old(chain).core_unchanged(*final(chain))
                &&& final(chain).mempool_view() == old(chain).mempool_view()
                &&& old(chain).store().dom().contains(h@) ==> (outcome matches
                    MessageOutcome::SendBlockResponse(bb) && bb@ == old(chain).store()[h@])
                &&& !old(chain).store().dom().contains(h@) ==> outcome matches
                    MessageOutcome::Ignored
            },
            NetworkMessage::BlockResponse(b) => {
                &&& old(chain).core_unchanged(*final(chain))
                &&& final(chain).mempool_view() == old(chain).mempool_view()
                &&& final(pending)@ == remove_request(old(pending)@, block_hash_of(b@.header))
                &&& old(pending)@.contains(block_hash_of(b@.header)) ==> (outcome matches
                    MessageOutcome::DeliverBlock(bb) && bb@ == b@)
                &&& !old(pending)@.contains(block_hash_of(b@.header)) ==> outcome matches
                    MessageOutcome::Ignored
            },
        },
{
    match message {
        NetworkMessage::NewBlock(block) => {
            let resend = block.clone();
            match chain.add_block(block, now) {
                Ok(()) => MessageOutcome::BroadcastBlock(resend),
                Err(e) => MessageOutcome::Rejected(e),
            }
        },
        NetworkMessage::NewTransaction(transaction) => {
            let resend = transaction.clone();
            match chain.add_transaction(transaction) {
                Ok(()) => MessageOutcome::BroadcastTransaction(resend),
                Err(e) => MessageOutcome::Rejected(e),
            }
        },
        NetworkMessage::BlockRequest(hash) => {
            match chain.get_block_by_hash(&hash) {
                Some(block) => MessageOutcome::SendBlockResponse(block),
                None => MessageOutcome::Ignored,
            }
        },
        NetworkMessage::BlockResponse(block) => {
            let hash = block.hash();
            if pending.take(&hash) {
                MessageOutcome::DeliverBlock(block)
            } else {
                MessageOutcome::Ignored
            }
        },
    }
}

} // verus!
