use vstd::prelude::*;

verus! {

use crate::block::{
    block_hash_of, clone_transactions, merkle_root_of, Block, BlockView, HeaderView,
};
use crate::consensus::ConsensusManager;
use crate::hash::{zero_digest, Hashable};
use crate::errors::ChainError;
use crate::keys::{genesis_key_bytes, sig_valid, PublicKey};
use crate::pbft::PbftView;
use crate::transaction::{same_identity, tx_message, tx_views, Transaction, TxView};
use crate::world_state::{account_at, apply_block_spec, StateView, WorldState};

/// The block store as a partial map from a block's hash bytes to its value.
pub open spec fn block_map_of(s: Seq<(crate::hash::Hash, Block)>) -> Map<Seq<u8>, BlockView>
    decreases s.len(),
{
    if s.len() == 0 {
        Map::empty()
    } else {
        block_map_of(s.drop_last()).insert(s.last().0@, s.last().1@)
    }
}

/// No hash occurs on two store entries.
pub open spec fn unique_hashes(s: Seq<(crate::hash::Hash, Block)>) -> bool {
    forall|i: int, j: int| 0 <= i < j < s.len() ==> s[i].0@ != s[j].0@
}

/// Whether some pending transaction has the same identity (signed fields).
pub open spec fn pool_has_identity(pool: Seq<TxView>, t: TxView) -> bool {
    exists|i: int| 0 <= i < pool.len() && same_identity(pool[i], t)
}

/// The value of the genesis block: height zero, the zero digest as parent,
/// no transactions, the reserved genesis identity as proposer, timestamp
/// zero so that every node starts from the same head.
pub open spec fn genesis_block_view() -> BlockView {
    BlockView {
        header: HeaderView {
            version: 1,
            previous_hash: zero_digest(),
            merkle_root: merkle_root_of(Seq::empty()),
            timestamp: 0,
            height: 0,
            validator: genesis_key_bytes(),
        },
        transactions: Seq::empty(),
    }
}

/// A store lookup agrees with the map model on unique entries.
proof fn lemma_block_map_lookup(s: Seq<(crate::hash::Hash, Block)>, key: Seq<u8>)
    requires
        unique_hashes(s),
    ensures
        block_map_of(s).dom().contains(key) <==> exists|i: int|
            0 <= i < s.len() && s[i].0@ == key,
        forall|i: int| 0 <= i < s.len() && s[i].0@ == key ==> block_map_of(s)[key] == s[i].1@,
    decreases s.len(),
{
    if s.len() > 0 {
        let prefix = s.drop_last();
        lemma_block_map_lookup(prefix, key);
        assert(forall|i: int| 0 <= i < s.len() - 1 ==> prefix[i] == s[i]);
        if s.last().0@ == key {
            assert(0 <= s.len() - 1 < s.len() && s[s.len() - 1].0@ == key);
            assert forall|i: int| 0 <= i < s.len() && s[i].0@ == key implies block_map_of(s)[key]
                == s[i].1@ by {
                if i < s.len() - 1 {
                    assert(s[i].0@ == s[s.len() - 1].0@);
                    assert(false);
                }
            }
        } else {
            if block_map_of(s).dom().contains(key) {
                let j = choose|j: int| 0 <= j < prefix.len() && prefix[j].0@ == key;
                assert(s[j].0@ == key);
            }
            if exists|i: int| 0 <= i < s.len() && s[i].0@ == key {
                let j = choose|j: int| 0 <= j < s.len() && s[j].0@ == key;
                assert(j < s.len() - 1);
                assert(prefix[j].0@ == key);
            }
            assert forall|i: int| 0 <= i < s.len() && s[i].0@ == key implies block_map_of(s)[key]
                == s[i].1@ by {
                assert(i < s.len() - 1);
                assert(prefix[i] == s[i]);
            }
        }
    }
}

/// Replacing the entry at `i` by one for the same hash updates the map model
/// at that hash alone.
proof fn lemma_block_map_update(s: Seq<(crate::hash::Hash, Block)>, i: int, h: crate::hash::Hash, b: Block)
    requires
        unique_hashes(s),
        0 <= i < s.len(),
        h@ == s[i].0@,
    ensures
        unique_hashes(s.update(i, (h, b))),
        block_map_of(s.update(i, (h, b))) == block_map_of(s).insert(h@, b@),
    decreases s.len(),
{
    let t = s.update(i, (h, b));
    assert(forall|j: int| 0 <= j < s.len() ==> t[j].0@ == s[j].0@);
    if i == s.len() - 1 {
        assert(t.drop_last() =~= s.drop_last());
        assert(block_map_of(t) =~= block_map_of(s).insert(h@, b@));
    } else {
        assert(t.drop_last() =~= s.drop_last().update(i, (h, b)));
        lemma_block_map_update(s.drop_last(), i, h, b);
        assert(h@ != s.last().0@);
        assert(block_map_of(t) =~= block_map_of(s).insert(h@, b@));
    }
}

/// Appending an entry for a fresh hash updates the map model at that hash
/// alone.
proof fn lemma_block_map_push(s: Seq<(crate::hash::Hash, Block)>, h: crate::hash::Hash, b: Block)
    requires
        unique_hashes(s),
        forall|i: int| 0 <= i < s.len() ==> s[i].0@ != h@,
    ensures
        unique_hashes(s.push((h, b))),
        block_map_of(s.push((h, b))) == block_map_of(s).insert(h@, b@),
{
    let t = s.push((h, b));
    assert(t.drop_last() =~= s);
    assert forall|i: int, j: int| 0 <= i < j < t.len() implies t[i].0@ != t[j].0@ by {
        if j == s.len() {
            assert(t[i] == s[i]);
        } else {
            assert(t[i] == s[i] && t[j] == s[j]);
        }
    }
    assert(block_map_of(t) =~= block_map_of(s).insert(h@, b@));
}

/// The index of the entry for `hash`, if one exists.
fn find_block_index(blocks: &Vec<(crate::hash::Hash, Block)>, hash: &crate::hash::Hash) -> (r: Option<usize>)
    ensures
        match r {
            Some(i) => i < blocks@.len() && blocks@[i as int].0@ == hash@,
            None => forall|i: int| 0 <= i < blocks@.len() ==> blocks@[i].0@ != hash@,
        },
{
    let mut i: usize = 0;
    while i < blocks.len()
        invariant
            i <= blocks@.len(),
            forall|j: int| 0 <= j < i ==> blocks@[j].0@ != hash@,
        decreases blocks@.len() - i,
    {
        if blocks[i].0 == *hash {
            return Some(i);
        }
        i = i + 1;
    }
    None
}

/// The chain: the block store keyed by block hash, the head pointer, the
/// account ledger, the consensus gate, and the pending-transaction pool.
pub struct Blockchain {
    blocks: Vec<(crate::hash::Hash, Block)>,
    latest_block_hash: crate::hash::Hash,
    world_state: WorldState,
    consensus_manager: ConsensusManager,
    mempool: Vec<Transaction>,
}

impl Blockchain {
    /// The block store as a map from hash bytes to blocks.
    pub closed spec fn store(&self) -> Map<Seq<u8>, BlockView> {
        block_map_of(self.blocks@)
    }

    /// How many blocks the store holds.
    pub closed spec fn chain_length(&self) -> nat {
        self.blocks@.len()
    }

    /// The hash bytes of the current head.
    pub closed spec fn head(&self) -> Seq<u8> {
        self.latest_block_hash@
    }

    /// The ledger's value.
    pub closed spec fn state(&self) -> StateView {
        self.world_state@
    }

    /// The registered stakes of the rotation half of consensus.
    pub closed spec fn stakes(&self) -> Seq<(Seq<u8>, u64)> {
        self.consensus_manager.stakes()
    }

    /// Where the rotation cursor stands.
    pub closed spec fn cursor(&self) -> int {
        self.consensus_manager.cursor()
    }

    /// When the last block was produced (pacing clock).
    pub closed spec fn last_time(&self) -> u64 {
        self.consensus_manager.last_time()
    }

    /// The agreement engine's value.
    pub closed spec fn agreement(&self) -> PbftView {
        self.consensus_manager.agreement()
    }

    /// The pending transactions, in arrival order.
    pub closed spec fn mempool_view(&self) -> Seq<TxView> {
        tx_views(self.mempool@)
    }

    /// Whether consensus would accept `b` as the next proposal: rotation
    /// expects its proposer, and no agreement round is under way.
    pub open spec fn accepts_proposal(&self, b: BlockView) -> bool {
        &&& crate::dpos::active_set_of(self.stakes()).len() > 0
        &&& b.header.validator == crate::dpos::active_set_of(self.stakes())[self.cursor()]
        &&& self.agreement().state == crate::pbft::PbftState::PrePrepare
    }

    /// Nothing observable has moved between `self` and `other`, the pool
    /// aside.
    pub open spec fn core_unchanged(self, other: Blockchain) -> bool {
        &&& other.state() == self.state()
        &&& other.store() == self.store()
        &&& other.head() == self.head()
        &&& other.chain_length() == self.chain_length()
        &&& other.stakes() == self.stakes()
        &&& other.cursor() == self.cursor()
        &&& other.last_time() == self.last_time()
        &&& other.agreement() == self.agreement()
    }

    /// The store holds each hash once, under the hash of the block stored
    /// there; the head is in the store; the ledger has applied exactly the
    /// chain up to the head; and both consensus halves are well formed.
    pub closed spec fn wf(&self) -> bool {
        &&& unique_hashes(self.blocks@)
        &&& forall|i: int|
            0 <= i < self.blocks@.len() ==> self.blocks@[i].0@ == block_hash_of(
                self.blocks@[i].1@.header,
            )
        &&& self.store().dom().contains(self.head())
        &&& self.state().last_block_hash == self.head()
        &&& self.world_state.wf()
        &&& self.consensus_manager.wf()
    }

    /// A chain holding only the genesis block, with an empty ledger and an
    /// empty pool, gated by the given consensus engine.
    pub fn new(consensus_manager: ConsensusManager) -> (c: Blockchain)
        requires
            consensus_manager.wf(),
        ensures
            c.wf(),
            c.head() == block_hash_of(genesis_block_view().header),
            c.store() == Map::<Seq<u8>, BlockView>::empty().insert(
                c.head(),
                genesis_block_view(),
            ),
            c.chain_length() == 1,
            c.state().accounts == Map::<Seq<u8>, crate::world_state::Account>::empty(),
            c.state().last_block_hash == c.head(),
            c.mempool_view() == Seq::<TxView>::empty(),
            c.stakes() == consensus_manager.stakes(),
            c.cursor() == consensus_manager.cursor(),
            c.last_time() == consensus_manager.last_time(),
            c.agreement() == consensus_manager.agreement(),
    {
        let genesis_validator = PublicKey::genesis();
        let genesis_txs: Vec<Transaction> = Vec::new();
        proof {
            assert(tx_views(genesis_txs@) =~= Seq::<TxView>::empty());
        }
        let genesis_block = Block::new(crate::hash::Hash::zero(), genesis_txs, 0, genesis_validator, 0);
        proof {
            assert(genesis_block@.header == genesis_block_view().header);
            assert(genesis_block@ == genesis_block_view());
        }
        let genesis_hash = genesis_block.hash();
        let mut world_state = WorldState::new();
        let applied = world_state.apply_block(&genesis_block);
        proof {
            assert(applied is Ok);
        }
        let mut blocks: Vec<(crate::hash::Hash, Block)> = Vec::new();
        blocks.push((genesis_hash, genesis_block));
        let c = Blockchain {
            blocks,
            latest_block_hash: genesis_hash,
            world_state,
            consensus_manager,
            mempool: Vec::new(),
        };
        proof {
            assert(c.blocks@.drop_last() =~= Seq::<(crate::hash::Hash, Block)>::empty());
            assert(block_map_of(Seq::<(crate::hash::Hash, Block)>::empty()) =~= Map::<
                Seq<u8>,
                BlockView,
            >::empty());
            assert(c.store() =~= Map::<Seq<u8>, BlockView>::empty().insert(
                genesis_hash@,
                genesis_block_view(),
            ));
            assert(c.mempool_view() =~= Seq::<TxView>::empty());
        }
        c
    }

    /// The single gate by which a block enters the chain. In order: the
    /// consensus engine must accept the proposal, the block must extend the
    /// head, and the ledger must accept every transaction; any failure
    /// aborts with nothing changed anywhere. On success the ledger, the
    /// consensus round, the store, and the head all advance to the block.
    pub fn add_block(&mut self, block: Block, now: u64) -> (r: Result<(), ChainError>)
        requires
            old(self).wf(),
        ensures
            final(self).wf(),
            final(self).stakes() == old(self).stakes(),
            final(self).mempool_view() == old(self).mempool_view(),
            !old(self).accepts_proposal(block@) ==> r == Err::<(), ChainError>(
                ChainError::ConsensusRejected,
            ) && old(self).core_unchanged(*final(self)),
            old(self).accepts_proposal(block@) && block@.header.previous_hash != old(self).head()
                ==> r == Err::<(), ChainError>(ChainError::ForkMismatch) && old(self).core_unchanged(*final(self)),
            old(self).accepts_proposal(block@) && block@.header.previous_hash == old(self).head()
                && apply_block_spec(old(self).state(), block@) is Err ==> r == Err::<
                (),
                ChainError,
            >(ChainError::Ledger(apply_block_spec(old(self).state(), block@)->Err_0)) && old(self).core_unchanged(*final(self)),
            old(self).accepts_proposal(block@) && block@.header.previous_hash == old(self).head()
                && apply_block_spec(old(self).state(), block@) is Ok ==> {
                &&& r is Ok
                &&& final(self).state() == apply_block_spec(old(self).state(), block@)->Ok_0
                &&& final(self).head() == block_hash_of(block@.header)
                &&& final(self).store() == old(self).store().insert(
                    block_hash_of(block@.header),
                    block@,
                )
                &&& final(self).chain_length() == if old(self).store().dom().contains(
                    block_hash_of(block@.header),
                ) {
                    old(self).chain_length()
                } else {
                    old(self).chain_length() + 1
                }
                &&& final(self).last_time() == now
                &&& final(self).cursor() == (old(self).cursor() + 1) % (
                crate::dpos::active_set_of(old(self).stakes()).len() as int)
                &&& final(self).agreement() == (PbftView {
                    state: crate::pbft::PbftState::Prepare,
                    current_block: Some(block@),
                    candidate_hash: Some(block_hash_of(block@.header)),
                    ..old(self).agreement()
                })
            },
    {
        if !self.consensus_manager.is_valid_proposal(&block) {
            return Err(ChainError::ConsensusRejected);
        }
        if !(block.header.previous_hash == self.latest_block_hash) {
            return Err(ChainError::ForkMismatch);
        }
        match self.world_state.apply_block(&block) {
            Err(e) => {
                return Err(ChainError::Ledger(e));
            },
            Ok(()) => {},
        }
        let accepted = self.consensus_manager.on_block_produced(block.clone(), now);
        proof {
            assert(accepted);
        }
        let block_hash = block.hash();
        proof {
            lemma_block_map_lookup(self.blocks@, block_hash@);
        }
        match find_block_index(&self.blocks, &block_hash) {
            Some(i) => {
                proof {
                    lemma_block_map_update(self.blocks@, i as int, block_hash, block);
                }
                self.blocks.set(i, (block_hash, block));
                proof {
                    assert forall|k: int| 0 <= k < self.blocks@.len() implies self.blocks@[k].0@
                        == block_hash_of(self.blocks@[k].1@.header) by {
                        if k != i as int {
                            assert(self.blocks@[k] == old(self).blocks@[k]);
                        }
                    }
                }
            },
            None => {
                proof {
                    lemma_block_map_push(self.blocks@, block_hash, block);
                }
                self.blocks.push((block_hash, block));
                proof {
                    assert forall|k: int| 0 <= k < self.blocks@.len() implies self.blocks@[k].0@
                        == block_hash_of(self.blocks@[k].1@.header) by {
                        if k < self.blocks@.len() - 1 {
                            assert(self.blocks@[k] == old(self).blocks@[k]);
                        }
                    }
                }
            },
        }
        self.latest_block_hash = block_hash;
        proof {
            lemma_block_map_lookup(self.blocks@, self.latest_block_hash@);
        }
        Ok(())
    }

    /// Admits a transaction to the pool: its signature must validate its
    /// signed fields, the sender's current balance must cover the amount
    /// (a pre-check, not a ledger change), and the same identity must not
    /// already be pending. Exactly the failing rule's error comes back, and
    /// a failed submission changes nothing.
    #[verifier::loop_isolation(false)]
    pub fn add_transaction(&mut self, transaction: Transaction) -> (r: Result<(), ChainError>)
        requires
            old(self).wf(),
        ensures
            final(self).wf(),
            final(self).state() == old(self).state(),
            final(self).store() == old(self).store(),
            final(self).head() == old(self).head(),
            final(self).chain_length() == old(self).chain_length(),
            final(self).stakes() == old(self).stakes(),
            final(self).cursor() == old(self).cursor(),
            final(self).last_time() == old(self).last_time(),
            final(self).agreement() == old(self).agreement(),
            !sig_valid(transaction@.from, tx_message(transaction@), transaction@.signature) ==> r
                == Err::<(), ChainError>(ChainError::InvalidSignature) && final(self).mempool_view() == old(self).mempool_view(),
            sig_valid(transaction@.from, tx_message(transaction@), transaction@.signature)
                && account_at(old(self).state().accounts, transaction@.from).balance
                < transaction@.amount ==> r == Err::<(), ChainError>(
                ChainError::InsufficientBalance,
            ) && final(self).mempool_view() == old(self).mempool_view(),
            sig_valid(transaction@.from, tx_message(transaction@), transaction@.signature)
                && account_at(old(self).state().accounts, transaction@.from).balance
                >= transaction@.amount && pool_has_identity(old(self).mempool_view(), transaction@)
                ==> r == Err::<(), ChainError>(ChainError::DuplicateTransaction) && final(self).mempool_view() == old(self).mempool_view(),
            sig_valid(transaction@.from, tx_message(transaction@), transaction@.signature)
                && account_at(old(self).state().accounts, transaction@.from).balance
                >= transaction@.amount && !pool_has_identity(
                old(self).mempool_view(),
                transaction@,
            ) ==> r is Ok && final(self).mempool_view() == old(self).mempool_view().push(
                transaction@,
            ),
    {
        if !transaction.verify() {
            return Err(ChainError::InvalidSignature);
        }
        let sender_balance = self.get_account_balance(&transaction.from);
        if sender_balance < transaction.amount {
            return Err(ChainError::InsufficientBalance);
        }
        let mut i: usize = 0;
        while i < self.mempool.len()
            invariant
                i <= self.mempool@.len(),
                forall|j: int|
                    0 <= j < i ==> !same_identity(tx_views(self.mempool@)[j], transaction@),
            decreases self.mempool@.len() - i,
        {
            if self.mempool[i] == transaction {
                proof {
                    assert(same_identity(tx_views(self.mempool@)[i as int], transaction@));
                }
                return Err(ChainError::DuplicateTransaction);
            }
            i = i + 1;
        }
        self.mempool.push(transaction);
        proof {
            assert(tx_views(self.mempool@) =~= tx_views(old(self).mempool@).push(transaction@));
        }
        Ok(())
    }

    /// The block the head points at. The chain keeps the head inside the
    /// store, so the lookup cannot miss.
    pub fn get_latest_block(&self) -> (b: Block)
        requires
            self.wf(),
        ensures
            b@ == self.store()[self.head()],
    {
        proof {
            lemma_block_map_lookup(self.blocks@, self.latest_block_hash@);
        }
        match find_block_index(&self.blocks, &self.latest_block_hash) {
            Some(i) => self.blocks[i].1.clone(),
            None => vstd::pervasive::unreached(),
        }
    }

    /// The stored block with the given hash, if one exists.
    pub fn get_block_by_hash(&self, hash: &crate::hash::Hash) -> (r: Option<Block>)
        requires
            self.wf(),
        ensures
            self.store().dom().contains(hash@) ==> r is Some && r->0@ == self.store()[hash@],
            !self.store().dom().contains(hash@) ==> r is None,
    {
        proof {
            lemma_block_map_lookup(self.blocks@, hash@);
        }
        match find_block_index(&self.blocks, hash) {
            Some(i) => Some(self.blocks[i].1.clone()),
            None => None,
        }
    }

    /// The sender's spendable balance: zero for an account never seen.
    pub fn get_account_balance(&self, public_key: &PublicKey) -> (r: u64)
        requires
            self.wf(),
        ensures
            r == account_at(self.state().accounts, public_key@).balance,
    {
        match self.world_state.get_account(public_key) {
            Some(account) => account.balance,
            None => 0,
        }
    }

    /// Builds the next block out of every pending transaction — extending
    /// the head, one above the store's block count, proposed by `validator`
    /// at `now` — and gates it through `add_block`; the mined block comes
    /// back on success. The pool is left as it was either way.
    pub fn mine_block(&mut self, validator: PublicKey, now: u64) -> (r: Result<Block, ChainError>)
        requires
            old(self).wf(),
        ensures
            final(self).wf(),
            final(self).stakes() == old(self).stakes(),
            final(self).mempool_view() == old(self).mempool_view(),
            ({
                let mined = BlockView {
                    header: HeaderView {
                        version: 1,
                        previous_hash: old(self).head(),
                        merkle_root: merkle_root_of(old(self).mempool_view()),
                        timestamp: now,
                        height: old(self).chain_length() as u64,
                        validator: validator@,
                    },
                    transactions: old(self).mempool_view(),
                };
                &&& (r is Ok ==> r->Ok_0@ == mined && old(self).accepts_proposal(mined)
                    && apply_block_spec(old(self).state(), mined) is Ok && final(self).head()
                    == block_hash_of(mined.header) && final(self).state() == apply_block_spec(
                    old(self).state(),
                    mined,
                )->Ok_0 && final(self).store() == old(self).store().insert(
                    block_hash_of(mined.header),
                    mined,
                ))
                &&& (!old(self).accepts_proposal(mined) ==> r == Err::<Block, ChainError>(
                    ChainError::ConsensusRejected,
                ) && final(self).state() == old(self).state() && final(self).store() == old(self).store() && final(self).head() == old(self).head())
                &&& (old(self).accepts_proposal(mined) && apply_block_spec(
                    old(self).state(),
                    mined,
                ) is Ok ==> r is Ok)
                &&& (old(self).accepts_proposal(mined) && apply_block_spec(
                    old(self).state(),
                    mined,
                ) is Err ==> r == Err::<Block, ChainError>(
                    ChainError::Ledger(apply_block_spec(old(self).state(), mined)->Err_0),
                ) && final(self).state() == old(self).state() && final(self).store() == old(self).store() && final(self).head() == old(self).head())
            }),
    {
        let transactions = clone_transactions(&self.mempool);
        let previous_hash = self.latest_block_hash;
        let height = self.blocks.len() as u64;
        let block = Block::new(previous_hash, transactions, height, validator, now);
        let mined = block.clone();
        match self.add_block(block, now) {
            Ok(()) => Ok(mined),
            Err(e) => Err(e),
        }
    }
}

} // verus!
