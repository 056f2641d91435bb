use vstd::prelude::*;

verus! {

use crate::block::Block;
use crate::dpos::{active_set_of, has_stake_key, stake_remove, stake_upsert, DPoS};
use crate::errors::ChainError;
use crate::keys::PublicKey;
use crate::pbft::{dedup_keys, insert_voter, vote_threshold, PbftState, PbftView, PBFT};

/// The whole consensus gate: stake-weighted leader rotation for scheduling
/// proposers, and Byzantine agreement over the full membership for
/// finalizing blocks.
pub struct ConsensusManager {
    dpos: DPoS,
    pbft: PBFT,
}

impl ConsensusManager {
    /// Both halves are well formed.
    pub closed spec fn wf(&self) -> bool {
        self.dpos.wf() && self.pbft.wf()
    }

    /// The registered stakes, in registration order.
    pub closed spec fn stakes(&self) -> Seq<(Seq<u8>, u64)> {
        self.dpos@
    }

    /// Where the rotation cursor stands.
    pub closed spec fn cursor(&self) -> int {
        self.dpos.cursor()
    }

    /// When the last block was produced (pacing clock).
    pub closed spec fn last_time(&self) -> u64 {
        self.dpos.last_time()
    }

    /// The agreement engine's value.
    pub closed spec fn agreement(&self) -> PbftView {
        self.pbft@
    }

    /// Whether `block` may enter agreement right now: rotation expects its
    /// proposer, and no other round is under way.
    pub open spec fn accepts_proposal(&self, b: crate::block::BlockView) -> bool {
        &&& active_set_of(self.stakes()).len() > 0
        &&& b.header.validator == active_set_of(self.stakes())[self.cursor()]
        &&& self.agreement().state == PbftState::PrePrepare
    }

    /// A fresh gate: agreement runs over `validators` (each counted once);
    /// rotation starts with no stakes registered.
    pub fn new(validators: Vec<PublicKey>) -> (c: ConsensusManager)
        ensures
            c.wf(),
            c.stakes() == Seq::<(Seq<u8>, u64)>::empty(),
            c.cursor() == 0,
            c.last_time() == 0,
            c.agreement().validators == dedup_keys(crate::dpos::key_views(validators@)),
            c.agreement().state == PbftState::PrePrepare,
            c.agreement().current_block is None,
            c.agreement().prepare_voters.len() == 0,
            c.agreement().commit_voters.len() == 0,
    {
        ConsensusManager { dpos: DPoS::new(), pbft: PBFT::new(validators) }
    }

    /// Registers a rotation validator; agreement membership is fixed at
    /// construction and unaffected.
    pub fn add_validator(&mut self, public_key: PublicKey, stake: u64)
        requires
            old(self).wf(),
        ensures
            final(self).wf(),
            final(self).stakes() == stake_upsert(old(self).stakes(), public_key@, stake),
            final(self).last_time() == old(self).last_time(),
            final(self).agreement() == old(self).agreement(),
            final(self).cursor() == if old(self).cursor() < active_set_of(
                final(self).stakes(),
            ).len() {
                old(self).cursor()
            } else {
                0
            },
    {
        self.dpos.add_validator(public_key, stake);
    }

    /// Unregisters a rotation validator.
    pub fn remove_validator(&mut self, public_key: &PublicKey)
        requires
            old(self).wf(),
        ensures
            final(self).wf(),
            final(self).stakes() == stake_remove(old(self).stakes(), public_key@),
            final(self).last_time() == old(self).last_time(),
            final(self).agreement() == old(self).agreement(),
            final(self).cursor() == if old(self).cursor() < active_set_of(
                final(self).stakes(),
            ).len() {
                old(self).cursor()
            } else {
                0
            },
    {
        self.dpos.remove_validator(public_key);
    }

    /// Restakes a registered rotation validator; an unknown key changes
    /// nothing.
    pub fn update_stake(&mut self, public_key: &PublicKey, new_stake: u64)
        requires
            old(self).wf(),
        ensures
            final(self).wf(),
            final(self).stakes() == if has_stake_key(old(self).stakes(), public_key@) {
                stake_upsert(old(self).stakes(), public_key@, new_stake)
            } else {
                old(self).stakes()
            },
            final(self).last_time() == old(self).last_time(),
            final(self).agreement() == old(self).agreement(),
            final(self).cursor() == if old(self).cursor() < active_set_of(
                final(self).stakes(),
            ).len() {
                old(self).cursor()
            } else {
                0
            },
    {
        self.dpos.update_stake(public_key, new_stake);
    }

    /// The pacing gate, against the rotation clock.
    pub fn can_produce_block(&self, now: u64) -> (r: bool)
        ensures
            r == (now >= self.last_time() + crate::dpos::BLOCK_INTERVAL_SECS),
    {
        self.dpos.can_produce_block(now)
    }

    /// The proposer scheduled next; the rotation advances one slot.
    pub fn get_next_validator(&mut self) -> (r: Result<PublicKey, ChainError>)
        requires
            old(self).wf(),
        ensures
            final(self).wf(),
            final(self).stakes() == old(self).stakes(),
            final(self).last_time() == old(self).last_time(),
            final(self).agreement() == old(self).agreement(),
            active_set_of(old(self).stakes()).len() == 0 ==> r == Err::<PublicKey, ChainError>(
                ChainError::NoActiveValidators,
            ) && final(self).cursor() == old(self).cursor(),
            active_set_of(old(self).stakes()).len() > 0 ==> r is Ok && r->Ok_0@ == active_set_of(
                old(self).stakes(),
            )[old(self).cursor()] && final(self).cursor() == (old(self).cursor() + 1) % (
            active_set_of(old(self).stakes()).len() as int),
    {
        self.dpos.get_next_validator()
    }

    /// Whether `block` may enter agreement right now (no state is touched).
    pub fn is_valid_proposal(&self, block: &Block) -> (r: bool)
        requires
            self.wf(),
        ensures
            r == self.accepts_proposal(block@),
    {
        if !self.dpos.is_valid_block_producer(block) {
            return false;
        }
        match self.pbft.phase() {
            PbftState::PrePrepare => true,
            _ => false,
        }
    }

    /// Accepts `block` into agreement if rotation expects its proposer and
    /// no round is under way: the rotation then advances with its clock set
    /// to `now` and the agreement round opens on the block. A refused block
    /// changes nothing and returns `false`.
    pub fn on_block_produced(&mut self, block: Block, now: u64) -> (r: bool)
        requires
            old(self).wf(),
        ensures
            final(self).wf(),
            final(self).stakes() == old(self).stakes(),
            !old(self).accepts_proposal(block@) ==> {
                &&& r == false
                &&& final(self).cursor() == old(self).cursor()
                &&& final(self).last_time() == old(self).last_time()
                &&& final(self).agreement() == old(self).agreement()
            },
            old(self).accepts_proposal(block@) ==> {
                &&& r == true
                &&& final(self).cursor() == (old(self).cursor() + 1) % (active_set_of(
                    old(self).stakes(),
                ).len() as int)
                &&& final(self).last_time() == now
                &&& final(self).agreement() == (PbftView {
                    state: PbftState::Prepare,
                    current_block: Some(block@),
                    candidate_hash: Some(crate::block::block_hash_of(block@.header)),
                    ..old(self).agreement()
                })
            },
    {
        if !self.dpos.is_valid_block_producer(&block) {
            return false;
        }
        let accepted = self.pbft.on_propose_block(block);
        if accepted {
            self.dpos.on_block_produced(now);
        }
        accepted
    }

    /// Forwards a prepare vote to agreement; rotation is untouched.
    pub fn on_prepare_message(&mut self, validator: PublicKey, block_hash: crate::hash::Hash) -> (r: bool)
        requires
            old(self).wf(),
        ensures
            final(self).wf(),
            final(self).stakes() == old(self).stakes(),
            final(self).cursor() == old(self).cursor(),
            final(self).last_time() == old(self).last_time(),
            !(old(self).agreement().state == PbftState::Prepare && old(
                self,
            ).agreement().validators.contains(validator@) && old(self).agreement().candidate_hash
                == Some(block_hash@)) ==> r == false && final(self).agreement() == old(
                self,
            ).agreement(),
            (old(self).agreement().state == PbftState::Prepare && old(
                self,
            ).agreement().validators.contains(validator@) && old(self).agreement().candidate_hash
                == Some(block_hash@)) ==> {
                &&& final(self).agreement().prepare_voters == insert_voter(
                    old(self).agreement().prepare_voters,
                    validator@,
                )
                &&& r == (final(self).agreement().prepare_voters.len() > vote_threshold(
                    old(self).agreement().validators.len() as int,
                ))
                &&& final(self).agreement() == (PbftView {
                    state: if r {
                        PbftState::Commit
                    } else {
                        PbftState::Prepare
                    },
                    prepare_voters: final(self).agreement().prepare_voters,
                    ..old(self).agreement()
                })
            },
    {
        self.pbft.on_prepare_message(validator, block_hash)
    }

    /// Forwards a commit vote to agreement; rotation is untouched. A `true`
    /// result is the finalization signal: the caller must then apply the
    /// block that the round was opened on.
    pub fn on_commit_message(&mut self, validator: PublicKey, block_hash: crate::hash::Hash) -> (r: bool)
        requires
            old(self).wf(),
        ensures
            final(self).wf(),
            final(self).stakes() == old(self).stakes(),
            final(self).cursor() == old(self).cursor(),
            final(self).last_time() == old(self).last_time(),
            !(old(self).agreement().state == PbftState::Commit && old(
                self,
            ).agreement().validators.contains(validator@) && old(self).agreement().candidate_hash
                == Some(block_hash@)) ==> r == false && final(self).agreement() == old(
                self,
            ).agreement(),
            (old(self).agreement().state == PbftState::Commit && old(
                self,
            ).agreement().validators.contains(validator@) && old(self).agreement().candidate_hash
                == Some(block_hash@)) ==> {
                &&& r == (insert_voter(old(self).agreement().commit_voters, validator@).len()
                    > vote_threshold(old(self).agreement().validators.len() as int))
                &&& r ==> final(self).agreement() == (PbftView {
                    state: PbftState::PrePrepare,
                    current_block: None,
                    candidate_hash: None,
                    prepare_voters: Seq::empty(),
                    commit_voters: Seq::empty(),
                    ..old(self).agreement()
                })
                &&& !r ==> final(self).agreement() == (PbftView {
                    commit_voters: insert_voter(old(self).agreement().commit_voters, validator@),
                    ..old(self).agreement()
                })
            },
    {
        self.pbft.on_commit_message(validator, block_hash)
    }
}

} // verus!
