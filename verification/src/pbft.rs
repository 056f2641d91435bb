use vstd::prelude::*;

verus! {

use crate::block::{block_hash_of, Block, BlockView};
use crate::hash::Hashable;
use crate::dpos::key_views;
use crate::keys::PublicKey;

/// The three agreement phases; transitions are strictly forward and return
/// to `PrePrepare` on finalization.
#[derive(Debug, Clone, Copy, PartialEq, Eq, Structural)]
pub enum PbftState {
    PrePrepare,
    Prepare,
    Commit,
}

/// The mathematical value of the agreement engine.
pub ghost struct PbftView {
    pub validators: Seq<Seq<u8>>,
    pub state: PbftState,
    pub current_block: Option<BlockView>,
    pub candidate_hash: Option<Seq<u8>>,
    pub prepare_voters: Seq<Seq<u8>>,
    pub commit_voters: Seq<Seq<u8>>,
}

/// The keys on a vote tally, in arrival order.
pub open spec fn vote_keys(s: Seq<(PublicKey, crate::hash::Hash)>) -> Seq<Seq<u8>> {
    Seq::new(s.len(), |i: int| s[i].0@)
}

/// A tally after one more vote: a voter counts once, however often it votes.
pub open spec fn insert_voter(s: Seq<Seq<u8>>, k: Seq<u8>) -> Seq<Seq<u8>> {
    if s.contains(k) {
        s
    } else {
        s.push(k)
    }
}

/// The member list with later duplicates dropped (first occurrence kept).
pub open spec fn dedup_keys(s: Seq<Seq<u8>>) -> Seq<Seq<u8>>
    decreases s.len(),
{
    if s.len() == 0 {
        Seq::empty()
    } else {
        let front = dedup_keys(s.drop_last());
        if front.contains(s.last()) {
            front
        } else {
            front.push(s.last())
        }
    }
}

/// Votes needed stay above this bound: more than two thirds of the full
/// membership must agree.
pub open spec fn vote_threshold(members: int) -> int {
    2 * members / 3
}

/// Crossing the threshold means at least two thirds of the membership,
/// rounded down, plus one distinct voters agreed: with fewer votes no
/// finalization or phase change is ever signalled.
pub proof fn lemma_threshold_crossing(count: int, members: int)
    requires
        count > vote_threshold(members),
    ensures
        count >= 2 * members / 3 + 1,
{
}

/// No key occurs twice.
pub open spec fn distinct_keys(s: Seq<Seq<u8>>) -> bool {
    forall|i: int, j: int| 0 <= i < j < s.len() ==> s[i] != s[j]
}

/// Deduplicating keeps exactly the distinct members.
proof fn lemma_dedup_keys(s: Seq<Seq<u8>>)
    ensures
        distinct_keys(dedup_keys(s)),
        forall|k: Seq<u8>| dedup_keys(s).contains(k) <==> s.contains(k),
    decreases s.len(),
{
    broadcast use vstd::seq_lib::group_seq_properties;

    if s.len() > 0 {
        lemma_dedup_keys(s.drop_last());
        let front = dedup_keys(s.drop_last());
        assert forall|k: Seq<u8>| dedup_keys(s).contains(k) <==> s.contains(k) by {
            assert(front.contains(k) <==> s.drop_last().contains(k));
            if dedup_keys(s).contains(k) {
                if front.contains(k) {
                    let i = choose|i: int| 0 <= i < s.drop_last().len() && s.drop_last()[i] == k;
                    assert(s[i] == k);
                } else {
                    assert(k == s.last());
                    assert(s[s.len() - 1] == k);
                }
            }
            if s.contains(k) {
                let i = choose|i: int| 0 <= i < s.len() && s[i] == k;
                if i < s.len() - 1 {
                    assert(s.drop_last()[i] == k);
                    assert(s.drop_last().contains(k));
                    assert(front.contains(k));
                } else {
                    assert(k == s.last());
                    if !front.contains(k) {
                        assert(dedup_keys(s)[front.len() as int] == k);
                    }
                }
            }
        }
        if !front.contains(s.last()) {
            assert forall|i: int, j: int|
                0 <= i < j < dedup_keys(s).len() implies dedup_keys(s)[i] != dedup_keys(s)[j] by {
                if j < front.len() {
                    assert(dedup_keys(s)[i] == front[i] && dedup_keys(s)[j] == front[j]);
                } else {
                    assert(dedup_keys(s)[i] == front[i]);
                    assert(front.contains(front[i]));
                }
            }
        }
    }
}

/// Whether `key` is on the list.
fn contains_key(keys: &Vec<PublicKey>, key: &PublicKey) -> (r: bool)
    ensures
        r == key_views(keys@).contains(key@),
{
    let mut i: usize = 0;
    while i < keys.len()
        invariant
            i <= keys@.len(),
            forall|j: int| 0 <= j < i ==> key_views(keys@)[j] != key@,
        decreases keys@.len() - i,
    {
        if keys[i] == *key {
            proof {
                assert(key_views(keys@)[i as int] == key@);
            }
            return true;
        }
        i = i + 1;
    }
    proof {
        assert forall|j: int| 0 <= j < key_views(keys@).len() implies key_views(keys@)[j]
            != key@ by {}
    }
    false
}

/// Whether `key` already voted on this tally.
fn contains_voter(votes: &Vec<(PublicKey, crate::hash::Hash)>, key: &PublicKey) -> (r: bool)
    ensures
        r == vote_keys(votes@).contains(key@),
{
    let mut i: usize = 0;
    while i < votes.len()
        invariant
            i <= votes@.len(),
            forall|j: int| 0 <= j < i ==> vote_keys(votes@)[j] != key@,
        decreases votes@.len() - i,
    {
        if votes[i].0 == *key {
            proof {
                assert(vote_keys(votes@)[i as int] == key@);
            }
            return true;
        }
        i = i + 1;
    }
    proof {
        assert forall|j: int| 0 <= j < vote_keys(votes@).len() implies vote_keys(votes@)[j]
            != key@ by {}
    }
    false
}

/// The practical-Byzantine-agreement half of consensus: the full membership,
/// the current phase and candidate block, and one tally per voting phase.
/// A recorded vote always names the current candidate's hash: a vote for any
/// other hash is ignored rather than counted.
pub struct PBFT {
    validators: Vec<PublicKey>,
    state: PbftState,
    current_block: Option<Block>,
    current_block_hash: Option<crate::hash::Hash>,
    prepare_messages: Vec<(PublicKey, crate::hash::Hash)>,
    commit_messages: Vec<(PublicKey, crate::hash::Hash)>,
}

impl View for PBFT {
    type V = PbftView;

    closed spec fn view(&self) -> PbftView {
        PbftView {
            validators: key_views(self.validators@),
            state: self.state,
            current_block: match self.current_block {
                Some(b) => Some(b@),
                None => None,
            },
            candidate_hash: match self.current_block_hash {
                Some(h) => Some(h@),
                None => None,
            },
            prepare_voters: vote_keys(self.prepare_messages@),
            commit_voters: vote_keys(self.commit_messages@),
        }
    }
}

impl PBFT {
    /// Members and voters are counted once each, every voter is a member,
    /// outside `PrePrepare` a candidate block and its hash are on hand, and
    /// `PrePrepare` holds no candidate and no votes.
    pub closed spec fn wf(&self) -> bool {
        &&& distinct_keys(self@.validators)
        &&& distinct_keys(self@.prepare_voters)
        &&& distinct_keys(self@.commit_voters)
        &&& forall|k: Seq<u8>| self@.prepare_voters.contains(k) ==> self@.validators.contains(k)
        &&& forall|k: Seq<u8>| self@.commit_voters.contains(k) ==> self@.validators.contains(k)
        &&& self@.state != PbftState::PrePrepare ==> {
            &&& self@.current_block is Some
            &&& self@.candidate_hash == Some(block_hash_of(self@.current_block->0.header))
        }
        &&& self@.state == PbftState::PrePrepare ==> {
            &&& self@.current_block is None
            &&& self@.candidate_hash is None
            &&& self@.prepare_voters.len() == 0
            &&& self@.commit_voters.len() == 0
        }
    }

    /// A fresh engine in `PrePrepare` over the given membership; a key named
    /// twice counts once.
    pub fn new(validators: Vec<PublicKey>) -> (p: PBFT)
        ensures
            p.wf(),
            p@.validators == dedup_keys(key_views(validators@)),
            p@.state == PbftState::PrePrepare,
            p@.current_block is None,
            p@.candidate_hash is None,
            p@.prepare_voters.len() == 0,
            p@.commit_voters.len() == 0,
    {
        let mut members: Vec<PublicKey> = Vec::new();
        let mut i: usize = 0;
        proof {
            assert(key_views(validators@).subrange(0, 0) =~= Seq::<Seq<u8>>::empty());
            assert(key_views(members@) =~= Seq::<Seq<u8>>::empty());
        }
        while i < validators.len()
            invariant
                i <= validators@.len(),
                key_views(members@) == dedup_keys(key_views(validators@).subrange(0, i as int)),
            decreases validators@.len() - i,
        {
            let ghost sofar = key_views(validators@).subrange(0, i as int);
            let v = validators[i];
            proof {
                assert(key_views(validators@).subrange(0, i + 1).drop_last() =~= sofar);
                assert(key_views(validators@).subrange(0, i + 1).last() == v@);
            }
            if !contains_key(&members, &v) {
                members.push(v);
                proof {
                    assert(key_views(members@) =~= dedup_keys(sofar).push(v@));
                }
            }
            i = i + 1;
        }
        proof {
            assert(key_views(validators@).subrange(0, validators@.len() as int) =~= key_views(
                validators@,
            ));
            lemma_dedup_keys(key_views(validators@));
        }
        PBFT {
            validators: members,
            state: PbftState::PrePrepare,
            current_block: None,
            current_block_hash: None,
            prepare_messages: Vec::new(),
            commit_messages: Vec::new(),
        }
    }

    /// The phase the engine stands in.
    pub fn phase(&self) -> (s: PbftState)
        ensures
            s == self@.state,
    {
        self.state
    }

    /// How many validators belong to the membership.
    pub fn validator_count(&self) -> (n: usize)
        ensures
            n == self@.validators.len(),
    {
        self.validators.len()
    }

    /// Accepts a candidate only in `PrePrepare`: the engine records the
    /// block and its hash and moves to `Prepare` with cleared tallies; in
    /// any other phase the proposal is ignored.
    pub fn on_propose_block(&mut self, block: Block) -> (r: bool)
        requires
            old(self).wf(),
        ensures
            final(self).wf(),
            old(self)@.state != PbftState::PrePrepare ==> r == false && final(self)@ == old(
                self,
            )@,
            old(self)@.state == PbftState::PrePrepare ==> {
                &&& r == true
                &&& final(self)@ == (PbftView {
                    state: PbftState::Prepare,
                    current_block: Some(block@),
                    candidate_hash: Some(block_hash_of(block@.header)),
                    ..old(self)@
                })
            },
    {
        match self.state {
            PbftState::PrePrepare => {
                let h = block.hash();
                self.current_block_hash = Some(h);
                self.current_block = Some(block);
                self.state = PbftState::Prepare;
                true
            },
            _ => false,
        }
    }

    /// Records a prepare vote and reports a threshold crossing. A vote is
    /// ignored (no change, `false`) outside `Prepare`, from a non-member, or
    /// for any hash but the candidate's. A counted vote from a new voter
    /// that pushes the distinct tally above two thirds of the membership
    /// moves the engine to `Commit` and returns `true`.
    pub fn on_prepare_message(&mut self, validator: PublicKey, block_hash: crate::hash::Hash) -> (r: bool)
        requires
            old(self).wf(),
        ensures
            final(self).wf(),
            !(old(self)@.state == PbftState::Prepare && old(self)@.validators.contains(validator@)
                && old(self)@.candidate_hash == Some(block_hash@)) ==> r == false && final(self)@
                == old(self)@,
            (old(self)@.state == PbftState::Prepare && old(self)@.validators.contains(validator@)
                && old(self)@.candidate_hash == Some(block_hash@)) ==> {
                &&& final(self)@.prepare_voters == insert_voter(
                    old(self)@.prepare_voters,
                    validator@,
                )
                &&& r == (final(self)@.prepare_voters.len() > vote_threshold(
                    old(self)@.validators.len() as int,
                ))
                &&& final(self)@ == (PbftView {
                    state: if r {
                        PbftState::Commit
                    } else {
                        PbftState::Prepare
                    },
                    prepare_voters: final(self)@.prepare_voters,
                    ..old(self)@
                })
            },
    {
        match self.state {
            PbftState::Prepare => {},
            _ => {
                return false;
            },
        }
        if !contains_key(&self.validators, &validator) {
            return false;
        }
        let matches_candidate = match &self.current_block_hash {
            Some(h) => *h == block_hash,
            None => false,
        };
        if !matches_candidate {
            return false;
        }
        if !contains_voter(&self.prepare_messages, &validator) {
            self.prepare_messages.push((validator, block_hash));
            proof {
                assert(vote_keys(self.prepare_messages@) =~= vote_keys(
                    old(self).prepare_messages@,
                ).push(validator@));
            }
        }
        let crossed = self.prepare_messages.len() as u128 > 2 * (self.validators.len() as u128)
            / 3;
        if crossed {
            self.state = PbftState::Commit;
        }
        crossed
    }

    /// Records a commit vote and reports finalization. A vote is ignored
    /// outside `Commit`, from a non-member, or for any hash but the
    /// candidate's. Finalization is signalled only once the distinct commit
    /// tally exceeds two thirds of the membership; the engine then resets to
    /// `PrePrepare` with no candidate and cleared tallies, and the caller
    /// must apply the finalized block.
    pub fn on_commit_message(&mut self, validator: PublicKey, block_hash: crate::hash::Hash) -> (r: bool)
        requires
            old(self).wf(),
        ensures
            final(self).wf(),
            !(old(self)@.state == PbftState::Commit && old(self)@.validators.contains(validator@)
                && old(self)@.candidate_hash == Some(block_hash@)) ==> r == false && final(self)@
                == old(self)@,
            (old(self)@.state == PbftState::Commit && old(self)@.validators.contains(validator@)
                && old(self)@.candidate_hash == Some(block_hash@)) ==> {
                &&& r == (insert_voter(old(self)@.commit_voters, validator@).len()
                    > vote_threshold(old(self)@.validators.len() as int))
                &&& r ==> final(self)@ == (PbftView {
                    state: PbftState::PrePrepare,
                    current_block: None,
                    candidate_hash: None,
                    prepare_voters: Seq::empty(),
                    commit_voters: Seq::empty(),
                    ..old(self)@
                })
                &&& !r ==> final(self)@ == (PbftView {
                    commit_voters: insert_voter(old(self)@.commit_voters, validator@),
                    ..old(self)@
                })
            },
    {
        match self.state {
            PbftState::Commit => {},
            _ => {
                return false;
            },
        }
        if !contains_key(&self.validators, &validator) {
            return false;
        }
        let matches_candidate = match &self.current_block_hash {
            Some(h) => *h == block_hash,
            None => false,
        };
        if !matches_candidate {
            return false;
        }
        if !contains_voter(&self.commit_messages, &validator) {
            self.commit_messages.push((validator, block_hash));
            proof {
                assert(vote_keys(self.commit_messages@) =~= vote_keys(
                    old(self).commit_messages@,
                ).push(validator@));
            }
        }
        let crossed = self.commit_messages.len() as u128 > 2 * (self.validators.len() as u128) / 3;
        if crossed {
            self.reset();
            return true;
        }
        false
    }

    /// Back to `PrePrepare`: no candidate, no votes.
    fn reset(&mut self)
        ensures
            final(self)@ == (PbftView {
                state: PbftState::PrePrepare,
                current_block: None,
                candidate_hash: None,
                prepare_voters: Seq::empty(),
                commit_voters: Seq::empty(),
                ..old(self)@
            }),
    {
        self.state = PbftState::PrePrepare;
        self.current_block = None;
        self.current_block_hash = None;
        self.prepare_messages.clear();
        self.commit_messages.clear();
        proof {
            assert(vote_keys(self.prepare_messages@) =~= Seq::<Seq<u8>>::empty());
            assert(vote_keys(self.commit_messages@) =~= Seq::<Seq<u8>>::empty());
        }
    }
}

} // verus!
