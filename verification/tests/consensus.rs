use flux::pbft::{PbftState, PBFT};
use flux::{Block, ChainError, ConsensusManager, DPoS, Hashable, KeyPair, PublicKey};

fn key(tag: u8) -> PublicKey {
    KeyPair::from_secret_key(&[tag; 32]).unwrap().public_key()
}

fn block_from(validator: PublicKey) -> Block {
    Block::new(flux::hash::Hash::zero(), Vec::new(), 1, validator, 10)
}

#[test]
fn rotation_cycles_in_stake_descending_order() {
    let low = key(1);
    let high = key(2);
    let mid = key(3);
    let mut dpos = DPoS::new();
    dpos.add_validator(low, 10);
    dpos.add_validator(high, 30);
    dpos.add_validator(mid, 20);

    assert_eq!(dpos.get_next_validator().unwrap(), high);
    assert_eq!(dpos.get_next_validator().unwrap(), mid);
    assert_eq!(dpos.get_next_validator().unwrap(), low);
    // wraps after the last slot
    assert_eq!(dpos.get_next_validator().unwrap(), high);
}

#[test]
fn empty_rotation_refuses_to_schedule() {
    let mut dpos = DPoS::new();
    assert!(dpos.get_next_validator().is_err());
    let outsider = key(1);
    assert!(!dpos.is_valid_block_producer(&block_from(outsider)));
}

#[test]
fn equal_stakes_order_deterministically_by_registration() {
    let first = key(1);
    let second = key(2);

    let mut a = DPoS::new();
    a.add_validator(first, 50);
    a.add_validator(second, 50);

    let mut b = DPoS::new();
    b.add_validator(first, 50);
    b.add_validator(second, 50);

    for _ in 0..4 {
        assert_eq!(a.get_next_validator().unwrap(), b.get_next_validator().unwrap());
    }

    // recomputing the active set (same stakes) keeps the same order
    let mut c = DPoS::new();
    c.add_validator(first, 50);
    c.add_validator(second, 50);
    c.update_stake(&first, 50);
    c.update_stake(&second, 50);
    assert_eq!(c.get_next_validator().unwrap(), first);
    assert_eq!(c.get_next_validator().unwrap(), second);
}

#[test]
fn stake_changes_reorder_the_rotation() {
    let a = key(1);
    let b = key(2);
    let mut dpos = DPoS::new();
    dpos.add_validator(a, 10);
    dpos.add_validator(b, 20);
    assert_eq!(dpos.get_next_validator().unwrap(), b);

    let mut dpos2 = DPoS::new();
    dpos2.add_validator(a, 10);
    dpos2.add_validator(b, 20);
    dpos2.update_stake(&a, 30);
    assert_eq!(dpos2.get_next_validator().unwrap(), a);

    dpos2.remove_validator(&a);
    assert_eq!(dpos2.get_next_validator().unwrap(), b);
}

#[test]
fn expected_producer_is_the_cursor_slot() {
    let a = key(1);
    let b = key(2);
    let mut dpos = DPoS::new();
    dpos.add_validator(a, 10);
    dpos.add_validator(b, 20);

    assert!(dpos.is_valid_block_producer(&block_from(b)));
    assert!(!dpos.is_valid_block_producer(&block_from(a)));
    dpos.on_block_produced(100);
    assert!(dpos.is_valid_block_producer(&block_from(a)));
}

#[test]
fn pacing_gate_waits_for_the_block_interval() {
    let mut dpos = DPoS::new();
    dpos.add_validator(key(1), 10);
    dpos.on_block_produced(100);
    assert!(!dpos.can_produce_block(100));
    assert!(!dpos.can_produce_block(102));
    assert!(dpos.can_produce_block(103));
    assert!(!dpos.can_produce_block(99));
}

#[test]
fn prepare_phase_counts_distinct_members_up_to_the_threshold() {
    let members: Vec<PublicKey> = vec![key(1), key(2), key(3), key(4)];
    let mut pbft = PBFT::new(members.clone());
    let block = block_from(key(1));
    let hash = block.hash();

    assert!(pbft.on_propose_block(block));
    assert!(matches!(pbft.phase(), PbftState::Prepare));

    // with four members, more than 2*4/3 = 2 distinct votes are needed
    assert!(!pbft.on_prepare_message(members[0], hash));
    assert!(!pbft.on_prepare_message(members[0], hash)); // same voter counts once
    assert!(!pbft.on_prepare_message(members[1], hash));
    assert!(pbft.on_prepare_message(members[2], hash));
    assert!(matches!(pbft.phase(), PbftState::Commit));
}

#[test]
fn commit_phase_finalizes_only_past_the_threshold() {
    let members: Vec<PublicKey> = vec![key(1), key(2), key(3), key(4)];
    let mut pbft = PBFT::new(members.clone());
    let block = block_from(key(1));
    let hash = block.hash();

    assert!(pbft.on_propose_block(block));
    assert!(!pbft.on_prepare_message(members[0], hash));
    assert!(!pbft.on_prepare_message(members[1], hash));
    assert!(pbft.on_prepare_message(members[2], hash));

    assert!(!pbft.on_commit_message(members[0], hash));
    assert!(!pbft.on_commit_message(members[0], hash)); // no double counting
    assert!(!pbft.on_commit_message(members[1], hash));
    assert!(pbft.on_commit_message(members[2], hash)); // finalization signal
    assert!(matches!(pbft.phase(), PbftState::PrePrepare)); // round reset
}

#[test]
fn votes_from_non_members_are_ignored() {
    let members: Vec<PublicKey> = vec![key(1), key(2), key(3)];
    let outsider = key(9);
    let mut pbft = PBFT::new(members.clone());
    let block = block_from(key(1));
    let hash = block.hash();

    assert!(pbft.on_propose_block(block));
    // with three members, more than 2 distinct votes are needed
    assert!(!pbft.on_prepare_message(members[0], hash));
    assert!(!pbft.on_prepare_message(members[1], hash));
    assert!(!pbft.on_prepare_message(outsider, hash));
    assert!(matches!(pbft.phase(), PbftState::Prepare));
    assert!(pbft.on_prepare_message(members[2], hash));
}

#[test]
fn votes_for_another_hash_are_not_counted() {
    let members: Vec<PublicKey> = vec![key(1), key(2), key(3)];
    let mut pbft = PBFT::new(members.clone());
    let block = block_from(key(1));
    let hash = block.hash();
    let other = flux::hash::Hash::from_bytes([0xABu8; 32]);

    assert!(pbft.on_propose_block(block));
    assert!(!pbft.on_prepare_message(members[0], other));
    assert!(!pbft.on_prepare_message(members[1], other));
    assert!(!pbft.on_prepare_message(members[2], other));
    assert!(matches!(pbft.phase(), PbftState::Prepare));

    assert!(!pbft.on_prepare_message(members[0], hash));
    assert!(!pbft.on_prepare_message(members[1], hash));
    assert!(pbft.on_prepare_message(members[2], hash));
}

#[test]
fn out_of_phase_messages_are_ignored() {
    let members: Vec<PublicKey> = vec![key(1), key(2), key(3)];
    let mut pbft = PBFT::new(members.clone());
    let block = block_from(key(1));
    let hash = block.hash();

    // no round is open: votes fall on the floor
    assert!(!pbft.on_prepare_message(members[0], hash));
    assert!(!pbft.on_commit_message(members[0], hash));

    assert!(pbft.on_propose_block(block));
    // a second proposal mid-round is refused
    assert!(!pbft.on_propose_block(block_from(key(2))));
    // commit votes before the commit phase are ignored
    assert!(!pbft.on_commit_message(members[0], hash));
    assert!(matches!(pbft.phase(), PbftState::Prepare));
}

#[test]
fn duplicate_members_count_once() {
    let one = key(1);
    let two = key(2);
    let members: Vec<PublicKey> = vec![one, one, one, two];
    let mut pbft = PBFT::new(members);
    assert_eq!(pbft.validator_count(), 2);
}

#[test]
fn manager_refuses_to_schedule_without_validators() {
    let mut manager = ConsensusManager::new(vec![key(1)]);
    assert_eq!(manager.get_next_validator(), Err(ChainError::NoActiveValidators));
}

#[test]
fn full_round_proposes_prepares_commits_and_finalizes() {
    let solo = key(1);
    let mut manager = ConsensusManager::new(vec![solo]);
    manager.add_validator(solo, 100);

    let block = block_from(solo);
    let hash = block.hash();

    // a block from a key outside the rotation never enters agreement
    assert!(!manager.on_block_produced(block_from(key(2)), 10));

    assert!(manager.on_block_produced(block, 10));
    // one member: more than 2*1/3 = 0 votes suffice, so the first vote crosses
    assert!(manager.on_prepare_message(solo, hash));
    assert!(manager.on_commit_message(solo, hash));
    // the round is over: further votes fall on the floor
    assert!(!manager.on_commit_message(solo, hash));
}

#[test]
fn manager_rotation_follows_stakes() {
    let a = key(1);
    let b = key(2);
    let mut manager = ConsensusManager::new(vec![a, b]);
    manager.add_validator(a, 10);
    manager.add_validator(b, 20);
    assert_eq!(manager.get_next_validator().unwrap(), b);
    assert_eq!(manager.get_next_validator().unwrap(), a);
    assert_eq!(manager.get_next_validator().unwrap(), b);
    manager.remove_validator(&b);
    assert_eq!(manager.get_next_validator().unwrap(), a);
}
