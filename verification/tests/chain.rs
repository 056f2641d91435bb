use flux::network::{handle_network_message, MessageOutcome, NetworkMessage, PendingRequests};
use flux::{
    Block, Blockchain, ChainError, ConsensusManager, Hashable, KeyPair, PublicKey,
    Transaction,
};

fn keypair(tag: u8) -> KeyPair {
    KeyPair::from_secret_key(&[tag; 32]).unwrap()
}

fn key(tag: u8) -> PublicKey {
    keypair(tag).public_key()
}

/// A chain whose only registered validator (and agreement member) is `tag`.
fn single_validator_chain(tag: u8) -> Blockchain {
    let validator = key(tag);
    let mut manager = ConsensusManager::new(vec![validator]);
    manager.add_validator(validator, 100);
    Blockchain::new(manager)
}

fn signed_transfer(from: &KeyPair, to: PublicKey, amount: u64, nonce: u64) -> Transaction {
    let mut tx = Transaction::new(from.public_key(), to, amount, nonce);
    let message = tx.signing_bytes();
    tx.sign(from.sign(&message));
    tx
}

#[test]
fn new_chain_has_the_genesis_block_as_head() {
    let chain = single_validator_chain(1);
    let genesis = chain.get_latest_block();
    assert_eq!(genesis.header.height, 0);
    assert_eq!(genesis.header.previous_hash, flux::hash::Hash::zero());
    assert_eq!(genesis.header.validator, PublicKey::genesis());
    assert!(genesis.transactions.is_empty());
    assert!(chain.get_block_by_hash(&genesis.hash()).is_some());
}

#[test]
fn mined_block_extends_the_head() {
    let mut chain = single_validator_chain(1);
    let validator = key(1);
    let genesis_hash = chain.get_latest_block().hash();

    let mined = chain.mine_block(validator, 50).unwrap();
    assert_eq!(mined.header.previous_hash, genesis_hash);
    assert_eq!(mined.header.height, 1);
    assert_eq!(chain.get_latest_block().hash(), mined.hash());
    assert!(chain.get_block_by_hash(&mined.hash()).is_some());
}

#[test]
fn block_from_the_wrong_proposer_is_rejected() {
    let mut chain = single_validator_chain(1);
    let outsider = key(7);
    let head = chain.get_latest_block().hash();
    let block = Block::new(head, Vec::new(), 1, outsider, 50);
    assert_eq!(chain.add_block(block, 50), Err(ChainError::ConsensusRejected));
    assert_eq!(chain.get_latest_block().hash(), head);
}

#[test]
fn block_off_the_head_is_rejected_as_a_fork() {
    let mut chain = single_validator_chain(1);
    let validator = key(1);
    let head = chain.get_latest_block().hash();
    let block = Block::new(flux::hash::Hash::from_bytes([5u8; 32]), Vec::new(), 1, validator, 50);
    assert_eq!(chain.add_block(block, 50), Err(ChainError::ForkMismatch));
    assert_eq!(chain.get_latest_block().hash(), head);
}

#[test]
fn unsigned_transaction_is_rejected() {
    let mut chain = single_validator_chain(1);
    let tx = Transaction::new(key(2), key(3), 0, 0);
    assert_eq!(chain.add_transaction(tx), Err(ChainError::InvalidSignature));
}

#[test]
fn transaction_beyond_the_balance_is_rejected() {
    let mut chain = single_validator_chain(1);
    let sender = keypair(2);
    let tx = signed_transfer(&sender, key(3), 10, 0);
    assert_eq!(chain.add_transaction(tx), Err(ChainError::InsufficientBalance));
}

#[test]
fn duplicate_transaction_is_rejected() {
    let mut chain = single_validator_chain(1);
    let sender = keypair(2);
    let tx = signed_transfer(&sender, key(3), 0, 0);
    assert_eq!(chain.add_transaction(tx.clone()), Ok(()));
    assert_eq!(chain.add_transaction(tx), Err(ChainError::DuplicateTransaction));
}

#[test]
fn mined_block_carries_the_pool_and_applies_it() {
    let mut chain = single_validator_chain(1);
    let validator = key(1);
    let sender = keypair(2);
    let receiver = key(3);

    let tx = signed_transfer(&sender, receiver, 0, 0);
    assert_eq!(chain.add_transaction(tx.clone()), Ok(()));

    let mined = chain.mine_block(validator, 50).unwrap();
    assert_eq!(mined.transactions.len(), 1);
    assert_eq!(mined.transactions[0], tx);
}

#[test]
fn accepted_block_is_handed_back_for_broadcast() {
    let mut chain = single_validator_chain(1);
    let mut pending = PendingRequests::new();
    let validator = key(1);
    let head = chain.get_latest_block().hash();
    let block = Block::new(head, Vec::new(), 1, validator, 50);
    let block_hash = block.hash();

    match handle_network_message(&mut chain, &mut pending, NetworkMessage::NewBlock(block), 50) {
        MessageOutcome::BroadcastBlock(b) => assert_eq!(b.hash(), block_hash),
        other => panic!("expected a broadcast, got {:?}", other),
    }
    assert_eq!(chain.get_latest_block().hash(), block_hash);
}

#[test]
fn rejected_block_reports_the_chain_error() {
    let mut chain = single_validator_chain(1);
    let mut pending = PendingRequests::new();
    let outsider = key(7);
    let head = chain.get_latest_block().hash();
    let block = Block::new(head, Vec::new(), 1, outsider, 50);

    match handle_network_message(&mut chain, &mut pending, NetworkMessage::NewBlock(block), 50) {
        MessageOutcome::Rejected(e) => assert_eq!(e, ChainError::ConsensusRejected),
        other => panic!("expected a rejection, got {:?}", other),
    }
}

#[test]
fn block_requests_answer_only_known_hashes() {
    let mut chain = single_validator_chain(1);
    let mut pending = PendingRequests::new();
    let genesis_hash = chain.get_latest_block().hash();

    match handle_network_message(
        &mut chain,
        &mut pending,
        NetworkMessage::BlockRequest(genesis_hash),
        50,
    ) {
        MessageOutcome::SendBlockResponse(b) => assert_eq!(b.hash(), genesis_hash),
        other => panic!("expected a response, got {:?}", other),
    }

    let unknown = flux::hash::Hash::from_bytes([9u8; 32]);
    assert!(matches!(
        handle_network_message(&mut chain, &mut pending, NetworkMessage::BlockRequest(unknown), 50),
        MessageOutcome::Ignored
    ));
}

#[test]
fn block_responses_match_pending_requests_once() {
    let mut chain = single_validator_chain(1);
    let mut pending = PendingRequests::new();
    let genesis = chain.get_latest_block();
    let wanted = genesis.hash();

    pending.register(wanted);
    assert!(pending.contains(&wanted));

    match handle_network_message(
        &mut chain,
        &mut pending,
        NetworkMessage::BlockResponse(genesis.clone()),
        50,
    ) {
        MessageOutcome::DeliverBlock(b) => assert_eq!(b.hash(), wanted),
        other => panic!("expected a delivery, got {:?}", other),
    }
    assert!(!pending.contains(&wanted));

    // a late or unsolicited response moves nothing
    assert!(matches!(
        handle_network_message(&mut chain, &mut pending, NetworkMessage::BlockResponse(genesis), 50),
        MessageOutcome::Ignored
    ));
}

#[test]
fn cancelled_requests_release_their_registration() {
    let mut pending = PendingRequests::new();
    let wanted = flux::hash::Hash::from_bytes([4u8; 32]);
    pending.register(wanted);
    pending.register(wanted); // asking twice changes nothing
    assert!(pending.take(&wanted)); // the wait timed out: release it
    assert!(!pending.take(&wanted)); // nothing left to release
    assert!(!pending.contains(&wanted));
}

#[test]
fn shutdown_is_never_requested() {
    assert!(!flux::should_shutdown());
}
