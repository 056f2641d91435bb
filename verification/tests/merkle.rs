use flux::block::calculate_merkle_root;
use flux::{Block, Hashable, KeyPair, PublicKey, Transaction};

fn key(tag: u8) -> PublicKey {
    KeyPair::from_secret_key(&[tag; 32]).unwrap().public_key()
}

fn sample_txs() -> Vec<Transaction> {
    let a = key(1);
    let b = key(2);
    let c = key(3);
    vec![
        Transaction::new(a, b, 10, 0),
        Transaction::new(b, c, 20, 0),
        Transaction::new(c, a, 30, 7),
    ]
}

#[test]
fn empty_list_commits_to_the_zero_digest() {
    assert_eq!(calculate_merkle_root(&[]), flux::hash::Hash::zero());
}

#[test]
fn single_transaction_commits_to_its_leaf_digest() {
    let tx = Transaction::new(key(1), key(2), 5, 0);
    let root = calculate_merkle_root(std::slice::from_ref(&tx));
    assert_eq!(root, tx.hash());
}

#[test]
fn merkle_root_is_deterministic() {
    let txs = sample_txs();
    let again = sample_txs();
    assert_eq!(calculate_merkle_root(&txs), calculate_merkle_root(&again));
}

#[test]
fn merkle_root_is_order_sensitive() {
    let txs = sample_txs();
    let mut reversed = sample_txs();
    reversed.reverse();
    assert_ne!(calculate_merkle_root(&txs), calculate_merkle_root(&reversed));
}

#[test]
fn changing_any_signed_field_changes_the_root() {
    let txs = sample_txs();
    let root = calculate_merkle_root(&txs);

    let mut amount_changed = sample_txs();
    amount_changed[1].amount = 21;
    assert_ne!(root, calculate_merkle_root(&amount_changed));

    let mut nonce_changed = sample_txs();
    nonce_changed[2].nonce = 8;
    assert_ne!(root, calculate_merkle_root(&nonce_changed));

    let mut receiver_changed = sample_txs();
    receiver_changed[0].to = key(4);
    assert_ne!(root, calculate_merkle_root(&receiver_changed));
}

#[test]
fn odd_level_duplicates_its_last_node() {
    let txs = sample_txs();
    let mut padded = sample_txs();
    padded.push(padded[2].clone());
    assert_eq!(calculate_merkle_root(&txs), calculate_merkle_root(&padded));
}

#[test]
fn block_identity_covers_the_header_fields() {
    let validator = key(9);
    let txs = sample_txs();
    let block = Block::new(flux::hash::Hash::zero(), txs, 1, validator, 100);
    let same = Block::new(flux::hash::Hash::zero(), sample_txs(), 1, validator, 100);
    assert_eq!(block.hash(), same.hash());

    let later = Block::new(flux::hash::Hash::zero(), sample_txs(), 1, validator, 101);
    assert_ne!(block.hash(), later.hash());

    let higher = Block::new(flux::hash::Hash::zero(), sample_txs(), 2, validator, 100);
    assert_ne!(block.hash(), higher.hash());
}

