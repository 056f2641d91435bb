use flux::{
    Account, Block, BlockError, Hashable, KeyPair, PublicKey, Transaction, TxError,
    WorldState,
};

fn key(tag: u8) -> PublicKey {
    KeyPair::from_secret_key(&[tag; 32]).unwrap().public_key()
}

#[test]
fn nonce_replay_is_rejected_and_increment_is_accepted() {
    let a = key(1);
    let b = key(2);
    let mut state = WorldState::new();

    let first = Transaction::new(a, b, 0, 0);
    assert_eq!(state.apply_transaction(&first), Ok(()));

    let replay = Transaction::new(a, b, 0, 0);
    assert_eq!(state.apply_transaction(&replay), Err(TxError::InvalidNonce));

    let next = Transaction::new(a, b, 0, 1);
    assert_eq!(state.apply_transaction(&next), Ok(()));
    assert_eq!(state.get_account(&a).unwrap().nonce, 2);
}

#[test]
fn skipped_nonce_is_rejected() {
    let a = key(1);
    let b = key(2);
    let mut state = WorldState::new();
    let skipped = Transaction::new(a, b, 0, 1);
    assert_eq!(state.apply_transaction(&skipped), Err(TxError::InvalidNonce));
}

#[test]
fn transfer_without_funds_is_rejected() {
    let a = key(1);
    let b = key(2);
    let mut state = WorldState::new();
    let tx = Transaction::new(a, b, 10, 0);
    assert_eq!(state.apply_transaction(&tx), Err(TxError::InsufficientBalance));
    assert!(state.get_account(&a).is_none());
}

#[test]
fn applied_transfer_conserves_balances_and_spends_nonce() {
    let a = key(1);
    let b = key(2);
    let mut state = WorldState::new();
    let before_a = state.get_account(&a).unwrap_or(Account { balance: 0, nonce: 0 });
    let before_b = state.get_account(&b).unwrap_or(Account { balance: 0, nonce: 0 });

    let tx = Transaction::new(a, b, 0, 0);
    assert_eq!(state.apply_transaction(&tx), Ok(()));

    let after_a = state.get_account(&a).unwrap();
    let after_b = state.get_account(&b).unwrap();
    assert_eq!(after_a.balance + tx.amount, before_a.balance);
    assert_eq!(after_b.balance, before_b.balance + tx.amount);
    assert_eq!(after_a.nonce, before_a.nonce + 1);
    assert_eq!(after_b.nonce, before_b.nonce);
}

#[test]
fn self_transfer_keeps_balance_and_spends_nonce() {
    let a = key(1);
    let mut state = WorldState::new();
    let tx = Transaction::new(a, a, 0, 0);
    assert_eq!(state.apply_transaction(&tx), Ok(()));
    let row = state.get_account(&a).unwrap();
    assert_eq!(row.balance, 0);
    assert_eq!(row.nonce, 1);
}

#[test]
fn queries_never_create_accounts() {
    let c = key(3);
    let state = WorldState::new();
    assert!(state.get_account(&c).is_none());
    assert!(state.get_account(&c).is_none());
}

#[test]
fn block_must_extend_last_applied_block() {
    let validator = key(9);
    let mut state = WorldState::new();

    let forked = Block::new(flux::hash::Hash::from_bytes([1u8; 32]), Vec::new(), 1, validator, 5);
    assert_eq!(state.apply_block(&forked), Err(BlockError::StaleOrForkedBlock));

    let genesis_like = Block::new(flux::hash::Hash::zero(), Vec::new(), 0, validator, 5);
    let genesis_hash = genesis_like.hash();
    assert_eq!(state.apply_block(&genesis_like), Ok(()));
    assert_eq!(state.get_last_block_hash(), genesis_hash);

    let child = Block::new(genesis_hash, Vec::new(), 1, validator, 6);
    let child_hash = child.hash();
    assert_eq!(state.apply_block(&child), Ok(()));
    assert_eq!(state.get_last_block_hash(), child_hash);
}

#[test]
fn failing_block_leaves_no_partial_state() {
    let a = key(1);
    let b = key(2);
    let validator = key(9);
    let mut state = WorldState::new();

    let good = Transaction::new(a, b, 0, 0);
    let bad = Transaction::new(a, b, 0, 5);
    let block = Block::new(flux::hash::Hash::zero(), vec![good, bad], 0, validator, 5);
    assert_eq!(
        state.apply_block(&block),
        Err(BlockError::Transaction(TxError::InvalidNonce))
    );
    assert!(state.get_account(&a).is_none());
    assert_eq!(state.get_last_block_hash(), flux::hash::Hash::zero());
}
