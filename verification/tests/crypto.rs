use flux::{Hashable, KeyPair, PublicKey, Transaction};

#[test]
fn zero_digest_is_all_zero_bytes() {
    let zero = flux::hash::Hash::zero();
    assert_eq!(zero.as_bytes(), &[0u8; 32][..]);
    assert_eq!(flux::hash::Hash::default(), zero);
}

#[test]
fn digest_equality_is_by_bytes() {
    let a = flux::hash::Hash::from_bytes([7u8; 32]);
    let b = flux::hash::Hash::from_bytes([7u8; 32]);
    let mut other = [7u8; 32];
    other[31] = 8;
    let c = flux::hash::Hash::from_bytes(other);
    assert_eq!(a, b);
    assert_ne!(a, c);
}

#[test]
fn genesis_key_is_all_zero() {
    let genesis = PublicKey::genesis();
    assert_eq!(genesis.as_bytes(), &[0u8; 32][..]);
}

#[test]
fn keypair_from_secret_key_accepts_only_32_bytes() {
    assert!(KeyPair::from_secret_key(&[1u8; 32]).is_ok());
    assert!(KeyPair::from_secret_key(&[1u8; 31]).is_err());
    assert!(KeyPair::from_secret_key(&[1u8; 33]).is_err());
    assert!(KeyPair::from_secret_key(&[]).is_err());
}

#[test]
fn keypair_from_secret_key_is_deterministic() {
    let a = KeyPair::from_secret_key(&[9u8; 32]).unwrap();
    let b = KeyPair::from_secret_key(&[9u8; 32]).unwrap();
    assert_eq!(a.public_key(), b.public_key());
}

#[test]
fn signed_transaction_verifies() {
    let sender = KeyPair::generate();
    let receiver = KeyPair::generate();
    let mut tx = Transaction::new(sender.public_key(), receiver.public_key(), 5, 0);
    let message = tx.signing_bytes();
    tx.sign(sender.sign(&message));
    assert!(tx.verify());
}

#[test]
fn wrong_key_or_tampered_field_fails_verification() {
    let sender = KeyPair::generate();
    let receiver = KeyPair::generate();
    let intruder = KeyPair::generate();

    let mut tx = Transaction::new(sender.public_key(), receiver.public_key(), 5, 0);
    let message = tx.signing_bytes();
    tx.sign(intruder.sign(&message));
    assert!(!tx.verify());

    let mut tampered = Transaction::new(sender.public_key(), receiver.public_key(), 5, 0);
    let message = tampered.signing_bytes();
    tampered.sign(sender.sign(&message));
    tampered.amount = 6;
    assert!(!tampered.verify());
}

#[test]
fn malformed_signature_fails_rather_than_panicking() {
    let sender = KeyPair::generate();
    let receiver = KeyPair::generate();
    let mut tx = Transaction::new(sender.public_key(), receiver.public_key(), 5, 0);
    tx.sign(vec![0xFFu8; 3]);
    assert!(!tx.verify());
    tx.sign(Vec::new());
    assert!(!tx.verify());
}

#[test]
fn transaction_identity_excludes_signature() {
    let sender = KeyPair::generate();
    let receiver = KeyPair::generate();
    let mut a = Transaction::new(sender.public_key(), receiver.public_key(), 5, 0);
    let b = Transaction::new(sender.public_key(), receiver.public_key(), 5, 0);
    a.sign(vec![1, 2, 3]);
    assert_eq!(a, b);
    let c = Transaction::new(sender.public_key(), receiver.public_key(), 5, 1);
    assert_ne!(a, c);
}

#[test]
fn transaction_hash_is_deterministic_and_signature_free() {
    let sender = KeyPair::generate();
    let receiver = KeyPair::generate();
    let mut a = Transaction::new(sender.public_key(), receiver.public_key(), 5, 0);
    let b = Transaction::new(sender.public_key(), receiver.public_key(), 5, 0);
    a.sign(vec![9, 9, 9]);
    assert_eq!(a.hash(), b.hash());
}
