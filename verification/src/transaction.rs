use vstd::prelude::*;

verus! {

use crate::hash::{blake3_digest, blake3_of, Hashable};
use crate::keys::{sig_valid, verify_signature, PublicKey};
use vstd::bytes::{spec_u64_to_le_bytes, u64_to_le_bytes};

/// The mathematical value of a transaction: its four signed fields and the
/// signature bytes attached to them.
pub ghost struct TxView {
    pub from: Seq<u8>,
    pub to: Seq<u8>,
    pub amount: u64,
    pub nonce: u64,
    pub signature: Seq<u8>,
}

/// The byte string a transaction is signed over and hashed by:
/// `from ++ to ++ amount (little endian) ++ nonce (little endian)`.
/// The signature is deliberately excluded.
pub open spec fn tx_message(t: TxView) -> Seq<u8> {
    t.from + t.to + spec_u64_to_le_bytes(t.amount) + spec_u64_to_le_bytes(t.nonce)
}

/// The leaf digest a transaction contributes to a Merkle commitment.
pub open spec fn leaf_hash_of(t: TxView) -> Seq<u8> {
    blake3_of(tx_message(t))
}

/// Transaction identity for mempool deduplication: the signature does not
/// take part.
pub open spec fn same_identity(a: TxView, b: TxView) -> bool {
    &&& a.from == b.from
    &&& a.to == b.to
    &&& a.amount == b.amount
    &&& a.nonce == b.nonce
}

/// The mathematical values of a sequence of transactions.
pub open spec fn tx_views(s: Seq<Transaction>) -> Seq<TxView> {
    s.map_values(|t: Transaction| t@)
}

/// A transfer of `amount` from `from` to `to`, replay-protected by the
/// sender's `nonce` and authenticated by `signature`.
#[derive(Debug)]
pub struct Transaction {
    pub from: PublicKey,
    pub to: PublicKey,
    pub amount: u64,
    pub nonce: u64,
    pub signature: Vec<u8>,
}

impl View for Transaction {
    type V = TxView;

    open spec fn view(&self) -> TxView {
        TxView {
            from: self.from@,
            to: self.to@,
            amount: self.amount,
            nonce: self.nonce,
            signature: self.signature@,
        }
    }
}

/// Appends `src` to `buf`.
pub(crate) fn push_bytes(buf: &mut Vec<u8>, src: &[u8])
    ensures
        final(buf)@ == old(buf)@ + src@,
{
    let mut i: usize = 0;
    while i < src.len()
        invariant
            i <= src@.len(),
            buf@ == old(buf)@ + src@.subrange(0, i as int),
        decreases src@.len() - i,
    {
        buf.push(src[i]);
        proof {
            assert(buf@ =~= old(buf)@ + src@.subrange(0, i + 1));
        }
        i = i + 1;
    }
    proof {
        assert(buf@ =~= old(buf)@ + src@);
    }
}

/// A fresh copy of a byte vector.
pub(crate) fn copy_bytes(src: &Vec<u8>) -> (r: Vec<u8>)
    ensures
        r@ == src@,
{
    let mut out: Vec<u8> = Vec::new();
    push_bytes(&mut out, src.as_slice());
    proof {
        assert(out@ =~= src@);
    }
    out
}

impl Transaction {
    /// A new, not yet signed transfer.
    pub fn new(from: PublicKey, to: PublicKey, amount: u64, nonce: u64) -> (t: Transaction)
        ensures
            t@.from == from@,
            t@.to == to@,
            t@.amount == amount,
            t@.nonce == nonce,
            t@.signature == Seq::<u8>::empty(),
    {
        let t = Transaction { from, to, amount, nonce, signature: Vec::new() };
        proof {
            assert(t@.signature =~= Seq::<u8>::empty());
        }
        t
    }

    /// The bytes this transaction is signed over (and hashed by).
    pub fn signing_bytes(&self) -> (r: Vec<u8>)
        ensures
            r@ == tx_message(self@),
    {
        let mut buf: Vec<u8> = Vec::new();
        push_bytes(&mut buf, self.from.as_bytes());
        push_bytes(&mut buf, self.to.as_bytes());
        let amount_bytes = u64_to_le_bytes(self.amount);
        push_bytes(&mut buf, amount_bytes.as_slice());
        let nonce_bytes = u64_to_le_bytes(self.nonce);
        push_bytes(&mut buf, nonce_bytes.as_slice());
        proof {
            assert(buf@ =~= tx_message(self@));
        }
        buf
    }

    /// Attaches a signature; the signed fields are untouched.
    pub fn sign(&mut self, signature: Vec<u8>)
        ensures
            final(self)@ == (TxView { signature: signature@, ..old(self)@ }),
    {
        self.signature = signature;
    }

    /// Whether the attached signature validates the signed fields under the
    /// sender's key.
    pub fn verify(&self) -> (r: bool)
        ensures
            r == sig_valid(self@.from, tx_message(self@), self@.signature),
    {
        let message = self.signing_bytes();
        verify_signature(&self.from, message.as_slice(), self.signature.as_slice())
    }
}

impl Clone for Transaction {
    fn clone(&self) -> (r: Self)
        ensures
            r@ == self@,
    {
        Transaction {
            from: self.from,
            to: self.to,
            amount: self.amount,
            nonce: self.nonce,
            signature: copy_bytes(&self.signature),
        }
    }
}

impl PartialEq for Transaction {
    fn eq(&self, other: &Self) -> (r: bool) {
        self.from == other.from && self.to == other.to && self.amount == other.amount
            && self.nonce == other.nonce
    }
}

impl vstd::std_specs::cmp::PartialEqSpecImpl for Transaction {
    open spec fn obeys_eq_spec() -> bool {
        true
    }

    open spec fn eq_spec(&self, other: &Transaction) -> bool {
        same_identity(self@, other@)
    }
}

impl Eq for Transaction {}

impl Hashable for Transaction {
    /// The transaction's leaf digest: the BLAKE3 digest of its signed bytes.
    fn hash(&self) -> (h: crate::hash::Hash)
        ensures
            h@ == leaf_hash_of(self@),
    {
        let message = self.signing_bytes();
        blake3_digest(message.as_slice())
    }
}

} // verus!
