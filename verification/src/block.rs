use vstd::prelude::*;

verus! {

use crate::hash::{blake3_digest, blake3_of, zero_digest, Hashable};
use crate::keys::PublicKey;
use crate::transaction::{leaf_hash_of, push_bytes, tx_views, Transaction, TxView};
use vstd::bytes::{spec_u32_to_le_bytes, spec_u64_to_le_bytes, u32_to_le_bytes, u64_to_le_bytes};

/// The mathematical value of a block header.
pub ghost struct HeaderView {
    pub version: u32,
    pub previous_hash: Seq<u8>,
    pub merkle_root: Seq<u8>,
    pub timestamp: u64,
    pub height: u64,
    pub validator: Seq<u8>,
}

/// The mathematical value of a block: its header and the ordered list of
/// transactions it carries.
pub ghost struct BlockView {
    pub header: HeaderView,
    pub transactions: Seq<TxView>,
}

/// A block header; the block's identity is the digest of these six fields.
#[derive(Debug, Clone, Copy)]
pub struct BlockHeader {
    pub version: u32,
    pub previous_hash: crate::hash::Hash,
    pub merkle_root: crate::hash::Hash,
    pub timestamp: u64,
    pub height: u64,
    pub validator: PublicKey,
}

impl View for BlockHeader {
    type V = HeaderView;

    open spec fn view(&self) -> HeaderView {
        HeaderView {
            version: self.version,
            previous_hash: self.previous_hash@,
            merkle_root: self.merkle_root@,
            timestamp: self.timestamp,
            height: self.height,
            validator: self.validator@,
        }
    }
}

/// A block: a header plus the ordered transactions committed to by the
/// header's Merkle root.
#[derive(Debug)]
pub struct Block {
    pub header: BlockHeader,
    pub transactions: Vec<Transaction>,
}

impl View for Block {
    type V = BlockView;

    open spec fn view(&self) -> BlockView {
        BlockView { header: self.header@, transactions: tx_views(self.transactions@) }
    }
}

/// The digest of a pair of adjacent Merkle nodes.
pub open spec fn combine(left: Seq<u8>, right: Seq<u8>) -> Seq<u8> {
    blake3_of(left + right)
}

/// A level with an odd node count is padded by duplicating its last node.
pub open spec fn pad_even(hashes: Seq<Seq<u8>>) -> Seq<Seq<u8>> {
    if hashes.len() % 2 == 1 {
        hashes.push(hashes.last())
    } else {
        hashes
    }
}

/// One Merkle level: adjacent pairs combined into their parent digests.
pub open spec fn combine_level(hashes: Seq<Seq<u8>>) -> Seq<Seq<u8>>
    recommends
        hashes.len() % 2 == 0,
{
    Seq::new(hashes.len() / 2, |i: int| combine(hashes[2 * i], hashes[2 * i + 1]))
}

/// Folds a level of digests up to the Merkle root: the zero digest for an
/// empty level, the digest itself for a single node, and otherwise the fold
/// of the combined (padded) level.
pub open spec fn merkle_fold(hashes: Seq<Seq<u8>>) -> Seq<u8>
    decreases hashes.len(),
{
    if hashes.len() == 0 {
        zero_digest()
    } else if hashes.len() == 1 {
        hashes[0]
    } else {
        merkle_fold(combine_level(pad_even(hashes)))
    }
}

/// The leaf digests of an ordered transaction list.
pub open spec fn leaves_of(txs: Seq<TxView>) -> Seq<Seq<u8>> {
    Seq::new(txs.len(), |i: int| leaf_hash_of(txs[i]))
}

/// The Merkle commitment of an ordered transaction list.
pub open spec fn merkle_root_of(txs: Seq<TxView>) -> Seq<u8> {
    merkle_fold(leaves_of(txs))
}

/// The mathematical values of a sequence of digests.
pub open spec fn digests_of(s: Seq<crate::hash::Hash>) -> Seq<Seq<u8>> {
    s.map_values(|d: crate::hash::Hash| d@)
}

/// The byte string a block's identity is the digest of.
pub open spec fn header_bytes(h: HeaderView) -> Seq<u8> {
    spec_u32_to_le_bytes(h.version) + h.previous_hash + h.merkle_root
        + spec_u64_to_le_bytes(h.timestamp) + spec_u64_to_le_bytes(h.height) + h.validator
}

/// A block's identity: the digest of its header.
pub open spec fn block_hash_of(h: HeaderView) -> Seq<u8> {
    blake3_of(header_bytes(h))
}

/// The digest of two adjacent nodes' concatenated bytes.
fn combine_digests(left: &crate::hash::Hash, right: &crate::hash::Hash) -> (h: crate::hash::Hash)
    ensures
        h@ == combine(left@, right@),
{
    let mut buf: Vec<u8> = Vec::new();
    push_bytes(&mut buf, left.as_bytes());
    push_bytes(&mut buf, right.as_bytes());
    proof {
        assert(buf@ =~= left@ + right@);
    }
    blake3_digest(buf.as_slice())
}

/// The Merkle commitment of `transactions`: leaf digests are paired and
/// combined level by level (an odd level duplicates its last node) until one
/// digest remains; an empty list commits to the zero digest.
pub fn calculate_merkle_root(transactions: &[Transaction]) -> (root: crate::hash::Hash)
    ensures
        root@ == merkle_root_of(tx_views(transactions@)),
{
    if transactions.len() == 0 {
        return crate::hash::Hash::zero();
    }
    let mut hashes: Vec<crate::hash::Hash> = Vec::new();
    let mut i: usize = 0;
    while i < transactions.len()
        invariant
            i <= transactions@.len(),
            hashes@.len() == i,
            forall|j: int| 0 <= j < i ==> hashes@[j]@ == leaf_hash_of(transactions@[j]@),
        decreases transactions@.len() - i,
    {
        let h = transactions[i].hash();
        hashes.push(h);
        i = i + 1;
    }
    proof {
        assert(digests_of(hashes@) =~= leaves_of(tx_views(transactions@)));
    }
    while hashes.len() > 1
        invariant
            1 <= hashes@.len(),
            merkle_fold(digests_of(hashes@)) == merkle_root_of(tx_views(transactions@)),
        decreases hashes@.len(),
    {
        let ghost entry = digests_of(hashes@);
        if hashes.len() % 2 == 1 {
            let last = hashes[hashes.len() - 1];
            hashes.push(last);
        }
        proof {
            assert(digests_of(hashes@) =~= pad_even(entry));
        }
        let ghost padded = digests_of(hashes@);
        let half = hashes.len() / 2;
        let mut next: Vec<crate::hash::Hash> = Vec::new();
        let mut k: usize = 0;
        while k < half
            invariant
                half == padded.len() / 2,
                padded.len() % 2 == 0,
                hashes@.len() <= usize::MAX,
                digests_of(hashes@) == padded,
                hashes@.len() == padded.len(),
                next@.len() == k,
                k <= half,
                forall|j: int|
                    0 <= j < k ==> next@[j]@ == combine(padded[2 * j], padded[2 * j + 1]),
            decreases half - k,
        {
            let h = combine_digests(&hashes[2 * k], &hashes[2 * k + 1]);
            next.push(h);
            k = k + 1;
        }
        proof {
            assert(digests_of(next@) =~= combine_level(padded));
        }
        hashes = next;
    }
    hashes[0]
}

/// The commitment of an empty list is the zero digest; a single transaction
/// commits to exactly its own leaf digest.
pub proof fn lemma_merkle_root_edge_cases(txs: Seq<TxView>)
    ensures
        txs.len() == 0 ==> merkle_root_of(txs) == zero_digest(),
        txs.len() == 1 ==> merkle_root_of(txs) == leaf_hash_of(txs[0]),
{
    if txs.len() == 0 {
        assert(leaves_of(txs).len() == 0);
    } else if txs.len() == 1 {
        assert(leaves_of(txs)[0] == leaf_hash_of(txs[0]));
    }
}

impl Block {
    /// A new block at `height` extending `previous_hash`, carrying
    /// `transactions` committed to by their Merkle root, proposed by
    /// `validator` at wall-clock second `timestamp`.
    pub fn new(
        previous_hash: crate::hash::Hash,
        transactions: Vec<Transaction>,
        height: u64,
        validator: PublicKey,
        timestamp: u64,
    ) -> (b: Block)
        ensures
            b@.header.version == 1,
            b@.header.previous_hash == previous_hash@,
            b@.header.merkle_root == merkle_root_of(tx_views(transactions@)),
            b@.header.timestamp == timestamp,
            b@.header.height == height,
            b@.header.validator == validator@,
            b@.transactions == tx_views(transactions@),
    {
        let merkle_root = calculate_merkle_root(transactions.as_slice());
        Block {
            header: BlockHeader {
                version: 1,
                previous_hash,
                merkle_root,
                timestamp,
                height,
                validator,
            },
            transactions,
        }
    }
}

/// A fresh copy of a transaction list, value for value.
pub(crate) fn clone_transactions(src: &Vec<Transaction>) -> (r: Vec<Transaction>)
    ensures
        tx_views(r@) == tx_views(src@),
{
    let mut out: Vec<Transaction> = Vec::new();
    let mut i: usize = 0;
    while i < src.len()
        invariant
            i <= src@.len(),
            out@.len() == i,
            forall|j: int| 0 <= j < i ==> out@[j]@ == src@[j]@,
        decreases src@.len() - i,
    {
        let t = src[i].clone();
        out.push(t);
        i = i + 1;
    }
    proof {
        assert(tx_views(out@) =~= tx_views(src@));
    }
    out
}

impl Clone for Block {
    fn clone(&self) -> (r: Self)
        ensures
            r@ == self@,
    {
        Block { header: self.header, transactions: clone_transactions(&self.transactions) }
    }
}

impl Hashable for Block {
    /// The block's identity: the BLAKE3 digest of its header bytes.
    fn hash(&self) -> (d: crate::hash::Hash)
        ensures
            d@ == block_hash_of(self@.header),
    {
        let mut buf: Vec<u8> = Vec::new();
        let version_bytes = u32_to_le_bytes(self.header.version);
        push_bytes(&mut buf, version_bytes.as_slice());
        push_bytes(&mut buf, self.header.previous_hash.as_bytes());
        push_bytes(&mut buf, self.header.merkle_root.as_bytes());
        let timestamp_bytes = u64_to_le_bytes(self.header.timestamp);
        push_bytes(&mut buf, timestamp_bytes.as_slice());
        let height_bytes = u64_to_le_bytes(self.header.height);
        push_bytes(&mut buf, height_bytes.as_slice());
        push_bytes(&mut buf, self.header.validator.as_bytes());
        proof {
            assert(buf@ =~= header_bytes(self@.header));
        }
        blake3_digest(buf.as_slice())
    }
}

} // verus!
