use vstd::prelude::*;

verus! {

broadcast use vstd::array::group_array_axioms;

/// The 32-byte BLAKE3 digest of a byte string, as an uninterpreted function
/// of the input bytes alone.
pub uninterp spec fn blake3_of(input: Seq<u8>) -> Seq<u8>;

/// The all-zero digest, reserved for the genesis block's parent reference
/// and for the Merkle commitment of an empty transaction list.
pub open spec fn zero_digest() -> Seq<u8> {
    Seq::new(32, |i: int| 0u8)
}

/// A 256-bit digest, compared by its raw bytes.
#[derive(Debug, Clone, Copy)]
pub struct Hash {
    bytes: [u8; 32],
}

impl View for Hash {
    type V = Seq<u8>;

    closed spec fn view(&self) -> Seq<u8> {
        self.bytes@
    }
}

impl Hash {
    /// The all-zero digest.
    pub fn zero() -> (h: Hash)
        ensures
            h@ == zero_digest(),
    {
        let h = Hash { bytes: [0u8; 32] };
        proof {
            assert(h@ =~= zero_digest());
        }
        h
    }

    /// Builds a digest value from its 32 raw bytes.
    pub fn from_bytes(bytes: [u8; 32]) -> (h: Hash)
        ensures
            h@ == bytes@,
    {
        Hash { bytes }
    }

    /// The digest's raw bytes.
    pub fn as_bytes(&self) -> (r: &[u8])
        ensures
            r@ == self@,
    {
        self.bytes.as_slice()
    }
}

impl Default for Hash {
    fn default() -> (h: Self)
        ensures
            h@ == zero_digest(),
    {
        Hash::zero()
    }
}

impl PartialEq for Hash {
    fn eq(&self, other: &Self) -> (r: bool) {
        let mut i: usize = 0;
        while i < 32
            invariant
                i <= 32,
                forall|j: int| 0 <= j < i ==> self.bytes@[j] == other.bytes@[j],
            decreases 32 - i,
        {
            if self.bytes[i] != other.bytes[i] {
                return false;
            }
            i = i + 1;
        }
        proof {
            assert(self@ =~= other@);
        }
        true
    }
}

impl vstd::std_specs::cmp::PartialEqSpecImpl for Hash {
    open spec fn obeys_eq_spec() -> bool {
        true
    }

    open spec fn eq_spec(&self, other: &Hash) -> bool {
        self@ == other@
    }
}

impl Eq for Hash {}

/// Values committed to by a 256-bit digest.
pub trait Hashable {
    fn hash(&self) -> Hash;
}

/// Relies on blake3::hash: a deterministic 32-byte digest of the input
/// bytes, a function of those bytes alone.
#[verifier::external_body]
pub(crate) fn blake3_digest(input: &[u8]) -> (h: Hash)
    ensures
        h@ == blake3_of(input@),
{
    Hash { bytes: *blake3::hash(input).as_bytes() }
}

} // verus!
