use vstd::prelude::*;

use ed25519_dalek::Signer;
use ed25519_dalek::Verifier;

verus! {

broadcast use vstd::array::group_array_axioms;

/// Whether `signature` is a valid Ed25519 signature on `message` under the
/// key encoded by `public_key` — a function of the three byte strings alone.
pub uninterp spec fn sig_valid(public_key: Seq<u8>, message: Seq<u8>, signature: Seq<u8>) -> bool;

/// The public-key bytes that Ed25519 derives from a 32-byte secret key —
/// a function of the secret bytes alone.
pub uninterp spec fn public_of_secret(secret: Seq<u8>) -> Seq<u8>;

/// The reserved genesis identity: an all-zero key encoding, used only as the
/// genesis block's nominal proposer.
pub open spec fn genesis_key_bytes() -> Seq<u8> {
    Seq::new(32, |i: int| 0u8)
}

/// A validator or account identity: 32 raw Ed25519 public-key bytes,
/// compared byte for byte.
#[derive(Debug, Clone, Copy)]
pub struct PublicKey {
    bytes: [u8; 32],
}

impl View for PublicKey {
    type V = Seq<u8>;

    closed spec fn view(&self) -> Seq<u8> {
        self.bytes@
    }
}

impl PublicKey {
    /// Builds an identity from its 32 raw key bytes.
    pub fn from_bytes(bytes: [u8; 32]) -> (k: PublicKey)
        ensures
            k@ == bytes@,
    {
        PublicKey { bytes }
    }

    /// The identity's raw key bytes.
    pub fn as_bytes(&self) -> (r: &[u8])
        ensures
            r@ == self@,
    {
        self.bytes.as_slice()
    }

    /// The deterministic genesis identity (all-zero encoding).
    pub fn genesis() -> (k: PublicKey)
        ensures
            k@ == genesis_key_bytes(),
    {
        let k = PublicKey { bytes: [0u8; 32] };
        proof {
            assert(k@ =~= genesis_key_bytes());
        }
        k
    }
}

impl PartialEq for PublicKey {
    fn eq(&self, other: &Self) -> (r: bool) {
        let mut i: usize = 0;
        while i < 32
            invariant
                i <= 32,
                forall|j: int| 0 <= j < i ==> self.bytes@[j] == other.bytes@[j],
            decreases 32 - i,
        {
            if self.bytes[i] != other.bytes[i] {
                return false;
            }
            i = i + 1;
        }
        proof {
            assert(self@ =~= other@);
        }
        true
    }
}

impl vstd::std_specs::cmp::PartialEqSpecImpl for PublicKey {
    open spec fn obeys_eq_spec() -> bool {
        true
    }

    open spec fn eq_spec(&self, other: &PublicKey) -> bool {
        self@ == other@
    }
}

impl Eq for PublicKey {}

/// Rejection of a malformed secret key.
#[derive(Debug, Clone, Copy, PartialEq, Eq, Structural)]
pub enum KeyError {
    /// The secret key bytes do not encode an Ed25519 secret key.
    InvalidSecretKey,
}

#[verifier::external_type_specification]
#[verifier::external_body]
pub struct ExKeypair(ed25519_dalek::Keypair);

#[verifier::external_type_specification]
#[verifier::external_body]
pub struct ExSignatureError(ed25519_dalek::SignatureError);

/// A signing identity: an Ed25519 keypair together with the 32 public-key
/// bytes it signs under.
pub struct KeyPair {
    inner: ed25519_dalek::Keypair,
    public: PublicKey,
}

impl View for KeyPair {
    type V = Seq<u8>;

    closed spec fn view(&self) -> Seq<u8> {
        self.public@
    }
}

impl KeyPair {
    /// Relies on ed25519_dalek::Keypair::generate with the operating
    /// system's random number generator; `public` is set to the bytes of the
    /// generated keypair's public key, so nothing is known of the result
    /// beyond the contracts of `public_key` and `sign`.
    #[verifier::external_body]
    pub fn generate() -> KeyPair {
        let mut csprng = rand::rngs::OsRng {};
        let inner = ed25519_dalek::Keypair::generate(&mut csprng);
        let public = PublicKey { bytes: inner.public.to_bytes() };
        KeyPair { inner, public }
    }

    /// Relies on ed25519_dalek::SecretKey::from_bytes, which accepts exactly
    /// the 32-byte strings, and on the deterministic secret-to-public key
    /// derivation of ed25519_dalek::PublicKey::from.
    #[verifier::external_body]
    fn try_from_secret(secret: &[u8]) -> (r: Result<KeyPair, ed25519_dalek::SignatureError>)
        ensures
            r is Ok <==> secret@.len() == 32,
            r is Ok ==> r->Ok_0@ == public_of_secret(secret@),
    {
        let secret_key = ed25519_dalek::SecretKey::from_bytes(secret)?;
        let pk: ed25519_dalek::PublicKey = (&secret_key).into();
        let public = PublicKey { bytes: pk.to_bytes() };
        Ok(KeyPair { inner: ed25519_dalek::Keypair { secret: secret_key, public: pk }, public })
    }

    /// Rebuilds a signing identity from its 32 secret-key bytes; any other
    /// length is rejected.
    pub fn from_secret_key(secret: &[u8]) -> (r: Result<KeyPair, KeyError>)
        ensures
            r is Ok <==> secret@.len() == 32,
            r is Ok ==> r->Ok_0@ == public_of_secret(secret@),
    {
        match Self::try_from_secret(secret) {
            Ok(kp) => Ok(kp),
            Err(_) => Err(KeyError::InvalidSecretKey),
        }
    }

    /// The identity this keypair signs under.
    pub fn public_key(&self) -> (k: PublicKey)
        ensures
            k@ == self@,
    {
        self.public
    }

    /// Relies on ed25519_dalek::Keypair::sign: deterministic Ed25519 signing,
    /// whose 64-byte signature is valid on the message under this keypair's
    /// public key.
    #[verifier::external_body]
    pub fn sign(&self, message: &[u8]) -> (sig: Vec<u8>)
        ensures
            sig@.len() == 64,
            sig_valid(self@, message@, sig@),
    {
        self.inner.sign(message).to_bytes().to_vec()
    }
}

/// Relies on ed25519_dalek::Signature::from_bytes and
/// ed25519_dalek::PublicKey::{from_bytes, verify}: deterministic in the key,
/// message and signature bytes; a malformed key or signature fails
/// verification rather than panicking.
#[verifier::external_body]
pub fn verify_signature(public_key: &PublicKey, message: &[u8], signature: &[u8]) -> (r: bool)
    ensures
        r == sig_valid(public_key@, message@, signature@),
{
    let pk = match ed25519_dalek::PublicKey::from_bytes(&public_key.bytes) {
        Ok(pk) => pk,
        Err(_) => return false,
    };
    let sig = match ed25519_dalek::Signature::from_bytes(signature) {
        Ok(sig) => sig,
        Err(_) => return false,
    };
    pk.verify(message, &sig).is_ok()
}

} // verus!
