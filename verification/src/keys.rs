//! The Ed25519 key of a wallet.
use ed25519_dalek::Signer;
use rand::rngs::OsRng;
use vstd::prelude::*;

verus! {

/// The Ed25519 public key of a secret seed.
pub uninterp spec fn ed25519_public_key(seed: Seq<u8>) -> Seq<u8>;

/// The Ed25519 signature of a message under a secret seed.
pub uninterp spec fn ed25519_signature(seed: Seq<u8>, message: Seq<u8>) -> Seq<u8>;

/// `ed25519_dalek::SigningKey::verifying_key` of the key with this seed. Its bytes depend on the
/// seed alone.
#[verifier::external_body]
fn derive_public_key(seed: &[u8; 32]) -> (r: [u8; 32])
    ensures
        r@ == ed25519_public_key(seed@),
{
    ed25519_dalek::SigningKey::from_bytes(seed).verifying_key().to_bytes()
}

/// `sign` of `ed25519_dalek::SigningKey`, the key being that with this seed. Ed25519 signatures are
/// deterministic: the bytes depend on the seed and the message alone.
#[verifier::external_body]
fn sign_message(seed: &[u8; 32], message: &[u8]) -> (r: [u8; 64])
    ensures
        r@ == ed25519_signature(seed@, message@),
{
    ed25519_dalek::SigningKey::from_bytes(seed).sign(message).to_bytes()
}

/// `ed25519_dalek::SigningKey::generate` with `rand::rngs::OsRng`: a fresh seed from the operating
/// system. Nothing is claimed of it.
#[verifier::external_body]
fn random_seed() -> (r: [u8; 32]) {
    ed25519_dalek::SigningKey::generate(&mut OsRng).to_bytes()
}

/// A wallet's secret key, held as its 32-byte seed.
pub struct SigningKey {
    seed: [u8; 32],
}

impl View for SigningKey {
    type V = Seq<u8>;

    closed spec fn view(&self) -> Seq<u8> {
        self.seed@
    }
}

/// The seed in secret key bytes: all of 32, the first half of 64, none of any other number.
pub open spec fn seed_in(secret_key: Seq<u8>) -> Option<Seq<u8>> {
    if secret_key.len() == 32 || secret_key.len() == 64 {
        Some(secret_key.take(32))
    } else {
        None
    }
}

impl SigningKey {
    /// The key with this seed.
    pub fn from_bytes(seed: &[u8; 32]) -> (r: SigningKey)
        ensures
            r@ == seed@,
    {
        SigningKey { seed: *seed }
    }

    /// The key's seed.
    pub fn to_bytes(&self) -> (r: [u8; 32])
        ensures
            r@ == self@,
    {
        self.seed
    }

    /// The key of a 32-byte seed or of 64 keypair bytes, which start with the seed.
    pub fn from_secret_key(secret_key: &[u8]) -> (r: Option<SigningKey>)
        ensures
            match (r, seed_in(secret_key@)) {
                (Some(key), Some(seed)) => key@ == seed,
                (None, None) => true,
                _ => false,
            },
    {
        if secret_key.len() == 32 || secret_key.len() == 64 {
            Some(SigningKey { seed: array_of_32(secret_key) })
        } else {
            None
        }
    }

    /// A fresh random key.
    pub fn generate() -> (r: SigningKey)
        ensures
            r@.len() == 32,
    {
        SigningKey { seed: random_seed() }
    }

    /// The public key.
    pub fn verifying_key(&self) -> (r: [u8; 32])
        ensures
            r@ == ed25519_public_key(self@),
    {
        derive_public_key(&self.seed)
    }

    /// Signs a message.
    pub fn sign(&self, message: &[u8]) -> (r: [u8; 64])
        ensures
            r@ == ed25519_signature(self@, message@),
    {
        sign_message(&self.seed, message)
    }
}

/// The first 32 bytes.
pub fn array_of_32(bytes: &[u8]) -> (r: [u8; 32])
    requires
        bytes@.len() >= 32,
    ensures
        r@ == bytes@.take(32),
{
    let mut r: [u8; 32] = [0u8; 32];
    let mut i: usize = 0;
    while i < 32
        invariant
            i <= 32 <= bytes@.len(),
            forall|j: int| 0 <= j < i ==> r@[j] == bytes@[j],
        decreases 32 - i,
    {
        r[i] = bytes[i];
        i = i + 1;
    }
    assert(r@ == bytes@.take(32));
    r
}

/// Keypair bytes and the seed that they start with are the same key.
pub proof fn keypair_and_seed_agree(keypair: Seq<u8>)
    requires
        keypair.len() == 64,
    ensures
        seed_in(keypair) == seed_in(keypair.take(32)),
{
    assert(keypair.take(32).take(32) == keypair.take(32));
}

/// A seed is its own key; a keypair is a seed with something of the same length behind it; nothing
/// of another length is a key.
pub proof fn where_the_seed_stands(seed: Seq<u8>, rest: Seq<u8>, other: Seq<u8>)
    requires
        seed.len() == 32,
        rest.len() == 32,
    ensures
        seed_in(seed) == Some(seed),
        seed_in(seed + rest) == Some(seed),
        other.len() != 32 && other.len() != 64 ==> seed_in(other) is None,
{
    assert(seed.take(32) == seed);
    assert((seed + rest).take(32) == seed);
}

} // verus!
