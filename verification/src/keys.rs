//! Key identifiers and the two halves of a Curve25519 key pair.

use vstd::prelude::*;
use vstd::std_specs::cmp::PartialEqSpecImpl;
use crate::primitives::{derive_public_key, x25519_public_key, zeroed};

verus! {

/// The identifier of a one-time key: the value of the store's counter at
/// the time the key was generated. A smaller identifier means an older key.
#[derive(Clone, Copy, Debug, PartialEq, Eq, Structural, PartialOrd, Ord, Hash)]
pub struct KeyId(pub u64);

/// Whether two 32-byte arrays hold the same bytes.
fn bytes_equal(a: &[u8; 32], b: &[u8; 32]) -> (equal: bool)
    ensures
        equal == (a@ == b@),
{
    let mut i: usize = 0;
    while i < 32
        invariant
            i <= 32,
            forall|j: int| 0 <= j < i ==> a@[j] == b@[j],
        decreases 32 - i,
    {
        if a[i] != b[i] {
            return false;
        }
        i += 1;
    }
    assert(a@ =~= b@);
    true
}

/// The public half of a Curve25519 key pair, as its 32-byte encoding.
#[derive(Clone, Copy, Debug, Hash)]
pub struct Curve25519PublicKey {
    bytes: [u8; 32],
}

impl View for Curve25519PublicKey {
    type V = Seq<u8>;

    closed spec fn view(&self) -> Seq<u8> {
        self.bytes@
    }
}

impl Curve25519PublicKey {
    /// The public key with the given encoding.
    pub fn from_bytes(bytes: [u8; 32]) -> (key: Self)
        ensures
            key@ == bytes@,
    {
        Curve25519PublicKey { bytes }
    }

    /// The encoding of the public key.
    pub fn to_bytes(&self) -> (bytes: [u8; 32])
        ensures
            bytes@ == self@,
    {
        self.bytes
    }

    /// A public key is 32 bytes long, and two public keys with the same
    /// bytes are the same.
    pub proof fn lemma_view(self, other: Self)
        ensures
            self@.len() == 32,
            self@ == other@ ==> self == other,
    {
        if self@ == other@ {
            assert(self.bytes =~= other.bytes);
        }
    }
}

impl PartialEq for Curve25519PublicKey {
    fn eq(&self, other: &Self) -> (equal: bool) {
        bytes_equal(&self.bytes, &other.bytes)
    }
}

impl PartialEqSpecImpl for Curve25519PublicKey {
    open spec fn obeys_eq_spec() -> bool {
        true
    }

    open spec fn eq_spec(&self, other: &Self) -> bool {
        self@ == other@
    }
}

impl Eq for Curve25519PublicKey {

}

/// The private half of a Curve25519 key pair, as the 32 bytes its scalar is
/// made from. The bytes are overwritten with zeros when the value is
/// dropped.
pub struct Curve25519SecretKey {
    bytes: [u8; 32],
}

impl View for Curve25519SecretKey {
    type V = Seq<u8>;

    closed spec fn view(&self) -> Seq<u8> {
        self.bytes@
    }
}

impl Curve25519SecretKey {
    /// The secret key made from the given bytes.
    pub fn from_bytes(bytes: [u8; 32]) -> (key: Self)
        ensures
            key@ == bytes@,
    {
        Curve25519SecretKey { bytes }
    }

    /// The bytes of the secret key.
    pub fn to_bytes(&self) -> (bytes: [u8; 32])
        ensures
            bytes@ == self@,
    {
        self.bytes
    }

    /// The public key that belongs to this secret key.
    pub fn public_key(&self) -> (public: Curve25519PublicKey)
        ensures
            public@ == x25519_public_key(self@),
    {
        Curve25519PublicKey { bytes: derive_public_key(&self.bytes) }
    }

    /// Overwrites the bytes of the secret key with zeros: the key is
    /// replaced by a key of zeros, and what it held is erased as every
    /// secret key is that goes out of use.
    pub fn zeroize(&mut self)
        ensures
            final(self)@ == zeroed(32),
    {
        *self = Curve25519SecretKey::from_bytes([0u8; 32]);
        assert(self@ =~= zeroed(32));
    }
}

impl Clone for Curve25519SecretKey {
    fn clone(&self) -> (copy: Self)
        ensures
            copy@ == self@,
    {
        Curve25519SecretKey { bytes: self.bytes }
    }
}

impl Drop for Curve25519SecretKey {
    /// `zeroize::Zeroize::zeroize` on the key's bytes: a secret key that
    /// goes out of use leaves zeros where its bytes were, written so that
    /// the compiler cannot leave the writes out.
    #[verifier::external_body]
    fn drop(&mut self)
        opens_invariants none
        no_unwind
    {
        zeroize::Zeroize::zeroize(&mut self.bytes)
    }
}

} // verus!
