//! The operations this crate takes from elsewhere: X25519 key derivation
//! and the thread-local random generator. Their contracts are assumptions;
//! everything built on them is proved.

use vstd::prelude::*;

verus! {

/// The X25519 public key that belongs to the 32 secret bytes `secret`: the
/// secret is clamped, multiplied with the curve's base point, and the
/// resulting point is encoded in Montgomery form.
pub uninterp spec fn x25519_public_key(secret: Seq<u8>) -> Seq<u8>;

/// A sequence of `len` zero bytes.
pub open spec fn zeroed(len: nat) -> Seq<u8> {
    Seq::new(len, |i: int| 0u8)
}

/// `rand::rngs::ThreadRng`, a handle to the random generator of the calling
/// thread. Nothing is known of what it holds.
#[verifier::external_type_specification]
#[verifier::external_body]
pub struct ExThreadRng(rand::rngs::ThreadRng);

/// `rand::thread_rng`: a handle to the calling thread's generator, which is
/// seeded by the system. Nothing is assumed about the handle. The call
/// panics where the system gives no entropy to seed the generator with.
#[verifier::external_body]
pub(crate) fn thread_rng() -> rand::rngs::ThreadRng {
    rand::thread_rng()
}

/// `x25519_dalek::StaticSecret::new`, followed by `to_bytes`: the bytes of a
/// secret freshly drawn from `rng`. Nothing is assumed about which bytes
/// come back: two calls may give the same secret.
#[verifier::external_body]
pub(crate) fn random_secret(rng: &mut rand::rngs::ThreadRng) -> [u8; 32] {
    x25519_dalek::StaticSecret::new(rng).to_bytes()
}

/// `x25519_dalek::PublicKey::from(&StaticSecret)`, on the secret that
/// `StaticSecret::from` makes of the given bytes: the encoding of its public
/// key. The result is assumed to depend on those bytes alone, and is given
/// the name `x25519_public_key`.
#[verifier::external_body]
pub(crate) fn derive_public_key(secret: &[u8; 32]) -> (public: [u8; 32])
    ensures
        public@ == x25519_public_key(secret@),
{
    x25519_dalek::PublicKey::from(&x25519_dalek::StaticSecret::from(*secret)).to_bytes()
}

} // verus!
