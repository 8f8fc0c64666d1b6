//! A store of one-time keys for setting up encrypted sessions.
//!
//! A device keeps a bounded pool of Curve25519 key pairs. It generates them
//! in batches, hands the public halves to a directory, and gives each
//! private half out once, when a peer's first message names its public key.
//! [`OneTimeKeys`] is the store; [`model`] describes its state and
//! operations as mathematics, and [`laws`] proves what holds of them.

use vstd::prelude::*;

pub mod keys;
pub mod laws;
pub mod model;
pub mod ordered;
pub mod pickle;
pub mod primitives;
pub mod reverse_index;
pub mod store;

pub use keys::{Curve25519PublicKey, Curve25519SecretKey, KeyId};
pub use pickle::OneTimeKeysPickle;
pub use reverse_index::ReverseIndex;
pub use store::OneTimeKeys;

verus! {

/// The largest number of one-time keys a store holds at once. A store that
/// holds this many keys evicts its oldest key before it takes a new one.
pub const MAX_ONE_TIME_KEYS: usize = 100;

} // verus!
