//! Plain-value cryptographic parameter sets.
//!
//! Key material itself is opaque to this crate; the parameters below are the
//! plain values the packing and serialization logic actually reads.

use vstd::prelude::*;

verus! {

/// Modulus of the message space carried by one elementary block.
#[derive(Clone, Copy, Debug, PartialEq, Eq, Structural)]
pub struct MessageModulus(pub u64);

/// Logarithm of the base used by a key-switch decomposition.
#[derive(Clone, Copy, Debug, PartialEq, Eq, Structural)]
pub struct DecompositionBaseLog(pub usize);

/// Number of levels kept by a key-switch decomposition.
#[derive(Clone, Copy, Debug, PartialEq, Eq, Structural)]
pub struct DecompositionLevelCount(pub usize);

/// Which of the two keys of a key pair a key switch lands on.
#[derive(Clone, Copy, Debug, PartialEq, Eq, Structural)]
pub enum EncryptionKeyChoice {
    Big,
    Small,
}

/// A set of cryptographic parameters for homomorphic shortint key switching.
#[derive(Clone, Copy, Debug, PartialEq, Eq, Structural)]
pub struct ShortintKeySwitchingParameters {
    pub ks_base_log: DecompositionBaseLog,
    pub ks_level: DecompositionLevelCount,
    pub destination_key: EncryptionKeyChoice,
}

impl ShortintKeySwitchingParameters {
    /// Constructs a new set of parameters for shortint key switching.
    pub fn new(
        ks_base_log: DecompositionBaseLog,
        ks_level: DecompositionLevelCount,
        destination_key: EncryptionKeyChoice,
    ) -> (r: Self)
        ensures
            r == (ShortintKeySwitchingParameters { ks_base_log, ks_level, destination_key }),
    {
        Self { ks_base_log, ks_level, destination_key }
    }
}

/// Parameters shared by every elementary block of one key pair.
#[derive(Clone, Copy, Debug, PartialEq, Eq, Structural)]
pub struct BlockParameters {
    pub message_modulus: MessageModulus,
}

impl BlockParameters {
    /// A usable message space holds at least two values.
    pub open spec fn wf(self) -> bool {
        self.message_modulus.0 >= 2
    }
}

/// Configuration handed to key generation.
#[derive(Clone, Copy, Debug, PartialEq, Eq, Structural)]
pub struct Config {
    pub inner: BlockParameters,
}

/// A seed for deterministic key generation: reusing a seed regenerates the
/// same key material.
#[derive(Clone, Copy, Debug, PartialEq, Eq, Structural)]
pub struct Seed(pub u128);

} // verus!
