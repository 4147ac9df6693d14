//! Heterogeneous ciphertext packing with versioned, size-bounded serialization.
//!
//! The crate models a server-side store for many independently encrypted
//! values of mixed logical type (booleans, signed and unsigned multi-block
//! integers).  A builder accumulates elementary blocks together with a
//! [`list::DataKind`] tag per logical value, packs them once into an
//! immutable list, and the list later recovers any single value by a
//! prefix-sum over the preceding tags.  Every persisted artifact travels
//! through a version-tagged, size-limited byte format.

use vstd::prelude::*;

pub mod ciphertext;
pub mod compression;
pub mod fft;
pub mod keys;
pub mod list;
pub mod parameters;
pub mod radix;
pub mod safe_serialization;
pub mod versions;
pub mod wire;
pub mod zk;

verus! {

/// Failure conditions surfaced by the packing engine and the
/// serialization framework.  Out-of-range lookups are reported as an
/// absence (`None`), not through this type.
#[derive(Clone, Copy, Debug, PartialEq, Eq, Structural)]
pub enum Error {
    /// Blocks were present but their shape does not fit the requested
    /// logical type.
    ReconstructionMismatch,
    /// The underlying pack/unpack capability failed (mismatched key or a
    /// position outside the packed range).
    CapabilityFailure,
    /// Encoding or decoding would exceed the configured byte ceiling.
    SizeLimitExceeded,
    /// The version tag of the input bytes is not a declared version.
    UnknownVersion,
    /// The payload bytes do not form a valid encoding for their version.
    MalformedPayload,
    /// A decoded historical format could not be converted to the current
    /// in-memory shape.
    UnversionizeFailure,
    /// The decoded value violates a structural invariant.
    ConformanceFailure,
}

} // verus!
