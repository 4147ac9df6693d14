//! The packing capability and its key objects.
//!
//! Packing turns an ordered block sequence into one blob; unpacking recovers
//! a single block of the blob by absolute position.  The cryptographic
//! transform itself lives outside this layer: here a blob carries the block
//! sequence opaquely, tagged with the key ceremony it was packed under, and
//! a mismatched key or an out-of-range position is a capability failure.

use crate::ciphertext::Ciphertext;
use crate::parameters::BlockParameters;
use crate::Error;
use rayon::iter::{IntoParallelIterator, ParallelIterator};
use vstd::prelude::*;

verus! {

/// Private key material a compression/decompression key pair is derived
/// from.  Keys derived from the same material belong to one ceremony.
#[derive(Clone, Copy, Debug, PartialEq, Eq, Structural)]
pub struct CompressionPrivateKeys {
    /// Identifier of the key-generation ceremony.
    pub key_id: u64,
    /// Block parameters the packed blocks are expected to follow.
    pub params: BlockParameters,
}

/// Key of the packing capability.
#[derive(Clone, Copy, Debug, PartialEq, Eq, Structural)]
pub struct CompressionKey {
    pub key_id: u64,
}

/// Key of the unpacking capability.  Only a decompression key of the same
/// ceremony as the packing key can unpack a blob.
#[derive(Clone, Copy, Debug, PartialEq, Eq, Structural)]
pub struct DecompressionKey {
    pub key_id: u64,
}

/// Compressed (seed) form of a [`CompressionKey`].
#[derive(Clone, Copy, Debug, PartialEq, Eq, Structural)]
pub struct CompressedCompressionKey {
    pub key_id: u64,
}

/// Compressed (seed) form of a [`DecompressionKey`].
#[derive(Clone, Copy, Debug, PartialEq, Eq, Structural)]
pub struct CompressedDecompressionKey {
    pub key_id: u64,
}

impl CompressedCompressionKey {
    /// Expands the seed form into a usable packing key of the same ceremony.
    pub fn decompress(&self) -> (r: CompressionKey)
        ensures
            r.key_id == self.key_id,
    {
        CompressionKey { key_id: self.key_id }
    }
}

impl CompressedDecompressionKey {
    /// Expands the seed form into a usable unpacking key of the same
    /// ceremony.
    pub fn decompress(&self) -> (r: DecompressionKey)
        ensures
            r.key_id == self.key_id,
    {
        DecompressionKey { key_id: self.key_id }
    }
}

/// The packed blob produced by one packing call: the ordered block sequence
/// held opaquely under the packing key's ceremony.
#[derive(Clone, Debug, PartialEq)]
pub struct ShortintCompressedCiphertextList {
    /// The packed payload; opaque to every consumer but the unpacking key.
    pub packed_blocks: Vec<Ciphertext>,
    /// Ceremony the blob was packed under.
    pub key_id: u64,
}

impl CompressionKey {
    /// Packs an ordered block sequence into one blob.  The packing engine
    /// calls this exactly once per build.
    pub fn compress_ciphertexts_into_list(
        &self,
        ciphertexts: &Vec<Ciphertext>,
    ) -> (r: ShortintCompressedCiphertextList)
        ensures
            r.packed_blocks@ == ciphertexts@,
            r.key_id == self.key_id,
    {
        let n = ciphertexts.len();
        let mut packed: Vec<Ciphertext> = Vec::new();
        let mut i: usize = 0;
        while i < n
            invariant
                i <= n,
                n == ciphertexts@.len(),
                packed@ == ciphertexts@.take(i as int),
            decreases n - i,
        {
            packed.push(ciphertexts[i]);
            i = i + 1;
            proof {
                assert(packed@ =~= ciphertexts@.take(i as int));
            }
        }
        proof {
            assert(ciphertexts@.take(n as int) =~= ciphertexts@);
        }
        ShortintCompressedCiphertextList { packed_blocks: packed, key_id: self.key_id }
    }
}

impl DecompressionKey {
    /// Unpacks the block at absolute position `index` of a blob.  A key of
    /// another ceremony or a position outside the packed range is a
    /// capability failure, never silently masked.
    pub fn unpack(
        &self,
        packed: &ShortintCompressedCiphertextList,
        index: usize,
    ) -> (r: Result<Ciphertext, Error>)
        ensures
            self.key_id == packed.key_id && index < packed.packed_blocks@.len() ==> r == Ok::<
                Ciphertext,
                Error,
            >(packed.packed_blocks@[index as int]),
            !(self.key_id == packed.key_id && index < packed.packed_blocks@.len()) ==> r == Err::<
                Ciphertext,
                Error,
            >(Error::CapabilityFailure),
    {
        if self.key_id == packed.key_id && index < packed.packed_blocks.len() {
            Ok(packed.packed_blocks[index])
        } else {
            Err(Error::CapabilityFailure)
        }
    }
}

/// Unpacks one in-range block with a matching key; the callers below have
/// already ruled the failure cases out.
fn unpack_block(
    key: &DecompressionKey,
    packed: &ShortintCompressedCiphertextList,
    index: usize,
) -> (r: Ciphertext)
    requires
        key.key_id == packed.key_id,
        index < packed.packed_blocks@.len(),
    ensures
        r == packed.packed_blocks@[index as int],
{
    packed.packed_blocks[index]
}

/// Relies on rayon's `into_par_iter` over a range together with `map` and
/// `collect` into a `Vec`: the range iterator is indexed, so the collected
/// vector holds `unpack_block` of every position of `[start, end)` in index
/// order.  Each closure call only reads the shared blob and key.
#[verifier::external_body]
pub(crate) fn par_unpack_range(
    key: &DecompressionKey,
    packed: &ShortintCompressedCiphertextList,
    start: usize,
    end: usize,
) -> (r: Vec<Ciphertext>)
    requires
        start <= end,
        end <= packed.packed_blocks@.len(),
        key.key_id == packed.key_id,
    ensures
        r@.len() == end - start,
        forall|j: int| 0 <= j < r@.len() ==> r@[j] == packed.packed_blocks@[start + j],
{
    (start..end).into_par_iter().map(|i| unpack_block(key, packed, i)).collect()
}

} // verus!
