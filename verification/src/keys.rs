//! Client, server and compressed server keys, and their raw-part plumbing.
//!
//! Key material is opaque to this crate: every key object carries the plain
//! values the packing and serialization logic reads — the identifier of its
//! key-generation ceremony and its parameters.  Encryption and decryption
//! of elementary blocks are modelled at their boundary only: a block stores
//! one message-space digit opaquely, tagged with the ceremony, and only a
//! client key of the same ceremony reads it back.

use crate::ciphertext::{BooleanBlock, Ciphertext, RadixCiphertext, SignedRadixCiphertext};
use crate::compression::{
    CompressedCompressionKey, CompressedDecompressionKey, CompressionKey, CompressionPrivateKeys,
    DecompressionKey,
};
use crate::parameters::{
    BlockParameters, Config, MessageModulus, Seed, ShortintKeySwitchingParameters,
};
use crate::radix::{
    checked_pow_u64, decompose_radix, digits_below, recompose_radix, spec_digits,
    spec_radix_value, spec_signed_of, wrap_signed,
};
use std::sync::Arc;
use vstd::arithmetic::power::pow;
use vstd::prelude::*;

verus! {

/// Derives a ceremony identifier from a seed: the same seed always yields
/// the same key material.
pub open spec fn spec_seed_key_id(seed: Seed) -> u64 {
    (seed.0 as u64) ^ ((seed.0 >> 64) as u64)
}

/// Integer-level client key: the secret able to encrypt and decrypt logical
/// values of one ceremony.
#[derive(Clone, Copy, Debug, PartialEq, Eq, Structural)]
pub struct CoreClientKey {
    /// Identifier of the key-generation ceremony this secret belongs to.
    pub key_id: u64,
    /// Parameters shared by every block encrypted under this key.
    pub parameters: BlockParameters,
}

/// Collects the payload digit of every block, in order.
fn bodies_of(blocks: &Vec<Ciphertext>) -> (r: Vec<u64>)
    ensures
        r@ == blocks@.map_values(|b: Ciphertext| b.body),
{
    let ghost target = blocks@.map_values(|b: Ciphertext| b.body);
    let mut r: Vec<u64> = Vec::new();
    let mut i: usize = 0;
    while i < blocks.len()
        invariant
            i <= blocks@.len(),
            target == blocks@.map_values(|b: Ciphertext| b.body),
            target.len() == blocks@.len(),
            r@ == target.take(i as int),
        decreases blocks@.len() - i,
    {
        r.push(blocks[i].body);
        i = i + 1;
        proof {
            assert(r@ =~= target.take(i as int));
        }
    }
    proof {
        assert(target.take(blocks@.len() as int) =~= target);
    }
    r
}

impl CoreClientKey {
    /// Usable keys have a usable message space.
    pub open spec fn wf(self) -> bool {
        self.parameters.wf()
    }

    /// The message modulus of one block under this key.
    pub open spec fn modulus(self) -> int {
        self.parameters.message_modulus.0 as int
    }

    /// The blocks this key assigns to a digit sequence.
    pub open spec fn spec_blocks_of_digits(self, ds: Seq<u64>) -> Seq<Ciphertext> {
        ds.map_values(|d: u64| Ciphertext { body: d, key_id: self.key_id })
    }

    /// Whether a block sequence is well formed under this key: every block
    /// belongs to this ceremony and carries a digit of the message space.
    pub open spec fn spec_owns_blocks(self, blocks: Seq<Ciphertext>) -> bool {
        forall|i: int|
            0 <= i < blocks.len() ==> (#[trigger] blocks[i]).key_id == self.key_id
                && blocks[i].body < self.modulus()
    }

    /// A fresh key for the given parameters.
    pub fn new(parameters: BlockParameters) -> (r: Self)
        ensures
            r == (CoreClientKey { key_id: 0, parameters }),
    {
        CoreClientKey { key_id: 0, parameters }
    }

    /// A key deterministically derived from a seed.
    pub fn new_with_seed(parameters: BlockParameters, seed: Seed) -> (r: Self)
        ensures
            r == (CoreClientKey { key_id: spec_seed_key_id(seed), parameters }),
    {
        let key_id = (seed.0 as u64) ^ ((seed.0 >> 64) as u64);
        CoreClientKey { key_id, parameters }
    }

    /// Builds the blocks of a digit sequence under this key.
    fn blocks_of_digits(&self, ds: &Vec<u64>) -> (r: Vec<Ciphertext>)
        ensures
            r@ == self.spec_blocks_of_digits(ds@),
    {
        let ghost target = self.spec_blocks_of_digits(ds@);
        let mut r: Vec<Ciphertext> = Vec::new();
        let mut i: usize = 0;
        while i < ds.len()
            invariant
                i <= ds@.len(),
                target == self.spec_blocks_of_digits(ds@),
                target.len() == ds@.len(),
                r@ == target.take(i as int),
            decreases ds@.len() - i,
        {
            r.push(Ciphertext { body: ds[i], key_id: self.key_id });
            i = i + 1;
            proof {
                assert(r@ =~= target.take(i as int));
            }
        }
        proof {
            assert(target.take(ds@.len() as int) =~= target);
        }
        r
    }

    /// Encrypts an unsigned value over `num_blocks` little-endian digits.
    pub fn encrypt_radix(&self, value: u64, num_blocks: usize) -> (r: RadixCiphertext)
        requires
            self.wf(),
        ensures
            r.blocks@ == self.spec_blocks_of_digits(
                spec_digits(value as int, self.modulus(), num_blocks as nat),
            ),
            r.blocks@.len() == num_blocks,
            self.spec_owns_blocks(r.blocks@),
    {
        let m = self.parameters.message_modulus.0;
        let ds = decompose_radix(value, m, num_blocks);
        proof {
            crate::radix::lemma_digits_below(value as int, m as int, num_blocks as nat);
        }
        let blocks = self.blocks_of_digits(&ds);
        RadixCiphertext { blocks }
    }

    /// Decrypts an unsigned value: the integer the block digits stand for.
    pub fn decrypt_radix(&self, ct: &RadixCiphertext) -> (r: u64)
        requires
            self.wf(),
            self.spec_owns_blocks(ct.blocks@),
            pow(self.modulus(), ct.blocks@.len() as nat) <= u64::MAX,
        ensures
            r as int == spec_radix_value(
                ct.blocks@.map_values(|b: Ciphertext| b.body),
                self.modulus(),
            ),
    {
        let m = self.parameters.message_modulus.0;
        let ds = bodies_of(&ct.blocks);
        recompose_radix(&ds, m)
    }

    /// Encrypts a signed value over `num_blocks` little-endian digits: the
    /// value is wrapped into the residue range of the capacity `m^n`.
    pub fn encrypt_signed_radix(&self, value: i64, num_blocks: usize) -> (r: SignedRadixCiphertext)
        requires
            self.wf(),
            num_blocks >= 1,
            pow(self.modulus(), num_blocks as nat) <= u64::MAX,
        ensures
            r.blocks@ == self.spec_blocks_of_digits(
                spec_digits(
                    (value as int) % pow(self.modulus(), num_blocks as nat),
                    self.modulus(),
                    num_blocks as nat,
                ),
            ),
            r.blocks@.len() == num_blocks,
            self.spec_owns_blocks(r.blocks@),
    {
        let m = self.parameters.message_modulus.0;
        let total = match checked_pow_u64(m, num_blocks) {
            Some(t) => t,
            None => {
                proof {
                    assert(false);
                }
                0
            },
        };
        proof {
            vstd::arithmetic::power::lemma_pow1(m as int);
            vstd::arithmetic::power::lemma_pow_increases(m as nat, 1, num_blocks as nat);
        }
        let w = wrap_signed(value, total);
        let ds = decompose_radix(w, m, num_blocks);
        proof {
            crate::radix::lemma_digits_below(w as int, m as int, num_blocks as nat);
        }
        let blocks = self.blocks_of_digits(&ds);
        SignedRadixCiphertext { blocks }
    }

    /// Decrypts a signed value: the centered reading of the residue the
    /// block digits stand for.
    pub fn decrypt_signed_radix(&self, ct: &SignedRadixCiphertext) -> (r: i64)
        requires
            self.wf(),
            self.spec_owns_blocks(ct.blocks@),
            ct.blocks@.len() >= 1,
            pow(self.modulus(), ct.blocks@.len() as nat) <= u64::MAX,
        ensures
            r as int == spec_signed_of(
                spec_radix_value(ct.blocks@.map_values(|b: Ciphertext| b.body), self.modulus()),
                pow(self.modulus(), ct.blocks@.len() as nat),
            ),
    {
        let m = self.parameters.message_modulus.0;
        let total = match checked_pow_u64(m, ct.blocks.len()) {
            Some(t) => t,
            None => {
                proof {
                    assert(false);
                }
                0
            },
        };
        let ds = bodies_of(&ct.blocks);
        proof {
            assert(digits_below(ds@, m as int));
        }
        let w = recompose_radix(&ds, m);
        proof {
            crate::radix::lemma_radix_value_bound(ds@, m as int);
        }
        let wi = w as i128;
        let ti = total as i128;
        if 2 * wi >= ti {
            (wi - ti) as i64
        } else {
            w as i64
        }
    }

    /// Encrypts a boolean into one block.
    pub fn encrypt_bool(&self, value: bool) -> (r: BooleanBlock)
        requires
            self.wf(),
        ensures
            r.0.key_id == self.key_id,
            r.0.body == (if value {
                1u64
            } else {
                0u64
            }),
            self.spec_owns_blocks(seq![r.0]),
    {
        let body: u64 = if value {
            1
        } else {
            0
        };
        BooleanBlock(Ciphertext { body, key_id: self.key_id })
    }

    /// Decrypts a boolean block.
    pub fn decrypt_bool(&self, ct: &BooleanBlock) -> (r: bool)
        requires
            self.wf(),
            ct.0.key_id == self.key_id,
        ensures
            r == (ct.0.body == 1),
    {
        ct.0.body == 1
    }

    /// Derives private material for a packing/unpacking key pair of this
    /// key's ceremony.
    pub fn new_compression_private_key(&self, params: BlockParameters) -> (r:
        CompressionPrivateKeys)
        ensures
            r == (CompressionPrivateKeys { key_id: self.key_id, params }),
    {
        CompressionPrivateKeys { key_id: self.key_id, params }
    }

    /// Derives the packing/unpacking key pair of one ceremony: keys used
    /// together must come from the same material.
    pub fn new_compression_decompression_keys(&self, private_key: &CompressionPrivateKeys) -> (r: (
        CompressionKey,
        DecompressionKey,
    ))
        ensures
            r.0.key_id == private_key.key_id,
            r.1.key_id == private_key.key_id,
    {
        (
            CompressionKey { key_id: private_key.key_id },
            DecompressionKey { key_id: private_key.key_id },
        )
    }
}

/// Law: decrypting a freshly encrypted unsigned value returns the value,
/// for every value below the capacity `m^n`.
pub proof fn lemma_radix_encryption_round_trip(ck: CoreClientKey, value: u64, n: nat)
    requires
        ck.wf(),
        (value as int) < pow(ck.modulus(), n),
    ensures
        spec_radix_value(
            ck.spec_blocks_of_digits(spec_digits(value as int, ck.modulus(), n)).map_values(
                |b: Ciphertext| b.body,
            ),
            ck.modulus(),
        ) == value as int,
{
    let m = ck.modulus();
    let ds = spec_digits(value as int, m, n);
    assert(ck.spec_blocks_of_digits(ds).map_values(|b: Ciphertext| b.body) =~= ds);
    crate::radix::lemma_digits_value_exact(value as int, m, n);
}

/// Law: decrypting a freshly encrypted signed value returns the value, for
/// every value within the centered range of the capacity `m^n`.
pub proof fn lemma_signed_encryption_round_trip(ck: CoreClientKey, value: i64, n: nat)
    requires
        ck.wf(),
        n >= 1,
        -pow(ck.modulus(), n) <= 2 * (value as int) < pow(ck.modulus(), n),
    ensures
        spec_signed_of(
            spec_radix_value(
                ck.spec_blocks_of_digits(
                    spec_digits((value as int) % pow(ck.modulus(), n), ck.modulus(), n),
                ).map_values(|b: Ciphertext| b.body),
                ck.modulus(),
            ),
            pow(ck.modulus(), n),
        ) == value as int,
{
    let m = ck.modulus();
    let total = pow(m, n);
    vstd::arithmetic::power::lemma_pow_positive(m, n);
    vstd::arithmetic::power::lemma_pow1(m);
    vstd::arithmetic::power::lemma_pow_increases(m as nat, 1, n);
    crate::radix::lemma_signed_wrap_round_trip(value as int, total);
    let w = (value as int) % total;
    let ds = spec_digits(w, m, n);
    assert(ck.spec_blocks_of_digits(ds).map_values(|b: Ciphertext| b.body) =~= ds);
    crate::radix::lemma_digits_value_exact(w, m, n);
}

/// Parameters of the legacy programmable-bootstrap path.
#[derive(Clone, Copy, Debug, PartialEq, Eq, Structural)]
pub struct WopbsParameters {
    pub message_modulus: MessageModulus,
}

/// Key of the legacy programmable-bootstrap path.
#[derive(Clone, Copy, Debug, PartialEq, Eq, Structural)]
pub struct WopbsKey {
    pub key_id: u64,
}

/// Private key dedicated to compact public-key encryption.
#[derive(Clone, Copy, Debug, PartialEq, Eq, Structural)]
pub struct CompactPrivateKey {
    pub key_id: u64,
}

/// Material switching compactly encrypted values onto the computation key.
#[derive(Clone, Copy, Debug, PartialEq, Eq, Structural)]
pub struct KeySwitchingKeyMaterial {
    pub key_id: u64,
    pub params: ShortintKeySwitchingParameters,
}

/// Compressed (seed) form of [`KeySwitchingKeyMaterial`].
#[derive(Clone, Copy, Debug, PartialEq, Eq, Structural)]
pub struct CompressedKeySwitchingKeyMaterial {
    pub key_id: u64,
    pub params: ShortintKeySwitchingParameters,
}

impl CompressedKeySwitchingKeyMaterial {
    /// Expands the seed form into usable key-switching material.
    pub fn decompress(&self) -> (r: KeySwitchingKeyMaterial)
        ensures
            r == (KeySwitchingKeyMaterial { key_id: self.key_id, params: self.params }),
    {
        KeySwitchingKeyMaterial { key_id: self.key_id, params: self.params }
    }
}

/// Key of the client.  Aggregates the secrets that encrypt and decrypt;
/// never sent to the server.
#[derive(Clone, Copy, Debug)]
pub struct ClientKey {
    /// The integer-level secret key.
    pub key: CoreClientKey,
    /// Parameters of the legacy programmable-bootstrap path, if enabled.
    pub wopbs_block_parameters: Option<WopbsParameters>,
    /// Dedicated compact public-key secret and its switching parameters.
    pub dedicated_compact_private_key: Option<(CompactPrivateKey, ShortintKeySwitchingParameters)>,
    /// Private material for packing/unpacking key pairs, if enabled.
    pub compression_key: Option<CompressionPrivateKeys>,
}

impl ClientKey {
    /// Generates a new key from the given config.
    pub fn generate(config: Config) -> (r: Self)
        ensures
            r == (ClientKey {
                key: CoreClientKey { key_id: 0, parameters: config.inner },
                wopbs_block_parameters: None,
                dedicated_compact_private_key: None,
                compression_key: None,
            }),
    {
        Self {
            key: CoreClientKey::new(config.inner),
            wopbs_block_parameters: None,
            dedicated_compact_private_key: None,
            compression_key: None,
        }
    }

    /// Generates a key from a config and a seed: the same seed regenerates
    /// the same key.
    pub fn generate_with_seed(config: Config, seed: Seed) -> (r: Self)
        ensures
            r == (ClientKey {
                key: CoreClientKey { key_id: spec_seed_key_id(seed), parameters: config.inner },
                wopbs_block_parameters: None,
                dedicated_compact_private_key: None,
                compression_key: None,
            }),
    {
        Self {
            key: CoreClientKey::new_with_seed(config.inner, seed),
            wopbs_block_parameters: None,
            dedicated_compact_private_key: None,
            compression_key: None,
        }
    }

    /// Splits the key into its raw parts.
    pub fn into_raw_parts(self) -> (r: (
        CoreClientKey,
        Option<WopbsParameters>,
        Option<(CompactPrivateKey, ShortintKeySwitchingParameters)>,
        Option<CompressionPrivateKeys>,
    ))
        ensures
            r.0 == self.key,
            r.1 == self.wopbs_block_parameters,
            r.2 == self.dedicated_compact_private_key,
            r.3 == self.compression_key,
    {
        (
            self.key,
            self.wopbs_block_parameters,
            self.dedicated_compact_private_key,
            self.compression_key,
        )
    }

    /// Reassembles a key from raw parts.
    pub fn from_raw_parts(
        key: CoreClientKey,
        wopbs_block_parameters: Option<WopbsParameters>,
        dedicated_compact_private_key: Option<(CompactPrivateKey, ShortintKeySwitchingParameters)>,
        compression_key: Option<CompressionPrivateKeys>,
    ) -> (r: Self)
        ensures
            r == (ClientKey {
                key,
                wopbs_block_parameters,
                dedicated_compact_private_key,
                compression_key,
            }),
    {
        Self { key, wopbs_block_parameters, dedicated_compact_private_key, compression_key }
    }

    /// Generates a new server key for this client's ceremony.
    pub fn generate_server_key(&self) -> (r: ServerKey)
        ensures
            *r.key == spec_server_key_parts(*self),
    {
        ServerKey::new(self)
    }

    /// Generates a new compressed server key for this client's ceremony.
    pub fn generate_compressed_server_key(&self) -> (r: CompressedServerKey)
        ensures
            r.integer_key == spec_compressed_server_key_parts(*self),
    {
        CompressedServerKey::new(self)
    }

    /// The message modulus of one block under this key.
    pub fn message_modulus(&self) -> (r: MessageModulus)
        ensures
            r == self.key.parameters.message_modulus,
    {
        self.key.parameters.message_modulus
    }
}

/// Integer-level computation key of one ceremony.
#[derive(Clone, Copy, Debug, PartialEq, Eq, Structural)]
pub struct CoreServerKey {
    pub key_id: u64,
    pub message_modulus: MessageModulus,
}

/// Aggregate of every server-side key derived from one client key.
#[derive(Clone, Copy, Debug)]
pub struct IntegerServerKey {
    /// The integer-level computation key.
    pub key: CoreServerKey,
    /// Key of the legacy programmable-bootstrap path, if enabled.
    pub wopbs_key: Option<WopbsKey>,
    /// Material switching compactly encrypted values, if enabled.
    pub cpk_key_switching_key_material: Option<KeySwitchingKeyMaterial>,
    /// Packing key, if the client enabled list compression.
    pub compression_key: Option<CompressionKey>,
    /// Unpacking key, if the client enabled list compression.
    pub decompression_key: Option<DecompressionKey>,
}

/// The server-side keys a client key gives rise to.
pub open spec fn spec_server_key_parts(ck: ClientKey) -> IntegerServerKey {
    IntegerServerKey {
        key: CoreServerKey {
            key_id: ck.key.key_id,
            message_modulus: ck.key.parameters.message_modulus,
        },
        wopbs_key: match ck.wopbs_block_parameters {
            Some(_) => Some(WopbsKey { key_id: ck.key.key_id }),
            None => None,
        },
        cpk_key_switching_key_material: match ck.dedicated_compact_private_key {
            Some((k, p)) => Some(KeySwitchingKeyMaterial { key_id: k.key_id, params: p }),
            None => None,
        },
        compression_key: match ck.compression_key {
            Some(c) => Some(CompressionKey { key_id: c.key_id }),
            None => None,
        },
        decompression_key: match ck.compression_key {
            Some(c) => Some(DecompressionKey { key_id: c.key_id }),
            None => None,
        },
    }
}

/// Key of the server: everything needed to compute on encrypted data of one
/// ceremony.  The aggregate sits behind a shared handle, so cloning a
/// server key copies a reference, never the key material.
#[derive(Clone)]
pub struct ServerKey {
    pub key: Arc<IntegerServerKey>,
}

impl ServerKey {
    /// Derives the server key of a client key's ceremony.
    pub fn new(keys: &ClientKey) -> (r: Self)
        ensures
            *r.key == spec_server_key_parts(*keys),
    {
        let wopbs_key = match keys.wopbs_block_parameters {
            Some(_) => Some(WopbsKey { key_id: keys.key.key_id }),
            None => None,
        };
        let cpk_key_switching_key_material = match keys.dedicated_compact_private_key {
            Some((k, p)) => Some(KeySwitchingKeyMaterial { key_id: k.key_id, params: p }),
            None => None,
        };
        let compression_key = match keys.compression_key {
            Some(c) => Some(CompressionKey { key_id: c.key_id }),
            None => None,
        };
        let decompression_key = match keys.compression_key {
            Some(c) => Some(DecompressionKey { key_id: c.key_id }),
            None => None,
        };
        Self {
            key: Arc::new(
                IntegerServerKey {
                    key: CoreServerKey {
                        key_id: keys.key.key_id,
                        message_modulus: keys.key.parameters.message_modulus,
                    },
                    wopbs_key,
                    cpk_key_switching_key_material,
                    compression_key,
                    decompression_key,
                },
            ),
        }
    }

    /// Splits the key into its raw parts, cloning them out of the shared
    /// aggregate.
    pub fn into_raw_parts(self) -> (r: (
        CoreServerKey,
        Option<WopbsKey>,
        Option<KeySwitchingKeyMaterial>,
        Option<CompressionKey>,
        Option<DecompressionKey>,
    ))
        ensures
            r.0 == self.key.key,
            r.1 == self.key.wopbs_key,
            r.2 == self.key.cpk_key_switching_key_material,
            r.3 == self.key.compression_key,
            r.4 == self.key.decompression_key,
    {
        let IntegerServerKey {
            key,
            wopbs_key,
            cpk_key_switching_key_material,
            compression_key,
            decompression_key,
        } = *self.key;
        (key, wopbs_key, cpk_key_switching_key_material, compression_key, decompression_key)
    }

    /// Reassembles a server key from raw parts, behind a fresh shared
    /// handle.
    pub fn from_raw_parts(
        key: CoreServerKey,
        wopbs_key: Option<WopbsKey>,
        cpk_key_switching_key_material: Option<KeySwitchingKeyMaterial>,
        compression_key: Option<CompressionKey>,
        decompression_key: Option<DecompressionKey>,
    ) -> (r: Self)
        ensures
            *r.key == (IntegerServerKey {
                key,
                wopbs_key,
                cpk_key_switching_key_material,
                compression_key,
                decompression_key,
            }),
    {
        Self {
            key: Arc::new(
                IntegerServerKey {
                    key,
                    wopbs_key,
                    cpk_key_switching_key_material,
                    compression_key,
                    decompression_key,
                },
            ),
        }
    }
}

/// Integer-level compressed computation key of one ceremony.
#[derive(Clone, Copy, Debug, PartialEq, Eq, Structural)]
pub struct CoreCompressedServerKey {
    pub key_id: u64,
    pub message_modulus: MessageModulus,
}

impl CoreCompressedServerKey {
    /// Expands the seed form into a usable computation key.
    pub fn decompress(&self) -> (r: CoreServerKey)
        ensures
            r == (CoreServerKey { key_id: self.key_id, message_modulus: self.message_modulus }),
    {
        CoreServerKey { key_id: self.key_id, message_modulus: self.message_modulus }
    }
}

/// Aggregate of every compressed server-side key of one ceremony.
#[derive(Clone, Copy, Debug)]
pub struct IntegerCompressedServerKey {
    pub key: CoreCompressedServerKey,
    pub cpk_key_switching_key_material: Option<CompressedKeySwitchingKeyMaterial>,
    pub compression_key: Option<CompressedCompressionKey>,
    pub decompression_key: Option<CompressedDecompressionKey>,
}

/// The compressed server-side keys a client key gives rise to.
pub open spec fn spec_compressed_server_key_parts(ck: ClientKey) -> IntegerCompressedServerKey {
    IntegerCompressedServerKey {
        key: CoreCompressedServerKey {
            key_id: ck.key.key_id,
            message_modulus: ck.key.parameters.message_modulus,
        },
        cpk_key_switching_key_material: match ck.dedicated_compact_private_key {
            Some((k, p)) => Some(
                CompressedKeySwitchingKeyMaterial { key_id: k.key_id, params: p },
            ),
            None => None,
        },
        compression_key: match ck.compression_key {
            Some(c) => Some(CompressedCompressionKey { key_id: c.key_id }),
            None => None,
        },
        decompression_key: match ck.compression_key {
            Some(c) => Some(CompressedDecompressionKey { key_id: c.key_id }),
            None => None,
        },
    }
}

/// Compressed server key: takes much less space than a [`ServerKey`] and
/// must be decompressed before use.
#[derive(Clone, Copy, Debug)]
pub struct CompressedServerKey {
    pub integer_key: IntegerCompressedServerKey,
}

impl CompressedServerKey {
    /// Derives the compressed server key of a client key's ceremony.
    pub fn new(keys: &ClientKey) -> (r: Self)
        ensures
            r.integer_key == spec_compressed_server_key_parts(*keys),
    {
        let cpk_key_switching_key_material = match keys.dedicated_compact_private_key {
            Some((k, p)) => Some(CompressedKeySwitchingKeyMaterial { key_id: k.key_id, params: p }),
            None => None,
        };
        let compression_key = match keys.compression_key {
            Some(c) => Some(CompressedCompressionKey { key_id: c.key_id }),
            None => None,
        };
        let decompression_key = match keys.compression_key {
            Some(c) => Some(CompressedDecompressionKey { key_id: c.key_id }),
            None => None,
        };
        Self {
            integer_key: IntegerCompressedServerKey {
                key: CoreCompressedServerKey {
                    key_id: keys.key.key_id,
                    message_modulus: keys.key.parameters.message_modulus,
                },
                cpk_key_switching_key_material,
                compression_key,
                decompression_key,
            },
        }
    }

    /// Splits the key into its raw parts.
    pub fn into_raw_parts(self) -> (r: (
        CoreCompressedServerKey,
        Option<CompressedKeySwitchingKeyMaterial>,
        Option<CompressedCompressionKey>,
        Option<CompressedDecompressionKey>,
    ))
        ensures
            r.0 == self.integer_key.key,
            r.1 == self.integer_key.cpk_key_switching_key_material,
            r.2 == self.integer_key.compression_key,
            r.3 == self.integer_key.decompression_key,
    {
        (
            self.integer_key.key,
            self.integer_key.cpk_key_switching_key_material,
            self.integer_key.compression_key,
            self.integer_key.decompression_key,
        )
    }

    /// Reassembles a compressed server key from raw parts.
    pub fn from_raw_parts(
        integer_key: CoreCompressedServerKey,
        cpk_key_switching_key_material: Option<CompressedKeySwitchingKeyMaterial>,
        compression_key: Option<CompressedCompressionKey>,
        decompression_key: Option<CompressedDecompressionKey>,
    ) -> (r: Self)
        ensures
            r.integer_key == (IntegerCompressedServerKey {
                key: integer_key,
                cpk_key_switching_key_material,
                compression_key,
                decompression_key,
            }),
    {
        Self {
            integer_key: IntegerCompressedServerKey {
                key: integer_key,
                cpk_key_switching_key_material,
                compression_key,
                decompression_key,
            },
        }
    }

    /// Expands every part into a usable [`ServerKey`] of the same ceremony.
    /// Decompression never changes which ceremony a key belongs to.
    pub fn decompress(&self) -> (r: ServerKey)
        ensures
            (*r.key).key == self.integer_key.key.decompress_spec(),
            (*r.key).wopbs_key is None,
            (*r.key).cpk_key_switching_key_material == match self
                .integer_key
                .cpk_key_switching_key_material {
                Some(m) => Some(KeySwitchingKeyMaterial { key_id: m.key_id, params: m.params }),
                None => None::<KeySwitchingKeyMaterial>,
            },
            (*r.key).compression_key == match self.integer_key.compression_key {
                Some(c) => Some(CompressionKey { key_id: c.key_id }),
                None => None::<CompressionKey>,
            },
            (*r.key).decompression_key == match self.integer_key.decompression_key {
                Some(c) => Some(DecompressionKey { key_id: c.key_id }),
                None => None::<DecompressionKey>,
            },
    {
        let key = self.integer_key.key.decompress();
        let cpk_key_switching_key_material = match &self.integer_key.cpk_key_switching_key_material
        {
            Some(m) => Some(m.decompress()),
            None => None,
        };
        let compression_key = match &self.integer_key.compression_key {
            Some(c) => Some(c.decompress()),
            None => None,
        };
        let decompression_key = match &self.integer_key.decompression_key {
            Some(c) => Some(c.decompress()),
            None => None,
        };
        ServerKey {
            key: Arc::new(
                IntegerServerKey {
                    key,
                    wopbs_key: None,
                    cpk_key_switching_key_material,
                    compression_key,
                    decompression_key,
                },
            ),
        }
    }
}

impl CoreCompressedServerKey {
    /// The computation key [`Self::decompress`] expands to.
    pub open spec fn decompress_spec(self) -> CoreServerKey {
        CoreServerKey { key_id: self.key_id, message_modulus: self.message_modulus }
    }
}

/// The server key as held by the process: the computation keys behind their
/// shared handle.
pub enum InternalServerKey {
    Cpu(Arc<IntegerServerKey>),
}

impl From<ServerKey> for InternalServerKey {
    fn from(value: ServerKey) -> (r: Self) {
        InternalServerKey::Cpu(value.key)
    }
}

impl vstd::std_specs::convert::FromSpecImpl<ServerKey> for InternalServerKey {
    open spec fn obeys_from_spec() -> bool {
        true
    }

    open spec fn from_spec(t: ServerKey) -> Self {
        InternalServerKey::Cpu(t.key)
    }
}

} // verus!
