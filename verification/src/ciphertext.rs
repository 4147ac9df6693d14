//! Elementary blocks, kind tags, and the logical value types built from them.
//!
//! An elementary block is the smallest independently encrypted unit.  The
//! packing engine never reads a block's payload: it only counts and orders
//! blocks, guided by the [`DataKind`] tag recorded per logical value.

use crate::Error;
use vstd::prelude::*;

verus! {

/// One elementary encrypted block.  The payload is opaque to the packing
/// layer; only the key layer interprets it.
#[derive(Clone, Copy, Debug, PartialEq, Eq, Structural)]
pub struct Ciphertext {
    /// Opaque encrypted payload (one message-space digit under this model).
    pub body: u64,
    /// Identifier of the key-generation ceremony the block belongs to.
    pub key_id: u64,
}

impl Ciphertext {
    /// A block is well formed for a message modulus when its payload encodes
    /// a digit of that space.
    pub open spec fn wf(self, modulus: int) -> bool {
        self.body < modulus
    }
}

/// Tag describing the block layout of one logical value.
#[derive(Clone, Copy, Debug, PartialEq, Eq, Structural)]
pub enum DataKind {
    /// Exactly one elementary block.
    Boolean,
    /// `n` blocks, little-endian digit order.
    Unsigned(usize),
    /// `n` blocks, little-endian digit order, sign carried inside the
    /// encrypted representation.
    Signed(usize),
}

impl DataKind {
    /// Number of elementary blocks a value of this kind occupies.
    pub open spec fn spec_num_blocks(self) -> int {
        match self {
            DataKind::Boolean => 1,
            DataKind::Unsigned(n) => n as int,
            DataKind::Signed(n) => n as int,
        }
    }

    /// Number of elementary blocks a value of this kind occupies.
    pub fn num_blocks(self) -> (n: usize)
        ensures
            n as int == self.spec_num_blocks(),
    {
        match self {
            DataKind::Boolean => 1,
            DataKind::Unsigned(n) => n,
            DataKind::Signed(n) => n,
        }
    }
}

/// An encrypted boolean: a single elementary block.
#[derive(Clone, Copy, Debug, PartialEq, Eq, Structural)]
pub struct BooleanBlock(pub Ciphertext);

/// An encrypted unsigned integer: little-endian elementary blocks.
#[derive(Clone, Debug, PartialEq)]
pub struct RadixCiphertext {
    pub blocks: Vec<Ciphertext>,
}

/// An encrypted signed integer: little-endian elementary blocks, the sign
/// carried inside the encrypted representation.
#[derive(Clone, Debug, PartialEq)]
pub struct SignedRadixCiphertext {
    pub blocks: Vec<Ciphertext>,
}

/// Capability of a logical value to hand its elementary blocks to a builder
/// and report its kind.  The postconditions make a mismatch between the
/// reported kind and the number of appended blocks impossible for any
/// implementation that verifies.
pub trait Compressible: Sized {
    /// The block sequence the value contributes, in order.
    spec fn spec_blocks(self) -> Seq<Ciphertext>;

    /// The kind tag recorded for the value.
    spec fn spec_kind(self) -> DataKind;

    /// Appends the value's blocks to `messages` and returns its kind.
    fn compress_into(self, messages: &mut Vec<Ciphertext>) -> (kind: DataKind)
        ensures
            final(messages)@ == old(messages)@ + self.spec_blocks(),
            kind == self.spec_kind(),
            self.spec_kind().spec_num_blocks() == self.spec_blocks().len(),
    ;
}

/// Capability of a logical value type to rebuild itself from a block range
/// and its kind tag.  This is the single seam where new logical types are
/// added without touching the packing engine.
pub trait Expandable: Sized {
    /// Whether a block sequence of the given kind forms a value of this type.
    spec fn spec_accepts(blocks: Seq<Ciphertext>, kind: DataKind) -> bool;

    /// The block sequence a reconstructed value holds.
    spec fn blocks_view(self) -> Seq<Ciphertext>;

    /// Rebuilds a value from expanded blocks, or reports a typed mismatch,
    /// distinct from an out-of-range lookup.
    fn from_expanded_blocks(blocks: Vec<Ciphertext>, kind: DataKind) -> (r: Result<Self, Error>)
        ensures
            Self::spec_accepts(blocks@, kind) ==> r is Ok && r->Ok_0.blocks_view() == blocks@,
            !Self::spec_accepts(blocks@, kind) ==> r == Err::<Self, Error>(
                Error::ReconstructionMismatch,
            ),
    ;
}

impl Compressible for BooleanBlock {
    open spec fn spec_blocks(self) -> Seq<Ciphertext> {
        seq![self.0]
    }

    open spec fn spec_kind(self) -> DataKind {
        DataKind::Boolean
    }

    fn compress_into(self, messages: &mut Vec<Ciphertext>) -> (kind: DataKind) {
        messages.push(self.0);
        proof {
            assert(messages@ =~= old(messages)@ + seq![self.0]);
        }
        DataKind::Boolean
    }
}

impl Compressible for RadixCiphertext {
    open spec fn spec_blocks(self) -> Seq<Ciphertext> {
        self.blocks@
    }

    open spec fn spec_kind(self) -> DataKind {
        DataKind::Unsigned(self.blocks@.len() as usize)
    }

    fn compress_into(self, messages: &mut Vec<Ciphertext>) -> (kind: DataKind) {
        let num_blocks = self.blocks.len();
        let mut i: usize = 0;
        while i < num_blocks
            invariant
                i <= num_blocks,
                num_blocks == self.blocks@.len(),
                messages@ == old(messages)@ + self.blocks@.take(i as int),
            decreases num_blocks - i,
        {
            messages.push(self.blocks[i]);
            i = i + 1;
            proof {
                assert(self.blocks@.take(i as int) =~= self.blocks@.take(i - 1).push(
                    self.blocks@[i - 1],
                ));
                assert(messages@ =~= old(messages)@ + self.blocks@.take(i as int));
            }
        }
        proof {
            assert(self.blocks@.take(num_blocks as int) =~= self.blocks@);
        }
        DataKind::Unsigned(num_blocks)
    }
}

impl Compressible for SignedRadixCiphertext {
    open spec fn spec_blocks(self) -> Seq<Ciphertext> {
        self.blocks@
    }

    open spec fn spec_kind(self) -> DataKind {
        DataKind::Signed(self.blocks@.len() as usize)
    }

    fn compress_into(self, messages: &mut Vec<Ciphertext>) -> (kind: DataKind) {
        let num_blocks = self.blocks.len();
        let mut i: usize = 0;
        while i < num_blocks
            invariant
                i <= num_blocks,
                num_blocks == self.blocks@.len(),
                messages@ == old(messages)@ + self.blocks@.take(i as int),
            decreases num_blocks - i,
        {
            messages.push(self.blocks[i]);
            i = i + 1;
            proof {
                assert(self.blocks@.take(i as int) =~= self.blocks@.take(i - 1).push(
                    self.blocks@[i - 1],
                ));
                assert(messages@ =~= old(messages)@ + self.blocks@.take(i as int));
            }
        }
        proof {
            assert(self.blocks@.take(num_blocks as int) =~= self.blocks@);
        }
        DataKind::Signed(num_blocks)
    }
}

impl Expandable for BooleanBlock {
    open spec fn spec_accepts(blocks: Seq<Ciphertext>, kind: DataKind) -> bool {
        kind == DataKind::Boolean && blocks.len() == 1
    }

    open spec fn blocks_view(self) -> Seq<Ciphertext> {
        seq![self.0]
    }

    fn from_expanded_blocks(blocks: Vec<Ciphertext>, kind: DataKind) -> (r: Result<Self, Error>) {
        match kind {
            DataKind::Boolean => {
                if blocks.len() == 1 {
                    Ok(BooleanBlock(blocks[0]))
                } else {
                    Err(Error::ReconstructionMismatch)
                }
            },
            _ => Err(Error::ReconstructionMismatch),
        }
    }
}

impl Expandable for RadixCiphertext {
    open spec fn spec_accepts(blocks: Seq<Ciphertext>, kind: DataKind) -> bool {
        kind is Unsigned && kind.spec_num_blocks() == blocks.len()
    }

    open spec fn blocks_view(self) -> Seq<Ciphertext> {
        self.blocks@
    }

    fn from_expanded_blocks(blocks: Vec<Ciphertext>, kind: DataKind) -> (r: Result<Self, Error>) {
        match kind {
            DataKind::Unsigned(n) => {
                if blocks.len() == n {
                    Ok(RadixCiphertext { blocks })
                } else {
                    Err(Error::ReconstructionMismatch)
                }
            },
            _ => Err(Error::ReconstructionMismatch),
        }
    }
}

impl Expandable for SignedRadixCiphertext {
    open spec fn spec_accepts(blocks: Seq<Ciphertext>, kind: DataKind) -> bool {
        kind is Signed && kind.spec_num_blocks() == blocks.len()
    }

    open spec fn blocks_view(self) -> Seq<Ciphertext> {
        self.blocks@
    }

    fn from_expanded_blocks(blocks: Vec<Ciphertext>, kind: DataKind) -> (r: Result<Self, Error>) {
        match kind {
            DataKind::Signed(n) => {
                if blocks.len() == n {
                    Ok(SignedRadixCiphertext { blocks })
                } else {
                    Err(Error::ReconstructionMismatch)
                }
            },
            _ => Err(Error::ReconstructionMismatch),
        }
    }
}

/// Law: the blocks a boolean contributes are accepted back by its own
/// reconstruction, and any value holding exactly those blocks is that
/// boolean.
pub proof fn lemma_boolean_expand_compress(v: BooleanBlock)
    ensures
        BooleanBlock::spec_accepts(v.spec_blocks(), v.spec_kind()),
        forall|w: BooleanBlock| #[trigger] w.blocks_view() == v.spec_blocks() ==> w == v,
{
    assert forall|w: BooleanBlock| #[trigger] w.blocks_view() == v.spec_blocks() implies w == v by {
        assert(w.blocks_view()[0] == v.spec_blocks()[0]);
    }
}

/// Law: the blocks an unsigned radix value contributes are accepted back by
/// its own reconstruction, and any reconstructed value holding exactly those
/// blocks observes the same block sequence.
pub proof fn lemma_radix_expand_compress(v: RadixCiphertext)
    ensures
        RadixCiphertext::spec_accepts(v.spec_blocks(), v.spec_kind()),
        forall|w: RadixCiphertext| #[trigger] w.blocks_view() == v.spec_blocks() ==> w.blocks@
            == v.blocks@,
{
    assert(vstd::std_specs::vec::spec_vec_len(&v.blocks) == v.blocks@.len());
}

/// Law: the blocks a signed radix value contributes are accepted back by its
/// own reconstruction, and any reconstructed value holding exactly those
/// blocks observes the same block sequence.
pub proof fn lemma_signed_radix_expand_compress(v: SignedRadixCiphertext)
    ensures
        SignedRadixCiphertext::spec_accepts(v.spec_blocks(), v.spec_kind()),
        forall|w: SignedRadixCiphertext| #[trigger] w.blocks_view() == v.spec_blocks()
            ==> w.blocks@ == v.blocks@,
{
    assert(vstd::std_specs::vec::spec_vec_len(&v.blocks) == v.blocks@.len());
}

} // verus!
