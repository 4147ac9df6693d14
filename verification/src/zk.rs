//! Serialized-parameter handling of the compact public-key proof system.
//!
//! Proof generation and verification live outside this crate; here only
//! their public parameters travel, as a list of group elements.  Each
//! element is a compressed coordinate together with its completion, which
//! is recomputable from the coordinate alone — so the parameters own a
//! compact encoding (coordinates only, smaller, slower to decode) next to
//! the canonical one (both halves).

use crate::parameters::{BlockParameters, Config};
use crate::safe_serialization::{
    spec_deserialize_outcome, spec_serialize_outcome, DeserializationConfig, SerializationConfig,
    Versionize,
};
use crate::wire::{
    bytes_to_words, copy_words, lemma_words_to_bytes_injective, lemma_words_to_bytes_len,
    spec_words_to_bytes, words_to_bytes,
};
use crate::Error;
use vstd::prelude::*;

verus! {

/// How much work a proof spends: heavier proving or heavier verifying.
#[derive(Clone, Copy, Debug, PartialEq, Eq, Structural)]
pub enum ZkComputeLoad {
    Proof,
    Verify,
}

/// Mask completing a compressed coordinate; the completion is a pure
/// function of the coordinate, standing in for the recomputable half of a
/// group element.
pub const COORD_MASK: u64 = 0x9e3779b97f4a7c15;

/// The completion of one compressed coordinate.
pub open spec fn spec_completed(x: u64) -> u64 {
    x ^ COORD_MASK
}

/// Public parameters of the compact public-key proof system.
#[derive(Clone, Debug, PartialEq)]
pub struct CompactPkePublicParams {
    /// Compressed coordinate of each group element.
    pub base: Vec<u64>,
    /// Completion of each element, derived from its coordinate.
    pub completion: Vec<u64>,
}

/// Completes every coordinate of a list.
fn complete_coords(base: &Vec<u64>) -> (r: Vec<u64>)
    ensures
        r@.len() == base@.len(),
        forall|i: int| 0 <= i < base@.len() ==> r@[i] == spec_completed(#[trigger] base@[i]),
{
    let mut r: Vec<u64> = Vec::new();
    let mut i: usize = 0;
    while i < base.len()
        invariant
            i <= base@.len(),
            r@.len() == i,
            forall|j: int| 0 <= j < i ==> r@[j] == spec_completed(#[trigger] base@[j]),
        decreases base@.len() - i,
    {
        r.push(base[i] ^ COORD_MASK);
        i = i + 1;
    }
    r
}

impl CompactPkePublicParams {
    /// Structural invariant: one completion per coordinate.
    pub open spec fn inv_spec(self) -> bool {
        self.completion@.len() == self.base@.len()
    }

    /// Domain invariant: every completion is derived from its coordinate.
    pub open spec fn conformant_spec(self) -> bool {
        self.inv_spec() && forall|i: int|
            0 <= i < self.base@.len() ==> self.completion@[i] == spec_completed(
                #[trigger] self.base@[i],
            )
    }

    /// The payload words: a layout word, the element count, the
    /// coordinates, and — canonically — the completions.
    pub open spec fn spec_payload_words(self, compact: bool) -> Seq<u64> {
        if compact {
            seq![1u64, self.base@.len() as u64] + self.base@
        } else {
            seq![0u64, self.base@.len() as u64] + self.base@ + self.completion@
        }
    }

    /// Builds conformant parameters from compressed coordinates.
    pub fn from_base(base: Vec<u64>) -> (r: Self)
        ensures
            r.base@ == base@,
            r.conformant_spec(),
    {
        let completion = complete_coords(&base);
        CompactPkePublicParams { base, completion }
    }

    /// Encodes the parameters without a version envelope, as the raw
    /// canonical or compact layout.
    pub fn serialize(&self, compress: bool) -> (r: Vec<u8>)
        requires
            self.inv_spec(),
        ensures
            r@ == spec_words_to_bytes(self.spec_payload_words(compress)),
    {
        let words = self.versionize(compress);
        words_to_bytes(&words)
    }

    /// Whether `bytes` is the raw encoding of `v` in the given layout: the
    /// compact layout only ever encodes conformant values, the canonical
    /// one any structurally sound value.
    pub open spec fn spec_raw_encoding_of(bytes: Seq<u8>, is_compressed: bool, v: Self) -> bool {
        bytes == spec_words_to_bytes(v.spec_payload_words(is_compressed)) && (if is_compressed {
            v.conformant_spec()
        } else {
            v.inv_spec()
        })
    }

    /// Decodes raw parameters.  The caller states which layout the bytes
    /// use; bytes that encode nothing in that layout are malformed, and
    /// when `validate` is set a decoded value violating the domain
    /// invariant is a conformance failure.
    pub fn deserialize(buffer: &[u8], is_compressed: bool, validate: bool) -> (r: Result<
        Self,
        Error,
    >)
        ensures
            match r {
                Ok(v) => Self::spec_raw_encoding_of(buffer@, is_compressed, v) && v.inv_spec() && (
                validate ==> v.conformant_spec()) && (is_compressed ==> v.conformant_spec()),
                Err(e) => if !(exists|v: Self|
                    Self::spec_raw_encoding_of(buffer@, is_compressed, v)) {
                    e == Error::MalformedPayload
                } else {
                    e == Error::ConformanceFailure && validate && (forall|v: Self|
                        Self::spec_raw_encoding_of(buffer@, is_compressed, v)
                            ==> !(#[trigger] v.conformant_spec()))
                },
            },
    {
        let words = match bytes_to_words(buffer) {
            Some(w) => w,
            None => {
                proof {
                    assert forall|v: Self|
                        !(#[trigger] Self::spec_raw_encoding_of(buffer@, is_compressed, v)) by {
                        lemma_words_to_bytes_len(v.spec_payload_words(is_compressed));
                        if buffer@ == spec_words_to_bytes(v.spec_payload_words(is_compressed)) {
                            assert((8 * v.spec_payload_words(is_compressed).len()) % 8 == 0)
                                by (nonlinear_arith);
                        }
                    }
                }
                return Err(Error::MalformedPayload);
            },
        };
        let mode: u64 = if is_compressed {
            1
        } else {
            0
        };
        if words.len() < 1 || words[0] != mode {
            proof {
                assert forall|v: Self|
                    !(#[trigger] Self::spec_raw_encoding_of(buffer@, is_compressed, v)) by {
                    if buffer@ == spec_words_to_bytes(v.spec_payload_words(is_compressed)) {
                        lemma_words_to_bytes_injective(
                            words@,
                            v.spec_payload_words(is_compressed),
                        );
                    }
                }
            }
            return Err(Error::MalformedPayload);
        }
        let v = match Self::unversionize(0, &words) {
            Ok(v) => v,
            Err(e) => {
                proof {
                    assert forall|w: Self|
                        !(#[trigger] Self::spec_raw_encoding_of(buffer@, is_compressed, w)) by {
                        if buffer@ == spec_words_to_bytes(w.spec_payload_words(is_compressed)) {
                            lemma_words_to_bytes_injective(
                                words@,
                                w.spec_payload_words(is_compressed),
                            );
                            assert(!Self::spec_decoded(0, words@, w));
                        }
                    }
                }
                return Err(e);
            },
        };
        proof {
            if is_compressed {
                assert(words@ != v.spec_payload_words(false));
            } else {
                assert(words@ != v.spec_payload_words(true) || v.spec_payload_words(true)
                    == v.spec_payload_words(false));
            }
            assert(Self::spec_raw_encoding_of(buffer@, is_compressed, v));
        }
        if validate {
            if !v.is_conformant() {
                proof {
                    assert forall|w: Self|
                        Self::spec_raw_encoding_of(buffer@, is_compressed, w) implies !(
                    #[trigger] w.conformant_spec()) by {
                        lemma_words_to_bytes_injective(
                            words@,
                            w.spec_payload_words(is_compressed),
                        );
                        Self::lemma_decoded_unique(0, words@, v, w);
                    }
                }
                return Err(Error::ConformanceFailure);
            }
        }
        Ok(v)
    }

    /// Encodes the parameters through the versioned, size-bounded
    /// framework.
    pub fn safe_serialize(&self, compress: bool, serialized_size_limit: u64) -> (r: Result<
        Vec<u8>,
        Error,
    >)
        requires
            self.inv_spec(),
        ensures
            spec_serialize_outcome(*self, compress, serialized_size_limit, r),
    {
        SerializationConfig::new(serialized_size_limit).serialize_into(self, compress)
    }

    /// Decodes versioned parameters through the size-bounded framework,
    /// skipping the conformance step: callers validate against externally
    /// agreed parameters separately.
    pub fn safe_deserialize(buffer: &[u8], serialized_size_limit: u64) -> (r: Result<Self, Error>)
        ensures
            spec_deserialize_outcome::<Self>(buffer@, serialized_size_limit, false, r),
    {
        DeserializationConfig::new(serialized_size_limit).disable_conformance().deserialize_from(
            buffer,
        )
    }
}

impl Versionize for CompactPkePublicParams {
    open spec fn inv(&self) -> bool {
        self.inv_spec()
    }

    open spec fn conformant(&self) -> bool {
        self.conformant_spec()
    }

    open spec fn equiv(&self, other: &Self) -> bool {
        self.base@ == other.base@ && self.completion@ == other.completion@
    }

    open spec fn spec_version_count() -> u64 {
        1
    }

    open spec fn spec_payload(&self, compact: bool) -> Seq<u64> {
        self.spec_payload_words(compact)
    }

    open spec fn spec_decoded(version: u64, payload: Seq<u64>, v: Self) -> bool {
        (payload == v.spec_payload_words(false) && v.inv_spec()) || (payload
            == v.spec_payload_words(true) && v.conformant_spec())
    }

    fn version_count() -> (n: u64) {
        1
    }

    fn versionize(&self, compact: bool) -> (out: Vec<u64>) {
        let mut words: Vec<u64> = Vec::new();
        words.push(
            if compact {
                1
            } else {
                0
            },
        );
        words.push(self.base.len() as u64);
        let mut b = copy_words(&self.base, 0, self.base.len());
        words.append(&mut b);
        if !compact {
            let mut c = copy_words(&self.completion, 0, self.completion.len());
            words.append(&mut c);
        }
        proof {
            assert(self.base@.subrange(0, self.base@.len() as int) =~= self.base@);
            assert(self.completion@.subrange(0, self.completion@.len() as int)
                =~= self.completion@);
            assert(words@ =~= self.spec_payload_words(compact));
        }
        words
    }

    fn unversionize(version: u64, payload: &Vec<u64>) -> (r: Result<Self, Error>) {
        if payload.len() < 2 {
            proof {
                assert forall|v: Self| !(#[trigger] Self::spec_decoded(version, payload@, v)) by {
                    assert(v.spec_payload_words(true).len() >= 2);
                    assert(v.spec_payload_words(false).len() >= 2);
                }
            }
            return Err(Error::MalformedPayload);
        }
        let mode = payload[0];
        let n_word = payload[1];
        if mode > 1 {
            proof {
                assert forall|v: Self| !(#[trigger] Self::spec_decoded(version, payload@, v)) by {
                    assert(v.spec_payload_words(true)[0] == 1u64);
                    assert(v.spec_payload_words(false)[0] == 0u64);
                }
            }
            return Err(Error::MalformedPayload);
        }
        if n_word > usize::MAX as u64 {
            proof {
                assert forall|v: Self| !(#[trigger] Self::spec_decoded(version, payload@, v)) by {
                    assert(vstd::std_specs::vec::spec_vec_len(&v.base) == v.base@.len());
                    assert(v.spec_payload_words(true)[1] == v.base@.len() as u64);
                    assert(v.spec_payload_words(false)[1] == v.base@.len() as u64);
                }
            }
            return Err(Error::MalformedPayload);
        }
        let n = n_word as usize;
        let rest = payload.len() - 2;
        if mode == 1 {
            if rest != n {
                proof {
                    assert forall|v: Self| !(#[trigger] Self::spec_decoded(version, payload@, v))
                        by {
                        assert(vstd::std_specs::vec::spec_vec_len(&v.base) == v.base@.len());
                        if payload@ == v.spec_payload_words(false) {
                            assert(payload@[0] == 0u64);
                        }
                        if payload@ == v.spec_payload_words(true) {
                            assert(payload@.len() == 2 + v.base@.len());
                            assert(payload@[1] == v.base@.len() as u64);
                        }
                    }
                }
                return Err(Error::MalformedPayload);
            }
            let base = copy_words(payload, 2, payload.len());
            let completion = complete_coords(&base);
            let v = CompactPkePublicParams { base, completion };
            proof {
                assert(v.spec_payload_words(true) =~= payload@);
            }
            Ok(v)
        } else {
            if rest % 2 != 0 || rest / 2 != n {
                proof {
                    assert forall|v: Self| !(#[trigger] Self::spec_decoded(version, payload@, v))
                        by {
                        assert(vstd::std_specs::vec::spec_vec_len(&v.base) == v.base@.len());
                        assert(vstd::std_specs::vec::spec_vec_len(&v.completion)
                            == v.completion@.len());
                        if payload@ == v.spec_payload_words(true) {
                            assert(payload@[0] == 1u64);
                        }
                        if payload@ == v.spec_payload_words(false) && v.inv_spec() {
                            assert(payload@.len() == 2 + v.base@.len() + v.completion@.len());
                            assert(payload@[1] == v.base@.len() as u64);
                            assert(v.completion@.len() == v.base@.len());
                        }
                    }
                }
                return Err(Error::MalformedPayload);
            }
            let base = copy_words(payload, 2, 2 + n);
            let completion = copy_words(payload, 2 + n, payload.len());
            let v = CompactPkePublicParams { base, completion };
            proof {
                assert(v.spec_payload_words(false) =~= payload@);
            }
            Ok(v)
        }
    }

    fn is_conformant(&self) -> (b: bool) {
        if self.completion.len() != self.base.len() {
            return false;
        }
        let mut i: usize = 0;
        while i < self.base.len()
            invariant
                i <= self.base@.len(),
                self.completion@.len() == self.base@.len(),
                forall|j: int|
                    0 <= j < i ==> self.completion@[j] == spec_completed(#[trigger] self.base@[j]),
            decreases self.base@.len() - i,
        {
            if self.completion[i] != (self.base[i] ^ COORD_MASK) {
                return false;
            }
            i = i + 1;
        }
        true
    }

    proof fn lemma_version_count_positive() {
    }

    proof fn lemma_self_decodes(&self, compact: bool) {
    }

    proof fn lemma_decoded_unique(version: u64, payload: Seq<u64>, a: Self, b: Self) {
        assert(vstd::std_specs::vec::spec_vec_len(&a.base) == a.base@.len());
        assert(vstd::std_specs::vec::spec_vec_len(&b.base) == b.base@.len());
        assert(vstd::std_specs::vec::spec_vec_len(&a.completion) == a.completion@.len());
        assert(vstd::std_specs::vec::spec_vec_len(&b.completion) == b.completion@.len());
        let a_compact = payload == a.spec_payload_words(true) && a.conformant_spec();
        let b_compact = payload == b.spec_payload_words(true) && b.conformant_spec();
        if a_compact != b_compact {
            assert(payload[0] == 1u64 && payload[0] == 0u64);
        }
        if a_compact && b_compact {
            assert(payload[1] == a.base@.len() as u64);
            assert(payload[1] == b.base@.len() as u64);
            assert(a.base@.len() == b.base@.len());
            assert forall|i: int| 0 <= i < a.base@.len() implies a.base@[i] == b.base@[i] by {
                assert(a.base@[i] == payload[2 + i]);
                assert(b.base@[i] == payload[2 + i]);
            }
            assert(a.base@ =~= b.base@);
            assert forall|i: int|
                0 <= i < a.completion@.len() implies a.completion@[i] == b.completion@[i] by {
                assert(a.completion@[i] == spec_completed(a.base@[i]));
                assert(b.completion@[i] == spec_completed(b.base@[i]));
            }
            assert(a.completion@ =~= b.completion@);
        } else if !a_compact && !b_compact {
            assert(payload == a.spec_payload_words(false) && a.inv_spec());
            assert(payload == b.spec_payload_words(false) && b.inv_spec());
            assert(payload[1] == a.base@.len() as u64);
            assert(payload[1] == b.base@.len() as u64);
            assert(a.base@.len() == b.base@.len());
            assert(a.completion@.len() == b.completion@.len());
            assert forall|i: int| 0 <= i < a.base@.len() implies a.base@[i] == b.base@[i] by {
                assert(a.base@[i] == payload[2 + i]);
                assert(b.base@[i] == payload[2 + i]);
            }
            assert(a.base@ =~= b.base@);
            assert forall|i: int|
                0 <= i < a.completion@.len() implies a.completion@[i] == b.completion@[i] by {
                assert(a.completion@[i] == payload[2 + a.base@.len() + i]);
                assert(b.completion@[i] == payload[2 + b.base@.len() + i]);
            }
            assert(a.completion@ =~= b.completion@);
        }
    }
}

/// The coordinate the common reference string derives for element `i` of a
/// message space.
pub open spec fn spec_crs_coord(message_modulus: u64, i: int) -> u64 {
    message_modulus ^ (i as u64)
}

/// Common reference string of the compact public-key proof system: it
/// carries the public parameters handed to provers and verifiers.
#[derive(Clone, Debug, PartialEq)]
pub struct CompactPkeCrs {
    pub params: CompactPkePublicParams,
}

impl CompactPkeCrs {
    /// Whether a CRS for `n` elements of the given message space holds the
    /// derived coordinates.
    pub open spec fn spec_derived(self, message_modulus: u64, n: int) -> bool {
        self.params.conformant_spec() && self.params.base@.len() == n && forall|i: int|
            0 <= i < n ==> self.params.base@[i] == spec_crs_coord(message_modulus, i)
    }

    /// Derives the CRS of a parameter set, sized for `max_num_message`
    /// logical values.  Parameter generation is a capability: an empty size
    /// is its failure.
    pub fn from_parameters(parameters: BlockParameters, max_num_message: usize) -> (r: Result<
        Self,
        Error,
    >)
        ensures
            max_num_message >= 1 ==> r is Ok && r->Ok_0.spec_derived(
                parameters.message_modulus.0,
                max_num_message as int,
            ),
            max_num_message == 0 ==> r == Err::<Self, Error>(Error::CapabilityFailure),
    {
        if max_num_message == 0 {
            return Err(Error::CapabilityFailure);
        }
        let mm = parameters.message_modulus.0;
        let mut base: Vec<u64> = Vec::new();
        let mut i: usize = 0;
        while i < max_num_message
            invariant
                i <= max_num_message,
                base@.len() == i,
                forall|j: int| 0 <= j < i ==> base@[j] == spec_crs_coord(mm, j),
            decreases max_num_message - i,
        {
            base.push(mm ^ (i as u64));
            i = i + 1;
        }
        Ok(CompactPkeCrs { params: CompactPkePublicParams::from_base(base) })
    }

    /// Derives the CRS of a config, sized for `max_num_bits` of packed
    /// message.
    pub fn from_config(config: Config, max_num_bits: usize) -> (r: Result<Self, Error>)
        ensures
            max_num_bits >= 1 ==> r is Ok && r->Ok_0.spec_derived(
                config.inner.message_modulus.0,
                max_num_bits as int,
            ),
            max_num_bits == 0 ==> r == Err::<Self, Error>(Error::CapabilityFailure),
    {
        Self::from_parameters(config.inner, max_num_bits)
    }

    /// The public parameters of this CRS.
    pub fn public_params(&self) -> (r: CompactPkePublicParams)
        ensures
            r.base@ == self.params.base@,
            r.completion@ == self.params.completion@,
    {
        CompactPkePublicParams {
            base: copy_words(&self.params.base, 0, self.params.base.len()),
            completion: copy_words(&self.params.completion, 0, self.params.completion.len()),
        }
    }
}

} // verus!
