//! Versioned, size-bounded serialization of the crate's persistent objects.
//!
//! Every versionable type declares a closed set of historical formats.
//! Encoding always targets the latest version and writes one version-tag
//! word before the payload words; decoding reads the tag, rejects unknown
//! tags, accepts every declared version, and converts older payloads to the
//! current in-memory shape.  A byte ceiling is enforced before any payload
//! is decoded, and an optional conformance step re-checks the decoded
//! value's domain invariants.

use crate::wire::{
    bytes_to_words, lemma_words_to_bytes_injective, lemma_words_to_bytes_len, spec_words_to_bytes,
    words_to_bytes,
};
use crate::Error;
use vstd::prelude::*;

verus! {

/// Capability of a type to travel through the versioned wire format.
///
/// The two proof obligations are the framework's laws: every implementation
/// must show that current payloads decode back to their value, and that a
/// payload determines its value up to observational equality.
pub trait Versionize: Sized {
    /// Structural well-formedness every decoded value has.
    spec fn inv(&self) -> bool;

    /// Domain invariant checked by the conformance step.
    spec fn conformant(&self) -> bool;

    /// Observational equality: consumers cannot tell `self` from `other`.
    spec fn equiv(&self, other: &Self) -> bool;

    /// Number of declared historical versions; tags are `0 ..` that count.
    spec fn spec_version_count() -> u64;

    /// The payload words of the current version, compact or canonical.
    spec fn spec_payload(&self, compact: bool) -> Seq<u64>;

    /// Whether `payload` is a valid version-`version` encoding of `v`.
    spec fn spec_decoded(version: u64, payload: Seq<u64>, v: Self) -> bool;

    /// The number of declared versions; at least one.
    fn version_count() -> (n: u64)
        ensures
            n == Self::spec_version_count(),
            n >= 1,
    ;

    /// Encodes the value's payload words at the current version.
    fn versionize(&self, compact: bool) -> (out: Vec<u64>)
        requires
            self.inv(),
        ensures
            out@ == self.spec_payload(compact),
    ;

    /// Decodes a payload of the given declared version into the current
    /// in-memory shape.
    fn unversionize(version: u64, payload: &Vec<u64>) -> (r: Result<Self, Error>)
        requires
            version < Self::spec_version_count(),
        ensures
            match r {
                Ok(v) => v.inv() && Self::spec_decoded(version, payload@, v),
                Err(e) => e == Error::MalformedPayload && (forall|v: Self|
                    !(#[trigger] Self::spec_decoded(version, payload@, v))),
            },
    ;

    /// Checks the domain invariant of a decoded value.
    fn is_conformant(&self) -> (b: bool)
        requires
            self.inv(),
        ensures
            b == self.conformant(),
    ;

    /// Law: at least one version is always declared.
    proof fn lemma_version_count_positive()
        ensures
            Self::spec_version_count() >= 1,
    ;

    /// Law: the current version decodes its own payloads back to the value
    /// they encode.
    proof fn lemma_self_decodes(&self, compact: bool)
        requires
            self.inv(),
            self.conformant(),
        ensures
            Self::spec_decoded(
                (Self::spec_version_count() - 1) as u64,
                self.spec_payload(compact),
                *self,
            ),
    ;

    /// Law: a payload determines its value up to observational equality,
    /// and fixes its conformance.
    proof fn lemma_decoded_unique(version: u64, payload: Seq<u64>, a: Self, b: Self)
        requires
            Self::spec_decoded(version, payload, a),
            Self::spec_decoded(version, payload, b),
        ensures
            a.equiv(&b),
            a.conformant() == b.conformant(),
    ;
}

/// Whether some value decodes from `payload` at `version`.
pub open spec fn spec_decode_ok<T: Versionize>(version: u64, payload: Seq<u64>) -> bool {
    exists|v: T| T::spec_decoded(version, payload, v)
}

/// The framed bytes of a value: the current version tag word, then the
/// payload words, all as little-endian bytes.
pub open spec fn spec_versioned_bytes<T: Versionize>(v: T, compact: bool) -> Seq<u8> {
    spec_words_to_bytes(seq![(T::spec_version_count() - 1) as u64] + v.spec_payload(compact))
}

/// Ragged byte strings come from no word sequence.
proof fn lemma_no_words_for_ragged(bytes: Seq<u8>)
    requires
        bytes.len() % 8 != 0,
    ensures
        forall|ws: Seq<u64>| #[trigger] spec_words_to_bytes(ws) != bytes,
{
    assert forall|ws: Seq<u64>| #[trigger] spec_words_to_bytes(ws) != bytes by {
        lemma_words_to_bytes_len(ws);
        if spec_words_to_bytes(ws) == bytes {
            assert(bytes.len() == 8 * ws.len());
            assert((8 * ws.len()) % 8 == 0) by (nonlinear_arith);
        }
    }
}

/// Tuning of an encode call: the byte ceiling the output must not exceed.
#[derive(Clone, Copy, Debug, PartialEq, Eq, Structural)]
pub struct SerializationConfig {
    pub serialized_size_limit: u64,
}

/// The exact outcome an encode call owes: the framed bytes when they fit
/// the ceiling, a size-limit failure otherwise.
pub open spec fn spec_serialize_outcome<T: Versionize>(
    v: T,
    compact: bool,
    limit: u64,
    r: Result<Vec<u8>, Error>,
) -> bool {
    if spec_versioned_bytes(v, compact).len() <= limit {
        r is Ok && r->Ok_0@ == spec_versioned_bytes(v, compact)
    } else {
        r == Err::<Vec<u8>, Error>(Error::SizeLimitExceeded)
    }
}

impl SerializationConfig {
    /// A config enforcing the given byte ceiling.
    pub fn new(serialized_size_limit: u64) -> (r: Self)
        ensures
            r.serialized_size_limit == serialized_size_limit,
    {
        Self { serialized_size_limit }
    }

    /// Encodes `value` at its current version, canonically or compactly,
    /// failing when the encoded size would exceed the ceiling.
    pub fn serialize_into<T: Versionize>(&self, value: &T, compact: bool) -> (r: Result<
        Vec<u8>,
        Error,
    >)
        requires
            value.inv(),
        ensures
            spec_serialize_outcome(*value, compact, self.serialized_size_limit, r),
    {
        let payload = value.versionize(compact);
        let tag = T::version_count() - 1;
        let mut words: Vec<u64> = Vec::new();
        words.push(tag);
        let mut p = payload;
        words.append(&mut p);
        proof {
            assert(words@ =~= seq![(T::spec_version_count() - 1) as u64] + value.spec_payload(
                compact,
            ));
        }
        let bytes = words_to_bytes(&words);
        if bytes.len() as u64 > self.serialized_size_limit {
            Err(Error::SizeLimitExceeded)
        } else {
            Ok(bytes)
        }
    }
}

/// Tuning of a decode call: the byte ceiling, and whether the conformance
/// step runs.
#[derive(Clone, Copy, Debug, PartialEq, Eq, Structural)]
pub struct DeserializationConfig {
    pub serialized_size_limit: u64,
    pub conformance: bool,
}

/// The exact outcome a decode call owes for the given input bytes.
pub open spec fn spec_deserialize_outcome<T: Versionize>(
    bytes: Seq<u8>,
    limit: u64,
    conformance: bool,
    r: Result<T, Error>,
) -> bool {
    if bytes.len() > limit {
        r == Err::<T, Error>(Error::SizeLimitExceeded)
    } else if !(exists|ws: Seq<u64>| spec_words_to_bytes(ws) == bytes) {
        r == Err::<T, Error>(Error::MalformedPayload)
    } else {
        let ws = choose|ws: Seq<u64>| spec_words_to_bytes(ws) == bytes;
        if ws.len() < 1 {
            r == Err::<T, Error>(Error::MalformedPayload)
        } else if ws[0] >= T::spec_version_count() {
            r == Err::<T, Error>(Error::UnknownVersion)
        } else if !spec_decode_ok::<T>(ws[0], ws.drop_first()) {
            r == Err::<T, Error>(Error::MalformedPayload)
        } else {
            match r {
                Ok(v) => T::spec_decoded(ws[0], ws.drop_first(), v) && v.inv() && (conformance
                    ==> v.conformant()),
                Err(e) => e == Error::ConformanceFailure && conformance && (forall|v: T|
                    T::spec_decoded(ws[0], ws.drop_first(), v) ==> !(#[trigger] v.conformant())),
            }
        }
    }
}

impl DeserializationConfig {
    /// A config enforcing the given byte ceiling, with conformance checked.
    pub fn new(serialized_size_limit: u64) -> (r: Self)
        ensures
            r.serialized_size_limit == serialized_size_limit,
            r.conformance,
    {
        Self { serialized_size_limit, conformance: true }
    }

    /// Skips the conformance step: the caller will validate separately.
    pub fn disable_conformance(self) -> (r: Self)
        ensures
            r.serialized_size_limit == self.serialized_size_limit,
            !r.conformance,
    {
        Self { serialized_size_limit: self.serialized_size_limit, conformance: false }
    }

    /// Decodes one versioned value from untrusted bytes.  The ceiling is
    /// checked before anything is decoded, so no allocation ever exceeds
    /// the input size the ceiling admitted.
    pub fn deserialize_from<T: Versionize>(&self, bytes: &[u8]) -> (r: Result<T, Error>)
        ensures
            spec_deserialize_outcome::<T>(bytes@, self.serialized_size_limit, self.conformance, r),
    {
        if bytes.len() as u64 > self.serialized_size_limit {
            return Err(Error::SizeLimitExceeded);
        }
        let words = match bytes_to_words(bytes) {
            Some(w) => w,
            None => {
                proof {
                    lemma_no_words_for_ragged(bytes@);
                }
                return Err(Error::MalformedPayload);
            },
        };
        proof {
            let ws = choose|ws: Seq<u64>| spec_words_to_bytes(ws) == bytes@;
            lemma_words_to_bytes_injective(ws, words@);
        }
        if words.len() < 1 {
            return Err(Error::MalformedPayload);
        }
        let tag = words[0];
        if tag >= T::version_count() {
            return Err(Error::UnknownVersion);
        }
        let mut payload: Vec<u64> = Vec::new();
        let mut i: usize = 1;
        while i < words.len()
            invariant
                1 <= i <= words@.len(),
                payload@ == words@.subrange(1, i as int),
            decreases words@.len() - i,
        {
            payload.push(words[i]);
            i = i + 1;
            proof {
                assert(payload@ =~= words@.subrange(1, i as int));
            }
        }
        proof {
            assert(payload@ =~= words@.drop_first());
        }
        match T::unversionize(tag, &payload) {
            Ok(v) => {
                if self.conformance {
                    if v.is_conformant() {
                        Ok(v)
                    } else {
                        proof {
                            assert forall|w: T|
                                T::spec_decoded(tag, payload@, w) implies !(
                            #[trigger] w.conformant()) by {
                                T::lemma_decoded_unique(tag, payload@, v, w);
                            }
                        }
                        Err(Error::ConformanceFailure)
                    }
                } else {
                    Ok(v)
                }
            },
            Err(e) => Err(e),
        }
    }
}

/// Law (serialization round trip): for a well-formed, conformant value, the
/// framed bytes — compact or canonical — decode back to a value the
/// consumers cannot tell from the original, under every ceiling that
/// admits the bytes and with or without the conformance step.
pub proof fn lemma_safe_serialization_round_trip<T: Versionize>(
    v: T,
    compact: bool,
    limit: u64,
    conformance: bool,
    r: Result<T, Error>,
)
    requires
        v.inv(),
        v.conformant(),
        spec_versioned_bytes(v, compact).len() <= limit,
        spec_deserialize_outcome::<T>(spec_versioned_bytes(v, compact), limit, conformance, r),
    ensures
        r is Ok,
        r->Ok_0.equiv(&v),
        r->Ok_0.conformant(),
{
    let bytes = spec_versioned_bytes(v, compact);
    T::lemma_version_count_positive();
    let tag = (T::spec_version_count() - 1) as u64;
    let ws0 = seq![tag] + v.spec_payload(compact);
    assert(spec_words_to_bytes(ws0) == bytes);
    let ws = choose|ws: Seq<u64>| spec_words_to_bytes(ws) == bytes;
    lemma_words_to_bytes_injective(ws, ws0);
    assert(ws.len() >= 1);
    assert(ws[0] == tag);
    assert(ws.drop_first() =~= v.spec_payload(compact));
    T::lemma_self_decodes(&v, compact);
    assert(spec_decode_ok::<T>(tag, ws.drop_first()));
    match r {
        Ok(w) => {
            T::lemma_decoded_unique(tag, ws.drop_first(), w, v);
            assert(w.equiv(&v));
        },
        Err(e) => {
            assert(T::spec_decoded(tag, ws.drop_first(), v));
            assert(false);
        },
    }
}

} // verus!
