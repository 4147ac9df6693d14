//! The versioned, size-bounded serialization framework.

use fhe_pack::ciphertext::DataKind;
use fhe_pack::keys::CoreClientKey;
use fhe_pack::list::{CompressedCiphertextList, CompressedCiphertextListBuilder};
use fhe_pack::parameters::{BlockParameters, Config, MessageModulus};
use fhe_pack::safe_serialization::{DeserializationConfig, SerializationConfig};
use fhe_pack::zk::{CompactPkeCrs, CompactPkePublicParams};
use fhe_pack::Error;

fn params() -> BlockParameters {
    BlockParameters { message_modulus: MessageModulus(4) }
}

fn bytes_of_words(words: &[u64]) -> Vec<u8> {
    let mut out = Vec::new();
    for w in words {
        out.extend_from_slice(&w.to_le_bytes());
    }
    out
}

fn sample_list() -> (CoreClientKey, CompressedCiphertextList) {
    let cks = CoreClientKey::new(params());
    let private = cks.new_compression_private_key(params());
    let (ck, _dk) = cks.new_compression_decompression_keys(&private);
    let mut builder = CompressedCiphertextListBuilder::new();
    builder.push(cks.encrypt_bool(true));
    builder.push(cks.encrypt_radix(46, 3));
    let list = builder.build(&ck);
    (cks, list)
}

#[test]
fn list_round_trips_through_the_framework() {
    let (_cks, list) = sample_list();
    let bytes = SerializationConfig::new(10_000)
        .serialize_into(&list, false)
        .unwrap();
    let back: CompressedCiphertextList = DeserializationConfig::new(10_000)
        .deserialize_from(&bytes)
        .unwrap();
    assert_eq!(back, list);
}

#[test]
fn params_round_trip_compact_and_canonical() {
    let crs = CompactPkeCrs::from_config(Config { inner: params() }, 6).unwrap();
    let p = crs.public_params();

    let canonical = SerializationConfig::new(10_000)
        .serialize_into(&p, false)
        .unwrap();
    let compact = SerializationConfig::new(10_000)
        .serialize_into(&p, true)
        .unwrap();
    // The compact encoding drops the recomputable half.
    assert!(compact.len() < canonical.len());

    let from_canonical: CompactPkePublicParams = DeserializationConfig::new(10_000)
        .deserialize_from(&canonical)
        .unwrap();
    let from_compact: CompactPkePublicParams = DeserializationConfig::new(10_000)
        .deserialize_from(&compact)
        .unwrap();
    assert_eq!(from_canonical, p);
    // Compact bytes decode to a value indistinguishable from the
    // canonical decode of the same object.
    assert_eq!(from_compact, from_canonical);
}

#[test]
fn size_limit_bounds_encoding_and_decoding() {
    let (_cks, list) = sample_list();
    let r = SerializationConfig::new(8).serialize_into(&list, false);
    assert_eq!(r, Err(Error::SizeLimitExceeded));

    let bytes = SerializationConfig::new(10_000)
        .serialize_into(&list, false)
        .unwrap();
    let r: Result<CompressedCiphertextList, Error> =
        DeserializationConfig::new(bytes.len() as u64 - 1).deserialize_from(&bytes);
    assert_eq!(r, Err(Error::SizeLimitExceeded));
    let ok: Result<CompressedCiphertextList, Error> =
        DeserializationConfig::new(bytes.len() as u64).deserialize_from(&bytes);
    assert!(ok.is_ok());
}

#[test]
fn older_format_bytes_decode_into_the_current_shape() {
    // Version tag 0: ceremony, block count, entry count, one bare digit,
    // then the kind words of a single boolean entry.
    let bytes = bytes_of_words(&[0, 0, 1, 1, 1, 0, 1]);
    let decoded: CompressedCiphertextList = DeserializationConfig::new(10_000)
        .deserialize_from(&bytes)
        .unwrap();

    let cks = CoreClientKey::new(params());
    let private = cks.new_compression_private_key(params());
    let (ck, dk) = cks.new_compression_decompression_keys(&private);
    let mut builder = CompressedCiphertextListBuilder::new();
    builder.push(cks.encrypt_bool(true));
    let expected = builder.build(&ck);

    assert_eq!(decoded, expected);
    let got: fhe_pack::ciphertext::BooleanBlock = decoded.get(0, &dk).unwrap().unwrap();
    assert!(cks.decrypt_bool(&got));
}

#[test]
fn unknown_version_tags_are_rejected() {
    let bytes = bytes_of_words(&[9, 0, 0, 0]);
    let r: Result<CompressedCiphertextList, Error> =
        DeserializationConfig::new(10_000).deserialize_from(&bytes);
    assert_eq!(r, Err(Error::UnknownVersion));
}

#[test]
fn malformed_payloads_are_rejected() {
    // Not a whole number of words.
    let r: Result<CompressedCiphertextList, Error> =
        DeserializationConfig::new(10_000).deserialize_from(&[1, 2, 3]);
    assert_eq!(r, Err(Error::MalformedPayload));

    // No version tag at all.
    let r: Result<CompressedCiphertextList, Error> =
        DeserializationConfig::new(10_000).deserialize_from(&[]);
    assert_eq!(r, Err(Error::MalformedPayload));

    // A block count the payload does not honour.
    let bytes = bytes_of_words(&[1, 0, 5, 1, 1]);
    let r: Result<CompressedCiphertextList, Error> =
        DeserializationConfig::new(10_000).deserialize_from(&bytes);
    assert_eq!(r, Err(Error::MalformedPayload));

    // A kind word no kind writes.
    let bytes = bytes_of_words(&[1, 0, 1, 1, 1, 1, 7, 1]);
    let r: Result<CompressedCiphertextList, Error> =
        DeserializationConfig::new(10_000).deserialize_from(&bytes);
    assert_eq!(r, Err(Error::MalformedPayload));
}

#[test]
fn conformance_catches_inconsistent_totals() {
    // One packed block, but a kind claiming three: byte-level sound,
    // domain-invalid.
    let bytes = bytes_of_words(&[1, 0, 1, 1, 7, 0, 1, 3]);
    let checked: Result<CompressedCiphertextList, Error> =
        DeserializationConfig::new(10_000).deserialize_from(&bytes);
    assert_eq!(checked, Err(Error::ConformanceFailure));

    let unchecked: CompressedCiphertextList = DeserializationConfig::new(10_000)
        .disable_conformance()
        .deserialize_from(&bytes)
        .unwrap();
    assert_eq!(unchecked.len(), 1);
    assert_eq!(unchecked.get_kind_of(0), Some(DataKind::Unsigned(3)));

    // Its block range runs past the blob: the lookup propagates the
    // capability failure instead of fabricating blocks.
    let cks = CoreClientKey::new(params());
    let private = cks.new_compression_private_key(params());
    let (_ck, dk) = cks.new_compression_decompression_keys(&private);
    let r: Result<Option<fhe_pack::ciphertext::RadixCiphertext>, Error> =
        unchecked.get(0, &dk);
    assert_eq!(r, Err(Error::CapabilityFailure));
}

#[test]
fn raw_params_codec_validates_on_request() {
    let crs = CompactPkeCrs::from_parameters(params(), 4).unwrap();
    let p = crs.public_params();

    let canonical = p.serialize(false);
    let back = CompactPkePublicParams::deserialize(&canonical, false, true).unwrap();
    assert_eq!(back, p);

    let compact = p.serialize(true);
    let back = CompactPkePublicParams::deserialize(&compact, true, true).unwrap();
    assert_eq!(back, p);

    // Declaring the wrong layout is malformed input.
    let r = CompactPkePublicParams::deserialize(&canonical, true, true);
    assert_eq!(r, Err(Error::MalformedPayload));

    // Tampering with a completion word passes without validation and
    // fails with it.
    let mut tampered = canonical.clone();
    let last = tampered.len() - 1;
    tampered[last] ^= 0xff;
    let lax = CompactPkePublicParams::deserialize(&tampered, false, false).unwrap();
    assert_ne!(lax, p);
    let strict = CompactPkePublicParams::deserialize(&tampered, false, true);
    assert_eq!(strict, Err(Error::ConformanceFailure));
}

#[test]
fn safe_params_codec_skips_conformance_for_later_validation() {
    let crs = CompactPkeCrs::from_config(Config { inner: params() }, 3).unwrap();
    let p = crs.public_params();
    let bytes = p.safe_serialize(false, 10_000).unwrap();
    let back = CompactPkePublicParams::safe_deserialize(&bytes, 10_000).unwrap();
    assert_eq!(back, p);
    let r = p.safe_serialize(false, 4);
    assert_eq!(r, Err(Error::SizeLimitExceeded));
}

#[test]
fn crs_generation_needs_a_nonzero_size() {
    let r = CompactPkeCrs::from_config(Config { inner: params() }, 0);
    assert_eq!(r, Err(Error::CapabilityFailure));
    let crs = CompactPkeCrs::from_config(Config { inner: params() }, 5).unwrap();
    let p = crs.public_params();
    assert_eq!(p.base.len(), 5);
    assert_eq!(p.completion.len(), 5);
}
