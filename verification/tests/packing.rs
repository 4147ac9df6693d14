//! The packing engine: builder, prefix-sum lookup, and its failure modes.

use fhe_pack::ciphertext::{BooleanBlock, DataKind, RadixCiphertext, SignedRadixCiphertext};
use fhe_pack::keys::CoreClientKey;
use fhe_pack::list::CompressedCiphertextListBuilder;
use fhe_pack::parameters::{BlockParameters, MessageModulus, Seed};
use fhe_pack::Error;

fn params() -> BlockParameters {
    BlockParameters { message_modulus: MessageModulus(4) }
}

#[test]
fn test_heterogeneous_ciphertext_compression_ci_run_filter() {
    let cks = CoreClientKey::new(params());

    let private_compression_key = cks.new_compression_private_key(params());

    let (compression_key, decompression_key) =
        cks.new_compression_decompression_keys(&private_compression_key);

    let ct1 = cks.encrypt_radix(3_u64, 16);

    let ct2 = cks.encrypt_signed_radix(-2, 16);

    let ct3 = cks.encrypt_bool(true);

    let mut builder = CompressedCiphertextListBuilder::new();
    builder.push(ct1);
    builder.push(ct2);
    builder.push(ct3);
    let compressed = builder.build(&compression_key);

    let decompressed1: RadixCiphertext = compressed.get(0, &decompression_key).unwrap().unwrap();

    let decrypted: u64 = cks.decrypt_radix(&decompressed1);

    assert_eq!(decrypted, 3_u64);

    let decompressed2: SignedRadixCiphertext =
        compressed.get(1, &decompression_key).unwrap().unwrap();

    let decrypted2: i64 = cks.decrypt_signed_radix(&decompressed2);

    assert_eq!(decrypted2, -2);

    let decompressed3: BooleanBlock = compressed.get(2, &decompression_key).unwrap().unwrap();

    assert!(cks.decrypt_bool(&decompressed3));
}

#[test]
fn scenario_boolean_unsigned_signed_kinds_and_lengths() {
    let cks = CoreClientKey::new(params());
    let private = cks.new_compression_private_key(params());
    let (ck, dk) = cks.new_compression_decompression_keys(&private);

    let mut builder = CompressedCiphertextListBuilder::new();
    builder.push(cks.encrypt_bool(true));
    builder.push(cks.encrypt_radix(2_712_346_551_u64, 16));
    builder.push(cks.encrypt_signed_radix(-987_654_321, 16));
    let list = builder.build(&ck);

    assert_eq!(list.len(), 3);
    assert!(!list.is_empty());
    assert_eq!(list.get_kind_of(0), Some(DataKind::Boolean));
    assert_eq!(list.get_kind_of(1), Some(DataKind::Unsigned(16)));
    assert_eq!(list.get_kind_of(2), Some(DataKind::Signed(16)));

    let unsigned: RadixCiphertext = list.get(1, &dk).unwrap().unwrap();
    assert_eq!(cks.decrypt_radix(&unsigned), 2_712_346_551_u64);
    let signed: SignedRadixCiphertext = list.get(2, &dk).unwrap().unwrap();
    assert_eq!(cks.decrypt_signed_radix(&signed), -987_654_321);
    let boolean: BooleanBlock = list.get(0, &dk).unwrap().unwrap();
    assert!(cks.decrypt_bool(&boolean));
}

#[test]
fn prefix_sum_reads_block_sixteen_not_block_zero() {
    let cks = CoreClientKey::new(params());
    let private = cks.new_compression_private_key(params());
    let (ck, dk) = cks.new_compression_decompression_keys(&private);

    // Entry 0 spans 16 blocks; entry 1 is a single block.  A lookup of
    // entry 1 must read absolute block 16, whose digit differs from every
    // digit a wrong offset would read.
    let filler = cks.encrypt_radix(0, 16);
    let marker = cks.encrypt_bool(true);

    let mut builder = CompressedCiphertextListBuilder::new();
    builder.push(filler);
    builder.push(marker);
    let list = builder.build(&ck);

    let got: BooleanBlock = list.get(1, &dk).unwrap().unwrap();
    assert!(cks.decrypt_bool(&got));
    assert_eq!(list.get_kind_of(1), Some(DataKind::Boolean));
}

#[test]
fn out_of_range_lookups_are_an_absence() {
    let cks = CoreClientKey::new(params());
    let private = cks.new_compression_private_key(params());
    let (ck, dk) = cks.new_compression_decompression_keys(&private);

    let empty = CompressedCiphertextListBuilder::new().build(&ck);
    assert_eq!(empty.len(), 0);
    assert!(empty.is_empty());
    assert_eq!(empty.get_kind_of(0), None);
    let r: Option<BooleanBlock> = empty.get(0, &dk).unwrap();
    assert!(r.is_none());

    let mut builder = CompressedCiphertextListBuilder::new();
    builder.push(cks.encrypt_bool(false));
    let one = builder.build(&ck);
    assert_eq!(one.get_kind_of(1), None);
    let r: Option<BooleanBlock> = one.get(1, &dk).unwrap();
    assert!(r.is_none());
}

#[test]
fn shape_mismatch_is_a_reconstruction_error() {
    let cks = CoreClientKey::new(params());
    let private = cks.new_compression_private_key(params());
    let (ck, dk) = cks.new_compression_decompression_keys(&private);

    let mut builder = CompressedCiphertextListBuilder::new();
    builder.push(cks.encrypt_radix(7, 16));
    let list = builder.build(&ck);

    let r: Result<Option<BooleanBlock>, Error> = list.get(0, &dk);
    assert_eq!(r, Err(Error::ReconstructionMismatch));
    let r: Result<Option<SignedRadixCiphertext>, Error> = list.get(0, &dk);
    assert_eq!(r, Err(Error::ReconstructionMismatch));
    let ok: Result<Option<RadixCiphertext>, Error> = list.get(0, &dk);
    assert!(ok.is_ok());
}

#[test]
fn mismatched_key_is_a_capability_failure() {
    let cks = CoreClientKey::new(params());
    let private = cks.new_compression_private_key(params());
    let (ck, _dk) = cks.new_compression_decompression_keys(&private);

    let other = CoreClientKey::new_with_seed(params(), Seed(125));
    let other_private = other.new_compression_private_key(params());
    let (_ck2, wrong_dk) = other.new_compression_decompression_keys(&other_private);

    let mut builder = CompressedCiphertextListBuilder::new();
    builder.push(cks.encrypt_bool(true));
    let list = builder.build(&ck);

    let r: Result<Option<BooleanBlock>, Error> = list.get(0, &wrong_dk);
    assert_eq!(r, Err(Error::CapabilityFailure));
}

#[test]
fn extend_preserves_push_order() {
    let cks = CoreClientKey::new(params());
    let private = cks.new_compression_private_key(params());
    let (ck, dk) = cks.new_compression_decompression_keys(&private);

    let values = vec![
        cks.encrypt_radix(11, 4),
        cks.encrypt_radix(22, 4),
        cks.encrypt_radix(33, 4),
    ];
    let mut builder = CompressedCiphertextListBuilder::new();
    builder.extend(values);
    let list = builder.build(&ck);

    assert_eq!(list.len(), 3);
    for (i, want) in [11_u64, 22, 33].into_iter().enumerate() {
        let ct: RadixCiphertext = list.get(i, &dk).unwrap().unwrap();
        assert_eq!(cks.decrypt_radix(&ct), want);
    }
}

#[test]
fn builder_is_reusable_after_build() {
    let cks = CoreClientKey::new(params());
    let private = cks.new_compression_private_key(params());
    let (ck, dk) = cks.new_compression_decompression_keys(&private);

    let mut builder = CompressedCiphertextListBuilder::new();
    builder.push(cks.encrypt_bool(true));
    let first = builder.build(&ck);
    builder.push(cks.encrypt_radix(9, 4));
    let second = builder.build(&ck);

    // The list built first never observes the later push.
    assert_eq!(first.len(), 1);
    assert_eq!(second.len(), 2);
    let ct: RadixCiphertext = second.get(1, &dk).unwrap().unwrap();
    assert_eq!(cks.decrypt_radix(&ct), 9);
}

#[test]
fn radix_encryption_wraps_and_signs_round_trip() {
    let cks = CoreClientKey::new(params());
    // 4^3 == 64: a value below the capacity comes back exactly.
    let ct = cks.encrypt_radix(63, 3);
    assert_eq!(cks.decrypt_radix(&ct), 63);
    // Above the capacity only the residue survives.
    let ct = cks.encrypt_radix(64 + 5, 3);
    assert_eq!(cks.decrypt_radix(&ct), 5);
    // Signed values cover the centered range, negatives included.
    for v in [-32_i64, -31, -1, 0, 1, 31] {
        let ct = cks.encrypt_signed_radix(v, 3);
        assert_eq!(cks.decrypt_signed_radix(&ct), v);
    }
}
