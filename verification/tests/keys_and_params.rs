//! Key plumbing: generation, raw parts, decompression, and parameter sets.

use fhe_pack::compression::{
    CompressedCompressionKey, CompressedDecompressionKey, CompressionPrivateKeys,
};
use fhe_pack::fft::{
    FourierGgswCiphertext, FourierGgswCiphertextVersioned, FourierGgswCiphertextVersionedOwned,
    FourierLweBootstrapKey, FourierLweBootstrapKeyVersionOwned,
    FourierLweBootstrapKeyVersioned, FourierLweBootstrapKeyVersionedOwned,
    FourierPolynomialList, FourierPolynomialListVersioned, FourierPolynomialListVersionedOwned,
    FourierSample, PolynomialSize,
};
use fhe_pack::keys::{
    ClientKey, CompressedServerKey, CoreClientKey, InternalServerKey, ServerKey,
};
use fhe_pack::parameters::{
    BlockParameters, Config, DecompositionBaseLog, DecompositionLevelCount, EncryptionKeyChoice,
    MessageModulus, Seed, ShortintKeySwitchingParameters,
};
use fhe_pack::zk::ZkComputeLoad;
use fhe_pack::Error;

fn config() -> Config {
    Config { inner: BlockParameters { message_modulus: MessageModulus(4) } }
}

#[test]
fn client_key_generation_is_seed_deterministic() {
    let cks1 = ClientKey::generate_with_seed(config(), Seed(125));
    let cks2 = ClientKey::generate(config());
    let cks3 = ClientKey::generate_with_seed(config(), Seed(125));
    assert_eq!(cks1.key, cks3.key);
    assert_ne!(cks1.key, CoreClientKey::new_with_seed(config().inner, Seed(126)));
    assert_eq!(cks2.key.parameters, config().inner);
    assert_eq!(cks1.message_modulus(), MessageModulus(4));
}

#[test]
fn client_key_raw_parts_round_trip() {
    let cks = ClientKey::generate_with_seed(config(), Seed(7));
    let (key, wopbs, compact, compression) = cks.into_raw_parts();
    assert!(wopbs.is_none());
    assert!(compact.is_none());
    assert!(compression.is_none());
    let rebuilt = ClientKey::from_raw_parts(key, wopbs, compact, compression);
    assert_eq!(rebuilt.key, key);
}

#[test]
fn server_key_raw_parts_round_trip() {
    let cks = ClientKey::generate(config());
    let sk = cks.generate_server_key();
    let (key, wopbs, cpk, ck, dk) = sk.into_raw_parts();
    assert!(wopbs.is_none());
    assert!(cpk.is_none());
    assert!(ck.is_none());
    assert!(dk.is_none());
    assert_eq!(key.message_modulus, MessageModulus(4));
    let rebuilt = ServerKey::from_raw_parts(key, wopbs, cpk, ck, dk);
    let (key2, _, _, _, _) = rebuilt.into_raw_parts();
    assert_eq!(key2, key);
}

#[test]
fn server_key_carries_compression_keys_of_the_ceremony() {
    let mut cks = ClientKey::generate_with_seed(config(), Seed(42));
    let core = cks.key;
    cks.compression_key = Some(core.new_compression_private_key(config().inner));
    let sk = cks.generate_server_key();
    let (_, _, _, ck, dk) = sk.into_raw_parts();
    assert_eq!(ck.unwrap().key_id, core.key_id);
    assert_eq!(dk.unwrap().key_id, core.key_id);
}

#[test]
fn compressed_server_key_decompresses_to_the_same_ceremony() {
    let mut cks = ClientKey::generate_with_seed(config(), Seed(11));
    cks.compression_key = Some(CompressionPrivateKeys {
        key_id: cks.key.key_id,
        params: config().inner,
    });
    let csk = cks.generate_compressed_server_key();
    let (key, cpk, cck, cdk) = csk.into_raw_parts();
    assert_eq!(key.key_id, cks.key.key_id);
    assert!(cpk.is_none());
    let cck = cck.unwrap();
    let cdk = cdk.unwrap();
    assert_eq!(cck.decompress().key_id, cks.key.key_id);
    assert_eq!(cdk.decompress().key_id, cks.key.key_id);

    let rebuilt = CompressedServerKey::from_raw_parts(key, cpk, Some(cck), Some(cdk));
    let sk = rebuilt.decompress();
    let (core, wopbs, _, ck, dk) = sk.into_raw_parts();
    assert_eq!(core.key_id, cks.key.key_id);
    assert!(wopbs.is_none());
    assert_eq!(ck.unwrap().key_id, cks.key.key_id);
    assert_eq!(dk.unwrap().key_id, cks.key.key_id);
}

#[test]
fn internal_server_key_wraps_the_cpu_key() {
    let cks = ClientKey::generate(config());
    let sk = cks.generate_server_key();
    let internal = InternalServerKey::from(sk);
    assert!(matches!(internal, InternalServerKey::Cpu(_)));
}

#[test]
fn compressed_key_seed_forms_expand_in_place() {
    let cck = CompressedCompressionKey { key_id: 3 };
    assert_eq!(cck.decompress().key_id, 3);
    let cdk = CompressedDecompressionKey { key_id: 3 };
    assert_eq!(cdk.decompress().key_id, 3);
}

#[test]
fn key_switching_parameters_hold_their_fields() {
    let p = ShortintKeySwitchingParameters::new(
        DecompositionBaseLog(3),
        DecompositionLevelCount(5),
        EncryptionKeyChoice::Small,
    );
    assert_eq!(p.ks_base_log, DecompositionBaseLog(3));
    assert_eq!(p.ks_level, DecompositionLevelCount(5));
    assert_eq!(p.destination_key, EncryptionKeyChoice::Small);
    assert_ne!(ZkComputeLoad::Proof, ZkComputeLoad::Verify);
}

#[test]
fn fourier_versioned_forms_round_trip() {
    let list = FourierPolynomialList {
        data: vec![FourierSample { re_bits: 1, im_bits: 2 }, FourierSample { re_bits: 3, im_bits: 4 }],
        polynomial_size: PolynomialSize(2),
    };
    let versioned = FourierPolynomialListVersionedOwned::from(list.clone());
    let back = FourierPolynomialList::from(versioned);
    assert_eq!(back, list);

    let key = FourierLweBootstrapKey {
        fourier: list.clone(),
        input_lwe_dimension: 1,
        glwe_size: 2,
        decomposition_level_count: 1,
    };
    let versioned = FourierLweBootstrapKeyVersionedOwned::from(key.clone());
    let back = FourierLweBootstrapKey::try_from_versioned(versioned).unwrap();
    assert_eq!(back, key);

    let ggsw = FourierGgswCiphertext {
        fourier: list,
        glwe_size: 2,
        decomposition_level_count: 1,
    };
    let versioned = FourierGgswCiphertextVersionedOwned::from(ggsw.clone());
    let back = FourierGgswCiphertext::try_from_versioned(versioned).unwrap();
    assert_eq!(back, ggsw);

    // The borrowed forms wrap without copying the caches.
    let FourierPolynomialListVersioned::V0(borrowed) =
        FourierPolynomialListVersioned::from(&key.fourier);
    assert_eq!(borrowed, &key.fourier);
    let FourierLweBootstrapKeyVersioned::V0(borrowed) =
        FourierLweBootstrapKeyVersioned::from(&key);
    assert_eq!(borrowed, &key);
    let FourierGgswCiphertextVersioned::V0(borrowed) =
        FourierGgswCiphertextVersioned::from(&ggsw);
    assert_eq!(borrowed, &ggsw);
}

#[test]
fn fourier_conversion_rejects_ragged_caches() {
    let ragged = FourierLweBootstrapKeyVersionedOwned::V0(FourierLweBootstrapKeyVersionOwned {
        fourier: FourierPolynomialList {
            data: vec![FourierSample { re_bits: 0, im_bits: 0 }],
            polynomial_size: PolynomialSize(2),
        },
        input_lwe_dimension: 1,
        glwe_size: 2,
        decomposition_level_count: 1,
    });
    let r = FourierLweBootstrapKey::try_from_versioned(ragged);
    assert_eq!(r, Err(Error::UnversionizeFailure));
}
