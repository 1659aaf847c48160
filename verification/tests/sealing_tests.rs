use arcanum::error::{ControllerError, CryptoError};
use arcanum::sealing::{decrypt, SealingKey};

const KEY_1_TO_32: &str = "AQIDBAUGBwgJCgsMDQ4PEBESExQVFhcYGRobHB0eHyA=";
const ZERO_KEY: &str = "AAAAAAAAAAAAAAAAAAAAAAAAAAAAAAAAAAAAAAAAAAA=";

#[test]
fn key_is_read_from_base64() {
    let key = SealingKey::from_base64(KEY_1_TO_32).unwrap();
    assert_eq!(key.to_base64(), KEY_1_TO_32);
}

#[test]
fn key_that_is_not_base64_is_refused() {
    assert_eq!(SealingKey::from_base64("not base64!").err(), Some(ControllerError::Base64Error));
}

#[test]
fn key_of_wrong_length_is_refused() {
    // 31 bytes
    let short = "AAAAAAAAAAAAAAAAAAAAAAAAAAAAAAAAAAAAAAAAAA==";
    assert_eq!(
        SealingKey::from_base64(short).err(),
        Some(ControllerError::CryptoError(CryptoError::InvalidSecretKeyBytes))
    );
    // 16 bytes
    assert_eq!(
        SealingKey::from_base64("AAAAAAAAAAAAAAAAAAAAAA==").err(),
        Some(ControllerError::CryptoError(CryptoError::InvalidSecretKeyBytes))
    );
}

#[test]
fn public_key_of_zero_scalar_is_identity_point() {
    let key = SealingKey::from_base64(ZERO_KEY).unwrap();
    let mut expected = vec![0u8; 32];
    expected[0] = 1;
    assert_eq!(key.public_key(), expected);
    assert_eq!(key.encoded_public_key(), "AQAAAAAAAAAAAAAAAAAAAAAAAAAAAAAAAAAAAAAAAAA=");
}

#[test]
fn public_key_differs_from_secret_key() {
    let key = SealingKey::from_base64(KEY_1_TO_32).unwrap();
    let public = key.public_key();
    assert_eq!(public.len(), 32);
    assert_ne!(public, (1u8..=32).collect::<Vec<u8>>());
    assert_ne!(key.encoded_public_key(), KEY_1_TO_32);
}

#[test]
fn sealed_value_unseals_to_plaintext() {
    let key = SealingKey::from_base64(KEY_1_TO_32).unwrap();
    for plaintext in ["hello", "", "I 💖🔒", "a somewhat longer value with spaces"] {
        let sealed = key.seal(plaintext).unwrap();
        assert_ne!(sealed, plaintext);
        assert_eq!(key.unseal(&sealed).unwrap(), plaintext);
    }
}

#[test]
fn sealing_twice_gives_different_ciphertexts() {
    let key = SealingKey::from_base64(KEY_1_TO_32).unwrap();
    let a = key.seal("hello").unwrap();
    let b = key.seal("hello").unwrap();
    assert_ne!(a, b);
    assert_eq!(key.unseal(&a).unwrap(), "hello");
    assert_eq!(key.unseal(&b).unwrap(), "hello");
}

#[test]
fn sealed_value_does_not_unseal_under_another_key() {
    let key = SealingKey::from_base64(KEY_1_TO_32).unwrap();
    let other = SealingKey::from_base64(ZERO_KEY).unwrap();
    let sealed = key.seal("hello").unwrap();
    assert_eq!(
        other.unseal(&sealed).err(),
        Some(ControllerError::CryptoError(CryptoError::DecryptionFailed))
    );
}

#[test]
fn unseal_refuses_text_that_is_not_base64() {
    let key = SealingKey::from_base64(KEY_1_TO_32).unwrap();
    assert_eq!(key.unseal("%%%").err(), Some(ControllerError::Base64Error));
}

#[test]
fn unseal_refuses_short_ciphertexts() {
    let key = SealingKey::from_base64(KEY_1_TO_32).unwrap();
    // 16 bytes
    assert_eq!(
        key.unseal("AAAAAAAAAAAAAAAAAAAAAA==").err(),
        Some(ControllerError::CryptoError(CryptoError::DecryptionFailedCiphertextShort))
    );
    // 40 bytes: a key but no room for a nonce
    let forty = "AAAAAAAAAAAAAAAAAAAAAAAAAAAAAAAAAAAAAAAAAAAAAAAAAAAAAA==";
    assert_eq!(
        key.unseal(forty).err(),
        Some(ControllerError::CryptoError(CryptoError::DecryptionFailedCiphertextShort))
    );
}

#[test]
fn unseal_refuses_forged_ciphertext() {
    let key = SealingKey::from_base64(KEY_1_TO_32).unwrap();
    let forged = "AAAAAAAAAAAAAAAAAAAAAAAAAAAAAAAAAAAAAAAAAAAAAAAAAAAAAAAAAAAAAAAAAAAAAAAAAAAAAAAAAAAAAA==";
    assert!(matches!(
        key.unseal(forged),
        Err(ControllerError::CryptoError(
            CryptoError::DecryptionFailed | CryptoError::InvalidPublicKeyBytes
        ))
    ));
}

#[test]
fn decrypt_refuses_ciphertext_of_at_most_32_bytes() {
    let key = SealingKey::from_base64(KEY_1_TO_32).unwrap();
    let short = Some(ControllerError::CryptoError(CryptoError::DecryptionFailedCiphertextShort));
    assert_eq!(decrypt(&key, vec![0u8; 32]).err(), short);
    assert_eq!(decrypt(&key, Vec::new()).err(), short);
}

#[test]
fn generated_key_matches_its_public_key() {
    let (key, public) = SealingKey::generate();
    assert_eq!(key.public_key(), public);
    let again = SealingKey::from_base64(&key.to_base64()).unwrap();
    assert_eq!(again.public_key(), public);
    let sealed = again.seal("generated").unwrap();
    assert_eq!(key.unseal(&sealed).unwrap(), "generated");
}

#[test]
fn sealing_a_short_text_succeeds() {
    let key = SealingKey::from_base64(KEY_1_TO_32).unwrap();
    assert!(key.seal("a short value").is_ok());
}
