use vstd::prelude::*;

use crate::error::CryptoError;

verus! {

/// Length in bytes of a secret key, and of a public key.
pub const KEY_LENGTH: usize = 32;

/// The public key that belongs to a 32-byte secret key (what `PublicKey::from_secret` gives).
pub uninterp spec fn ecies_public_key(secret: Seq<u8>) -> Seq<u8>;

/// What `ecies_ed25519::decrypt` gives for a 32-byte secret key and a ciphertext: the
/// message, or the kind of error with which it refuses the ciphertext.
pub uninterp spec fn ecies_decryption(secret: Seq<u8>, ciphertext: Seq<u8>) -> Result<Seq<u8>, CryptoError>;

/// Every holder of a secret key whose public key is `public` decrypts `ciphertext` to `message`.
pub open spec fn encrypts_to(public: Seq<u8>, ciphertext: Seq<u8>, message: Seq<u8>) -> bool {
    forall|secret: Seq<u8>|
        #![trigger ecies_decryption(secret, ciphertext)]
        secret.len() == KEY_LENGTH && ecies_public_key(secret) == public
            ==> ecies_decryption(secret, ciphertext) == Ok::<Seq<u8>, CryptoError>(message)
}

/// The longest plaintext, in bytes, that AES-GCM encrypts.
pub const AES_GCM_MAX_PLAINTEXT: u64 = 0x10_0000_0000;

/// Ciphertext lengths that the cipher answers without panicking: it slices a nonce out of
/// whatever follows the first 32 bytes, so 33 to 43 bytes are out.
pub open spec fn cipher_accepts_length(len: int) -> bool {
    len <= 32 || len >= 44
}

/// Calls `PublicKey::from_secret` on the key that `SecretKey::from_bytes` makes of `secret`.
///
/// Trusted: `from_bytes` refuses exactly the slices that are not 32 bytes long, with
/// `InvalidSecretKeyBytes`; the public key is then `ecies_public_key` of the secret, 32
/// bytes long.
#[verifier::external_body]
pub(crate) fn derive_public_key(secret: &[u8]) -> (r: Result<Vec<u8>, CryptoError>)
    ensures
        r is Ok <==> secret@.len() == KEY_LENGTH,
        r matches Err(kind) ==> kind is InvalidSecretKeyBytes,
        r matches Ok(public) ==> public@ == ecies_public_key(secret@) && public@.len()
            == KEY_LENGTH,
{
    match ecies_ed25519::SecretKey::from_bytes(secret) {
        Ok(key) => Ok(ecies_ed25519::PublicKey::from_secret(&key).to_bytes().to_vec()),
        Err(_) => Err(CryptoError::InvalidSecretKeyBytes),
    }
}

/// Calls `ecies_ed25519::decrypt` with the key that `SecretKey::from_bytes` makes of `secret`,
/// and tells the variants of its error apart.
///
/// Trusted: the outcome is `ecies_decryption` of key and ciphertext. As the source shows, a
/// ciphertext of at most 32 bytes is refused as too short, and the only other refusals are
/// an ephemeral key that is no curve point and a failed authenticated decryption. The
/// cipher panics on 33 to 43 bytes, which `requires` rules out.
#[verifier::external_body]
pub(crate) fn ecies_decrypt(secret: &[u8], ciphertext: &[u8]) -> (r: Result<Vec<u8>, CryptoError>)
    requires
        secret@.len() == KEY_LENGTH,
        cipher_accepts_length(ciphertext@.len() as int),
    ensures
        match r {
            Ok(message) => ecies_decryption(secret@, ciphertext@) == Ok::<Seq<u8>, CryptoError>(message@),
            Err(e) => ecies_decryption(secret@, ciphertext@) == Err::<Seq<u8>, CryptoError>(e),
        },
        ciphertext@.len() <= 32 ==> r matches Err(CryptoError::DecryptionFailedCiphertextShort),
        r matches Err(e) ==> e is DecryptionFailedCiphertextShort || e is InvalidPublicKeyBytes
            || e is DecryptionFailed,
{
    let key = match ecies_ed25519::SecretKey::from_bytes(secret) {
        Ok(key) => key,
        Err(_) => return Err(CryptoError::InvalidSecretKeyBytes),
    };
    match ecies_ed25519::decrypt(&key, ciphertext) {
        Ok(message) => Ok(message),
        Err(ecies_ed25519::Error::EncryptionFailed) => Err(CryptoError::EncryptionFailed),
        Err(ecies_ed25519::Error::EncryptionFailedRng) => Err(CryptoError::EncryptionFailedRng),
        Err(ecies_ed25519::Error::DecryptionFailed) => Err(CryptoError::DecryptionFailed),
        Err(ecies_ed25519::Error::DecryptionFailedCiphertextShort) => Err(CryptoError::DecryptionFailedCiphertextShort),
        Err(ecies_ed25519::Error::InvalidPublicKeyBytes) => Err(CryptoError::InvalidPublicKeyBytes),
        Err(ecies_ed25519::Error::InvalidSecretKeyBytes) => Err(CryptoError::InvalidSecretKeyBytes),
    }
}

/// Calls `ecies_ed25519::encrypt` with the operating system's random source, on the key
/// that `PublicKey::from_bytes` makes of `public`, and tells the variants of its error apart.
///
/// Trusted: a key that is not 32 bytes is refused with `InvalidPublicKeyBytes`; the other
/// refusals are a key that is no curve point and a failure of the random source or of the
/// AES-GCM encryption. The public key of a secret key is always a curve point (it is the
/// compression of a multiple of the base point), and AES-GCM refuses only plaintexts of
/// more than 2^36 bytes, so for such a key and message only the random source can fail. A ciphertext that comes back is the 32-byte ephemeral key, a 12-byte
/// nonce and the AES-GCM output with its 16-byte tag, and every holder of a matching secret
/// key decrypts it to the message (the scheme's correctness, which the crate documents and
/// tests). Which ciphertext comes back depends on chance. Not stated: which points
/// `from_bytes` refuses, and that the random source panics if the operating system cannot
/// supply bytes.
#[verifier::external_body]
pub(crate) fn ecies_encrypt(public: &[u8], message: &[u8]) -> (r: Result<Vec<u8>, CryptoError>)
    ensures
        public@.len() != KEY_LENGTH ==> r matches Err(CryptoError::InvalidPublicKeyBytes),
        r matches Err(e) ==> e is InvalidPublicKeyBytes || e is EncryptionFailed
            || e is EncryptionFailedRng,
        (exists|secret: Seq<u8>|
            #![trigger ecies_public_key(secret)]
            secret.len() == KEY_LENGTH && ecies_public_key(secret) == public@) ==> (r matches Err(
            kind,
        ) ==> !(kind is InvalidPublicKeyBytes)),
        message@.len() <= AES_GCM_MAX_PLAINTEXT ==> (r matches Err(kind) ==> !(
        kind is EncryptionFailed)),
        r matches Ok(ciphertext) ==> ciphertext@.len() == message@.len() + 60 && encrypts_to(
            public@,
            ciphertext@,
            message@,
        ),
{
    let key = match ecies_ed25519::PublicKey::from_bytes(public) {
        Ok(key) => key,
        Err(_) => return Err(CryptoError::InvalidPublicKeyBytes),
    };
    match ecies_ed25519::encrypt(&key, message, &mut rand_core::OsRng) {
        Ok(ciphertext) => Ok(ciphertext),
        Err(ecies_ed25519::Error::EncryptionFailed) => Err(CryptoError::EncryptionFailed),
        Err(ecies_ed25519::Error::EncryptionFailedRng) => Err(CryptoError::EncryptionFailedRng),
        Err(ecies_ed25519::Error::DecryptionFailed) => Err(CryptoError::DecryptionFailed),
        Err(ecies_ed25519::Error::DecryptionFailedCiphertextShort) => Err(CryptoError::DecryptionFailedCiphertextShort),
        Err(ecies_ed25519::Error::InvalidPublicKeyBytes) => Err(CryptoError::InvalidPublicKeyBytes),
        Err(ecies_ed25519::Error::InvalidSecretKeyBytes) => Err(CryptoError::InvalidSecretKeyBytes),
    }
}

/// Calls `ecies_ed25519::generate_keypair` with the operating system's random source.
///
/// Trusted: the secret key is 32 random bytes and the public key is the one that belongs
/// to it. Not stated: that the random source panics if the operating system cannot supply
/// bytes.
#[verifier::external_body]
pub(crate) fn ecies_generate_keypair() -> (r: (Vec<u8>, Vec<u8>))
    ensures
        r.0@.len() == KEY_LENGTH,
        r.1@ == ecies_public_key(r.0@),
{
    let (secret, public) = ecies_ed25519::generate_keypair(&mut rand_core::OsRng);
    (secret.to_bytes().to_vec(), public.to_bytes().to_vec())
}

} // verus!
