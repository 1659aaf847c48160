use vstd::prelude::*;
use vstd::utf8::*;

use crate::encoding::{
    base64_decode, base64_decoding, base64_encode, base64_encoding, decodable_length,
    encodable_length, string_from_utf8, utf8_bytes,
};
use crate::cipher::{
    cipher_accepts_length, derive_public_key, AES_GCM_MAX_PLAINTEXT, ecies_decrypt, ecies_decryption,
    ecies_encrypt, ecies_generate_keypair, ecies_public_key, encrypts_to, KEY_LENGTH,
};
use crate::error::{CryptoError, ControllerError, ControllerErrorView};
use crate::resource::{keys_distinct, text_entries_view};
use crate::vault::{vault_entries_view, VaultValue};

verus! {

broadcast use {vstd::utf8::encode_utf8_valid_utf8, vstd::utf8::encode_utf8_decode_utf8};

/// The secret key that some bytes make, or why they make none: a key is exactly 32 bytes.
pub open spec fn secret_key_from_bytes(bytes: Seq<u8>) -> Result<Seq<u8>, ControllerErrorView> {
    if bytes.len() == KEY_LENGTH {
        Ok(bytes)
    } else {
        Err(ControllerErrorView::CryptoError(CryptoError::InvalidSecretKeyBytes))
    }
}

/// The secret key that a base64 text holds, or why it holds none.
pub open spec fn secret_key_from_text(text: Seq<char>) -> Result<Seq<u8>, ControllerErrorView> {
    match base64_decoding(text) {
        None => Err(ControllerErrorView::Base64Error),
        Some(bytes) => secret_key_from_bytes(bytes),
    }
}

/// The text that decrypted bytes hold, or why they hold none.
pub open spec fn plaintext_of_message(message: Seq<u8>) -> Result<Seq<char>, ControllerErrorView> {
    if valid_utf8(message) {
        Ok(decode_utf8(message))
    } else {
        Err(ControllerErrorView::Utf8Error)
    }
}

/// What opening a ciphertext under a secret key gives: the plaintext, or the error. A
/// ciphertext of 33 to 43 bytes, on which the cipher would panic, is refused as too short.
pub open spec fn opening(secret: Seq<u8>, ciphertext: Seq<u8>) -> Result<Seq<char>, ControllerErrorView> {
    if !cipher_accepts_length(ciphertext.len() as int) {
        Err(ControllerErrorView::CryptoError(CryptoError::DecryptionFailedCiphertextShort))
    } else {
        match ecies_decryption(secret, ciphertext) {
            Err(kind) => Err(ControllerErrorView::CryptoError(kind)),
            Ok(message) => plaintext_of_message(message),
        }
    }
}

/// What unsealing a sealed value (base64 of a ciphertext) under a secret key gives.
pub open spec fn unsealing(secret: Seq<u8>, text: Seq<char>) -> Result<Seq<char>, ControllerErrorView> {
    match base64_decoding(text) {
        None => Err(ControllerErrorView::Base64Error),
        Some(ciphertext) => opening(secret, ciphertext),
    }
}

/// The plaintext that a sealed value opens to under a secret key, if any.
pub open spec fn unsealed(secret: Seq<u8>, text: Seq<char>) -> Option<Seq<char>> {
    match unsealing(secret, text) {
        Ok(plaintext) => Some(plaintext),
        Err(_) => None,
    }
}

/// `text` is a sealed value of `plaintext` for the holder of the secret key of `public`:
/// base64 of a ciphertext of the plaintext's UTF-8 bytes.
pub open spec fn sealed_for(public: Seq<u8>, plaintext: Seq<char>, text: Seq<char>) -> bool {
    exists|ciphertext: Seq<u8>|
        #![trigger encrypts_to(public, ciphertext, encode_utf8(plaintext))]
        base64_decoding(text) == Some(ciphertext) && ciphertext.len() == encode_utf8(plaintext).len()
            + 60 && encrypts_to(public, ciphertext, encode_utf8(plaintext))
}

/// A value sealed for the public key of a secret key opens, under that secret key, to the
/// plaintext it was sealed from.
pub proof fn lemma_unseal_inverts_seal(secret: Seq<u8>, plaintext: Seq<char>, text: Seq<char>)
    requires
        secret.len() == KEY_LENGTH,
        sealed_for(ecies_public_key(secret), plaintext, text),
    ensures
        unsealed(secret, text) == Some(plaintext),
{
    let ciphertext = choose|ciphertext: Seq<u8>|
        #![trigger encrypts_to(ecies_public_key(secret), ciphertext, encode_utf8(plaintext))]
        base64_decoding(text) == Some(ciphertext) && ciphertext.len() == encode_utf8(plaintext).len()
            + 60 && encrypts_to(ecies_public_key(secret), ciphertext, encode_utf8(plaintext));
    assert(ecies_decryption(secret, ciphertext) == Ok::<Seq<u8>, CryptoError>(encode_utf8(plaintext)));
}

/// A secret key of the sealing scheme, held as its 32 bytes.
pub struct SealingKey {
    secret: Vec<u8>,
}

impl View for SealingKey {
    type V = Seq<u8>;

    closed spec fn view(&self) -> Seq<u8> {
        self.secret@
    }
}

impl SealingKey {
    #[verifier::type_invariant]
    spec fn holds_whole_key(self) -> bool {
        self.secret@.len() == KEY_LENGTH
    }

    /// The key that some bytes make: they must be exactly 32 bytes.
    pub fn from_bytes(bytes: Vec<u8>) -> (r: Result<SealingKey, ControllerError>)
        ensures
            match (r, secret_key_from_bytes(bytes@)) {
                (Ok(key), Ok(expected)) => key@ == expected,
                (Err(e), Err(expected)) => e@ == expected,
                _ => false,
            },
    {
        if bytes.len() == KEY_LENGTH {
            Ok(SealingKey { secret: bytes })
        } else {
            Err(ControllerError::CryptoError(CryptoError::InvalidSecretKeyBytes))
        }
    }

    /// The key that a base64 text holds: the text must decode, to exactly 32 bytes.
    pub fn from_base64(text: &str) -> (r: Result<SealingKey, ControllerError>)
        requires
            decodable_length(text@),
        ensures
            match (r, secret_key_from_text(text@)) {
                (Ok(key), Ok(expected)) => key@ == expected,
                (Err(e), Err(expected)) => e@ == expected,
                _ => false,
            },
    {
        match base64_decode(text) {
            Err(_) => Err(ControllerError::Base64Error),
            Ok(bytes) => SealingKey::from_bytes(bytes),
        }
    }

    /// A fresh key from the operating system's random source, with its public key.
    pub fn generate() -> (r: (SealingKey, Vec<u8>))
        ensures
            r.0@.len() == KEY_LENGTH,
            r.1@ == ecies_public_key(r.0@),
    {
        let (secret, public) = ecies_generate_keypair();
        (SealingKey { secret }, public)
    }

    /// The key's base64 text; reading it back gives the same key.
    pub fn to_base64(&self) -> (r: String)
        ensures
            r@ == base64_encoding(self@),
            secret_key_from_text(r@) == Ok::<Seq<u8>, ControllerErrorView>(self@),
    {
        proof {
            use_type_invariant(self);
        }
        base64_encode(self.secret.as_slice())
    }

    /// The public key that belongs to this key.
    pub fn public_key(&self) -> (r: Vec<u8>)
        ensures
            r@ == ecies_public_key(self@),
            r@.len() == KEY_LENGTH,
    {
        proof {
            use_type_invariant(self);
        }
        match derive_public_key(self.secret.as_slice()) {
            Ok(public) => public,
            Err(_) => {
                proof {
                    assert(false);
                }
                Vec::new()
            },
        }
    }

    /// The base64 text of the public key that belongs to this key.
    pub fn encoded_public_key(&self) -> (r: String)
        ensures
            r@ == base64_encoding(ecies_public_key(self@)),
            base64_decoding(r@) == Some(ecies_public_key(self@)),
    {
        let public = self.public_key();
        base64_encode(public.as_slice())
    }

    /// Seals a plaintext for the holder of this key: encrypts its UTF-8 bytes to the public
    /// key that belongs to this key and gives the ciphertext in base64. What comes back
    /// opens, under this key, to the plaintext.
    pub fn seal(&self, plaintext: &str) -> (r: Result<String, ControllerError>)
        requires
            encode_utf8(plaintext@).len() <= usize::MAX / 2,
        ensures
            r matches Ok(text) ==> sealed_for(ecies_public_key(self@), plaintext@, text@)
                && unsealed(self@, text@) == Some(plaintext@),
            r matches Err(e) ==> e matches ControllerError::CryptoError(kind) && (
            kind is EncryptionFailed || kind is EncryptionFailedRng),
            encode_utf8(plaintext@).len() <= AES_GCM_MAX_PLAINTEXT ==> (r matches Err(e) ==> e
                == ControllerError::CryptoError(CryptoError::EncryptionFailedRng)),
    {
        proof {
            use_type_invariant(self);
        }
        let public = self.public_key();
        let message = utf8_bytes(plaintext);
        assert(ecies_public_key(self@) == public@);
        match ecies_encrypt(public.as_slice(), message.as_slice()) {
            Err(kind) => Err(ControllerError::CryptoError(kind)),
            Ok(ciphertext) => {
                let n: usize = ciphertext.len();
                assert(encodable_length(n as int)) by (nonlinear_arith)
                    requires
                        n <= usize::MAX / 2 + 60,
                ;
                let text = base64_encode(ciphertext.as_slice());
                proof {
                    assert(encrypts_to(ecies_public_key(self@), ciphertext@, encode_utf8(plaintext@)));
                    lemma_unseal_inverts_seal(self@, plaintext@, text@);
                }
                Ok(text)
            },
        }
    }

    /// Opens a ciphertext: decrypts it and reads the bytes as UTF-8. A ciphertext of 33 to 43
    /// bytes, which holds no room for a nonce and on which the cipher would panic, is
    /// refused as too short.
    pub fn open(&self, ciphertext: Vec<u8>) -> (r: Result<String, ControllerError>)
        ensures
            match (r, opening(self@, ciphertext@)) {
                (Ok(plaintext), Ok(expected)) => plaintext@ == expected,
                (Err(e), Err(expected)) => e@ == expected,
                _ => false,
            },
    {
        let n = ciphertext.len();
        if 32 < n && n < 44 {
            return Err(ControllerError::CryptoError(CryptoError::DecryptionFailedCiphertextShort));
        }
        match decrypt(self, ciphertext) {
            Err(e) => Err(e),
            Ok(message) => plaintext_from_message(message),
        }
    }

    /// Opens a sealed value: decodes the base64, then opens the ciphertext.
    pub fn unseal(&self, sealed: &str) -> (r: Result<String, ControllerError>)
        requires
            decodable_length(sealed@),
        ensures
            match (r, unsealing(self@, sealed@)) {
                (Ok(plaintext), Ok(expected)) => plaintext@ == expected,
                (Err(e), Err(expected)) => e@ == expected,
                _ => false,
            },
    {
        match base64_decode(sealed) {
            Err(_) => Err(ControllerError::Base64Error),
            Ok(ciphertext) => self.open(ciphertext),
        }
    }
}

/// The text that decrypted bytes hold: they must be UTF-8.
pub fn plaintext_from_message(message: Vec<u8>) -> (r: Result<String, ControllerError>)
    ensures
        match (r, plaintext_of_message(message@)) {
            (Ok(plaintext), Ok(expected)) => plaintext@ == expected,
            (Err(e), Err(expected)) => e@ == expected,
            _ => false,
        },
{
    match string_from_utf8(message) {
        Ok(plaintext) => Ok(plaintext),
        Err(_) => Err(ControllerError::Utf8Error),
    }
}

/// Decrypts a ciphertext with a secret key; a refusal is reported with the cipher's
/// kind of error.
pub fn decrypt(key: &SealingKey, data: Vec<u8>) -> (r: Result<Vec<u8>, ControllerError>)
    requires
        cipher_accepts_length(data@.len() as int),
    ensures
        match (r, ecies_decryption(key@, data@)) {
            (Ok(message), Ok(expected)) => message@ == expected,
            (Err(e), Err(kind)) => e@ == ControllerErrorView::CryptoError(kind),
            _ => false,
        },
        data@.len() <= 32 ==> r matches Err(
            ControllerError::CryptoError(CryptoError::DecryptionFailedCiphertextShort),
        ),
{
    proof {
        use_type_invariant(key);
    }
    match ecies_decrypt(key.secret.as_slice(), data.as_slice()) {
        Ok(message) => Ok(message),
        Err(kind) => Err(ControllerError::CryptoError(kind)),
    }
}

/// Every sealed value of the entries is short enough to decode (a machine limit).
pub open spec fn values_decodable(data: Seq<(Seq<char>, Seq<char>)>) -> bool {
    forall|i: int| 0 <= i < data.len() ==> decodable_length(#[trigger] data[i].1)
}

/// The entries with every sealed value opened under a secret key, or `None` where one of
/// them does not open.
pub open spec fn unsealed_entries(secret: Seq<u8>, data: Seq<(Seq<char>, Seq<char>)>) -> Option<
    Seq<(Seq<char>, Option<Seq<char>>)>,
> {
    if forall|i: int| 0 <= i < data.len() ==> (#[trigger] unsealed(secret, data[i].1)) is Some {
        Some(data.map_values(|e: (Seq<char>, Seq<char>)| (e.0, unsealed(secret, e.1))))
    } else {
        None
    }
}

/// The entries open exactly when every sealed value opens, and then each entry keeps its
/// key and holds the plaintext its value opens to; where a single value does not open,
/// nothing is opened.
pub proof fn lemma_unsealed_entries_all_or_nothing(secret: Seq<u8>, data: Seq<(Seq<char>, Seq<char>)>)
    ensures
        unsealed_entries(secret, data) is Some <==> forall|i: int|
            0 <= i < data.len() ==> (#[trigger] unsealed(secret, data[i].1)) is Some,
        unsealed_entries(secret, data) matches Some(entries) ==> entries.len() == data.len()
            && forall|i: int|
            0 <= i < data.len() ==> (#[trigger] entries[i]).0 == data[i].0 && entries[i].1 == unsealed(
                secret,
                data[i].1,
            ) && entries[i].1 is Some,
{
}

/// Opens every sealed value of the entries, each into a string value; `None` where one of
/// them does not open.
pub fn unseal_entries(key: &SealingKey, data: &Vec<(String, String)>) -> (r: Option<
    Vec<(String, VaultValue)>,
>)
    requires
        values_decodable(text_entries_view(data@)),
    ensures
        match (r, unsealed_entries(key@, text_entries_view(data@))) {
            (Some(entries), Some(expected)) => vault_entries_view(entries@) == expected,
            (None, None) => true,
            _ => false,
        },
        keys_distinct(text_entries_view(data@)) ==> (r matches Some(entries) ==> keys_distinct(vault_entries_view(entries@))),
        r matches Some(entries) ==> entries@.len() == data@.len() && forall|i: int|
            0 <= i < data@.len() ==> (#[trigger] entries@[i]).0@ == data@[i].0@ && (entries@[i].1
                matches VaultValue::Text(t) && unsealed(key@, data@[i].1@) == Some(t@)),
        r is None ==> exists|i: int|
            0 <= i < data@.len() && (#[trigger] unsealed(key@, data@[i].1@)) is None,
{
    proof {
        lemma_unsealed_entries_all_or_nothing(key@, text_entries_view(data@));
    }
    let ghost view = text_entries_view(data@);
    let mut entries: Vec<(String, VaultValue)> = Vec::new();
    let mut i: usize = 0;
    while i < data.len()
        invariant
            i <= data@.len(),
            view == text_entries_view(data@),
            values_decodable(view),
            entries@.len() == i,
            forall|j: int| 0 <= j < i ==> (#[trigger] unsealed(key@, view[j].1)) is Some,
            forall|j: int|
                0 <= j < i ==> (#[trigger] entries@[j]).0@ == view[j].0 && entries@[j].1
                    is Text && unsealed(key@, view[j].1) == Some(entries@[j].1->Text_0@),
        decreases data@.len() - i,
    {
        assert(decodable_length(view[i as int].1));
        match key.unseal(data[i].1.as_str()) {
            Ok(plaintext) => {
                entries.push((data[i].0.clone(), VaultValue::Text(plaintext)));
            },
            Err(_) => {
                assert(unsealed(key@, view[i as int].1) is None);
                return None;
            },
        }
        i = i + 1;
    }
    let ghost expected = unsealed_entries(key@, view)->0;
    assert(vault_entries_view(entries@) =~= expected);
    assert(keys_distinct(view) ==> keys_distinct(vault_entries_view(entries@))) by {
        if keys_distinct(view) {
            assert forall|a: int, b: int| 0 <= a < b < entries@.len() implies #[trigger] vault_entries_view(entries@)[a].0 != #[trigger] vault_entries_view(entries@)[b].0 by {
                assert(view[a].0 != view[b].0);
            }
        }
    }
    Some(entries)
}

} // verus!
