use vstd::prelude::*;

verus! {

/// The ways the sealing cipher can refuse a key, a message or a ciphertext.
#[derive(Clone, Copy, Debug, PartialEq, Eq)]
pub enum CryptoError {
    EncryptionFailed,
    EncryptionFailedRng,
    DecryptionFailed,
    DecryptionFailedCiphertextShort,
    InvalidPublicKeyBytes,
    InvalidSecretKeyBytes,
}

/// Errors of the controller.
///
/// The messages that the Kubernetes client, the serializer and the Vault client give
/// are kept as text.
#[derive(Debug, PartialEq, Eq)]
pub enum ControllerError {
    KubeError(String),
    SerializationError(String),
    VaultError(String),
    ArcanumError { reason: String },
    CryptoError(CryptoError),
    /// A text that should hold base64 does not.
    Base64Error,
    /// Bytes that should hold UTF-8 text do not.
    Utf8Error,
}

/// A [`ControllerError`] with its texts taken as character sequences.
pub enum ControllerErrorView {
    KubeError(Seq<char>),
    SerializationError(Seq<char>),
    VaultError(Seq<char>),
    ArcanumError { reason: Seq<char> },
    CryptoError(CryptoError),
    Base64Error,
    Utf8Error,
}

impl View for ControllerError {
    type V = ControllerErrorView;

    open spec fn view(&self) -> ControllerErrorView {
        match self {
            ControllerError::KubeError(m) => ControllerErrorView::KubeError(m@),
            ControllerError::SerializationError(m) => ControllerErrorView::SerializationError(m@),
            ControllerError::VaultError(m) => ControllerErrorView::VaultError(m@),
            ControllerError::ArcanumError { reason } => ControllerErrorView::ArcanumError { reason: reason@ },
            ControllerError::CryptoError(c) => ControllerErrorView::CryptoError(*c),
            ControllerError::Base64Error => ControllerErrorView::Base64Error,
            ControllerError::Utf8Error => ControllerErrorView::Utf8Error,
        }
    }
}

} // verus!
