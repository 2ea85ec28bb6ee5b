use vstd::prelude::*;

verus! {

/// Every way an operation of this crate can fail.
///
/// Decryption reports tag-verification failure, a wrong password, truncated
/// fields and corrupted ciphertext all as the one undifferentiated
/// `DecryptionFailed`, so that the error channel does not reveal which part
/// of the input was at fault.
#[derive(Clone, Copy, Debug, PartialEq, Eq, Structural)]
pub enum CryptoError {
    /// The envelope does not split into exactly three fields.
    InvalidFormat,
    /// The salt field is not valid hex.
    InvalidSaltHex,
    /// The nonce field is not valid hex.
    InvalidNonceHex,
    /// The ciphertext field is not valid hex.
    InvalidCiphertextHex,
    /// Authenticated decryption failed (wrong password, tampering, or
    /// fields of impossible length).
    DecryptionFailed,
    /// The decrypted bytes are not valid UTF-8 text.
    InvalidUtf8,
    /// The cipher refused to encrypt (plaintext beyond its length limit).
    EncryptionFailed,
}

impl CryptoError {
    /// A fixed description of the error, phrased from the decrypting
    /// caller's point of view.
    pub fn message(&self) -> (r: &'static str)
        ensures
            *self is InvalidFormat ==> r@ == "Invalid encrypted data format"@,
            *self is InvalidSaltHex ==> r@ == "Decryption error: Invalid salt format"@,
            *self is InvalidNonceHex ==> r@ == "Decryption error: Invalid nonce format"@,
            *self is InvalidCiphertextHex ==> r@ == "Decryption error: Invalid encrypted data format"@,
            *self is DecryptionFailed ==> r@ == "Decryption error: Failed to decrypt"@,
            *self is InvalidUtf8 ==> r@ == "Decryption error: Invalid UTF-8 data"@,
            *self is EncryptionFailed ==> r@ == "Encryption error"@,
    {
        match self {
            CryptoError::InvalidFormat => "Invalid encrypted data format",
            CryptoError::InvalidSaltHex => "Decryption error: Invalid salt format",
            CryptoError::InvalidNonceHex => "Decryption error: Invalid nonce format",
            CryptoError::InvalidCiphertextHex => "Decryption error: Invalid encrypted data format",
            CryptoError::DecryptionFailed => "Decryption error: Failed to decrypt",
            CryptoError::InvalidUtf8 => "Decryption error: Invalid UTF-8 data",
            CryptoError::EncryptionFailed => "Encryption error",
        }
    }
}

} // verus!
