//! Password-hardened authenticated encryption.
//!
//! The crate derives a symmetric key from a password with Argon2id, encrypts
//! text with ChaCha20-Poly1305, and serializes the result as a hex-encoded,
//! colon-delimited envelope `<salt_hex>:<nonce_hex>:<ciphertext_and_tag_hex>`.
//! It also offers a deterministic salt derived from a password and a one-way
//! combiner that folds two shared secrets into one.

pub mod aead;
pub mod codec;
pub mod combine;
pub mod digest;
pub mod envelope;
pub mod errors;
pub mod hex;
pub mod kdf;
pub mod text;

pub use codec::decrypt_data;
pub use codec::encrypt_data;
pub use combine::combine_shared_secrets;
pub use errors::CryptoError;
pub use kdf::derive_key;
pub use kdf::derive_salt_from_password;
