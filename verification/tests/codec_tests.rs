use chacha20poly1305::aead::Aead;
use chacha20poly1305::{ChaCha20Poly1305, Key, KeyInit, Nonce};
use pwcrypt::hex::{hex_decode, hex_encode};
use pwcrypt::{decrypt_data, encrypt_data, CryptoError};

fn hex_string(bytes: &[u8]) -> String {
    String::from_utf8(hex_encode(bytes)).unwrap()
}

#[test]
fn round_trip_hello_world() {
    let envelope = encrypt_data("hello world", "correct horse battery staple").unwrap();
    let plain = decrypt_data(&envelope, "correct horse battery staple").unwrap();
    assert_eq!(plain, "hello world");
    let err = decrypt_data(&envelope, "wrong password").unwrap_err();
    assert_eq!(err, CryptoError::DecryptionFailed);
}

#[test]
fn round_trip_empty_string() {
    let envelope = encrypt_data("", "pw").unwrap();
    let plain = decrypt_data(&envelope, "pw").unwrap();
    assert_eq!(plain, "");
}

#[test]
fn round_trip_multibyte() {
    let text = "héllo wörld — 日本語 ✓";
    let envelope = encrypt_data(text, "päss wörd ✓").unwrap();
    let plain = decrypt_data(&envelope, "päss wörd ✓").unwrap();
    assert_eq!(plain, text);
}

#[test]
fn wrong_password_fails() {
    let envelope = encrypt_data("attack at dawn", "alpha").unwrap();
    let err = decrypt_data(&envelope, "beta").unwrap_err();
    assert_eq!(err, CryptoError::DecryptionFailed);
}

#[test]
fn envelope_shape() {
    let envelope = encrypt_data("hello world", "pw").unwrap();
    let fields: Vec<&str> = envelope.split(':').collect();
    assert_eq!(fields.len(), 3);
    assert_eq!(fields[0].len(), 32);
    assert_eq!(fields[1].len(), 24);
    // 11 plaintext bytes plus the 16-byte tag, two digits per byte
    assert_eq!(fields[2].len(), 54);
    assert!(fields[2].len() >= 32);
    assert_eq!(fields[2].len() % 2, 0);
    for field in fields {
        assert!(field.chars().all(|c| c.is_ascii_hexdigit()));
    }
}

#[test]
fn encrypt_is_nondeterministic() {
    let a = encrypt_data("same text", "same password").unwrap();
    let b = encrypt_data("same text", "same password").unwrap();
    assert_ne!(a, b);
}

#[test]
fn tamper_detection() {
    let envelope = encrypt_data("hi", "pw").unwrap();
    let fields: Vec<&str> = envelope.split(':').collect();
    let ct = hex_decode(fields[2].as_bytes()).unwrap();
    for i in 0..ct.len() {
        let mut tampered = ct.clone();
        tampered[i] ^= 1 << (i % 8);
        let bad = format!("{}:{}:{}", fields[0], fields[1], hex_string(&tampered));
        let err = decrypt_data(&bad, "pw").unwrap_err();
        assert_eq!(err, CryptoError::DecryptionFailed);
    }
}

#[test]
fn tampered_salt_fails() {
    let envelope = encrypt_data("hi", "pw").unwrap();
    let fields: Vec<&str> = envelope.split(':').collect();
    let mut salt = hex_decode(fields[0].as_bytes()).unwrap();
    salt[0] ^= 0x80;
    let bad = format!("{}:{}:{}", hex_string(&salt), fields[1], fields[2]);
    let err = decrypt_data(&bad, "pw").unwrap_err();
    assert_eq!(err, CryptoError::DecryptionFailed);
}

#[test]
fn malformed_two_fields() {
    let err = decrypt_data("abcd:ef01", "pw").unwrap_err();
    assert_eq!(err, CryptoError::InvalidFormat);
}

#[test]
fn malformed_field_counts() {
    assert_eq!(decrypt_data("", "pw").unwrap_err(), CryptoError::InvalidFormat);
    assert_eq!(decrypt_data("aabb", "pw").unwrap_err(), CryptoError::InvalidFormat);
    assert_eq!(decrypt_data("aa:bb:cc:dd", "pw").unwrap_err(), CryptoError::InvalidFormat);
}

#[test]
fn malformed_hex_fields() {
    assert_eq!(decrypt_data("zz:aabb:ccdd", "pw").unwrap_err(), CryptoError::InvalidSaltHex);
    assert_eq!(decrypt_data("aabb:g1:ccdd", "pw").unwrap_err(), CryptoError::InvalidNonceHex);
    assert_eq!(decrypt_data("aabb:ccdd:e", "pw").unwrap_err(), CryptoError::InvalidCiphertextHex);
}

#[test]
fn uppercase_hex_is_accepted_as_format() {
    // Uppercase digits pass the hex stage; the too-short salt then fails
    // as any undecryptable input does.
    let err = decrypt_data("AABB:CCDD:EEFF", "pw").unwrap_err();
    assert_eq!(err, CryptoError::DecryptionFailed);
}

#[test]
fn impossible_field_lengths() {
    let salt16 = "00112233445566778899aabbccddeeff";
    let nonce12 = "000102030405060708090a0b";
    // salt of two bytes: shorter than the KDF accepts
    assert_eq!(
        decrypt_data(&format!("aabb:{}:{}", nonce12, "00".repeat(16)), "pw").unwrap_err(),
        CryptoError::DecryptionFailed
    );
    // nonce of two bytes instead of twelve
    assert_eq!(
        decrypt_data(&format!("{}:aabb:{}", salt16, "00".repeat(16)), "pw").unwrap_err(),
        CryptoError::DecryptionFailed
    );
    // ciphertext shorter than the sixteen-byte tag
    assert_eq!(
        decrypt_data(&format!("{}:{}:00", salt16, nonce12), "pw").unwrap_err(),
        CryptoError::DecryptionFailed
    );
}

#[test]
fn interop_decrypt_with_cipher_crate() {
    // An envelope of this crate opens with the chacha20poly1305 crate
    // driven by derive_key: the envelope carries exactly what it states.
    let envelope = encrypt_data("interop check", "pw").unwrap();
    let fields: Vec<&str> = envelope.split(':').collect();
    let salt = hex_decode(fields[0].as_bytes()).unwrap();
    let nonce = hex_decode(fields[1].as_bytes()).unwrap();
    let ct = hex_decode(fields[2].as_bytes()).unwrap();
    let key = pwcrypt::derive_key("pw", &salt);
    let cipher = ChaCha20Poly1305::new(Key::from_slice(&key));
    let plain = cipher.decrypt(Nonce::from_slice(&nonce), ct.as_slice()).unwrap();
    assert_eq!(plain, b"interop check");
}

#[test]
fn invalid_utf8_plaintext_is_reported() {
    // Build an envelope around bytes that are no UTF-8 text, with the
    // cipher crate itself; decryption must report the encoding error,
    // not an authentication failure and no garbled text.
    let salt = [7u8; 16];
    let nonce = [9u8; 12];
    let key = pwcrypt::derive_key("pw", &salt);
    let cipher = ChaCha20Poly1305::new(Key::from_slice(&key));
    let ct = cipher.encrypt(Nonce::from_slice(&nonce), &[0xffu8, 0xfe, 0x00][..]).unwrap();
    let envelope = format!("{}:{}:{}", hex_string(&salt), hex_string(&nonce), hex_string(&ct));
    let err = decrypt_data(&envelope, "pw").unwrap_err();
    assert_eq!(err, CryptoError::InvalidUtf8);
}

#[test]
fn error_messages() {
    assert_eq!(CryptoError::InvalidFormat.message(), "Invalid encrypted data format");
    assert_eq!(CryptoError::DecryptionFailed.message(), "Decryption error: Failed to decrypt");
    assert_eq!(CryptoError::InvalidUtf8.message(), "Decryption error: Invalid UTF-8 data");
    assert_eq!(CryptoError::EncryptionFailed.message(), "Encryption error");
}
