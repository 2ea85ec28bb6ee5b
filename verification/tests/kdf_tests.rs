use argon2::{Algorithm, Argon2, Params, Version};
use pwcrypt::{derive_key, derive_salt_from_password};

#[test]
fn salt_is_deterministic() {
    let a = derive_salt_from_password("a shared password");
    let b = derive_salt_from_password("a shared password");
    assert_eq!(a, b);
}

#[test]
fn different_passwords_give_different_salts() {
    let a = derive_salt_from_password("password one");
    let b = derive_salt_from_password("password two");
    assert_ne!(a, b);
}

#[test]
fn salt_matches_sha3_512_prefix() {
    // The first 16 bytes of the SHA3-512 digest of the empty string.
    let expected: [u8; 16] = [
        0xa6, 0x9f, 0x73, 0xcc, 0xa2, 0x3a, 0x9a, 0xc5, 0xc8, 0xb5, 0x67, 0xdc, 0x18, 0x5a, 0x75,
        0x6e,
    ];
    assert_eq!(derive_salt_from_password(""), expected);
}

#[test]
fn key_is_deterministic() {
    let salt = [1u8; 16];
    let a = derive_key("password", &salt);
    let b = derive_key("password", &salt);
    assert_eq!(a, b);
}

#[test]
fn key_depends_on_password_and_salt() {
    let salt = [1u8; 16];
    let other_salt = [2u8; 16];
    let base = derive_key("password", &salt);
    assert_ne!(base, derive_key("other password", &salt));
    assert_ne!(base, derive_key("password", &other_salt));
}

#[test]
fn key_matches_argon2_crate() {
    let salt = [3u8; 16];
    let params = Params::new(19456, 2, 1, Some(32)).unwrap();
    let argon2 = Argon2::new(Algorithm::Argon2id, Version::V0x13, params);
    let mut expected = [0u8; 32];
    argon2.hash_password_into(b"password", &salt, &mut expected).unwrap();
    assert_eq!(derive_key("password", &salt), expected);
}

#[test]
fn eight_byte_salt_is_accepted() {
    let salt = [5u8; 8];
    let key = derive_key("password", &salt);
    assert_eq!(key.len(), 32);
}
