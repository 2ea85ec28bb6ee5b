use crate::aead::{
    aead_msg_len_ok, chacha20poly1305_seal, chacha_open, chacha_seal, fill_random, wipe_key,
};
use crate::envelope::{
    count_byte, envelope_bytes, lemma_envelope_parses, lemma_envelope_shape, split_bytes,
    split_on, COLON,
};
use crate::errors::CryptoError;
use crate::hex::{hex_decode, hex_decode_of, hex_encode, hex_of, is_hex_seq, lemma_hex_round_trip};
use crate::kdf::{argon2id_key_of, derive_key};
use crate::text::{append_bytes, bytes_to_string, lemma_ascii_bytes_valid_utf8};
use vstd::prelude::*;
use vstd::string::StringSliceAdditionalSpecFns;
use vstd::utf8::{decode_utf8, encode_utf8, valid_utf8};

verus! {

/// Whether `env` is an envelope that encrypts `plaintext` under
/// `password`: for some 16-byte salt and 12-byte nonce, its UTF-8 bytes
/// are the hex-and-colon serialization of that salt, that nonce and the
/// AEAD sealing of the plaintext under the key that Argon2id derives
/// from the password and that salt.
pub open spec fn encrypts(env: Seq<char>, plaintext: Seq<u8>, password: Seq<u8>) -> bool {
    exists|salt: Seq<u8>, nonce: Seq<u8>|
        salt.len() == 16 && nonce.len() == 12 && encode_utf8(env) == #[trigger] envelope_bytes(
            salt,
            nonce,
            chacha20poly1305_seal(argon2id_key_of(password, salt), nonce, plaintext),
        ) && chacha20poly1305_seal(argon2id_key_of(password, salt), nonce, plaintext).len()
            == plaintext.len() + 16
}

/// Round trip: whatever result decryption may return, per
/// [`decrypt_result_matches`], for an envelope that encrypts `plaintext`
/// under the same password, it is `Ok` and carries exactly `plaintext`.
pub proof fn lemma_round_trip(
    env: Seq<char>,
    plaintext: Seq<char>,
    password: Seq<u8>,
    r: Result<String, CryptoError>,
)
    requires
        aead_msg_len_ok(encode_utf8(plaintext).len()),
        encrypts(env, encode_utf8(plaintext), password),
        decrypt_result_matches(encode_utf8(env), password, r),
    ensures
        r is Ok,
        r->Ok_0@ == plaintext,
{
    let pt = encode_utf8(plaintext);
    let (salt, nonce) = choose|salt: Seq<u8>, nonce: Seq<u8>|
        salt.len() == 16 && nonce.len() == 12 && encode_utf8(env) == #[trigger] envelope_bytes(
            salt,
            nonce,
            chacha20poly1305_seal(argon2id_key_of(password, salt), nonce, pt),
        ) && chacha20poly1305_seal(argon2id_key_of(password, salt), nonce, pt).len() == pt.len()
            + 16;
    let key = argon2id_key_of(password, salt);
    let ct = chacha20poly1305_seal(key, nonce, pt);
    lemma_envelope_parses(salt, nonce, ct);
    let parts = split_bytes(encode_utf8(env), COLON);
    assert(parts =~= seq![hex_of(salt), hex_of(nonce), hex_of(ct)]);
    assert(hex_decode_of(parts[0]) == salt);
    assert(hex_decode_of(parts[1]) == nonce);
    assert(hex_decode_of(parts[2]) == ct);
    vstd::utf8::encode_utf8_valid_utf8(plaintext);
    vstd::utf8::encode_utf8_decode_utf8(plaintext);
    assert(aead_msg_len_ok(pt.len()) && ct == chacha20poly1305_seal(key, nonce, pt));
}

/// Envelope shape: every envelope that encrypts some plaintext has
/// exactly two `:` delimiters and three all-hex fields, of 32, 24 and at
/// least 32 digits, the last twice the ciphertext-and-tag length; its
/// character count is fixed by the plaintext's byte count.
pub proof fn lemma_encrypted_envelope_shape(env: Seq<char>, plaintext: Seq<u8>, password: Seq<u8>)
    requires
        encrypts(env, plaintext, password),
    ensures
        count_byte(encode_utf8(env), COLON) == 2,
        split_bytes(encode_utf8(env), COLON).len() == 3,
        split_bytes(encode_utf8(env), COLON)[0].len() == 32,
        split_bytes(encode_utf8(env), COLON)[1].len() == 24,
        split_bytes(encode_utf8(env), COLON)[2].len() == 32 + 2 * plaintext.len(),
        forall|f: Seq<u8>| split_bytes(encode_utf8(env), COLON).contains(f) ==> is_hex_seq(f),
        env.len() == 90 + 2 * plaintext.len(),
{
    let (salt, nonce) = choose|salt: Seq<u8>, nonce: Seq<u8>|
        salt.len() == 16 && nonce.len() == 12 && encode_utf8(env) == #[trigger] envelope_bytes(
            salt,
            nonce,
            chacha20poly1305_seal(argon2id_key_of(password, salt), nonce, plaintext),
        ) && chacha20poly1305_seal(argon2id_key_of(password, salt), nonce, plaintext).len()
            == plaintext.len() + 16;
    let ct = chacha20poly1305_seal(argon2id_key_of(password, salt), nonce, plaintext);
    lemma_envelope_shape(salt, nonce, ct);
    let e = envelope_bytes(salt, nonce, ct);
    lemma_hex_round_trip(salt);
    lemma_hex_round_trip(nonce);
    lemma_hex_round_trip(ct);
    assert forall|i: int| 0 <= i < e.len() implies #[trigger] e[i] < 0x80 by {
        if i < 32 {
            assert(e[i] == hex_of(salt)[i]);
        } else if i == 32 {
            assert(e[i] == COLON);
        } else if i < 57 {
            assert(e[i] == hex_of(nonce)[i - 33]);
        } else if i == 57 {
            assert(e[i] == COLON);
        } else {
            assert(e[i] == hex_of(ct)[i - 58]);
        }
    }
    lemma_ascii_bytes_valid_utf8(e);
    vstd::utf8::encode_utf8_decode_utf8(env);
}

/// What decryption must return once the envelope has parsed into salt,
/// nonce and ciphertext bytes. Fields of a length the KDF or the cipher
/// cannot take fail like any tampered input, with the one
/// undifferentiated decryption error; otherwise the result is pinned for
/// every plaintext the ciphertext could be a sealing of, and is the
/// decryption error when it is a sealing of none.
pub open spec fn decrypt_crypto_matches(
    salt: Seq<u8>,
    nonce: Seq<u8>,
    ct: Seq<u8>,
    password: Seq<u8>,
    r: Result<String, CryptoError>,
) -> bool {
    if salt.len() < 8 || salt.len() > 0xFFFF_FFFF || nonce.len() != 12 {
        r == Err::<String, CryptoError>(CryptoError::DecryptionFailed)
    } else {
        let key = argon2id_key_of(password, salt);
        &&& (forall|p: Seq<u8>|
            aead_msg_len_ok(p.len()) && ct == #[trigger] chacha20poly1305_seal(key, nonce, p)
                ==> if valid_utf8(p) {
                r is Ok && r->Ok_0@ == decode_utf8(p)
            } else {
                r == Err::<String, CryptoError>(CryptoError::InvalidUtf8)
            })
        &&& ((forall|p: Seq<u8>|
            aead_msg_len_ok(p.len()) ==> ct != #[trigger] chacha20poly1305_seal(key, nonce, p))
            ==> r == Err::<String, CryptoError>(CryptoError::DecryptionFailed))
    }
}

/// What decryption returns for an envelope and a password, both given by
/// their UTF-8 bytes: the field-count and per-field hex errors, in the
/// order the fields are checked, and then the cryptographic outcome.
pub open spec fn decrypt_result_matches(
    input: Seq<u8>,
    password: Seq<u8>,
    r: Result<String, CryptoError>,
) -> bool {
    let parts = split_bytes(input, COLON);
    if parts.len() != 3 {
        r == Err::<String, CryptoError>(CryptoError::InvalidFormat)
    } else if !is_hex_seq(parts[0]) {
        r == Err::<String, CryptoError>(CryptoError::InvalidSaltHex)
    } else if !is_hex_seq(parts[1]) {
        r == Err::<String, CryptoError>(CryptoError::InvalidNonceHex)
    } else if !is_hex_seq(parts[2]) {
        r == Err::<String, CryptoError>(CryptoError::InvalidCiphertextHex)
    } else {
        decrypt_crypto_matches(
            hex_decode_of(parts[0]),
            hex_decode_of(parts[1]),
            hex_decode_of(parts[2]),
            password,
            r,
        )
    }
}

/// Encrypts a text under a password: a fresh random 16-byte salt and
/// 12-byte nonce, an Argon2id key from password and salt, ChaCha20-
/// Poly1305 over the text's UTF-8 bytes, and the envelope
/// `<salt_hex>:<nonce_hex>:<ciphertext_and_tag_hex>`. The derived key is
/// wiped before returning, on the error path too. Fails only when the
/// cipher refuses the plaintext's length.
pub fn encrypt_data(plain_text: &str, password: &str) -> (r: Result<String, CryptoError>)
    requires
        password.spec_bytes().len() <= 0xFFFF_FFFF,
    ensures
        r is Ok <==> aead_msg_len_ok(plain_text.spec_bytes().len()),
        r is Err ==> r == Err::<String, CryptoError>(CryptoError::EncryptionFailed),
        r is Ok ==> encrypts(r->Ok_0@, plain_text.spec_bytes(), password.spec_bytes()),
{
    let mut salt = [0u8; 16];
    fill_random(&mut salt);
    let mut nonce = [0u8; 12];
    fill_random(&mut nonce);
    let mut key = derive_key(password, salt.as_slice());
    let sealed_opt = chacha_seal(key.as_slice(), nonce.as_slice(), plain_text.as_bytes());
    wipe_key(&mut key);
    match sealed_opt {
        None => Err(CryptoError::EncryptionFailed),
        Some(sealed) => {
            let ghost ct = sealed@;
            let mut env: Vec<u8> = Vec::new();
            let salt_hex = hex_encode(salt.as_slice());
            let nonce_hex = hex_encode(nonce.as_slice());
            let ct_hex = hex_encode(sealed.as_slice());
            append_bytes(&mut env, salt_hex.as_slice());
            env.push(COLON);
            append_bytes(&mut env, nonce_hex.as_slice());
            env.push(COLON);
            append_bytes(&mut env, ct_hex.as_slice());
            proof {
                assert(env@ =~= envelope_bytes(salt@, nonce@, ct));
                lemma_hex_round_trip(salt@);
                lemma_hex_round_trip(nonce@);
                lemma_hex_round_trip(ct);
                assert(forall|i: int| 0 <= i < env@.len() ==> #[trigger] env@[i] < 0x80);
                lemma_ascii_bytes_valid_utf8(env@);
            }
            match bytes_to_string(env) {
                Some(s) => {
                    proof {
                        assert(encode_utf8(s@) == envelope_bytes(
                            salt@,
                            nonce@,
                            chacha20poly1305_seal(
                                argon2id_key_of(password.spec_bytes(), salt@),
                                nonce@,
                                plain_text.spec_bytes(),
                            ),
                        ));
                    }
                    Ok(s)
                },
                None => {
                    proof {
                        assert(false);
                    }
                    Err(CryptoError::EncryptionFailed)
                },
            }
        },
    }
}

/// Decrypts an envelope under a password, reversing [`encrypt_data`]:
/// splits on `:` into exactly three fields, hex-decodes each with a
/// field-specific format error, derives the Argon2id key from password
/// and salt, opens the AEAD, and returns the plaintext as UTF-8 text.
/// A wrong password, tampering, truncation or fields of impossible
/// length all give the one undifferentiated decryption error; the key is
/// wiped before returning.
pub fn decrypt_data(encrypted_text: &str, password: &str) -> (r: Result<String, CryptoError>)
    requires
        password.spec_bytes().len() <= 0xFFFF_FFFF,
    ensures
        decrypt_result_matches(encrypted_text.spec_bytes(), password.spec_bytes(), r),
{
    let ghost input = encrypted_text.spec_bytes();
    let parts = split_on(encrypted_text.as_bytes(), COLON);
    proof {
        assert(parts.deep_view().len() == parts@.len());
    }
    if parts.len() != 3 {
        return Err(CryptoError::InvalidFormat);
    }
    proof {
        assert(parts.deep_view()[0] == parts@[0]@);
        assert(parts.deep_view()[1] == parts@[1]@);
        assert(parts.deep_view()[2] == parts@[2]@);
    }
    let salt = match hex_decode(parts[0].as_slice()) {
        Some(v) => v,
        None => {
            return Err(CryptoError::InvalidSaltHex);
        },
    };
    let nonce = match hex_decode(parts[1].as_slice()) {
        Some(v) => v,
        None => {
            return Err(CryptoError::InvalidNonceHex);
        },
    };
    let ct = match hex_decode(parts[2].as_slice()) {
        Some(v) => v,
        None => {
            return Err(CryptoError::InvalidCiphertextHex);
        },
    };
    if salt.len() < 8 || salt.len() > 0xFFFF_FFFF || nonce.len() != 12 {
        return Err(CryptoError::DecryptionFailed);
    }
    let mut key = derive_key(password, salt.as_slice());
    let opened = chacha_open(key.as_slice(), nonce.as_slice(), ct.as_slice());
    wipe_key(&mut key);
    match opened {
        None => Err(CryptoError::DecryptionFailed),
        Some(plain) => match bytes_to_string(plain) {
            Some(s) => Ok(s),
            None => Err(CryptoError::InvalidUtf8),
        },
    }
}

} // verus!
