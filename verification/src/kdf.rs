use crate::digest::{sha3_512, sha3_512_of};
use argon2::{Algorithm, Argon2, Params, Version};
use vstd::prelude::*;
use vstd::string::StringSliceAdditionalSpecFns;

verus! {

/// The 32-byte key that Argon2id (version 0x13, memory 19456 KiB, 2
/// iterations, 1 lane) derives from a password and a salt. The algorithm
/// itself is not modelled; the name only fixes that equal inputs give
/// equal keys.
pub uninterp spec fn argon2id_key_of(password: Seq<u8>, salt: Seq<u8>) -> Seq<u8>;

/// Relies on argon2::Argon2::hash_password_into with Algorithm::Argon2id,
/// Version::V0x13 and Params::new(19456, 2, 1, Some(32)): fills the 32-byte
/// output as a function of password and salt alone. The inputs it rejects
/// (a salt shorter than 8 or longer than 2^32 - 1 bytes, a password longer
/// than 2^32 - 1 bytes) are excluded by `requires`.
#[verifier::external_body]
fn argon2id_derive(password: &[u8], salt: &[u8]) -> (r: [u8; 32])
    requires
        8 <= salt@.len() <= 0xFFFF_FFFF,
        password@.len() <= 0xFFFF_FFFF,
    ensures
        r@ == argon2id_key_of(password@, salt@),
{
    let params = Params::new(19456, 2, 1, Some(32)).expect("invalid Argon2 parameters");
    let argon2 = Argon2::new(Algorithm::Argon2id, Version::V0x13, params);
    let mut key = [0u8; 32];
    argon2.hash_password_into(password, salt, &mut key).expect("Argon2 hashing failed");
    key
}

/// Derives the 32-byte symmetric key for a password and a salt with
/// Argon2id, version 0x13, memory cost 19456 KiB, time cost 2,
/// parallelism 1.
pub fn derive_key(password: &str, salt: &[u8]) -> (r: [u8; 32])
    requires
        8 <= salt@.len() <= 0xFFFF_FFFF,
        password.spec_bytes().len() <= 0xFFFF_FFFF,
    ensures
        r@ == argon2id_key_of(password.spec_bytes(), salt@),
{
    argon2id_derive(password.as_bytes(), salt)
}

/// Salt derivation is deterministic: two salts derived from the same
/// password bytes are the same 16 bytes.
pub proof fn lemma_salt_deterministic(password: Seq<u8>, r1: Seq<u8>, r2: Seq<u8>)
    requires
        r1 == sha3_512_of(password).take(16),
        r2 == sha3_512_of(password).take(16),
    ensures
        r1 == r2,
{
}

/// Derives a deterministic 16-byte salt from a password alone: the first
/// 16 bytes of the SHA3-512 digest of its UTF-8 bytes. Unlike the random
/// salt of the encryption path, equal passwords always give equal salts.
pub fn derive_salt_from_password(password: &str) -> (r: [u8; 16])
    ensures
        r@ == sha3_512_of(password.spec_bytes()).take(16),
{
    let digest = sha3_512(password.as_bytes());
    let mut salt = [0u8; 16];
    let mut i: usize = 0;
    while i < 16
        invariant
            i <= 16,
            digest@ == sha3_512_of(password.spec_bytes()),
            digest@.len() == 64,
            salt@.len() == 16,
            forall|j: int| 0 <= j < i ==> salt@[j] == digest@[j],
        decreases 16 - i,
    {
        salt[i] = digest[i];
        i += 1;
    }
    assert(salt@ =~= sha3_512_of(password.spec_bytes()).take(16));
    salt
}

} // verus!
