use crate::digest::{sha3_512, sha3_512_of};
use crate::errors::CryptoError;
use crate::hex::{hex_encode, hex_of, lemma_hex_round_trip};
use crate::text::{append_bytes, bytes_to_string, lemma_hex_ascii_valid_utf8};
use vstd::prelude::*;
use vstd::string::StringSliceAdditionalSpecFns;
use vstd::utf8::{decode_utf8, encode_utf8, valid_utf8};

verus! {

/// The combined secret for two input secrets: the lowercase hex encoding
/// of the SHA3-512 digest of their concatenated UTF-8 bytes, first secret
/// first. Order matters; no separator is inserted.
pub open spec fn combined_secret_of(a: Seq<u8>, b: Seq<u8>) -> Seq<u8> {
    hex_of(sha3_512_of(a + b))
}

/// Combining is deterministic: two result strings for the same two
/// secrets in the same order are the same string.
pub proof fn lemma_combine_deterministic(a: Seq<u8>, b: Seq<u8>, r1: Seq<char>, r2: Seq<char>)
    requires
        encode_utf8(r1) == combined_secret_of(a, b),
        encode_utf8(r2) == combined_secret_of(a, b),
    ensures
        r1 == r2,
{
    vstd::utf8::encode_utf8_decode_utf8(r1);
    vstd::utf8::encode_utf8_decode_utf8(r2);
}

/// Folds two shared secrets into one combined secret string; a one-way
/// mix for hybrid key exchanges. Always succeeds, for empty inputs too.
pub fn combine_shared_secrets(kyber_secret: &str, ecdh_secret: &str) -> (r: Result<
    String,
    CryptoError,
>)
    ensures
        r is Ok,
        r->Ok_0@ == decode_utf8(combined_secret_of(kyber_secret.spec_bytes(), ecdh_secret.spec_bytes())),
        encode_utf8(r->Ok_0@) == combined_secret_of(kyber_secret.spec_bytes(), ecdh_secret.spec_bytes()),
{
    let ghost spec_combined = combined_secret_of(kyber_secret.spec_bytes(), ecdh_secret.spec_bytes());
    let mut combined: Vec<u8> = Vec::new();
    append_bytes(&mut combined, kyber_secret.as_bytes());
    append_bytes(&mut combined, ecdh_secret.as_bytes());
    assert(combined@ =~= kyber_secret.spec_bytes() + ecdh_secret.spec_bytes());
    let digest = sha3_512(combined.as_slice());
    let encoded = hex_encode(digest.as_slice());
    proof {
        lemma_hex_round_trip(digest@);
        lemma_hex_ascii_valid_utf8(encoded@);
        assert(encoded@ == spec_combined);
    }
    match bytes_to_string(encoded) {
        Some(s) => Ok(s),
        None => {
            proof {
                assert(false);
            }
            Err(CryptoError::EncryptionFailed)
        },
    }
}

} // verus!
