use chacha20poly1305::aead::Aead;
use chacha20poly1305::{ChaCha20Poly1305, Key, KeyInit, Nonce};
use rand::rngs::OsRng;
use rand::RngCore;
use vstd::prelude::*;
use zeroize::Zeroize;

verus! {

/// Whether the AEAD accepts a message of this length: its block counter
/// is 32 bits, so messages of 2^32 - 1 or more 64-byte blocks are
/// refused.
pub open spec fn aead_msg_len_ok(n: nat) -> bool {
    n / 64 < 0xFFFF_FFFF
}

/// The ciphertext-with-tag that ChaCha20-Poly1305 produces for a key, a
/// nonce and a plaintext, with no associated data: the encrypted message
/// with the 16-byte authentication tag appended. The algorithm itself is
/// not modelled; the name only fixes that equal inputs give equal
/// outputs.
pub uninterp spec fn chacha20poly1305_seal(key: Seq<u8>, nonce: Seq<u8>, plaintext: Seq<u8>) -> Seq<
    u8,
>;

/// Relies on chacha20poly1305::ChaCha20Poly1305::encrypt with no
/// associated data: the ciphertext with the 16-byte tag appended, a
/// function of key, nonce and plaintext alone; it fails exactly when the
/// plaintext has 2^32 - 1 or more 64-byte blocks.
#[verifier::external_body]
pub(crate) fn chacha_seal(key: &[u8], nonce: &[u8], plaintext: &[u8]) -> (r: Option<Vec<u8>>)
    requires
        key@.len() == 32,
        nonce@.len() == 12,
    ensures
        r is Some <==> aead_msg_len_ok(plaintext@.len()),
        r is Some ==> r->0@ == chacha20poly1305_seal(key@, nonce@, plaintext@) && r->0@.len()
            == plaintext@.len() + 16,
{
    let cipher = ChaCha20Poly1305::new(Key::from_slice(key));
    cipher.encrypt(Nonce::from_slice(nonce), plaintext).ok()
}

/// Relies on chacha20poly1305::ChaCha20Poly1305::decrypt with no
/// associated data: it recomputes the tag over the ciphertext and
/// compares, then inverts the length-preserving keystream, so it succeeds
/// exactly on the outputs of sealing under the same key and nonce and
/// returns the plaintext that was sealed.
#[verifier::external_body]
pub(crate) fn chacha_open(key: &[u8], nonce: &[u8], ciphertext: &[u8]) -> (r: Option<Vec<u8>>)
    requires
        key@.len() == 32,
        nonce@.len() == 12,
    ensures
        r is Some ==> r->0@.len() + 16 == ciphertext@.len() && aead_msg_len_ok(r->0@.len())
            && ciphertext@ == chacha20poly1305_seal(key@, nonce@, r->0@),
        forall|p: Seq<u8>|
            aead_msg_len_ok(p.len()) && ciphertext@ == #[trigger] chacha20poly1305_seal(
                key@,
                nonce@,
                p,
            ) ==> r is Some && r->0@ == p,
{
    let cipher = ChaCha20Poly1305::new(Key::from_slice(key));
    cipher.decrypt(Nonce::from_slice(nonce), ciphertext).ok()
}

/// Relies on rand::rngs::OsRng::fill_bytes: fills the buffer with bytes
/// from the operating system's secure random source. Nothing is promised
/// of the values.
#[verifier::external_body]
pub(crate) fn fill_random<const N: usize>(buf: &mut [u8; N]) {
    OsRng.fill_bytes(buf.as_mut_slice());
}

/// Relies on zeroize::Zeroize for [u8; 32]: overwrites every byte of the
/// derived key with zero, so that key material does not linger in memory.
#[verifier::external_body]
pub(crate) fn wipe_key(key: &mut [u8; 32])
    ensures
        forall|i: int| 0 <= i < 32 ==> final(key)@[i] == 0u8,
{
    key.zeroize();
}

} // verus!
