use sha3::{Digest, Sha3_512};
use vstd::prelude::*;

verus! {

/// The SHA3-512 digest of a byte sequence. The algorithm itself is not
/// modelled; the name only fixes that equal inputs give equal digests.
pub uninterp spec fn sha3_512_of(bytes: Seq<u8>) -> Seq<u8>;

/// Relies on sha3::Sha3_512 through the Digest trait: a 64-byte digest
/// that is a function of the input bytes alone.
#[verifier::external_body]
pub(crate) fn sha3_512(bytes: &[u8]) -> (r: Vec<u8>)
    ensures
        r@ == sha3_512_of(bytes@),
        r@.len() == 64,
{
    Sha3_512::digest(bytes).to_vec()
}

} // verus!
