use vstd::prelude::*;
use vstd::utf8::{decode_utf8, encode_utf8, valid_utf8};

verus! {

/// Relies on String::from_utf8: returns the string whose UTF-8 encoding
/// is `bytes`, exactly when `bytes` is valid UTF-8.
#[verifier::external_body]
pub(crate) fn bytes_to_string(bytes: Vec<u8>) -> (r: Option<String>)
    ensures
        r is Some <==> valid_utf8(bytes@),
        r is Some ==> r->0@ == decode_utf8(bytes@),
{
    String::from_utf8(bytes).ok()
}

/// A sequence of hex digit bytes is valid UTF-8, and encoding its decoded
/// characters gives the bytes back.
pub proof fn lemma_hex_ascii_valid_utf8(s: Seq<u8>)
    requires
        forall|i: int| 0 <= i < s.len() ==> crate::hex::is_hex_digit(#[trigger] s[i]),
    ensures
        valid_utf8(s),
        encode_utf8(decode_utf8(s)) == s,
{
    lemma_ascii_bytes_valid_utf8(s);
}

/// Bytes below 0x80 are valid UTF-8, they decode one byte to one
/// character, and encoding the decoded characters gives the bytes back.
pub proof fn lemma_ascii_bytes_valid_utf8(s: Seq<u8>)
    requires
        forall|i: int| 0 <= i < s.len() ==> #[trigger] s[i] < 0x80,
    ensures
        valid_utf8(s),
        encode_utf8(decode_utf8(s)) == s,
        decode_utf8(s).len() == s.len(),
        forall|i: int| 0 <= i < s.len() ==> decode_utf8(s)[i] == s[i] as char,
    decreases s.len(),
{
    if s.len() > 0 {
        lemma_ascii_bytes_valid_utf8(s.drop_first());
        assert(vstd::utf8::is_leading_byte_width_1(s[0]));
        assert(vstd::utf8::pop_first_scalar(s) =~= s.drop_first());
        let b = s[0];
        assert(b & 0x7f == b) by (bit_vector)
            requires
                b < 0x80,
        ;
        assert(vstd::utf8::decode_first_scalar(s) == s[0] as u32);
        assert(decode_utf8(s)[0] == (s[0] as u32) as char);
        assert((s[0] as u32) as char == s[0] as char);
        assert(forall|i: int|
            1 <= i < s.len() ==> decode_utf8(s)[i] == decode_utf8(s.drop_first())[i - 1]);
    }
    if valid_utf8(s) {
        vstd::utf8::decode_utf8_encode_utf8(s);
    }
}

/// Appends a byte slice to a byte vector.
pub fn append_bytes(dst: &mut Vec<u8>, src: &[u8])
    ensures
        final(dst)@ == old(dst)@ + src@,
{
    let mut i: usize = 0;
    while i < src.len()
        invariant
            i <= src@.len(),
            dst@ == old(dst)@ + src@.take(i as int),
        decreases src@.len() - i,
    {
        dst.push(src[i]);
        assert(old(dst)@ + src@.take(i + 1) =~= (old(dst)@ + src@.take(i as int)).push(
            src@[i as int],
        ));
        i += 1;
    }
    assert(dst@ =~= old(dst)@ + src@);
}

} // verus!
