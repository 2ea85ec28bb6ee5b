use vstd::prelude::*;

verus! {

/// The lowercase hex digit for a nibble, as an ASCII byte.
pub open spec fn hex_digit_byte(n: u8) -> u8
    recommends
        n < 16,
{
    if n < 10 {
        (0x30 + n) as u8
    } else {
        (87 + n) as u8
    }
}

/// An ASCII byte that is a hex digit: `0-9`, `a-f` or `A-F`.
pub open spec fn is_hex_digit(b: u8) -> bool {
    (0x30 <= b && b <= 0x39) || (0x61 <= b && b <= 0x66) || (0x41 <= b && b <= 0x46)
}

/// The value of a hex digit byte.
pub open spec fn hex_val(b: u8) -> u8
    recommends
        is_hex_digit(b),
{
    if 0x30 <= b && b <= 0x39 {
        (b - 0x30) as u8
    } else if 0x61 <= b && b <= 0x66 {
        (b - 87) as u8
    } else {
        (b - 55) as u8
    }
}

/// The lowercase hex encoding of a byte sequence: two digits per byte,
/// high nibble first.
pub open spec fn hex_of(bytes: Seq<u8>) -> Seq<u8> {
    Seq::new(
        bytes.len() * 2,
        |i: int|
            if i % 2 == 0 {
                hex_digit_byte(bytes[i / 2] / 16)
            } else {
                hex_digit_byte(bytes[i / 2] % 16)
            },
    )
}

/// A byte sequence that hex-decodes: even length, hex digits throughout.
pub open spec fn is_hex_seq(s: Seq<u8>) -> bool {
    s.len() % 2 == 0 && forall|i: int| 0 <= i < s.len() ==> is_hex_digit(#[trigger] s[i])
}

/// The bytes a hex digit sequence decodes to.
pub open spec fn hex_decode_of(s: Seq<u8>) -> Seq<u8>
    recommends
        is_hex_seq(s),
{
    Seq::new(s.len() / 2, |i: int| (hex_val(s[2 * i]) * 16 + hex_val(s[2 * i + 1])) as u8)
}

/// Encoding always yields a decodable sequence, and decoding it gives the
/// original bytes back.
pub proof fn lemma_hex_round_trip(bytes: Seq<u8>)
    ensures
        is_hex_seq(hex_of(bytes)),
        hex_of(bytes).len() == 2 * bytes.len(),
        hex_decode_of(hex_of(bytes)) == bytes,
{
    assert forall|i: int| 0 <= i < hex_of(bytes).len() implies is_hex_digit(
        #[trigger] hex_of(bytes)[i],
    ) by {
        let n = if i % 2 == 0 {
            bytes[i / 2] / 16
        } else {
            bytes[i / 2] % 16
        };
        assert(n < 16);
    }
    assert forall|i: int| 0 <= i < bytes.len() implies hex_decode_of(hex_of(bytes))[i] == bytes[i] by {
        let b = bytes[i];
        assert(hex_of(bytes)[2 * i] == hex_digit_byte(b / 16));
        assert(hex_of(bytes)[2 * i + 1] == hex_digit_byte(b % 16));
        assert(hex_val(hex_digit_byte(b / 16)) == b / 16);
        assert(hex_val(hex_digit_byte(b % 16)) == b % 16);
        assert(b / 16 * 16 + b % 16 == b) by (nonlinear_arith);
    }
    assert(hex_decode_of(hex_of(bytes)) =~= bytes);
}

/// The exec counterpart of [`hex_digit_byte`].
fn hex_digit(n: u8) -> (c: u8)
    requires
        n < 16,
    ensures
        c == hex_digit_byte(n),
{
    if n < 10 {
        0x30 + n
    } else {
        87 + n
    }
}

/// Whether a byte is an ASCII hex digit.
fn is_hex_digit_exec(b: u8) -> (r: bool)
    ensures
        r == is_hex_digit(b),
{
    (0x30 <= b && b <= 0x39) || (0x61 <= b && b <= 0x66) || (0x41 <= b && b <= 0x46)
}

/// The value of a hex digit byte.
fn hex_val_exec(b: u8) -> (r: u8)
    requires
        is_hex_digit(b),
    ensures
        r == hex_val(b),
        r < 16,
{
    if 0x30 <= b && b <= 0x39 {
        b - 0x30
    } else if 0x61 <= b && b <= 0x66 {
        b - 87
    } else {
        b - 55
    }
}

/// Encodes bytes as lowercase hex.
pub fn hex_encode(bytes: &[u8]) -> (r: Vec<u8>)
    ensures
        r@ == hex_of(bytes@),
{
    let mut r: Vec<u8> = Vec::new();
    let mut i: usize = 0;
    while i < bytes.len()
        invariant
            i <= bytes@.len(),
            r@.len() == 2 * i,
            forall|j: int| 0 <= j < 2 * i ==> r@[j] == hex_of(bytes@)[j],
        decreases bytes@.len() - i,
    {
        let b = bytes[i];
        r.push(hex_digit(b / 16));
        r.push(hex_digit(b % 16));
        i += 1;
    }
    assert(r@ =~= hex_of(bytes@));
    r
}

/// Decodes a hex byte sequence; `None` exactly on odd length or a byte
/// that is no hex digit.
pub fn hex_decode(s: &[u8]) -> (r: Option<Vec<u8>>)
    ensures
        r is Some <==> is_hex_seq(s@),
        r is Some ==> r->0@ == hex_decode_of(s@),
{
    if s.len() % 2 != 0 {
        return None;
    }
    let mut out: Vec<u8> = Vec::new();
    let mut i: usize = 0;
    while i < s.len()
        invariant
            s@.len() % 2 == 0,
            i % 2 == 0,
            i <= s@.len(),
            out@.len() == i / 2,
            forall|j: int| 0 <= j < i ==> is_hex_digit(#[trigger] s@[j]),
            forall|j: int| 0 <= j < i / 2 ==> out@[j] == hex_decode_of(s@)[j],
        decreases s@.len() - i,
    {
        let hi = s[i];
        let lo = s[i + 1];
        if !is_hex_digit_exec(hi) || !is_hex_digit_exec(lo) {
            return None;
        }
        out.push(hex_val_exec(hi) * 16 + hex_val_exec(lo));
        i += 2;
    }
    assert(out@ =~= hex_decode_of(s@));
    Some(out)
}

} // verus!
