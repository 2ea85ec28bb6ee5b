use crate::hex::{hex_decode_of, hex_of, is_hex_digit, is_hex_seq, lemma_hex_round_trip};
use vstd::prelude::*;

verus! {

/// The envelope delimiter `:` as a byte.
pub const COLON: u8 = 0x3a;

/// Splitting a byte sequence on a separator, at every occurrence, empty
/// fields kept: `n` separators give `n + 1` fields, as `str::split` does.
pub open spec fn split_bytes(s: Seq<u8>, sep: u8) -> Seq<Seq<u8>>
    decreases s.len(),
{
    if s.len() == 0 {
        seq![Seq::<u8>::empty()]
    } else if s[0] == sep {
        seq![Seq::<u8>::empty()] + split_bytes(s.drop_first(), sep)
    } else {
        let rest = split_bytes(s.drop_first(), sep);
        seq![seq![s[0]] + rest[0]] + rest.drop_first()
    }
}

/// How often a byte occurs in a sequence.
pub open spec fn count_byte(s: Seq<u8>, b: u8) -> int
    decreases s.len(),
{
    if s.len() == 0 {
        0
    } else {
        (if s[0] == b {
            1int
        } else {
            0int
        }) + count_byte(s.drop_first(), b)
    }
}

/// A split always has at least one field.
pub proof fn lemma_split_len(s: Seq<u8>, sep: u8)
    ensures
        split_bytes(s, sep).len() >= 1,
    decreases s.len(),
{
    if s.len() > 0 {
        lemma_split_len(s.drop_first(), sep);
    }
}

/// A split has one field more than the separator occurs.
pub proof fn lemma_split_count(s: Seq<u8>, sep: u8)
    ensures
        split_bytes(s, sep).len() == count_byte(s, sep) + 1,
    decreases s.len(),
{
    if s.len() > 0 {
        lemma_split_count(s.drop_first(), sep);
        lemma_split_len(s.drop_first(), sep);
    }
}

/// How a split grows when one byte is appended: a separator opens a new
/// empty field, any other byte extends the last field.
pub proof fn lemma_split_push(s: Seq<u8>, sep: u8, c: u8)
    ensures
        c == sep ==> split_bytes(s.push(c), sep) =~= split_bytes(s, sep).push(
            Seq::<u8>::empty(),
        ),
        c != sep ==> split_bytes(s.push(c), sep) =~= split_bytes(s, sep).update(
            split_bytes(s, sep).len() - 1,
            split_bytes(s, sep).last().push(c),
        ),
    decreases s.len(),
{
    lemma_split_len(s, sep);
    if s.len() == 0 {
        assert(s.push(c) =~= seq![c]);
        assert(seq![c].drop_first() =~= Seq::<u8>::empty());
        assert(split_bytes(seq![c].drop_first(), sep) =~= seq![Seq::<u8>::empty()]);
        assert(split_bytes(s, sep) =~= seq![Seq::<u8>::empty()]);
        if c == sep {
            assert(split_bytes(seq![c], sep) =~= seq![Seq::<u8>::empty()] + seq![
                Seq::<u8>::empty(),
            ]);
            assert(split_bytes(s, sep).push(Seq::<u8>::empty()) =~= seq![Seq::<u8>::empty()]
                + seq![Seq::<u8>::empty()]);
        } else {
            assert(seq![c] + Seq::<u8>::empty() =~= Seq::<u8>::empty().push(c));
            assert(split_bytes(seq![c], sep) =~= seq![Seq::<u8>::empty().push(c)]);
            assert(split_bytes(s, sep).update(0, split_bytes(s, sep).last().push(c)) =~= seq![
                Seq::<u8>::empty().push(c),
            ]);
        }
    } else {
        let t = s.drop_first();
        lemma_split_len(t, sep);
        lemma_split_push(t, sep, c);
        assert(s.push(c).drop_first() =~= t.push(c));
        assert(s.push(c)[0] == s[0]);
        let rest = split_bytes(t, sep);
        let restp = split_bytes(t.push(c), sep);
        if s[0] == sep {
            if c == sep {
                assert(seq![Seq::<u8>::empty()] + rest.push(Seq::<u8>::empty()) =~= (
                seq![Seq::<u8>::empty()] + rest).push(Seq::<u8>::empty()));
            } else {
                assert(seq![Seq::<u8>::empty()] + rest.update(
                    rest.len() - 1,
                    rest.last().push(c),
                ) =~= (seq![Seq::<u8>::empty()] + rest).update(
                    rest.len() as int,
                    rest.last().push(c),
                ));
                assert((seq![Seq::<u8>::empty()] + rest).last() == rest.last());
            }
        } else {
            if c == sep {
                assert(restp =~= rest.push(Seq::<u8>::empty()));
                assert(restp[0] == rest[0]);
                assert(restp.drop_first() =~= rest.drop_first().push(Seq::<u8>::empty()));
                assert(seq![seq![s[0]] + rest[0]] + rest.drop_first().push(Seq::<u8>::empty())
                    =~= (seq![seq![s[0]] + rest[0]] + rest.drop_first()).push(
                    Seq::<u8>::empty(),
                ));
            } else {
                assert(restp =~= rest.update(rest.len() - 1, rest.last().push(c)));
                if rest.len() == 1 {
                    assert(restp[0] == rest[0].push(c));
                    assert(seq![s[0]] + rest[0].push(c) =~= (seq![s[0]] + rest[0]).push(c));
                    assert(restp.drop_first() =~= rest.drop_first());
                    assert(split_bytes(s, sep) =~= seq![seq![s[0]] + rest[0]]);
                    assert(split_bytes(s.push(c), sep) =~= seq![(seq![s[0]] + rest[0]).push(c)]);
                    assert(split_bytes(s, sep).update(
                        split_bytes(s, sep).len() - 1,
                        split_bytes(s, sep).last().push(c),
                    ) =~= seq![(seq![s[0]] + rest[0]).push(c)]);
                } else {
                    assert(restp[0] == rest[0]);
                    assert(restp.drop_first() =~= rest.drop_first().update(
                        rest.len() - 2,
                        rest.last().push(c),
                    ));
                    assert(split_bytes(s, sep).last() == rest.last());
                    assert(seq![seq![s[0]] + rest[0]] + rest.drop_first().update(
                        rest.len() - 2,
                        rest.last().push(c),
                    ) =~= (seq![seq![s[0]] + rest[0]] + rest.drop_first()).update(
                        rest.len() - 1,
                        rest.last().push(c),
                    ));
                }
            }
        }
    }
}

/// A sequence without the separator splits into itself alone.
pub proof fn lemma_split_no_sep(a: Seq<u8>, sep: u8)
    requires
        forall|i: int| 0 <= i < a.len() ==> a[i] != sep,
    ensures
        split_bytes(a, sep) =~= seq![a],
    decreases a.len(),
{
    if a.len() == 0 {
        assert(a =~= Seq::<u8>::empty());
    } else {
        lemma_split_no_sep(a.drop_first(), sep);
        assert(seq![a[0]] + a.drop_first() =~= a);
        assert(split_bytes(a, sep) =~= seq![seq![a[0]] + a.drop_first()]);
    }
}

/// Splitting `a + [sep] + rest` where `a` is free of the separator
/// yields `a` followed by the split of `rest`.
pub proof fn lemma_split_sep_prefix(a: Seq<u8>, rest: Seq<u8>, sep: u8)
    requires
        forall|i: int| 0 <= i < a.len() ==> a[i] != sep,
    ensures
        split_bytes(a + seq![sep] + rest, sep) =~= seq![a] + split_bytes(rest, sep),
    decreases a.len(),
{
    let s = a + seq![sep] + rest;
    if a.len() == 0 {
        assert(s =~= seq![sep] + rest);
        assert(s[0] == sep);
        assert(s.drop_first() =~= rest);
        assert(a =~= Seq::<u8>::empty());
    } else {
        lemma_split_sep_prefix(a.drop_first(), rest, sep);
        lemma_split_len(rest, sep);
        assert(s[0] == a[0]);
        assert(s.drop_first() =~= a.drop_first() + seq![sep] + rest);
        let r = split_bytes(s.drop_first(), sep);
        assert(r =~= seq![a.drop_first()] + split_bytes(rest, sep));
        assert(r[0] == a.drop_first());
        assert(seq![s[0]] + r[0] =~= a);
        assert(r.drop_first() =~= split_bytes(rest, sep));
    }
}

/// The serialized envelope: the hex encodings of salt, nonce and
/// ciphertext-with-tag, joined with `:`.
pub open spec fn envelope_bytes(salt: Seq<u8>, nonce: Seq<u8>, ct: Seq<u8>) -> Seq<u8> {
    hex_of(salt) + seq![COLON] + hex_of(nonce) + seq![COLON] + hex_of(ct)
}

/// An envelope splits back into its three hex fields, and those fields
/// decode back to the bytes that built it: serialization loses nothing.
pub proof fn lemma_envelope_parses(salt: Seq<u8>, nonce: Seq<u8>, ct: Seq<u8>)
    ensures
        split_bytes(envelope_bytes(salt, nonce, ct), COLON) =~= seq![
            hex_of(salt),
            hex_of(nonce),
            hex_of(ct),
        ],
        is_hex_seq(hex_of(salt)) && hex_decode_of(hex_of(salt)) == salt,
        is_hex_seq(hex_of(nonce)) && hex_decode_of(hex_of(nonce)) == nonce,
        is_hex_seq(hex_of(ct)) && hex_decode_of(hex_of(ct)) == ct,
{
    lemma_hex_round_trip(salt);
    lemma_hex_round_trip(nonce);
    lemma_hex_round_trip(ct);
    let tail = hex_of(nonce) + seq![COLON] + hex_of(ct);
    assert(envelope_bytes(salt, nonce, ct) =~= hex_of(salt) + seq![COLON] + tail);
    lemma_split_sep_prefix(hex_of(salt), tail, COLON);
    lemma_split_sep_prefix(hex_of(nonce), hex_of(ct), COLON);
    lemma_split_no_sep(hex_of(ct), COLON);
    assert(split_bytes(tail, COLON) =~= seq![hex_of(nonce)] + seq![hex_of(ct)]);
    assert(seq![hex_of(salt)] + (seq![hex_of(nonce)] + seq![hex_of(ct)]) =~= seq![
        hex_of(salt),
        hex_of(nonce),
        hex_of(ct),
    ]);
}

/// Every envelope has exactly two `:` delimiters and three hex fields,
/// of 32, 24 and twice-the-ciphertext-length digits; with the 16-byte
/// tag the last field has at least 32 digits.
pub proof fn lemma_envelope_shape(salt: Seq<u8>, nonce: Seq<u8>, ct: Seq<u8>)
    requires
        salt.len() == 16,
        nonce.len() == 12,
        ct.len() >= 16,
    ensures
        count_byte(envelope_bytes(salt, nonce, ct), COLON) == 2,
        split_bytes(envelope_bytes(salt, nonce, ct), COLON).len() == 3,
        split_bytes(envelope_bytes(salt, nonce, ct), COLON)[0].len() == 32,
        split_bytes(envelope_bytes(salt, nonce, ct), COLON)[1].len() == 24,
        split_bytes(envelope_bytes(salt, nonce, ct), COLON)[2].len() == 2 * ct.len(),
        forall|f: Seq<u8>|
            split_bytes(envelope_bytes(salt, nonce, ct), COLON).contains(f) ==> is_hex_seq(f),
        envelope_bytes(salt, nonce, ct).len() == 58 + 2 * ct.len(),
{
    lemma_envelope_parses(salt, nonce, ct);
    lemma_split_count(envelope_bytes(salt, nonce, ct), COLON);
    assert forall|f: Seq<u8>|
        split_bytes(envelope_bytes(salt, nonce, ct), COLON).contains(f) implies is_hex_seq(f) by {
        let parts = split_bytes(envelope_bytes(salt, nonce, ct), COLON);
        let i = choose|i: int| 0 <= i < parts.len() && parts[i] == f;
        assert(f == parts[0] || f == parts[1] || f == parts[2]);
    }
}

/// Splits a byte slice on a separator, every occurrence, empty fields
/// kept.
pub fn split_on(s: &[u8], sep: u8) -> (r: Vec<Vec<u8>>)
    ensures
        r.deep_view() == split_bytes(s@, sep),
{
    let mut fields: Vec<Vec<u8>> = Vec::new();
    let mut cur: Vec<u8> = Vec::new();
    let mut i: usize = 0;
    while i < s.len()
        invariant
            i <= s@.len(),
            split_bytes(s@.take(i as int), sep) == fields.deep_view().push(cur@),
        decreases s@.len() - i,
    {
        let ghost prefix = s@.take(i as int);
        let ghost old_fields = fields.deep_view();
        let ghost old_cur = cur@;
        proof {
            lemma_split_push(prefix, sep, s@[i as int]);
            assert(s@.take(i + 1) =~= prefix.push(s@[i as int]));
            assert(old_fields.push(old_cur).last() == old_cur);
            assert(old_fields.push(old_cur).len() == old_fields.len() + 1);
        }
        if s[i] == sep {
            fields.push(cur);
            cur = Vec::new();
            assert(fields.deep_view() =~~= old_fields.push(old_cur));
            assert(split_bytes(s@.take(i + 1), sep) =~~= fields.deep_view().push(cur@));
        } else {
            cur.push(s[i]);
            assert(fields.deep_view() =~~= old_fields);
            assert(old_fields.push(old_cur).update(old_fields.len() as int, old_cur.push(
                s@[i as int],
            )) =~~= old_fields.push(cur@));
            assert(split_bytes(s@.take(i + 1), sep) =~~= fields.deep_view().push(cur@));
        }
        i += 1;
    }
    assert(s@.take(s@.len() as int) =~= s@);
    fields.push(cur);
    assert(fields.deep_view() =~~= split_bytes(s@, sep));
    fields
}

} // verus!
