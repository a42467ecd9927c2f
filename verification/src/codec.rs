//! The persisted payload and its codec.
//!
//! The state is stored as the single-field object `{"roots":N}` with `N`
//! the root count in canonical decimal (no sign, no leading zero). The
//! decoder is total: a payload that is absent, empty, or not a canonical
//! encoding — the bare object `{}` with the field missing included —
//! falls back to the default count rather than failing.

use vstd::arithmetic::div_mod::{lemma_div_denominator, lemma_fundamental_div_mod};
use vstd::prelude::*;

use crate::state::CoinFlipVisualizer;
use crate::state::DEFAULT_ROOTS;

verus! {

/// An ASCII decimal digit.
pub open spec fn is_digit(c: u8) -> bool {
    48 <= c <= 57
}

/// The number the digit string denotes, most significant digit first.
pub open spec fn digits_value(s: Seq<u8>) -> int
    decreases s.len(),
{
    if s.len() == 0 {
        0
    } else {
        digits_value(s.drop_last()) * 10 + (s.last() - 48)
    }
}

pub open spec fn all_digits(s: Seq<u8>) -> bool {
    forall|i: int| 0 <= i < s.len() ==> is_digit(#[trigger] s[i])
}

/// The canonical decimal form of a root count: one to three digits, no
/// leading zero, value within a byte.
pub open spec fn is_canonical_number(s: Seq<u8>) -> bool {
    &&& 1 <= s.len() <= 3
    &&& all_digits(s)
    &&& s.len() > 1 ==> s[0] != 48
    &&& digits_value(s) <= 255
}

/// The canonical decimal digits of `v`.
pub open spec fn number_bytes(v: u8) -> Seq<u8> {
    if v < 10 {
        seq![(48 + v) as u8]
    } else if v < 100 {
        seq![(48 + v / 10) as u8, (48 + v % 10) as u8]
    } else {
        seq![(48 + v / 100) as u8, (48 + (v / 10) % 10) as u8, (48 + v % 10) as u8]
    }
}

/// The nine bytes `{"roots":` that open every stored payload.
pub open spec fn key_prefix() -> Seq<u8> {
    seq![123u8, 34u8, 114u8, 111u8, 111u8, 116u8, 115u8, 34u8, 58u8]
}

/// The stored form of a state whose count is `roots`.
pub open spec fn encode_spec(roots: u8) -> Seq<u8> {
    key_prefix() + number_bytes(roots) + seq![125u8]
}

pub open spec fn has_key_prefix(s: Seq<u8>) -> bool {
    &&& s.len() >= 9
    &&& s[0] == 123
    &&& s[1] == 34
    &&& s[2] == 114
    &&& s[3] == 111
    &&& s[4] == 111
    &&& s[5] == 116
    &&& s[6] == 115
    &&& s[7] == 34
    &&& s[8] == 58
}

/// The digit bytes between the key prefix and the closing brace.
pub open spec fn payload_number(s: Seq<u8>) -> Seq<u8> {
    s.subrange(9, s.len() - 1)
}

/// Whether `s` is the encoding of some state: prefix, canonical decimal
/// count, closing brace, nothing else.
pub open spec fn is_encoding(s: Seq<u8>) -> bool {
    &&& s.len() >= 11
    &&& has_key_prefix(s)
    &&& s[s.len() - 1] == 125
    &&& is_canonical_number(payload_number(s))
}

/// What any payload decodes to: its count when it is an encoding, the
/// default count otherwise.
pub open spec fn decode_spec(s: Seq<u8>) -> u8 {
    if is_encoding(s) {
        digits_value(payload_number(s)) as u8
    } else {
        DEFAULT_ROOTS
    }
}

/// Serializes a state into its stored payload.
pub fn encode(state: &CoinFlipVisualizer) -> (out: Vec<u8>)
    ensures
        out@ == encode_spec(state.roots),
{
    let v = state.roots;
    let mut out: Vec<u8> = Vec::new();
    out.push(123);
    out.push(34);
    out.push(114);
    out.push(111);
    out.push(111);
    out.push(116);
    out.push(115);
    out.push(34);
    out.push(58);
    if v >= 100 {
        out.push(48 + v / 100);
        out.push(48 + (v / 10) % 10);
        out.push(48 + v % 10);
    } else if v >= 10 {
        out.push(48 + v / 10);
        out.push(48 + v % 10);
    } else {
        out.push(48 + v);
    }
    out.push(125);
    proof {
        assert(out@ =~= encode_spec(v));
    }
    out
}

/// `digits_value` written out for the one-, two- and three-digit strings
/// the codec deals in.
proof fn lemma_digits_value_upto3(s: Seq<u8>)
    requires
        1 <= s.len() <= 3,
    ensures
        s.len() == 1 ==> digits_value(s) == s[0] - 48,
        s.len() == 2 ==> digits_value(s) == (s[0] - 48) * 10 + (s[1] - 48),
        s.len() == 3 ==> digits_value(s) == (s[0] - 48) * 100 + (s[1] - 48) * 10 + (s[2] - 48),
    decreases s.len(),
{
    if s.len() == 1 {
        assert(s.drop_last() =~= Seq::<u8>::empty());
        assert(digits_value(Seq::<u8>::empty()) == 0);
    } else if s.len() == 2 {
        assert(s.drop_last() =~= seq![s[0]]);
        lemma_digits_value_upto3(s.drop_last());
    } else {
        assert(s.drop_last() =~= seq![s[0], s[1]]);
        lemma_digits_value_upto3(s.drop_last());
    }
}

/// Deserializes a stored payload; anything that is not a canonical
/// encoding yields the default state.
pub fn decode(bytes: &Vec<u8>) -> (state: CoinFlipVisualizer)
    ensures
        state.roots == decode_spec(bytes@),
{
    let n = bytes.len();
    if n < 11 || n > 13 {
        return CoinFlipVisualizer { roots: DEFAULT_ROOTS };
    }
    let framed = bytes[0] == 123 && bytes[1] == 34 && bytes[2] == 114 && bytes[3] == 111
        && bytes[4] == 111 && bytes[5] == 116 && bytes[6] == 115 && bytes[7] == 34
        && bytes[8] == 58 && bytes[n - 1] == 125;
    if !framed {
        return CoinFlipVisualizer { roots: DEFAULT_ROOTS };
    }
    let ghost payload = payload_number(bytes@);
    if n == 11 {
        let d0 = bytes[9];
        if d0 < 48 || d0 > 57 {
            return CoinFlipVisualizer { roots: DEFAULT_ROOTS };
        }
        proof {
            assert(payload =~= seq![bytes@[9]]);
            lemma_digits_value_upto3(payload);
            assert(is_encoding(bytes@));
        }
        CoinFlipVisualizer { roots: d0 - 48 }
    } else if n == 12 {
        let d0 = bytes[9];
        let d1 = bytes[10];
        if d0 < 49 || d0 > 57 || d1 < 48 || d1 > 57 {
            proof {
                assert(payload =~= seq![bytes@[9], bytes@[10]]);
                assert(!is_encoding(bytes@));
            }
            return CoinFlipVisualizer { roots: DEFAULT_ROOTS };
        }
        proof {
            assert(payload =~= seq![bytes@[9], bytes@[10]]);
            lemma_digits_value_upto3(payload);
            assert(is_encoding(bytes@));
        }
        CoinFlipVisualizer { roots: (d0 - 48) * 10 + (d1 - 48) }
    } else {
        let d0 = bytes[9];
        let d1 = bytes[10];
        let d2 = bytes[11];
        if d0 < 49 || d0 > 57 || d1 < 48 || d1 > 57 || d2 < 48 || d2 > 57 {
            proof {
                assert(payload =~= seq![bytes@[9], bytes@[10], bytes@[11]]);
                assert(!is_encoding(bytes@));
            }
            return CoinFlipVisualizer { roots: DEFAULT_ROOTS };
        }
        let value: u16 = (d0 - 48) as u16 * 100 + (d1 - 48) as u16 * 10 + (d2 - 48) as u16;
        proof {
            assert(payload =~= seq![bytes@[9], bytes@[10], bytes@[11]]);
            lemma_digits_value_upto3(payload);
        }
        if value > 255 {
            proof {
                assert(!is_encoding(bytes@));
            }
            return CoinFlipVisualizer { roots: DEFAULT_ROOTS };
        }
        proof {
            assert(is_encoding(bytes@));
        }
        CoinFlipVisualizer { roots: value as u8 }
    }
}

/// Law: decoding an encoded state yields the state back, whatever its
/// count.
pub proof fn lemma_encode_decode_roundtrip(roots: u8)
    ensures
        decode_spec(encode_spec(roots)) == roots,
{
    let e = encode_spec(roots);
    let nb = number_bytes(roots);
    assert(payload_number(e) =~= nb);
    lemma_digits_value_upto3(nb);
    if roots < 10 {
        assert(digits_value(nb) == roots);
    } else if roots < 100 {
        lemma_fundamental_div_mod(roots as int, 10);
        assert(digits_value(nb) == roots);
        assert(nb[0] != 48);
    } else {
        lemma_fundamental_div_mod(roots as int, 10);
        lemma_fundamental_div_mod((roots as int) / 10, 10);
        lemma_div_denominator(roots as int, 10, 10);
        assert(digits_value(nb) == roots);
        assert(nb[0] != 48);
    }
    assert(is_canonical_number(nb));
    assert(is_encoding(e));
}

/// Law: a payload in which the count is missing — the empty payload and
/// the bare object `{}` among them — decodes to the default count.
pub proof fn lemma_decode_missing_is_default()
    ensures
        decode_spec(Seq::<u8>::empty()) == DEFAULT_ROOTS,
        decode_spec(seq![123u8, 125u8]) == DEFAULT_ROOTS,
{
}

} // verus!
