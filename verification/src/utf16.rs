//! Definitions for UTF-16 encoding and decoding of character sequences.
//!
//! UTF-16 encodes each Unicode scalar as either one 16-bit code unit (for
//! scalars below `0x10000`) or a surrogate pair of two units (for the
//! supplementary planes). These specifications mirror the shape of
//! `vstd::utf8`: a head-based validity predicate, a head-based decoder, and
//! round-trip lemmas in both directions.

use vstd::prelude::*;

verus! {

broadcast use vstd::seq::group_seq_axioms;

/// True when the given unit encodes a scalar on its own, i.e. lies outside
/// the surrogate range.
pub open spec fn is_single_unit(u: u16) -> bool {
    u < 0xd800 || 0xe000 <= u
}

/// True when the given unit is a high (leading) surrogate.
pub open spec fn is_high_surrogate(u: u16) -> bool {
    0xd800 <= u < 0xdc00
}

/// True when the given unit is a low (trailing) surrogate.
pub open spec fn is_low_surrogate(u: u16) -> bool {
    0xdc00 <= u < 0xe000
}

/// The scalar encoded by a surrogate pair, assuming `hi` is a high and `lo`
/// a low surrogate.
pub open spec fn combine_surrogates(hi: u16, lo: u16) -> u32
    recommends
        is_high_surrogate(hi),
        is_low_surrogate(lo),
{
    (0x10000 + ((((hi as u32) & 0x3ff) << 10) | ((lo as u32) & 0x3ff))) as u32
}

/// True when the given unit sequence begins with a well-formed UTF-16
/// encoding of a single scalar: either a non-surrogate unit or a high
/// surrogate followed by a low surrogate.
pub open spec fn valid_first_unit_seq(units: Seq<u16>) -> bool {
    ||| (units.len() >= 1 && is_single_unit(units[0]))
    ||| (units.len() >= 2 && is_high_surrogate(units[0]) && is_low_surrogate(units[1]))
}

/// The first scalar encoded in the given unit sequence, assuming it begins
/// with a well-formed encoding of a single scalar.
pub open spec fn decode_first_unit_scalar(units: Seq<u16>) -> u32
    recommends
        valid_first_unit_seq(units),
{
    if is_single_unit(units[0]) {
        units[0] as u32
    } else {
        combine_surrogates(units[0], units[1])
    }
}

/// The length in units of the first scalar encoded in the given sequence,
/// assuming it begins with a well-formed encoding of a single scalar.
pub open spec fn length_of_first_unit_scalar(units: Seq<u16>) -> int
    recommends
        valid_first_unit_seq(units),
{
    if is_single_unit(units[0]) {
        1
    } else {
        2
    }
}

/// Removes the first encoded scalar and returns the rest of the sequence.
pub open spec fn pop_first_unit_scalar(units: Seq<u16>) -> Seq<u16>
    recommends
        valid_first_unit_seq(units),
{
    units.subrange(length_of_first_unit_scalar(units), units.len() as int)
}

/// True when the given units form a valid UTF-16 encoding: a sequence of
/// non-surrogate units and properly paired surrogates.
pub open spec fn valid_utf16(units: Seq<u16>) -> bool
    decreases units.len(),
{
    units.len() != 0 ==> valid_first_unit_seq(units) && valid_utf16(pop_first_unit_scalar(units))
}

/// The character sequence encoded by the given units, assuming they form a
/// valid UTF-16 encoding.
pub open spec fn decode_utf16(units: Seq<u16>) -> Seq<char>
    recommends
        valid_utf16(units),
    decreases units.len(),
    when valid_utf16(units)
{
    if units.len() == 0 {
        seq![]
    } else {
        seq![decode_first_unit_scalar(units) as char] + decode_utf16(pop_first_unit_scalar(units))
    }
}

/// The high surrogate of the encoding of a supplementary-plane scalar.
pub open spec fn high_surrogate_of(v: u32) -> u16
    recommends
        0x10000 <= v <= 0x10ffff,
{
    (0xd800 | ((((v - 0x10000) as u32) >> 10) & 0x3ff)) as u16
}

/// The low surrogate of the encoding of a supplementary-plane scalar.
pub open spec fn low_surrogate_of(v: u32) -> u16
    recommends
        0x10000 <= v <= 0x10ffff,
{
    (0xdc00 | (((v - 0x10000) as u32) & 0x3ff)) as u16
}

/// The UTF-16 encoding of a single character.
pub open spec fn encode_char_utf16(c: char) -> Seq<u16> {
    if (c as u32) < 0x10000 {
        seq![(c as u32) as u16]
    } else {
        seq![high_surrogate_of(c as u32), low_surrogate_of(c as u32)]
    }
}

/// The UTF-16 encoding of the given character sequence.
pub open spec fn encode_utf16(chars: Seq<char>) -> Seq<u16>
    decreases chars.len(),
{
    if chars.len() == 0 {
        seq![]
    } else {
        encode_char_utf16(chars[0]) + encode_utf16(chars.drop_first())
    }
}

// A basic-plane scalar is encoded as itself in a single non-surrogate unit.
proof fn encode_decode_single(v: u32)
    by (bit_vector)
    requires
        v < 0x10000,
        !(0xd800 <= v <= 0xdfff),
    ensures
        is_single_unit(v as u16),
        (v as u16) as u32 == v,
{
}

// A supplementary-plane scalar round-trips through its surrogate pair.
proof fn encode_decode_pair(v: u32)
    by (bit_vector)
    requires
        0x10000 <= v <= 0x10ffff,
    ensures
        is_high_surrogate(high_surrogate_of(v)),
        is_low_surrogate(low_surrogate_of(v)),
        combine_surrogates(high_surrogate_of(v), low_surrogate_of(v)) == v,
{
}

// A surrogate pair decodes to a supplementary-plane scalar whose encoding
// gives back the same pair.
proof fn decode_encode_pair(hi: u16, lo: u16)
    by (bit_vector)
    requires
        0xd800 <= hi < 0xdc00,
        0xdc00 <= lo < 0xe000,
    ensures
        0x10000 <= combine_surrogates(hi, lo) <= 0x10ffff,
        high_surrogate_of(combine_surrogates(hi, lo)) == hi,
        low_surrogate_of(combine_surrogates(hi, lo)) == lo,
{
}

/// The first scalar of `encode_utf16(chars)` is `chars[0]`, encoded with
/// its own unit length.
pub proof fn encode_utf16_first_scalar(chars: Seq<char>)
    requires
        chars.len() > 0,
    ensures
        valid_first_unit_seq(encode_utf16(chars)),
        decode_first_unit_scalar(encode_utf16(chars)) == chars[0] as u32,
        length_of_first_unit_scalar(encode_utf16(chars)) == encode_char_utf16(chars[0]).len(),
{
    vstd::utf8::char_is_scalar(chars[0]);
    let v = chars[0] as u32;
    let units = encode_utf16(chars);
    let head = encode_char_utf16(chars[0]);
    assert(units == head + encode_utf16(chars.drop_first()));
    if v < 0x10000 {
        encode_decode_single(v);
        assert(units[0] == v as u16);
    } else {
        encode_decode_pair(v);
        assert(units[0] == high_surrogate_of(v));
        assert(units[1] == low_surrogate_of(v));
    }
}

/// The encoding of any character sequence is valid UTF-16.
pub proof fn encode_utf16_valid_utf16(chars: Seq<char>)
    ensures
        valid_utf16(encode_utf16(chars)),
    decreases chars.len(),
{
    if chars.len() != 0 {
        let units = encode_utf16(chars);
        encode_utf16_first_scalar(chars);
        assert(pop_first_unit_scalar(units) =~= encode_utf16(chars.drop_first()));
        encode_utf16_valid_utf16(chars.drop_first());
    }
}

/// Encoding then decoding returns the original character sequence.
pub proof fn encode_utf16_decode_utf16(chars: Seq<char>)
    ensures
        valid_utf16(encode_utf16(chars)),
        decode_utf16(encode_utf16(chars)) == chars,
    decreases chars.len(),
{
    encode_utf16_valid_utf16(chars);
    if chars.len() == 0 {
        assert(decode_utf16(encode_utf16(chars)) =~= chars);
    } else {
        let units = encode_utf16(chars);
        encode_utf16_first_scalar(chars);
        vstd::utf8::char_u32_cast(chars[0], decode_first_unit_scalar(units));
        assert(pop_first_unit_scalar(units) =~= encode_utf16(chars.drop_first()));
        encode_utf16_decode_utf16(chars.drop_first());
        assert(decode_utf16(units) =~= chars);
    }
}

/// The first character of a valid unit sequence re-encodes to exactly the
/// units it was decoded from.
pub proof fn decode_utf16_first_scalar(units: Seq<u16>)
    requires
        valid_utf16(units),
        units.len() > 0,
    ensures
        encode_char_utf16(decode_first_unit_scalar(units) as char)
            == units.subrange(0, length_of_first_unit_scalar(units)),
{
    let v = decode_first_unit_scalar(units);
    let u0 = units[0];
    if is_single_unit(units[0]) {
        assert(v < 0x10000 && !(0xd800 <= v <= 0xdfff) && v as u16 == u0) by (bit_vector)
            requires
                v == u0 as u32,
                u0 < 0xd800 || 0xe000 <= u0,
        ;
        assert((v as char) as u32 == v);
        assert(encode_char_utf16(v as char) =~= units.subrange(0, 1));
    } else {
        decode_encode_pair(units[0], units[1]);
        assert(0x10000 <= v <= 0x10ffff);
        assert(!(0xd800 <= v <= 0xdfff));
        assert((v as char) as u32 == v);
        assert(encode_char_utf16(v as char) =~= units.subrange(0, 2));
    }
}

/// Decoding a valid unit sequence then encoding returns the original units.
pub proof fn decode_utf16_encode_utf16(units: Seq<u16>)
    requires
        valid_utf16(units),
    ensures
        encode_utf16(decode_utf16(units)) == units,
    decreases units.len(),
{
    if units.len() == 0 {
        assert(encode_utf16(decode_utf16(units)) =~= units);
    } else {
        let chars = decode_utf16(units);
        let rest = pop_first_unit_scalar(units);
        decode_utf16_first_scalar(units);
        assert(chars.drop_first() =~= decode_utf16(rest));
        decode_utf16_encode_utf16(rest);
        assert(encode_utf16(chars) =~= units);
    }
}

/// Appending one character appends exactly its encoding.
pub proof fn encode_utf16_push(chars: Seq<char>, c: char)
    ensures
        encode_utf16(chars.push(c)) == encode_utf16(chars) + encode_char_utf16(c),
    decreases chars.len(),
{
    let cp = chars.push(c);
    if chars.len() == 0 {
        assert(cp.drop_first() =~= Seq::<char>::empty());
        assert(cp[0] == c);
        assert(encode_utf16(Seq::<char>::empty()) == Seq::<u16>::empty());
        assert(encode_utf16(cp) =~= encode_utf16(chars) + encode_char_utf16(c));
    } else {
        assert(cp[0] == chars[0]);
        assert(cp.drop_first() =~= chars.drop_first().push(c));
        encode_utf16_push(chars.drop_first(), c);
        assert(encode_utf16(cp) =~= encode_utf16(chars) + encode_char_utf16(c));
    }
}

/// The encoding of a character sequence contains a zero unit exactly when
/// the sequence contains the NUL character.
pub proof fn encode_utf16_nul_free(chars: Seq<char>)
    ensures
        crate::types::units_nul_free(encode_utf16(chars)) <==> crate::types::chars_nul_free(chars),
    decreases chars.len(),
{
    if chars.len() != 0 {
        let units = encode_utf16(chars);
        let head = encode_char_utf16(chars[0]);
        let v = chars[0] as u32;
        vstd::utf8::char_is_scalar(chars[0]);
        if v < 0x10000 {
            assert(v as u16 == 0 <==> v == 0) by (bit_vector)
                requires
                    v < 0x10000,
            ;
        } else {
            assert(high_surrogate_of(v) != 0 && low_surrogate_of(v) != 0) by (bit_vector)
                requires
                    0x10000 <= v <= 0x10ffff,
            ;
        }
        encode_utf16_nul_free(chars.drop_first());
        assert(units =~= head + encode_utf16(chars.drop_first()));
        if crate::types::chars_nul_free(chars) {
            assert(crate::types::chars_nul_free(chars.drop_first()));
            assert forall|i: int| 0 <= i < units.len() implies units[i] != 0 by {
                if i >= head.len() {
                    assert(units[i] == encode_utf16(chars.drop_first())[i - head.len()]);
                }
            }
        } else {
            if chars[0] as u32 == 0 {
                assert(units[0] == 0);
            } else {
                assert(!crate::types::chars_nul_free(chars.drop_first())) by {
                    let k = choose|k: int| 0 <= k < chars.len() && chars[k] as u32 == 0;
                    assert(chars.drop_first()[k - 1] as u32 == 0);
                }
                let j = choose|j: int|
                    0 <= j < encode_utf16(chars.drop_first()).len()
                        && encode_utf16(chars.drop_first())[j] == 0;
                assert(units[head.len() + j] == 0);
            }
        }
    }
}

} // verus!
