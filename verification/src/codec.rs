//! Executable transcoding between UTF-8 byte sequences and UTF-16 code-unit
//! sequences.
//!
//! These are the cross-encoding halves of the string codec: a byte-oriented
//! buffer meets a wide-oriented one only through valid Unicode text, so each
//! function either transcodes the whole input or rejects it. Rejection is
//! exact: `None` comes back if and only if the input is not a valid encoding.

use vstd::prelude::*;

use crate::types::{bytes_nul_free, chars_nul_free, units_nul_free};
use crate::utf16::{
    combine_surrogates, decode_first_unit_scalar, decode_utf16, decode_utf16_encode_utf16,
    encode_char_utf16, encode_utf16, encode_utf16_nul_free, encode_utf16_push, high_surrogate_of,
    is_high_surrogate, is_low_surrogate, is_single_unit, length_of_first_unit_scalar,
    low_surrogate_of, pop_first_unit_scalar, valid_first_unit_seq, valid_utf16,
};
use vstd::utf8::{
    decode_first_scalar, decode_utf8, decode_utf8_encode_utf8, encode_scalar, encode_utf8,
    is_scalar, length_of_first_scalar, pop_first_scalar, valid_first_scalar, valid_utf8,
};

verus! {

broadcast use vstd::seq::group_seq_axioms;

/// Appending one character appends exactly its UTF-8 encoding.
pub proof fn encode_utf8_push(chars: Seq<char>, c: char)
    ensures
        encode_utf8(chars.push(c)) == encode_utf8(chars) + encode_scalar(c as u32),
    decreases chars.len(),
{
    let cp = chars.push(c);
    if chars.len() == 0 {
        assert(cp.drop_first() =~= Seq::<char>::empty());
        assert(cp[0] == c);
        assert(encode_utf8(Seq::<char>::empty()) == Seq::<u8>::empty());
        assert(encode_utf8(cp) =~= encode_utf8(chars) + encode_scalar(c as u32));
    } else {
        assert(cp[0] == chars[0]);
        assert(cp.drop_first() =~= chars.drop_first().push(c));
        encode_utf8_push(chars.drop_first(), c);
        assert(encode_utf8(cp) =~= encode_utf8(chars) + encode_scalar(c as u32));
    }
}

/// The UTF-8 encoding of a character sequence contains a zero byte exactly
/// when the sequence contains the NUL character.
pub proof fn encode_utf8_nul_free(chars: Seq<char>)
    ensures
        bytes_nul_free(encode_utf8(chars)) <==> chars_nul_free(chars),
    decreases chars.len(),
{
    if chars.len() != 0 {
        let bytes = encode_utf8(chars);
        let head = encode_scalar(chars[0] as u32);
        let v = chars[0] as u32;
        vstd::utf8::char_is_scalar(chars[0]);
        if v < 0x80 {
            assert((v & 0x7f) as u8 == 0 <==> v == 0) by (bit_vector)
                requires
                    v < 0x80,
            ;
        } else {
            assert({
                &&& 0xc0 | ((v >> 6) & 0x1f) as u8 != 0
                &&& 0xe0 | ((v >> 12) & 0x0f) as u8 != 0
                &&& 0xf0 | ((v >> 18) & 0x7) as u8 != 0
                &&& 0x80 | (v & 0x3f) as u8 != 0
                &&& 0x80 | ((v >> 6) & 0x3f) as u8 != 0
                &&& 0x80 | ((v >> 12) & 0x3f) as u8 != 0
            }) by (bit_vector);
        }
        encode_utf8_nul_free(chars.drop_first());
        assert(bytes =~= head + encode_utf8(chars.drop_first()));
        if chars_nul_free(chars) {
            assert(chars_nul_free(chars.drop_first()));
            assert forall|i: int| 0 <= i < bytes.len() implies bytes[i] != 0 by {
                if i >= head.len() {
                    assert(bytes[i] == encode_utf8(chars.drop_first())[i - head.len()]);
                }
            }
        } else {
            if chars[0] as u32 == 0 {
                assert(bytes[0] == 0);
            } else {
                assert(!chars_nul_free(chars.drop_first())) by {
                    let k = choose|k: int| 0 <= k < chars.len() && chars[k] as u32 == 0;
                    assert(chars.drop_first()[k - 1] as u32 == 0);
                }
                let j = choose|j: int|
                    0 <= j < encode_utf8(chars.drop_first()).len()
                        && encode_utf8(chars.drop_first())[j] == 0;
                assert(bytes[head.len() + j] == 0);
            }
        }
    }
}

/// Decoding nul-free valid UTF-8 yields a nul-free character sequence.
pub proof fn decode_utf8_nul_free(bytes: Seq<u8>)
    requires
        valid_utf8(bytes),
        bytes_nul_free(bytes),
    ensures
        chars_nul_free(decode_utf8(bytes)),
{
    decode_utf8_encode_utf8(bytes);
    encode_utf8_nul_free(decode_utf8(bytes));
}

/// Decoding nul-free valid UTF-16 yields a nul-free character sequence.
pub proof fn decode_utf16_nul_free(units: Seq<u16>)
    requires
        valid_utf16(units),
        units_nul_free(units),
    ensures
        chars_nul_free(decode_utf16(units)),
{
    decode_utf16_encode_utf16(units);
    encode_utf16_nul_free(decode_utf16(units));
}

/// Transcode a UTF-8 byte sequence into the UTF-16 encoding of the same
/// text. Returns `None` exactly when the bytes are not valid UTF-8.
pub fn utf8_to_utf16(bytes: &Vec<u8>) -> (r: Option<Vec<u16>>)
    ensures
        match r {
            Some(units) => valid_utf8(bytes@) && units@ == encode_utf16(decode_utf8(bytes@)),
            None => !valid_utf8(bytes@),
        },
{
    let n = bytes.len();
    let mut i: usize = 0;
    let mut out: Vec<u16> = Vec::new();
    let ghost mut done: Seq<char> = Seq::empty();
    proof {
        assert(bytes@.skip(0) =~= bytes@);
    }
    while i < n
        invariant
            i <= n,
            n == bytes@.len(),
            valid_utf8(bytes@) == valid_utf8(bytes@.skip(i as int)),
            valid_utf8(bytes@) ==> decode_utf8(bytes@) == done + decode_utf8(
                bytes@.skip(i as int),
            ),
            out@ == encode_utf16(done),
        decreases n - i,
    {
        let ghost sub = bytes@.skip(i as int);
        let b0 = bytes[i];
        assert(sub[0] == b0);
        let mut s: u32 = 0;
        let mut len: usize = 1;
        if b0 < 0x80 {
            s = b0 as u32;
            len = 1;
            proof {
                assert((b0 & 0x7f) as u32 == b0 as u32) by (bit_vector)
                    requires
                        b0 < 0x80,
                ;
            }
        } else if 0xc0 <= b0 && b0 <= 0xdf {
            if n - i < 2 {
                return None;
            }
            let b1 = bytes[i + 1];
            assert(sub[1] == b1);
            if !(0x80 <= b1 && b1 <= 0xbf) {
                return None;
            }
            s = (((b0 & 0x1f) as u32) << 6) | ((b1 & 0x3f) as u32);
            proof {
                assert(s <= 0x7ff) by (bit_vector)
                    requires
                        s == (((b0 & 0x1f) as u32) << 6) | ((b1 & 0x3f) as u32),
                ;
            }
            if s < 0x80 {
                return None;
            }
            len = 2;
        } else if 0xe0 <= b0 && b0 <= 0xef {
            if n - i < 3 {
                return None;
            }
            let b1 = bytes[i + 1];
            let b2 = bytes[i + 2];
            assert(sub[1] == b1 && sub[2] == b2);
            if !(0x80 <= b1 && b1 <= 0xbf) || !(0x80 <= b2 && b2 <= 0xbf) {
                return None;
            }
            s = (((b0 & 0x0f) as u32) << 12) | (((b1 & 0x3f) as u32) << 6) | ((b2 & 0x3f) as u32);
            proof {
                assert(s <= 0xffff) by (bit_vector)
                    requires
                        s == (((b0 & 0x0f) as u32) << 12) | (((b1 & 0x3f) as u32) << 6) | ((b2
                            & 0x3f) as u32),
                ;
            }
            if s < 0x800 {
                return None;
            }
            if 0xd800 <= s && s <= 0xdfff {
                return None;
            }
            len = 3;
        } else if 0xf0 <= b0 && b0 <= 0xf7 {
            if n - i < 4 {
                return None;
            }
            let b1 = bytes[i + 1];
            let b2 = bytes[i + 2];
            let b3 = bytes[i + 3];
            assert(sub[1] == b1 && sub[2] == b2 && sub[3] == b3);
            if !(0x80 <= b1 && b1 <= 0xbf) || !(0x80 <= b2 && b2 <= 0xbf) || !(0x80 <= b3 && b3
                <= 0xbf) {
                return None;
            }
            s = (((b0 & 0x07) as u32) << 18) | (((b1 & 0x3f) as u32) << 12) | (((b2
                & 0x3f) as u32) << 6) | ((b3 & 0x3f) as u32);
            if !(0x10000 <= s && s <= 0x10ffff) {
                return None;
            }
            len = 4;
        } else {
            return None;
        }
        proof {
            assert(valid_first_scalar(sub));
            assert(decode_first_scalar(sub) == s);
            assert(length_of_first_scalar(sub) == len);
            assert(is_scalar(s));
        }
        let ghost c = (s as char);
        proof {
            assert(c as u32 == s);
            assert(pop_first_scalar(sub) =~= bytes@.skip(i as int + len as int));
            if valid_utf8(bytes@) {
                assert(valid_utf8(sub));
                assert(decode_utf8(sub) == seq![c] + decode_utf8(
                    bytes@.skip(i as int + len as int),
                ));
            }
        }
        if s < 0x10000 {
            out.push(s as u16);
            proof {
                assert(out@ =~= encode_utf16(done) + encode_char_utf16(c));
            }
        } else {
            let w = s - 0x10000;
            let hi = (0xd800 | ((w >> 10) & 0x3ff)) as u16;
            let lo = (0xdc00 | (w & 0x3ff)) as u16;
            out.push(hi);
            out.push(lo);
            proof {
                assert(hi == high_surrogate_of(s) && lo == low_surrogate_of(s));
                assert(out@ =~= encode_utf16(done) + encode_char_utf16(c));
            }
        }
        proof {
            encode_utf16_push(done, c);
            assert(done.push(c) =~= done + seq![c]);
            if valid_utf8(bytes@) {
                assert(done + (seq![c] + decode_utf8(bytes@.skip(i as int + len as int))) =~= (done
                    + seq![c]) + decode_utf8(bytes@.skip(i as int + len as int)));
            }
            done = done + seq![c];
        }
        i = i + len;
    }
    proof {
        assert(bytes@.skip(n as int) =~= Seq::<u8>::empty());
        assert(valid_utf8(bytes@));
        assert(done + decode_utf8(Seq::<u8>::empty()) =~= done);
    }
    Some(out)
}

/// Transcode a UTF-16 code-unit sequence into the UTF-8 encoding of the
/// same text. Returns `None` exactly when the units are not valid UTF-16.
pub fn utf16_to_utf8(units: &Vec<u16>) -> (r: Option<Vec<u8>>)
    ensures
        match r {
            Some(bytes) => valid_utf16(units@) && bytes@ == encode_utf8(decode_utf16(units@)),
            None => !valid_utf16(units@),
        },
{
    let n = units.len();
    let mut i: usize = 0;
    let mut out: Vec<u8> = Vec::new();
    let ghost mut done: Seq<char> = Seq::empty();
    proof {
        assert(units@.skip(0) =~= units@);
    }
    while i < n
        invariant
            i <= n,
            n == units@.len(),
            valid_utf16(units@) == valid_utf16(units@.skip(i as int)),
            valid_utf16(units@) ==> decode_utf16(units@) == done + decode_utf16(
                units@.skip(i as int),
            ),
            out@ == encode_utf8(done),
        decreases n - i,
    {
        let ghost sub = units@.skip(i as int);
        let u0 = units[i];
        assert(sub[0] == u0);
        let mut s: u32 = 0;
        let mut len: usize = 1;
        if u0 < 0xd800 || 0xe000 <= u0 {
            s = u0 as u32;
            len = 1;
        } else if u0 < 0xdc00 {
            if n - i < 2 {
                return None;
            }
            let u1 = units[i + 1];
            assert(sub[1] == u1);
            if !(0xdc00 <= u1 && u1 < 0xe000) {
                return None;
            }
            let t = (((u0 as u32) & 0x3ff) << 10) | ((u1 as u32) & 0x3ff);
            proof {
                assert((((u0 as u32) & 0x3ff) << 10) | ((u1 as u32) & 0x3ff) <= 0xfffff)
                    by (bit_vector);
            }
            s = 0x10000 + t;
            proof {
                assert(s == combine_surrogates(u0, u1));
            }
            len = 2;
        } else {
            return None;
        }
        proof {
            assert(valid_first_unit_seq(sub));
            assert(decode_first_unit_scalar(sub) == s);
            assert(length_of_first_unit_scalar(sub) == len);
        }
        let ghost c = (s as char);
        proof {
            assert(c as u32 == s);
            assert(pop_first_unit_scalar(sub) =~= units@.skip(i as int + len as int));
            if valid_utf16(units@) {
                assert(valid_utf16(sub));
                assert(decode_utf16(sub) == seq![c] + decode_utf16(
                    units@.skip(i as int + len as int),
                ));
            }
        }
        if s < 0x80 {
            out.push(s as u8);
            proof {
                assert((s & 0x7f) as u8 == s as u8) by (bit_vector)
                    requires
                        s < 0x80,
                ;
                assert(out@ =~= encode_utf8(done) + encode_scalar(s));
            }
        } else if s < 0x800 {
            out.push(0xc0 | ((s >> 6) & 0x1f) as u8);
            out.push(0x80 | (s & 0x3f) as u8);
            proof {
                assert(out@ =~= encode_utf8(done) + encode_scalar(s));
            }
        } else if s < 0x10000 {
            out.push(0xe0 | ((s >> 12) & 0x0f) as u8);
            out.push(0x80 | ((s >> 6) & 0x3f) as u8);
            out.push(0x80 | (s & 0x3f) as u8);
            proof {
                assert(out@ =~= encode_utf8(done) + encode_scalar(s));
            }
        } else {
            out.push(0xf0 | ((s >> 18) & 0x7) as u8);
            out.push(0x80 | ((s >> 12) & 0x3f) as u8);
            out.push(0x80 | ((s >> 6) & 0x3f) as u8);
            out.push(0x80 | (s & 0x3f) as u8);
            proof {
                assert(out@ =~= encode_utf8(done) + encode_scalar(s));
            }
        }
        proof {
            encode_utf8_push(done, c);
            assert(done.push(c) =~= done + seq![c]);
            if valid_utf16(units@) {
                assert(done + (seq![c] + decode_utf16(units@.skip(i as int + len as int))) =~= (done
                    + seq![c]) + decode_utf16(units@.skip(i as int + len as int)));
            }
            done = done + seq![c];
        }
        i = i + len;
    }
    proof {
        assert(units@.skip(n as int) =~= Seq::<u16>::empty());
        assert(valid_utf16(units@));
        assert(done + decode_utf16(Seq::<u16>::empty()) =~= done);
    }
    Some(out)
}

} // verus!
