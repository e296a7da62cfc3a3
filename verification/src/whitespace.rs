//! Whitespace as Unicode knows it, read off UTF-8 bytes: each character with
//! the property White_Space, by its encoding.

use vstd::prelude::*;
use vstd::slice::slice_subrange;
use vstd::utf8::{
    char_is_scalar, encode_scalar, encode_utf8, has_width_1_encoding, has_width_2_encoding, has_width_3_encoding,
    has_width_4_encoding, is_scalar, last_continuation_byte, leading_byte_width_1,
    leading_byte_width_2, leading_byte_width_3, leading_byte_width_4,
    second_last_continuation_byte, third_last_continuation_byte,
};

verus! {

/// The code points with the property White_Space.
pub open spec fn is_white_scalar(v: u32) -> bool {
    ||| 0x09 <= v <= 0x0D
    ||| v == 0x20
    ||| v == 0x85
    ||| v == 0xA0
    ||| v == 0x1680
    ||| 0x2000 <= v <= 0x200A
    ||| v == 0x2028
    ||| v == 0x2029
    ||| v == 0x202F
    ||| v == 0x205F
    ||| v == 0x3000
}

/// A whitespace character of one byte: U+0009 to U+000D, or U+0020.
pub open spec fn is_white_byte(a: u8) -> bool {
    0x09 <= a <= 0x0D || a == 0x20
}

/// A whitespace character of two bytes: U+0085 or U+00A0.
pub open spec fn is_white_pair(a: u8, b: u8) -> bool {
    a == 0xC2 && (b == 0x85 || b == 0xA0)
}

/// A whitespace character of three bytes: U+1680, U+2000 to U+200A, U+2028,
/// U+2029, U+202F, U+205F or U+3000.
pub open spec fn is_white_triple(a: u8, b: u8, c: u8) -> bool {
    ||| a == 0xE1 && b == 0x9A && c == 0x80
    ||| a == 0xE2 && b == 0x80 && (0x80 <= c <= 0x8A || c == 0xA8 || c == 0xA9 || c == 0xAF)
    ||| a == 0xE2 && b == 0x81 && c == 0x9F
    ||| a == 0xE3 && b == 0x80 && c == 0x80
}

/// The number of bytes of the whitespace character that `s` begins with; 0
/// where it begins with none.
pub open spec fn white_prefix(s: Seq<u8>) -> nat {
    if s.len() >= 1 && is_white_byte(s[0]) {
        1
    } else if s.len() >= 2 && is_white_pair(s[0], s[1]) {
        2
    } else if s.len() >= 3 && is_white_triple(s[0], s[1], s[2]) {
        3
    } else {
        0
    }
}

/// The number of bytes of the whitespace character that `s` ends with; 0
/// where it ends with none.
pub open spec fn white_suffix(s: Seq<u8>) -> nat {
    let n = s.len() as int;
    if n >= 1 && is_white_byte(s[n - 1]) {
        1
    } else if n >= 2 && is_white_pair(s[n - 2], s[n - 1]) {
        2
    } else if n >= 3 && is_white_triple(s[n - 3], s[n - 2], s[n - 1]) {
        3
    } else {
        0
    }
}

/// `s` without the whitespace characters that it begins with.
pub open spec fn trim_white_start(s: Seq<u8>) -> Seq<u8>
    decreases s.len(),
{
    if white_prefix(s) > 0 {
        trim_white_start(s.skip(white_prefix(s) as int))
    } else {
        s
    }
}

/// `s` without the whitespace characters that it ends with.
pub open spec fn trim_white_end(s: Seq<u8>) -> Seq<u8>
    decreases s.len(),
{
    if white_suffix(s) > 0 {
        trim_white_end(s.take(s.len() - white_suffix(s)))
    } else {
        s
    }
}

/// `s` without the whitespace characters at either end.
pub open spec fn trim_white(s: Seq<u8>) -> Seq<u8> {
    trim_white_end(trim_white_start(s))
}

/// No whitespace character stands at either end of `s`.
pub open spec fn is_trimmed(s: Seq<u8>) -> bool {
    white_prefix(s) == 0 && white_suffix(s) == 0
}

proof fn lemma_white_width_1(v: u32)
    by (bit_vector)
    requires
        has_width_1_encoding(v),
    ensures
        leading_byte_width_1(v) <= 0x7F,
        is_white_byte(leading_byte_width_1(v)) == is_white_scalar(v),
{
}

proof fn lemma_white_width_2(v: u32)
    by (bit_vector)
    requires
        has_width_2_encoding(v),
    ensures
        ({
            let a = leading_byte_width_2(v);
            let b = last_continuation_byte(v);
            &&& 0xC0 <= a <= 0xDF
            &&& 0x80 <= b <= 0xBF
            &&& is_white_pair(a, b) == is_white_scalar(v)
        }),
{
}

proof fn lemma_white_width_3(v: u32)
    by (bit_vector)
    requires
        has_width_3_encoding(v),
    ensures
        ({
            let a = leading_byte_width_3(v);
            let b = second_last_continuation_byte(v);
            let c = last_continuation_byte(v);
            &&& 0xE0 <= a <= 0xEF
            &&& 0x80 <= b <= 0xBF
            &&& 0x80 <= c <= 0xBF
            &&& is_white_triple(a, b, c) == is_white_scalar(v)
        }),
{
}

proof fn lemma_white_width_4(v: u32)
    by (bit_vector)
    requires
        has_width_4_encoding(v),
    ensures
        ({
            let a = leading_byte_width_4(v);
            let b = third_last_continuation_byte(v);
            let c = second_last_continuation_byte(v);
            let d = last_continuation_byte(v);
            &&& 0xF0 <= a
            &&& 0x80 <= b <= 0xBF
            &&& 0x80 <= c <= 0xBF
            &&& 0x80 <= d <= 0xBF
            &&& !is_white_scalar(v)
        }),
{
}

/// The bytes of a character's encoding, each in the range of its place.
proof fn lemma_white_widths(v: u32)
    requires
        is_scalar(v),
    ensures
        has_width_1_encoding(v) ==> leading_byte_width_1(v) <= 0x7F && is_white_byte(
            leading_byte_width_1(v),
        ) == is_white_scalar(v),
        has_width_2_encoding(v) ==> 0xC0 <= leading_byte_width_2(v) <= 0xDF && is_white_pair(
            leading_byte_width_2(v),
            last_continuation_byte(v),
        ) == is_white_scalar(v),
        has_width_3_encoding(v) ==> 0xE0 <= leading_byte_width_3(v) <= 0xEF && is_white_triple(
            leading_byte_width_3(v),
            second_last_continuation_byte(v),
            last_continuation_byte(v),
        ) == is_white_scalar(v),
        has_width_4_encoding(v) ==> 0xF0 <= leading_byte_width_4(v) && !is_white_scalar(v),
        !has_width_1_encoding(v) ==> 0x80 <= last_continuation_byte(v) <= 0xBF,
        has_width_3_encoding(v) || has_width_4_encoding(v) ==> 0x80
            <= second_last_continuation_byte(v) <= 0xBF,
        has_width_4_encoding(v) ==> 0x80 <= third_last_continuation_byte(v) <= 0xBF,
{
    if has_width_1_encoding(v) {
        lemma_white_width_1(v);
    } else if has_width_2_encoding(v) {
        lemma_white_width_2(v);
    } else if has_width_3_encoding(v) {
        lemma_white_width_3(v);
    } else {
        lemma_white_width_4(v);
    }
}

/// The encoding of a character is one whitespace character, read from
/// either end, where the character has the property White_Space, and is
/// none where it has not.
pub proof fn law_white_scalar(v: u32)
    requires
        is_scalar(v),
    ensures
        white_prefix(encode_scalar(v)) == if is_white_scalar(v) {
            encode_scalar(v).len()
        } else {
            0
        },
        white_suffix(encode_scalar(v)) == white_prefix(encode_scalar(v)),
{
    lemma_white_widths(v);
}

/// What follows a character's encoding does not change what the bytes
/// begin with.
proof fn lemma_white_prefix_of_text(v: u32, rest: Seq<u8>)
    requires
        is_scalar(v),
    ensures
        white_prefix(encode_scalar(v) + rest) == white_prefix(encode_scalar(v)),
{
    lemma_white_widths(v);
    let e = encode_scalar(v);
    let s = e + rest;
    assert(s[0] == e[0]);
    if e.len() >= 2 {
        assert(s[1] == e[1]);
    }
    if e.len() >= 3 {
        assert(s[2] == e[2]);
    }
}

/// What stands ahead of a character's encoding does not change what the
/// bytes end with.
proof fn lemma_white_suffix_of_text(front: Seq<u8>, v: u32)
    requires
        is_scalar(v),
    ensures
        white_suffix(front + encode_scalar(v)) == white_suffix(encode_scalar(v)),
{
    lemma_white_widths(v);
    let e = encode_scalar(v);
    let s = front + e;
    let n = s.len() as int;
    let m = e.len() as int;
    assert(s[n - 1] == e[m - 1]);
    if m >= 2 {
        assert(s[n - 2] == e[m - 2]);
    }
    if m >= 3 {
        assert(s[n - 3] == e[m - 3]);
    }
}

/// The encoding of a text ends with the encoding of its last character.
proof fn lemma_encode_last(chars: Seq<char>)
    requires
        chars.len() > 0,
    ensures
        encode_utf8(chars) == encode_utf8(chars.drop_last()) + encode_scalar(chars.last() as u32),
    decreases chars.len(),
{
    let rest = chars.drop_first();
    if rest.len() == 0 {
        reveal_with_fuel(encode_utf8, 2);
        assert(chars.drop_last() =~= rest);
        assert(encode_utf8(chars) =~= encode_utf8(chars.drop_last()) + encode_scalar(
            chars.last() as u32,
        ));
    } else {
        lemma_encode_last(rest);
        assert(chars.drop_last().drop_first() =~= rest.drop_last());
        assert(rest.last() == chars.last());
        assert(chars.drop_last()[0] == chars[0]);
        assert(encode_utf8(chars) =~= encode_utf8(chars.drop_last()) + encode_scalar(
            chars.last() as u32,
        ));
    }
}

/// `chars` without the whitespace characters that it begins with.
pub open spec fn trim_chars_start(chars: Seq<char>) -> Seq<char>
    decreases chars.len(),
{
    if chars.len() > 0 && is_white_scalar(chars[0] as u32) {
        trim_chars_start(chars.drop_first())
    } else {
        chars
    }
}

/// `chars` without the whitespace characters that it ends with.
pub open spec fn trim_chars_end(chars: Seq<char>) -> Seq<char>
    decreases chars.len(),
{
    if chars.len() > 0 && is_white_scalar(chars.last() as u32) {
        trim_chars_end(chars.drop_last())
    } else {
        chars
    }
}

/// `chars` without the whitespace characters at either end.
pub open spec fn trim_chars(chars: Seq<char>) -> Seq<char> {
    trim_chars_end(trim_chars_start(chars))
}

/// Trimming the encoding of a text at its start is trimming the text
/// there.
pub proof fn law_trim_start_of_text(chars: Seq<char>)
    ensures
        trim_white_start(encode_utf8(chars)) == encode_utf8(trim_chars_start(chars)),
    decreases chars.len(),
{
    if chars.len() > 0 {
        let v = chars[0] as u32;
        let e = encode_scalar(v);
        let rest = encode_utf8(chars.drop_first());
        char_is_scalar(chars[0]);
        law_white_scalar(v);
        lemma_white_prefix_of_text(v, rest);
        if is_white_scalar(v) {
            assert((e + rest).skip(e.len() as int) =~= rest);
            law_trim_start_of_text(chars.drop_first());
        }
    }
}

/// Trimming the encoding of a text at its end is trimming the text there.
pub proof fn law_trim_end_of_text(chars: Seq<char>)
    ensures
        trim_white_end(encode_utf8(chars)) == encode_utf8(trim_chars_end(chars)),
    decreases chars.len(),
{
    if chars.len() > 0 {
        let v = chars.last() as u32;
        let e = encode_scalar(v);
        let front = encode_utf8(chars.drop_last());
        char_is_scalar(chars.last());
        law_white_scalar(v);
        lemma_encode_last(chars);
        lemma_white_suffix_of_text(front, v);
        if is_white_scalar(v) {
            assert((front + e).take((front + e).len() - e.len()) =~= front);
            law_trim_end_of_text(chars.drop_last());
        }
    }
}

/// Trimming the encoding of a text is trimming the text: the bytes that
/// stay are the encoding of the characters that stay.
pub proof fn law_trim_of_text(chars: Seq<char>)
    ensures
        trim_white(encode_utf8(chars)) == encode_utf8(trim_chars(chars)),
{
    law_trim_start_of_text(chars);
    law_trim_end_of_text(trim_chars_start(chars));
}

pub fn white_byte(a: u8) -> (r: bool)
    ensures
        r == is_white_byte(a),
{
    (0x09 <= a && a <= 0x0D) || a == 0x20
}

pub fn white_pair(a: u8, b: u8) -> (r: bool)
    ensures
        r == is_white_pair(a, b),
{
    a == 0xC2 && (b == 0x85 || b == 0xA0)
}

pub fn white_triple(a: u8, b: u8, c: u8) -> (r: bool)
    ensures
        r == is_white_triple(a, b, c),
{
    (a == 0xE1 && b == 0x9A && c == 0x80) || (a == 0xE2 && b == 0x80 && ((0x80 <= c && c <= 0x8A)
        || c == 0xA8 || c == 0xA9 || c == 0xAF)) || (a == 0xE2 && b == 0x81 && c == 0x9F) || (a
        == 0xE3 && b == 0x80 && c == 0x80)
}

pub fn white_prefix_len(s: &[u8]) -> (k: usize)
    ensures
        k == white_prefix(s@),
        k <= s@.len(),
{
    let n = s.len();
    if n >= 1 && white_byte(s[0]) {
        1
    } else if n >= 2 && white_pair(s[0], s[1]) {
        2
    } else if n >= 3 && white_triple(s[0], s[1], s[2]) {
        3
    } else {
        0
    }
}

pub fn white_suffix_len(s: &[u8]) -> (k: usize)
    ensures
        k == white_suffix(s@),
        k <= s@.len(),
{
    let n = s.len();
    if n >= 1 && white_byte(s[n - 1]) {
        1
    } else if n >= 2 && white_pair(s[n - 2], s[n - 1]) {
        2
    } else if n >= 3 && white_triple(s[n - 3], s[n - 2], s[n - 1]) {
        3
    } else {
        0
    }
}

pub fn trim_white_start_of(s: &[u8]) -> (r: &[u8])
    ensures
        r@ == trim_white_start(s@),
{
    let mut rest = s;
    let mut k = white_prefix_len(rest);
    while k > 0
        invariant
            k == white_prefix(rest@),
            k <= rest@.len(),
            trim_white_start(rest@) == trim_white_start(s@),
        decreases rest@.len(),
    {
        proof {
            assert(rest@.subrange(k as int, rest@.len() as int) =~= rest@.skip(k as int));
        }
        rest = slice_subrange(rest, k, rest.len());
        k = white_prefix_len(rest);
    }
    rest
}

pub fn trim_white_end_of(s: &[u8]) -> (r: &[u8])
    ensures
        r@ == trim_white_end(s@),
{
    let mut rest = s;
    let mut k = white_suffix_len(rest);
    while k > 0
        invariant
            k == white_suffix(rest@),
            k <= rest@.len(),
            trim_white_end(rest@) == trim_white_end(s@),
        decreases rest@.len(),
    {
        proof {
            assert(rest@.subrange(0, rest@.len() - k) =~= rest@.take(rest@.len() - k));
        }
        rest = slice_subrange(rest, 0, rest.len() - k);
        k = white_suffix_len(rest);
    }
    rest
}

pub fn trim_white_of(s: &[u8]) -> (r: &[u8])
    ensures
        r@ == trim_white(s@),
{
    trim_white_end_of(trim_white_start_of(s))
}

} // verus!
