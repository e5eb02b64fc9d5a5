//! The mathematical model: the field modulus, character classes for decimal
//! and hexadecimal numerals, byte/character codecs, and the canonical decimal
//! rendering of a value.

use vstd::prelude::*;
use crate::digits::{
    digits_ok, lemma_min_digits_props, lemma_seq_val_bound, lemma_val_push_chain, min_digits,
    seq_val,
};
use vstd::arithmetic::div_mod::lemma_fundamental_div_mod;
use vstd::arithmetic::power::{pow, lemma_pow_increases, lemma_pow_multiplies};
use vstd::arithmetic::power2::{pow2, lemma_pow2_adds, lemma2_to64, lemma2_to64_rest};

verus! {

/// The Stark field modulus: `2^251 + 17 * 2^192 + 1`. Every valid felt is
/// strictly below this prime.
pub open spec fn modulus() -> int {
    0x800000000000011000000000000000000000000000000000000000000000001int
}

/// The decimal digits of the modulus, most significant first.
pub open spec fn modulus_dec_digits() -> Seq<u8> {
    seq![
        3u8, 6, 1, 8, 5, 0, 2, 7, 8, 8, 6, 6, 6, 1, 3, 1, 2, 1, 3, 6, 9, 7, 3, 2, 2, 7, 8, 3, 0,
        9, 5, 0, 7, 0, 1, 0, 5, 6, 2, 3, 1, 0, 7, 2, 1, 5, 3, 3, 1, 5, 9, 6, 6, 9, 9, 9, 7, 3, 0,
        9, 2, 0, 5, 6, 1, 3, 5, 8, 7, 2, 0, 2, 0, 4, 8, 1,
    ]
}

/// The big-endian bytes of the modulus.
pub open spec fn modulus_be_bytes() -> Seq<u8> {
    seq![
        8u8, 0, 0, 0, 0, 0, 0, 17, 0, 0, 0, 0, 0, 0, 0, 0, 0, 0, 0, 0, 0, 0, 0, 0, 0, 0, 0, 0, 0,
        0, 0, 1,
    ]
}

#[verifier::rlimit(60)]
pub proof fn lemma_modulus_dec_digits()
    ensures
        seq_val(modulus_dec_digits(), 10) == modulus(),
        digits_ok(modulus_dec_digits(), 10),
        modulus_dec_digits().len() == 76,
        modulus_dec_digits()[0] != 0,
{
    let s0 = Seq::<u8>::empty();
    let s1 = s0.push(3u8);
    lemma_val_push_chain(s0, 3u8, 10);
    let s2 = s1.push(6u8);
    lemma_val_push_chain(s1, 6u8, 10);
    let s3 = s2.push(1u8);
    lemma_val_push_chain(s2, 1u8, 10);
    let s4 = s3.push(8u8);
    lemma_val_push_chain(s3, 8u8, 10);
    let s5 = s4.push(5u8);
    lemma_val_push_chain(s4, 5u8, 10);
    let s6 = s5.push(0u8);
    lemma_val_push_chain(s5, 0u8, 10);
    let s7 = s6.push(2u8);
    lemma_val_push_chain(s6, 2u8, 10);
    let s8 = s7.push(7u8);
    lemma_val_push_chain(s7, 7u8, 10);
    let s9 = s8.push(8u8);
    lemma_val_push_chain(s8, 8u8, 10);
    let s10 = s9.push(8u8);
    lemma_val_push_chain(s9, 8u8, 10);
    let s11 = s10.push(6u8);
    lemma_val_push_chain(s10, 6u8, 10);
    let s12 = s11.push(6u8);
    lemma_val_push_chain(s11, 6u8, 10);
    let s13 = s12.push(6u8);
    lemma_val_push_chain(s12, 6u8, 10);
    let s14 = s13.push(1u8);
    lemma_val_push_chain(s13, 1u8, 10);
    let s15 = s14.push(3u8);
    lemma_val_push_chain(s14, 3u8, 10);
    let s16 = s15.push(1u8);
    lemma_val_push_chain(s15, 1u8, 10);
    let s17 = s16.push(2u8);
    lemma_val_push_chain(s16, 2u8, 10);
    let s18 = s17.push(1u8);
    lemma_val_push_chain(s17, 1u8, 10);
    let s19 = s18.push(3u8);
    lemma_val_push_chain(s18, 3u8, 10);
    let s20 = s19.push(6u8);
    lemma_val_push_chain(s19, 6u8, 10);
    let s21 = s20.push(9u8);
    lemma_val_push_chain(s20, 9u8, 10);
    let s22 = s21.push(7u8);
    lemma_val_push_chain(s21, 7u8, 10);
    let s23 = s22.push(3u8);
    lemma_val_push_chain(s22, 3u8, 10);
    let s24 = s23.push(2u8);
    lemma_val_push_chain(s23, 2u8, 10);
    let s25 = s24.push(2u8);
    lemma_val_push_chain(s24, 2u8, 10);
    let s26 = s25.push(7u8);
    lemma_val_push_chain(s25, 7u8, 10);
    let s27 = s26.push(8u8);
    lemma_val_push_chain(s26, 8u8, 10);
    let s28 = s27.push(3u8);
    lemma_val_push_chain(s27, 3u8, 10);
    let s29 = s28.push(0u8);
    lemma_val_push_chain(s28, 0u8, 10);
    let s30 = s29.push(9u8);
    lemma_val_push_chain(s29, 9u8, 10);
    let s31 = s30.push(5u8);
    lemma_val_push_chain(s30, 5u8, 10);
    let s32 = s31.push(0u8);
    lemma_val_push_chain(s31, 0u8, 10);
    let s33 = s32.push(7u8);
    lemma_val_push_chain(s32, 7u8, 10);
    let s34 = s33.push(0u8);
    lemma_val_push_chain(s33, 0u8, 10);
    let s35 = s34.push(1u8);
    lemma_val_push_chain(s34, 1u8, 10);
    let s36 = s35.push(0u8);
    lemma_val_push_chain(s35, 0u8, 10);
    let s37 = s36.push(5u8);
    lemma_val_push_chain(s36, 5u8, 10);
    let s38 = s37.push(6u8);
    lemma_val_push_chain(s37, 6u8, 10);
    let s39 = s38.push(2u8);
    lemma_val_push_chain(s38, 2u8, 10);
    let s40 = s39.push(3u8);
    lemma_val_push_chain(s39, 3u8, 10);
    let s41 = s40.push(1u8);
    lemma_val_push_chain(s40, 1u8, 10);
    let s42 = s41.push(0u8);
    lemma_val_push_chain(s41, 0u8, 10);
    let s43 = s42.push(7u8);
    lemma_val_push_chain(s42, 7u8, 10);
    let s44 = s43.push(2u8);
    lemma_val_push_chain(s43, 2u8, 10);
    let s45 = s44.push(1u8);
    lemma_val_push_chain(s44, 1u8, 10);
    let s46 = s45.push(5u8);
    lemma_val_push_chain(s45, 5u8, 10);
    let s47 = s46.push(3u8);
    lemma_val_push_chain(s46, 3u8, 10);
    let s48 = s47.push(3u8);
    lemma_val_push_chain(s47, 3u8, 10);
    let s49 = s48.push(1u8);
    lemma_val_push_chain(s48, 1u8, 10);
    let s50 = s49.push(5u8);
    lemma_val_push_chain(s49, 5u8, 10);
    let s51 = s50.push(9u8);
    lemma_val_push_chain(s50, 9u8, 10);
    let s52 = s51.push(6u8);
    lemma_val_push_chain(s51, 6u8, 10);
    let s53 = s52.push(6u8);
    lemma_val_push_chain(s52, 6u8, 10);
    let s54 = s53.push(9u8);
    lemma_val_push_chain(s53, 9u8, 10);
    let s55 = s54.push(9u8);
    lemma_val_push_chain(s54, 9u8, 10);
    let s56 = s55.push(9u8);
    lemma_val_push_chain(s55, 9u8, 10);
    let s57 = s56.push(7u8);
    lemma_val_push_chain(s56, 7u8, 10);
    let s58 = s57.push(3u8);
    lemma_val_push_chain(s57, 3u8, 10);
    let s59 = s58.push(0u8);
    lemma_val_push_chain(s58, 0u8, 10);
    let s60 = s59.push(9u8);
    lemma_val_push_chain(s59, 9u8, 10);
    let s61 = s60.push(2u8);
    lemma_val_push_chain(s60, 2u8, 10);
    let s62 = s61.push(0u8);
    lemma_val_push_chain(s61, 0u8, 10);
    let s63 = s62.push(5u8);
    lemma_val_push_chain(s62, 5u8, 10);
    let s64 = s63.push(6u8);
    lemma_val_push_chain(s63, 6u8, 10);
    let s65 = s64.push(1u8);
    lemma_val_push_chain(s64, 1u8, 10);
    let s66 = s65.push(3u8);
    lemma_val_push_chain(s65, 3u8, 10);
    let s67 = s66.push(5u8);
    lemma_val_push_chain(s66, 5u8, 10);
    let s68 = s67.push(8u8);
    lemma_val_push_chain(s67, 8u8, 10);
    let s69 = s68.push(7u8);
    lemma_val_push_chain(s68, 7u8, 10);
    let s70 = s69.push(2u8);
    lemma_val_push_chain(s69, 2u8, 10);
    let s71 = s70.push(0u8);
    lemma_val_push_chain(s70, 0u8, 10);
    let s72 = s71.push(2u8);
    lemma_val_push_chain(s71, 2u8, 10);
    let s73 = s72.push(0u8);
    lemma_val_push_chain(s72, 0u8, 10);
    let s74 = s73.push(4u8);
    lemma_val_push_chain(s73, 4u8, 10);
    let s75 = s74.push(8u8);
    lemma_val_push_chain(s74, 8u8, 10);
    let s76 = s75.push(1u8);
    lemma_val_push_chain(s75, 1u8, 10);
    assert(seq_val(s76, 10) == modulus());
    assert(modulus_dec_digits() =~= s76);
}

#[verifier::rlimit(60)]
pub proof fn lemma_modulus_be_bytes()
    ensures
        seq_val(modulus_be_bytes(), 256) == modulus(),
        digits_ok(modulus_be_bytes(), 256),
        modulus_be_bytes().len() == 32,
        modulus_be_bytes()[0] != 0,
{
    let s0 = Seq::<u8>::empty();
    let s1 = s0.push(8u8);
    lemma_val_push_chain(s0, 8u8, 256);
    let s2 = s1.push(0u8);
    lemma_val_push_chain(s1, 0u8, 256);
    let s3 = s2.push(0u8);
    lemma_val_push_chain(s2, 0u8, 256);
    let s4 = s3.push(0u8);
    lemma_val_push_chain(s3, 0u8, 256);
    let s5 = s4.push(0u8);
    lemma_val_push_chain(s4, 0u8, 256);
    let s6 = s5.push(0u8);
    lemma_val_push_chain(s5, 0u8, 256);
    let s7 = s6.push(0u8);
    lemma_val_push_chain(s6, 0u8, 256);
    let s8 = s7.push(17u8);
    lemma_val_push_chain(s7, 17u8, 256);
    let s9 = s8.push(0u8);
    lemma_val_push_chain(s8, 0u8, 256);
    let s10 = s9.push(0u8);
    lemma_val_push_chain(s9, 0u8, 256);
    let s11 = s10.push(0u8);
    lemma_val_push_chain(s10, 0u8, 256);
    let s12 = s11.push(0u8);
    lemma_val_push_chain(s11, 0u8, 256);
    let s13 = s12.push(0u8);
    lemma_val_push_chain(s12, 0u8, 256);
    let s14 = s13.push(0u8);
    lemma_val_push_chain(s13, 0u8, 256);
    let s15 = s14.push(0u8);
    lemma_val_push_chain(s14, 0u8, 256);
    let s16 = s15.push(0u8);
    lemma_val_push_chain(s15, 0u8, 256);
    let s17 = s16.push(0u8);
    lemma_val_push_chain(s16, 0u8, 256);
    let s18 = s17.push(0u8);
    lemma_val_push_chain(s17, 0u8, 256);
    let s19 = s18.push(0u8);
    lemma_val_push_chain(s18, 0u8, 256);
    let s20 = s19.push(0u8);
    lemma_val_push_chain(s19, 0u8, 256);
    let s21 = s20.push(0u8);
    lemma_val_push_chain(s20, 0u8, 256);
    let s22 = s21.push(0u8);
    lemma_val_push_chain(s21, 0u8, 256);
    let s23 = s22.push(0u8);
    lemma_val_push_chain(s22, 0u8, 256);
    let s24 = s23.push(0u8);
    lemma_val_push_chain(s23, 0u8, 256);
    let s25 = s24.push(0u8);
    lemma_val_push_chain(s24, 0u8, 256);
    let s26 = s25.push(0u8);
    lemma_val_push_chain(s25, 0u8, 256);
    let s27 = s26.push(0u8);
    lemma_val_push_chain(s26, 0u8, 256);
    let s28 = s27.push(0u8);
    lemma_val_push_chain(s27, 0u8, 256);
    let s29 = s28.push(0u8);
    lemma_val_push_chain(s28, 0u8, 256);
    let s30 = s29.push(0u8);
    lemma_val_push_chain(s29, 0u8, 256);
    let s31 = s30.push(0u8);
    lemma_val_push_chain(s30, 0u8, 256);
    let s32 = s31.push(1u8);
    lemma_val_push_chain(s31, 1u8, 256);
    assert(seq_val(s32, 256) == modulus());
    assert(modulus_be_bytes() =~= s32);
}

/// Any value that fits in 31 bytes is strictly below the modulus.
pub proof fn lemma_31_bytes_below_modulus(b: Seq<u8>)
    requires
        b.len() <= 31,
    ensures
        seq_val(b, 256) < modulus(),
{
    assert(digits_ok(b, 256));
    lemma_seq_val_bound(b, 256);
    lemma_pow_increases(256, b.len() as nat, 31);
    lemma_pow_256_31();
}


/// `256^31 == 2^248` lies strictly below the modulus.
pub proof fn lemma_pow_256_31()
    ensures
        pow(256, 31) < modulus(),
{
    lemma2_to64();
    lemma2_to64_rest();
    vstd::arithmetic::power::lemma_pow_positive(2, 8);
    vstd::arithmetic::power::lemma_pow_positive(2, 248);
    assert(pow(2, 8) == 256);
    assert(pow(2, 248) == pow(256, 31)) by {
        lemma_pow_multiplies(2, 8, 31);
    };
    lemma_pow2_adds(62, 62);
    lemma_pow2_adds(124, 124);
    assert(pow2(124) == 0x10000000000000000000000000000000) by (nonlinear_arith)
        requires
            pow2(124) == pow2(62) * pow2(62),
            pow2(62) == 0x4000000000000000,
    ;
    assert(pow2(248) == 0x100000000000000000000000000000000000000000000000000000000000000)
        by (nonlinear_arith)
        requires
            pow2(248) == pow2(124) * pow2(124),
            pow2(124) == 0x10000000000000000000000000000000,
    ;
    assert(pow(2, 248) == pow2(248));
}

/// `256^32 == 2^256` lies strictly above the modulus.
pub proof fn lemma_pow_256_32()
    ensures
        pow(256, 32) > modulus(),
{
    lemma2_to64();
    lemma2_to64_rest();
    vstd::arithmetic::power::lemma_pow_positive(2, 8);
    vstd::arithmetic::power::lemma_pow_positive(2, 256);
    assert(pow(2, 8) == 256);
    assert(pow(2, 256) == pow(256, 32)) by {
        lemma_pow_multiplies(2, 8, 32);
    };
    lemma_pow2_adds(64, 64);
    lemma_pow2_adds(128, 128);
    assert(pow2(128) == 0x100000000000000000000000000000000) by (nonlinear_arith)
        requires
            pow2(128) == pow2(64) * pow2(64),
            pow2(64) == 0x10000000000000000,
    ;
    assert(pow2(256) == 0x10000000000000000000000000000000000000000000000000000000000000000)
        by (nonlinear_arith)
        requires
            pow2(256) == pow2(128) * pow2(128),
            pow2(128) == 0x100000000000000000000000000000000,
    ;
    assert(pow(2, 256) == pow2(256));
}

/// The character with the code point of the given byte.
pub open spec fn byte_char(b: u8) -> char {
    b as char
}

pub open spec fn is_dec_digit(c: char) -> bool {
    48 <= c as int <= 57
}

pub open spec fn is_hex_digit(c: char) -> bool {
    is_dec_digit(c) || 97 <= c as int <= 102 || 65 <= c as int <= 70
}

pub open spec fn all_dec_digits(s: Seq<char>) -> bool {
    forall|i: int| 0 <= i < s.len() ==> is_dec_digit(s[i])
}

pub open spec fn all_hex_digits(s: Seq<char>) -> bool {
    forall|i: int| 0 <= i < s.len() ==> is_hex_digit(s[i])
}

pub open spec fn dec_digit_val(c: char) -> u8 {
    (c as int - 48) as u8
}

pub open spec fn hex_digit_val(c: char) -> u8 {
    if 97 <= c as int <= 102 {
        (c as int - 87) as u8
    } else if 65 <= c as int <= 70 {
        (c as int - 55) as u8
    } else {
        (c as int - 48) as u8
    }
}

/// The digit values of a decimal numeral, most significant first.
pub open spec fn dec_digit_vals(s: Seq<char>) -> Seq<u8> {
    Seq::new(s.len(), |i: int| dec_digit_val(s[i]))
}

/// The numeric value of a decimal numeral.
pub open spec fn dec_val(s: Seq<char>) -> int {
    seq_val(dec_digit_vals(s), 10)
}

/// The bytes encoded by an even-length sequence of hexadecimal digits.
pub open spec fn bytes_of_hex(s: Seq<char>) -> Seq<u8> {
    Seq::new((s.len() / 2) as nat, |i: int|
        (16 * (hex_digit_val(s[2 * i]) as int) + hex_digit_val(s[2 * i + 1]) as int) as u8)
}

/// The lowercase hexadecimal digit character for a value below 16.
pub open spec fn hex_char(v: u8) -> char {
    if v < 10 {
        byte_char((48 + v) as u8)
    } else {
        byte_char((87 + v) as u8)
    }
}

/// The lowercase, two-digits-per-byte hexadecimal rendering of a byte string.
pub open spec fn hex_str_of_bytes(b: Seq<u8>) -> Seq<char> {
    Seq::new(2 * b.len(), |i: int|
        if i % 2 == 0 {
            hex_char(b[i / 2] / 16)
        } else {
            hex_char(b[i / 2] % 16)
        })
}

/// The characters of an ASCII byte string.
pub open spec fn ascii_chars_of(b: Seq<u8>) -> Seq<char> {
    Seq::new(b.len(), |i: int| byte_char(b[i]))
}

/// The bytes of an ASCII character string.
pub open spec fn ascii_bytes_of(s: Seq<char>) -> Seq<u8> {
    Seq::new(s.len(), |i: int| s[i] as u8)
}

/// A byte string decodes to a short string when it is at most 31 bytes of
/// ASCII.
pub open spec fn decodable(b: Seq<u8>) -> bool {
    b.len() <= 31 && forall|i: int| 0 <= i < b.len() ==> b[i] < 128
}

/// The canonical decimal rendering of a nonnegative value: no leading zeros,
/// `"0"` for zero.
pub open spec fn dec_str_of(n: int) -> Seq<char> {
    if n <= 0 {
        seq!['0']
    } else {
        Seq::new(min_digits(n, 10).len(), |i: int| byte_char((48 + min_digits(n, 10)[i]) as u8))
    }
}

/// Facts about the canonical decimal rendering: it is a nonempty all-digit
/// string whose numeric value is the rendered value, it never carries a
/// leading zero (except for the single digit of zero itself), and its second
/// character is never `x`.
pub proof fn lemma_dec_str_of(n: int)
    requires
        n >= 0,
    ensures
        all_dec_digits(dec_str_of(n)),
        dec_str_of(n).len() > 0,
        dec_val(dec_str_of(n)) == n,
        n > 0 ==> dec_str_of(n)[0] != '0',
{
    let s = dec_str_of(n);
    if n == 0 {
        assert(is_dec_digit('0'));
        assert(dec_digit_val('0') == 0);
        assert(dec_digit_vals(s) =~= seq![0u8]);
        assert(seq_val(seq![0u8], 10) == 0 * pow(10, 0) + seq_val(seq![0u8].drop_first(), 10));
        assert(seq![0u8].drop_first() =~= Seq::<u8>::empty());
        vstd::arithmetic::power::lemma_pow0(10);
    } else {
        lemma_min_digits_props(n, 10);
        let md = min_digits(n, 10);
        assert forall|i: int| 0 <= i < s.len() implies is_dec_digit(s[i]) by {
            assert((md[i] as int) < 10);
            char_cast_facts((48 + md[i]) as u8);
        };
        assert(dec_digit_vals(s) =~= md) by {
            assert forall|i: int| 0 <= i < s.len() implies dec_digit_vals(s)[i] == md[i] by {
                char_cast_facts((48 + md[i]) as u8);
            };
        };
        char_cast_facts((48 + md[0]) as u8);
        assert('0' as int == 48);
    }
}

/// An ASCII code point below 128 survives the round trip through `char`.
pub proof fn char_cast_facts(b: u8)
    requires
        b < 128,
    ensures
        byte_char(b) as int == b as int,
        byte_char(b) as u8 == b,
{
}

/// An ASCII character survives the round trip through `u8`.
pub proof fn ascii_char_cast(c: char)
    requires
        (c as int) < 128,
    ensures
        byte_char(c as u8) == c,
        (c as u8) as int == c as int,
{
    vstd::utf8::char_is_scalar(c);
    assert((c as u8) as int == c as int);
    char_cast_facts(c as u8);
    vstd::utf8::char_u32_cast(c, c as u32);
    assert(byte_char(c as u8) as int == c as int);
    assert(byte_char(c as u8) == c) by {
        let d = byte_char(c as u8);
        assert(d as u32 == c as u32);
        vstd::utf8::char_u32_cast(d, d as u32);
    };
}

/// Encoding bytes to lowercase hex digits and decoding them back is the
/// identity.
pub proof fn lemma_hex_round_trip_bytes(b: Seq<u8>)
    ensures
        all_hex_digits(hex_str_of_bytes(b)),
        bytes_of_hex(hex_str_of_bytes(b)) =~= b,
        hex_str_of_bytes(b).len() % 2 == 0,
{
    let h = hex_str_of_bytes(b);
    assert forall|i: int| 0 <= i < h.len() implies is_hex_digit(h[i]) by {
        let v = if i % 2 == 0 {
            b[i / 2] / 16
        } else {
            b[i / 2] % 16
        };
        assert(v < 16);
        if v < 10 {
            char_cast_facts((48 + v) as u8);
        } else {
            char_cast_facts((87 + v) as u8);
        }
    };
    assert forall|i: int| 0 <= i < b.len() implies bytes_of_hex(h)[i] == b[i] by {
        let hi = b[i] / 16;
        let lo = b[i] % 16;
        assert(2 * i % 2 == 0 && (2 * i + 1) % 2 == 1) by (nonlinear_arith);
        assert((2 * i) / 2 == i && (2 * i + 1) / 2 == i) by (nonlinear_arith);
        assert(h[2 * i] == hex_char(hi) && h[2 * i + 1] == hex_char(lo));
        hex_char_val(hi);
        hex_char_val(lo);
        assert(16 * (hi as int) + (lo as int) == b[i] as int) by {
            lemma_fundamental_div_mod(b[i] as int, 16);
        };
    };
}

/// The hex digit character of a value below 16 decodes back to that value.
pub proof fn hex_char_val(v: u8)
    requires
        v < 16,
    ensures
        hex_digit_val(hex_char(v)) == v,
        is_hex_digit(hex_char(v)),
{
    if v < 10 {
        char_cast_facts((48 + v) as u8);
    } else {
        char_cast_facts((87 + v) as u8);
    }
}

} // verus!
