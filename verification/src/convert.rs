//! Classification of an input string as one of the three representations,
//! and conversion of a classified input into the other two.

use vstd::prelude::*;
use vstd::string::{StrSliceExecFns, StringExecFns};
use vstd::utf8::is_ascii_chars;
use crate::bridge::{
    felt_bytes_of_dec, felt_dec_of_bytes, hex_decode, hex_encode, short_string_felt_dec,
    string_from_ascii,
};
use crate::digits::{
    digits_ok, lemma_seq_val_lower, lemma_strip_zeros_props, lt_value, min_digits, seq_val,
    strip_leading_zeros,
};
use crate::model::{
    all_dec_digits, all_hex_digits, ascii_bytes_of, ascii_chars_of, bytes_of_hex, dec_digit_val,
    dec_digit_vals, dec_str_of, dec_val, decodable, hex_str_of_bytes, is_dec_digit, is_hex_digit,
    lemma_modulus_be_bytes, lemma_modulus_dec_digits, lemma_pow_256_32, modulus, modulus_be_bytes,
    modulus_dec_digits,
};
use vstd::arithmetic::power::lemma_pow_increases;

verus! {

/// The representation a raw input encodes.
#[derive(Debug, Clone, Copy, PartialEq, Eq, Structural)]
pub enum InputType {
    Hex,
    Felt,
    ShortString,
}

/// The reasons an input is rejected.
#[derive(Debug, Clone, Copy, PartialEq, Eq, Structural)]
pub enum ConvError {
    /// `0x`-prefixed input with a non-hex-digit character after the prefix.
    InvalidHex,
    /// A numeral whose value is not strictly below the field modulus.
    FeltOutOfRange,
    /// A non-hex, non-numeric input longer than 31 characters.
    StringTooLong,
    /// A decimal input that does not parse as a numeral.
    MalformedNumeral,
    /// A short-string input with characters outside ASCII.
    NonAsciiString,
}

/// The other representations computed from one valid input: hex, felt, and
/// (when the bytes decode) the short string.
#[derive(Debug)]
pub struct ConversionResult {
    pub hex: Option<String>,
    pub felt: Option<String>,
    pub short_string: Option<String>,
}

/// The diagnostic text for each rejection.
pub open spec fn error_message(e: ConvError) -> Seq<char> {
    match e {
        ConvError::InvalidHex => "invalid hexadecimal string"@,
        ConvError::FeltOutOfRange => "invalid felt: value out of range"@,
        ConvError::StringTooLong => "String too long (max 31 characters)"@,
        ConvError::MalformedNumeral => "invalid felt: malformed numeral"@,
        ConvError::NonAsciiString => "string contains non-ASCII characters"@,
    }
}

/// The input starts with the two characters `0x`.
pub open spec fn has_hex_prefix(s: Seq<char>) -> bool {
    s.len() >= 2 && s[0] == '0' && s[1] == 'x'
}

/// The hex digits of a hex input: everything after the `0x` prefix, or the
/// whole input when the prefix is absent.
pub open spec fn hex_digits_of(s: Seq<char>) -> Seq<char> {
    if has_hex_prefix(s) {
        s.skip(2)
    } else {
        s
    }
}

/// An odd number of hex digits is padded with one leading zero nibble, so
/// that the digits encode whole bytes.
pub open spec fn pad_hex(d: Seq<char>) -> Seq<char> {
    if d.len() % 2 == 1 {
        seq!['0'] + d
    } else {
        d
    }
}

/// What classification decides, in the priority order of the rules: a `0x`
/// prefix demands hex digits; otherwise an all-digit input is a felt numeral,
/// checked against the modulus; everything else is a short string, checked
/// against the length cap.
pub open spec fn classify_spec(s: Seq<char>) -> Result<InputType, ConvError> {
    if has_hex_prefix(s) {
        if all_hex_digits(s.skip(2)) {
            Ok(InputType::Hex)
        } else {
            Err(ConvError::InvalidHex)
        }
    } else if s.len() > 0 && all_dec_digits(s) {
        if dec_val(s) < modulus() {
            Ok(InputType::Felt)
        } else {
            Err(ConvError::FeltOutOfRange)
        }
    } else if s.len() <= 31 {
        Ok(InputType::ShortString)
    } else {
        Err(ConvError::StringTooLong)
    }
}

/// What converting a hex input yields: the hex field echoes the input, the
/// felt field is the decimal rendering of the value of the padded digits,
/// and the short-string field decodes the padded bytes when they are ASCII
/// of length at most 31.
pub open spec fn convert_hex_spec(s: Seq<char>) -> Result<
    (Seq<char>, Seq<char>, Option<Seq<char>>),
    ConvError,
> {
    let d = hex_digits_of(s);
    if !all_hex_digits(d) {
        Err(ConvError::InvalidHex)
    } else {
        let bytes = bytes_of_hex(pad_hex(d));
        let v = seq_val(bytes, 256);
        if v >= modulus() {
            Err(ConvError::FeltOutOfRange)
        } else {
            Ok(
                (
                    s,
                    dec_str_of(v),
                    if decodable(bytes) {
                        Some(ascii_chars_of(bytes))
                    } else {
                        None
                    },
                ),
            )
        }
    }
}

/// What converting a felt numeral yields: the felt field echoes the input,
/// the hex field renders the minimal big-endian bytes of the value, and the
/// short-string field decodes those bytes when they are ASCII of length at
/// most 31.
pub open spec fn convert_felt_spec(s: Seq<char>) -> Result<
    (Seq<char>, Seq<char>, Option<Seq<char>>),
    ConvError,
> {
    if !(s.len() > 0 && all_dec_digits(s)) {
        Err(ConvError::MalformedNumeral)
    } else {
        let v = dec_val(s);
        if v >= modulus() {
            Err(ConvError::FeltOutOfRange)
        } else {
            let mb = min_digits(v, 256);
            Ok(
                (
                    seq!['0', 'x'] + hex_str_of_bytes(mb),
                    s,
                    if decodable(mb) {
                        Some(ascii_chars_of(mb))
                    } else {
                        None
                    },
                ),
            )
        }
    }
}

/// What converting a short string yields: the short-string field echoes the
/// input, the hex field renders its ASCII bytes, and the felt field is the
/// decimal rendering of the bytes packed big-endian.
pub open spec fn convert_string_spec(s: Seq<char>) -> Result<
    (Seq<char>, Seq<char>, Option<Seq<char>>),
    ConvError,
> {
    if s.len() > 31 {
        Err(ConvError::StringTooLong)
    } else if !is_ascii_chars(s) {
        Err(ConvError::NonAsciiString)
    } else {
        let b = ascii_bytes_of(s);
        Ok((seq!['0', 'x'] + hex_str_of_bytes(b), dec_str_of(seq_val(b, 256)), Some(s)))
    }
}

/// What converting a classified input yields.
pub open spec fn convert_spec(s: Seq<char>, t: InputType) -> Result<
    (Seq<char>, Seq<char>, Option<Seq<char>>),
    ConvError,
> {
    match t {
        InputType::Hex => convert_hex_spec(s),
        InputType::Felt => convert_felt_spec(s),
        InputType::ShortString => convert_string_spec(s),
    }
}

/// The classification outcome `r` realises the decision `expected`.
pub open spec fn obeys_classify(
    expected: Result<InputType, ConvError>,
    r: Result<InputType, String>,
) -> bool {
    match expected {
        Ok(t) => r matches Ok(rt) && rt == t,
        Err(k) => r matches Err(m) && m@ == error_message(k),
    }
}

/// The conversion outcome `r` realises the expected triple of fields.
pub open spec fn obeys_convert(
    expected: Result<(Seq<char>, Seq<char>, Option<Seq<char>>), ConvError>,
    r: Result<ConversionResult, String>,
) -> bool {
    match expected {
        Ok(t) => r matches Ok(cr) && (cr.hex matches Some(h) && h@ == t.0) && (
        cr.felt matches Some(f) && f@ == t.1) && (match t.2 {
            Some(ss) => cr.short_string matches Some(x) && x@ == ss,
            None => cr.short_string is None,
        }),
        Err(k) => r matches Err(m) && m@ == error_message(k),
    }
}

/// The diagnostic string for a rejection.
fn error_text(e: ConvError) -> (r: String)
    ensures
        r@ == error_message(e),
{
    match e {
        ConvError::InvalidHex => String::from_str("invalid hexadecimal string"),
        ConvError::FeltOutOfRange => String::from_str("invalid felt: value out of range"),
        ConvError::StringTooLong => String::from_str("String too long (max 31 characters)"),
        ConvError::MalformedNumeral => String::from_str("invalid felt: malformed numeral"),
        ConvError::NonAsciiString => String::from_str("string contains non-ASCII characters"),
    }
}

/// Tests whether every character from position `from` on is a hex digit.
fn check_hex_range(s: &str, from: usize) -> (r: bool)
    requires
        from <= s@.len(),
    ensures
        r == all_hex_digits(s@.skip(from as int)),
{
    let n = s.unicode_len();
    let mut i: usize = from;
    while i < n
        invariant
            from <= i <= n,
            n == s@.len(),
            forall|j: int| from <= j < i ==> is_hex_digit(s@[j]),
        decreases n - i,
    {
        let c = s.get_char(i);
        let u = c as u32;
        if !(48 <= u && u <= 57 || 97 <= u && u <= 102 || 65 <= u && u <= 70) {
            assert(!is_hex_digit(s@[i as int]));
            assert(s@.skip(from as int)[i - from] == s@[i as int]);
            return false;
        }
        assert(is_hex_digit(s@[i as int]));
        i += 1;
    }
    assert forall|j: int| 0 <= j < s@.skip(from as int).len() implies is_hex_digit(
        #[trigger] s@.skip(from as int)[j],
    ) by {
        assert(s@.skip(from as int)[j] == s@[j + from]);
    };
    true
}

/// Reads the input as a decimal numeral: its digit values, most significant
/// first, or `None` when it is empty or holds a non-digit character.
fn dec_digits_of_str(s: &str) -> (r: Option<Vec<u8>>)
    ensures
        match r {
            Some(v) => s@.len() > 0 && all_dec_digits(s@) && v@ == dec_digit_vals(s@),
            None => !(s@.len() > 0 && all_dec_digits(s@)),
        },
{
    let n = s.unicode_len();
    if n == 0 {
        return None;
    }
    let mut v: Vec<u8> = Vec::new();
    let mut i: usize = 0;
    while i < n
        invariant
            i <= n,
            n == s@.len(),
            v@.len() == i,
            forall|j: int| 0 <= j < i ==> is_dec_digit(s@[j]),
            forall|j: int| 0 <= j < i ==> v@[j] == dec_digit_val(s@[j]),
        decreases n - i,
    {
        let c = s.get_char(i);
        let u = c as u32;
        if u < 48 || u > 57 {
            assert(!is_dec_digit(s@[i as int]));
            return None;
        }
        v.push((u - 48) as u8);
        assert(v@[i as int] == dec_digit_val(s@[i as int]));
        i += 1;
    }
    assert(v@ =~= dec_digit_vals(s@));
    Some(v)
}

/// The big-endian bytes of the modulus, for the range check on hex inputs.
fn modulus_bytes_vec() -> (r: Vec<u8>)
    ensures
        r@ == modulus_be_bytes(),
{
    let r: Vec<u8> = vec![
        8u8, 0, 0, 0, 0, 0, 0, 17, 0, 0, 0, 0, 0, 0, 0, 0, 0, 0, 0, 0, 0, 0, 0, 0, 0, 0, 0, 0, 0,
        0, 0, 1,
    ];
    assert(r@ =~= modulus_be_bytes());
    r
}

/// The decimal digits of the modulus, for the range check on felt inputs.
fn modulus_dec_vec() -> (r: Vec<u8>)
    ensures
        r@ == modulus_dec_digits(),
{
    let r: Vec<u8> = vec![
        3u8, 6, 1, 8, 5, 0, 2, 7, 8, 8, 6, 6, 6, 1, 3, 1, 2, 1, 3, 6, 9, 7, 3, 2, 2, 7, 8, 3, 0,
        9, 5, 0, 7, 0, 1, 0, 5, 6, 2, 3, 1, 0, 7, 2, 1, 5, 3, 3, 1, 5, 9, 6, 6, 9, 9, 9, 7, 3, 0,
        9, 2, 0, 5, 6, 1, 3, 5, 8, 7, 2, 0, 2, 0, 4, 8, 1,
    ];
    assert(r@ =~= modulus_dec_digits());
    r
}

/// Decodes at most 31 ASCII bytes into a short string; `None` when a byte is
/// outside ASCII or the bytes are too many.
fn try_decode_short(b: &Vec<u8>) -> (r: Option<String>)
    ensures
        match r {
            Some(st) => decodable(b@) && st@ == ascii_chars_of(b@),
            None => !decodable(b@),
        },
{
    if b.len() > 31 {
        return None;
    }
    let n = b.len();
    let mut i: usize = 0;
    while i < n
        invariant
            i <= n,
            n == b@.len(),
            forall|j: int| 0 <= j < i ==> b@[j] < 128,
        decreases n - i,
    {
        if b[i] >= 128 {
            return None;
        }
        i += 1;
    }
    let st = string_from_ascii(b);
    assert(st@ =~= ascii_chars_of(b@));
    Some(st)
}

/// Determines which of the three representations the input encodes, in the
/// priority order of the classification rules.
pub fn identify_input_type(input: &str) -> (r: Result<InputType, String>)
    ensures
        obeys_classify(classify_spec(input@), r),
{
    let n = input.unicode_len();
    if n >= 2 && input.get_char(0) == '0' && input.get_char(1) == 'x' {
        if check_hex_range(input, 2) {
            Ok(InputType::Hex)
        } else {
            Err(error_text(ConvError::InvalidHex))
        }
    } else {
        match dec_digits_of_str(input) {
            Some(v) => {
                proof {
                    assert(digits_ok(v@, 10)) by {
                        assert(forall|j: int|
                            0 <= j < v@.len() ==> is_dec_digit(input@[j]) && v@[j]
                                == dec_digit_val(input@[j]));
                    };
                    lemma_strip_zeros_props(v@, 10);
                    lemma_modulus_dec_digits();
                }
                let sv = strip_leading_zeros(&v);
                let mdv = modulus_dec_vec();
                if lt_value(&sv, &mdv, Ghost(10int)) {
                    Ok(InputType::Felt)
                } else {
                    Err(error_text(ConvError::FeltOutOfRange))
                }
            },
            None => {
                if n <= 31 {
                    Ok(InputType::ShortString)
                } else {
                    Err(error_text(ConvError::StringTooLong))
                }
            },
        }
    }
}

/// Converts a hex input: echo the hex, render the felt, decode the bytes.
pub fn convert_from_hex(input: &str) -> (r: Result<ConversionResult, String>)
    ensures
        obeys_convert(convert_hex_spec(input@), r),
{
    let n = input.unicode_len();
    let has_pre = n >= 2 && input.get_char(0) == '0' && input.get_char(1) == 'x';
    let start: usize = if has_pre {
        2
    } else {
        0
    };
    assert(has_pre == has_hex_prefix(input@));
    if !check_hex_range(input, start) {
        return Err(error_text(ConvError::InvalidHex));
    }
    let ghost d = hex_digits_of(input@);
    assert(d == input@.skip(start as int));
    assert(all_hex_digits(d));
    proof {
        assert forall|j: int| 0 <= j < input@.len() implies '\0' <= #[trigger] input@[j]
            <= '\u{7f}' by {
            if j >= start {
                assert(input@.skip(start as int)[j - start] == input@[j]);
                assert(is_hex_digit(input@[j]));
                assert(48 <= input@[j] as int <= 102);
            } else {
                assert(input@[j] == '0' || input@[j] == 'x');
            }
        };
        assert(is_ascii_chars(input@));
    }
    let digits = input.substring_ascii(start, n);
    let dlen = n - start;
    let padded: String = if dlen % 2 == 1 {
        let mut t = String::from_str("0");
        t.append(digits);
        t
    } else {
        digits.to_owned()
    };
    proof {
        reveal_strlit("0");
        assert(padded@ =~= pad_hex(d));
        assert(all_hex_digits(pad_hex(d))) by {
            assert(is_hex_digit('0'));
            assert(forall|j: int|
                0 <= j < pad_hex(d).len() ==> is_hex_digit(#[trigger] pad_hex(d)[j]));
        };
        assert(pad_hex(d).len() % 2 == 0);
    }
    let bytes = hex_decode(padded.as_str());
    let ghost v = seq_val(bytes@, 256);
    proof {
        assert(digits_ok(bytes@, 256));
        lemma_strip_zeros_props(bytes@, 256);
        lemma_modulus_be_bytes();
    }
    let stripped = strip_leading_zeros(&bytes);
    let modb = modulus_bytes_vec();
    if !lt_value(&stripped, &modb, Ghost(256int)) {
        return Err(error_text(ConvError::FeltOutOfRange));
    }
    proof {
        if stripped@.len() > 32 {
            lemma_seq_val_lower(stripped@, 256);
            lemma_pow_increases(256, 32, (stripped@.len() - 1) as nat);
            lemma_pow_256_32();
        }
    }
    let felt_str = felt_dec_of_bytes(&stripped);
    let short = try_decode_short(&bytes);
    Ok(
        ConversionResult {
            hex: Some(input.to_owned()),
            felt: Some(felt_str),
            short_string: short,
        },
    )
}

/// Converts a felt numeral: render the bytes as hex, echo the felt, decode
/// the minimal bytes.
pub fn convert_from_felt(input: &str) -> (r: Result<ConversionResult, String>)
    ensures
        obeys_convert(convert_felt_spec(input@), r),
{
    let dv = match dec_digits_of_str(input) {
        Some(dv) => dv,
        None => {
            return Err(error_text(ConvError::MalformedNumeral));
        },
    };
    proof {
        assert(digits_ok(dv@, 10)) by {
            assert(forall|j: int|
                0 <= j < dv@.len() ==> is_dec_digit(input@[j]) && dv@[j] == dec_digit_val(
                    input@[j],
                ));
        };
        lemma_strip_zeros_props(dv@, 10);
        lemma_modulus_dec_digits();
    }
    let sv = strip_leading_zeros(&dv);
    let mdv = modulus_dec_vec();
    if !lt_value(&sv, &mdv, Ghost(10int)) {
        return Err(error_text(ConvError::FeltOutOfRange));
    }
    let ghost v = dec_val(input@);
    let bytes32 = felt_bytes_of_dec(input);
    proof {
        assert(digits_ok(bytes32@, 256));
        lemma_strip_zeros_props(bytes32@, 256);
    }
    let mb = strip_leading_zeros(&bytes32);
    proof {
        crate::digits::lemma_min_digits_of_val(mb@, 256);
        assert(mb@ == min_digits(v, 256));
    }
    let enc = hex_encode(&mb);
    let mut hex_out = String::from_str("0x");
    hex_out.append(enc.as_str());
    proof {
        reveal_strlit("0x");
        assert(hex_out@ =~= seq!['0', 'x'] + hex_str_of_bytes(min_digits(v, 256)));
    }
    let short = try_decode_short(&mb);
    Ok(
        ConversionResult {
            hex: Some(hex_out),
            felt: Some(input.to_owned()),
            short_string: short,
        },
    )
}

/// Converts a short string: render its bytes as hex, pack them into the
/// felt, echo the string.
pub fn convert_from_string(input: &str) -> (r: Result<ConversionResult, String>)
    ensures
        obeys_convert(convert_string_spec(input@), r),
{
    let n = input.unicode_len();
    if n > 31 {
        return Err(error_text(ConvError::StringTooLong));
    }
    if !input.is_ascii() {
        return Err(error_text(ConvError::NonAsciiString));
    }
    let bytes = input.as_bytes_vec();
    proof {
        vstd::string::is_ascii_spec_bytes(input);
        assert(bytes@ =~= ascii_bytes_of(input@));
    }
    let enc = hex_encode(&bytes);
    let mut hex_out = String::from_str("0x");
    hex_out.append(enc.as_str());
    proof {
        reveal_strlit("0x");
        assert(hex_out@ =~= seq!['0', 'x'] + hex_str_of_bytes(ascii_bytes_of(input@)));
    }
    let felt_str = short_string_felt_dec(input);
    Ok(
        ConversionResult {
            hex: Some(hex_out),
            felt: Some(felt_str),
            short_string: Some(input.to_owned()),
        },
    )
}

/// Converts a classified input into all derivable representations.
pub fn convert(input: &str, input_type: InputType) -> (r: Result<ConversionResult, String>)
    ensures
        obeys_convert(convert_spec(input@, input_type), r),
{
    match input_type {
        InputType::Hex => convert_from_hex(input),
        InputType::Felt => convert_from_felt(input),
        InputType::ShortString => convert_from_string(input),
    }
}

} // verus!
