//! Laws of the conversion engine, stated over the specification functions
//! that the public contracts use and proved once and for all.

use vstd::prelude::*;
use vstd::utf8::is_ascii_chars;
use crate::convert::{
    classify_spec, convert_felt_spec, convert_hex_spec, convert_string_spec, has_hex_prefix,
    hex_digits_of, pad_hex, ConvError, InputType,
};
use crate::digits::{
    lemma_min_digits_of_val, lemma_min_digits_props, lemma_seq_val_nonneg, min_digits, seq_val,
};
use crate::model::{
    all_dec_digits, ascii_bytes_of, ascii_chars_of, ascii_char_cast, byte_char, bytes_of_hex,
    dec_str_of, dec_val, decodable, hex_str_of_bytes, lemma_31_bytes_below_modulus,
    lemma_dec_str_of, lemma_hex_round_trip_bytes, modulus,
};

verus! {

/// Round trip for short strings: a valid short string (ASCII, at most 31
/// characters, no leading NUL) converted to its felt numeral, and that
/// numeral converted back as a felt, reproduces the same short string; the
/// felt field is echoed unchanged. A leading NUL character is excluded
/// because the packed field element cannot represent leading zero bytes.
pub proof fn lemma_short_string_round_trip(s: Seq<char>)
    requires
        is_ascii_chars(s),
        s.len() <= 31,
        s.len() > 0 ==> s[0] != byte_char(0),
    ensures
        convert_string_spec(s) is Ok,
        convert_string_spec(s)->Ok_0.2 == Some(s),
        convert_felt_spec(convert_string_spec(s)->Ok_0.1) is Ok,
        convert_felt_spec(convert_string_spec(s)->Ok_0.1)->Ok_0.2 == Some(s),
        convert_felt_spec(convert_string_spec(s)->Ok_0.1)->Ok_0.1 == convert_string_spec(
            s,
        )->Ok_0.1,
{
    let b = ascii_bytes_of(s);
    assert forall|i: int| 0 <= i < b.len() implies b[i] < 128 && byte_char(b[i]) == s[i] by {
        vstd::utf8::is_ascii_chars_nat_bound(s);
        ascii_char_cast(s[i]);
    };
    let v = seq_val(b, 256);
    lemma_31_bytes_below_modulus(b);
    lemma_seq_val_nonneg(b, 256);
    let f = dec_str_of(v);
    lemma_dec_str_of(v);
    assert(convert_string_spec(s)->Ok_0.1 == f);
    // the numeral classifies and converts as a felt of the same value
    assert(convert_felt_spec(f) is Ok);
    // the minimal bytes of the value are exactly the packed bytes
    if s.len() > 0 {
        ascii_char_cast(s[0]);
        assert(b[0] != 0);
    }
    lemma_min_digits_of_val(b, 256);
    assert(min_digits(dec_val(f), 256) == b);
    assert(decodable(b));
    assert(ascii_chars_of(b) =~= s);
}

/// Round trip for hex inputs: converting a valid hex input yields a felt
/// numeral which, converted as a felt, yields a hex field that encodes the
/// same numeric value (though not necessarily the same text).
pub proof fn lemma_hex_round_trip(s: Seq<char>)
    requires
        convert_hex_spec(s) is Ok,
    ensures
        convert_felt_spec(convert_hex_spec(s)->Ok_0.1) is Ok,
        seq_val(
            bytes_of_hex(
                pad_hex(hex_digits_of(convert_felt_spec(convert_hex_spec(s)->Ok_0.1)->Ok_0.0)),
            ),
            256,
        ) == seq_val(bytes_of_hex(pad_hex(hex_digits_of(s))), 256),
{
    let bytes = bytes_of_hex(pad_hex(hex_digits_of(s)));
    let v = seq_val(bytes, 256);
    lemma_seq_val_nonneg(bytes, 256);
    let f = dec_str_of(v);
    lemma_dec_str_of(v);
    assert(convert_felt_spec(f) is Ok);
    let mb = min_digits(v, 256);
    lemma_min_digits_props(v, 256);
    let h2 = convert_felt_spec(f)->Ok_0.0;
    assert(h2 == seq!['0', 'x'] + hex_str_of_bytes(mb));
    lemma_hex_round_trip_bytes(mb);
    assert(hex_str_of_bytes(mb).len() % 2 == 0);
    assert(has_hex_prefix(h2));
    assert(hex_digits_of(h2) =~= hex_str_of_bytes(mb));
    assert(pad_hex(hex_str_of_bytes(mb)) == hex_str_of_bytes(mb));
    assert(seq_val(bytes_of_hex(hex_str_of_bytes(mb)), 256) == v) by {
        assert(bytes_of_hex(hex_str_of_bytes(mb)) =~= mb);
    };
}

/// Range invariant: a decimal numeral whose value reaches the modulus is
/// rejected as out of range, both by classification and by conversion; it is
/// never accepted.
pub proof fn lemma_felt_range_rejected(s: Seq<char>)
    requires
        s.len() > 0,
        all_dec_digits(s),
        dec_val(s) >= modulus(),
    ensures
        classify_spec(s) == Err::<InputType, ConvError>(ConvError::FeltOutOfRange),
        convert_felt_spec(s) is Err,
        convert_felt_spec(s)->Err_0 == ConvError::FeltOutOfRange,
{
    if has_hex_prefix(s) {
        assert(crate::model::is_dec_digit(s[1]));
        assert(s[1] == 'x');
        assert(false);
    }
}

/// Length invariant: a non-hex, non-numeric input of 32 or more characters
/// is rejected as too long, both by classification and by conversion.
pub proof fn lemma_long_string_rejected(s: Seq<char>)
    requires
        !has_hex_prefix(s),
        !(s.len() > 0 && all_dec_digits(s)),
        s.len() >= 32,
    ensures
        classify_spec(s) == Err::<InputType, ConvError>(ConvError::StringTooLong),
        convert_string_spec(s) is Err,
        convert_string_spec(s)->Err_0 == ConvError::StringTooLong,
{
}

/// Boundary: every short string of at most 31 characters packs to a value
/// strictly below the modulus, so its conversion succeeds; a 32-character
/// input is rejected at the length check before any packing.
pub proof fn lemma_short_string_boundary(s: Seq<char>)
    requires
        is_ascii_chars(s),
    ensures
        s.len() <= 31 ==> convert_string_spec(s) is Ok && seq_val(ascii_bytes_of(s), 256)
            < modulus(),
        s.len() >= 32 ==> convert_string_spec(s) is Err && convert_string_spec(s)->Err_0
            == ConvError::StringTooLong,
{
    if s.len() <= 31 {
        lemma_31_bytes_below_modulus(ascii_bytes_of(s));
    }
}

} // verus!
