//! Trusted boundary to the outside crates. Each function wraps one call into
//! `hex`, `starknet-core`, or `std`, and its contract states what that call
//! returns, as shown by the called crate's source.

use vstd::prelude::*;
use vstd::utf8::is_ascii_chars;
use crate::digits::seq_val;
use crate::model::{
    all_dec_digits, all_hex_digits, ascii_bytes_of, byte_char, bytes_of_hex, dec_str_of, dec_val,
    hex_str_of_bytes, modulus,
};

verus! {

/// Relies on `hex::encode`: two lowercase hexadecimal digits per byte, most
/// significant nibble first.
#[verifier::external_body]
pub(crate) fn hex_encode(b: &Vec<u8>) -> (r: String)
    ensures
        r@ == hex_str_of_bytes(b@),
{
    hex::encode(b.as_slice())
}

/// Relies on `hex::decode`: an even-length string of hexadecimal digits
/// decodes to one byte per digit pair, most significant nibble first.
#[verifier::external_body]
pub(crate) fn hex_decode(s: &str) -> (r: Vec<u8>)
    requires
        s@.len() % 2 == 0,
        all_hex_digits(s@),
    ensures
        r@ == bytes_of_hex(s@),
{
    hex::decode(s).unwrap_or_default()
}

/// Relies on `starknet_core`'s `Felt::from_bytes_be_slice` and the decimal
/// `Display` of `Felt`: at most 32 big-endian bytes whose value lies below
/// the modulus parse to exactly that value, displayed as the minimal decimal
/// numeral.
#[verifier::external_body]
pub(crate) fn felt_dec_of_bytes(b: &Vec<u8>) -> (r: String)
    requires
        b@.len() <= 32,
        seq_val(b@, 256) < modulus(),
    ensures
        r@ == dec_str_of(seq_val(b@, 256)),
{
    starknet_core::types::Felt::from_bytes_be_slice(b.as_slice()).to_string()
}

/// Relies on `starknet_core`'s `Felt::from_dec_str` and `Felt::to_bytes_be`:
/// a decimal numeral whose value lies below the modulus parses to exactly
/// that value and yields its 32 big-endian bytes.
#[verifier::external_body]
pub(crate) fn felt_bytes_of_dec(s: &str) -> (r: Vec<u8>)
    requires
        s@.len() > 0,
        all_dec_digits(s@),
        dec_val(s@) < modulus(),
    ensures
        r@.len() == 32,
        seq_val(r@, 256) == dec_val(s@),
{
    starknet_core::types::Felt::from_dec_str(s)
        .map(|f| f.to_bytes_be().to_vec())
        .unwrap_or_default()
}

/// Relies on `starknet_core::utils::cairo_short_string_to_felt` and the
/// decimal `Display` of `Felt`: an ASCII string of at most 31 bytes packs
/// big-endian into a felt, rendered as the minimal decimal numeral.
#[verifier::external_body]
pub(crate) fn short_string_felt_dec(s: &str) -> (r: String)
    requires
        is_ascii_chars(s@),
        s@.len() <= 31,
    ensures
        r@ == dec_str_of(seq_val(ascii_bytes_of(s@), 256)),
{
    starknet_core::utils::cairo_short_string_to_felt(s)
        .map(|f| f.to_string())
        .unwrap_or_default()
}

/// Relies on `String::from_utf8`: bytes below `0x80` decode to the string of
/// exactly those code points.
#[verifier::external_body]
pub(crate) fn string_from_ascii(b: &Vec<u8>) -> (r: String)
    requires
        forall|i: int| 0 <= i < b@.len() ==> b@[i] < 128,
    ensures
        r@.len() == b@.len(),
        forall|i: int| 0 <= i < b@.len() ==> r@[i] == byte_char(b@[i]),
{
    String::from_utf8(b.clone()).unwrap_or_default()
}

} // verus!
