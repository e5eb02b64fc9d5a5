use felt_convert::convert::{
    convert, convert_from_felt, convert_from_hex, convert_from_string, identify_input_type,
    InputType,
};

const MODULUS_DEC: &str =
    "3618502788666131213697322783095070105623107215331596699973092056135872020481";
const MODULUS_HEX: &str = "0x800000000000011000000000000000000000000000000000000000000000001";

#[test]
fn test_convert_from_hex() {
    let result = convert_from_hex("0x48656c6c6f").unwrap();
    assert_eq!(result.hex, Some("0x48656c6c6f".to_string()));
    assert_eq!(result.felt, Some("310939249775".to_string()));
    assert_eq!(result.short_string, Some("Hello".to_string()));
}

#[test]
fn test_convert_from_felt() {
    let result = convert_from_felt("310939249775").unwrap();
    assert_eq!(result.hex, Some("0x48656c6c6f".to_string()));
    assert_eq!(result.felt, Some("310939249775".to_string()));
    assert_eq!(result.short_string, Some("Hello".to_string()));
}

#[test]
fn test_convert_from_string() {
    let result = convert_from_string("Hello").unwrap();
    assert_eq!(result.hex, Some("0x48656c6c6f".to_string()));
    assert_eq!(result.felt, Some("310939249775".to_string()));
    assert_eq!(result.short_string, Some("Hello".to_string()));
}

#[test]
fn test_convert_integration() {
    let result = convert("0x123abc", InputType::Hex).unwrap();
    assert_eq!(result.hex, Some("0x123abc".to_string()));
    assert_eq!(result.felt, Some("1194684".to_string()));

    let result = convert("1194684", InputType::Felt).unwrap();
    assert_eq!(result.hex, Some("0x123abc".to_string()));
    assert_eq!(result.felt, Some("1194684".to_string()));

    let result = convert("Hello", InputType::ShortString).unwrap();
    assert_eq!(result.hex, Some("0x48656c6c6f".to_string()));
    assert_eq!(result.felt, Some("310939249775".to_string()));
    assert_eq!(result.short_string, Some("Hello".to_string()));
}

#[test]
fn test_string_length_limit() {
    let result = convert_from_string("this-is-a-31-character-string..").unwrap();
    assert_eq!(
        result.short_string,
        Some("this-is-a-31-character-string..".to_string())
    );

    let result = convert_from_string("this-is-a-32-character-string...");
    assert!(result.is_err());

    match result {
        Err(e) => assert!(e.contains("String too long")),
        Ok(_) => panic!("Expected an error for string longer than 31 characters"),
    }

    let result =
        convert_from_string("This string is way too long to be a valid short string in Starknet");
    assert!(result.is_err());
}

#[test]
fn test_identify_hex() {
    assert_eq!(identify_input_type("0x1"), Ok(InputType::Hex));
    assert_eq!(identify_input_type("0x48656C6C6F"), Ok(InputType::Hex));
    assert_eq!(identify_input_type("0x"), Ok(InputType::Hex));
}

#[test]
fn test_identify_felt() {
    assert_eq!(identify_input_type("123"), Ok(InputType::Felt));
    assert_eq!(identify_input_type("0"), Ok(InputType::Felt));
    assert_eq!(identify_input_type("310939249775"), Ok(InputType::Felt));
}

#[test]
fn test_identify_short_string() {
    // hex-looking text without the 0x prefix is a short string, never hex
    assert_eq!(identify_input_type("abc"), Ok(InputType::ShortString));
    assert_eq!(identify_input_type("Hello"), Ok(InputType::ShortString));
    assert_eq!(identify_input_type(""), Ok(InputType::ShortString));
    assert_eq!(identify_input_type("123abc!"), Ok(InputType::ShortString));
}

#[test]
fn test_identify_invalid_hex_is_hard_error() {
    // a 0x prefix with a bad digit never falls through to another kind
    let r = identify_input_type("0xzz");
    assert_eq!(r, Err("invalid hexadecimal string".to_string()));
    let r = identify_input_type("0x12g4");
    assert!(r.is_err());
}

#[test]
fn test_identify_felt_out_of_range() {
    let r = identify_input_type(MODULUS_DEC);
    assert_eq!(r, Err("invalid felt: value out of range".to_string()));
    // one below the modulus is accepted
    let below = "3618502788666131213697322783095070105623107215331596699973092056135872020480";
    assert_eq!(identify_input_type(below), Ok(InputType::Felt));
    // leading zeros do not change the value
    let padded = format!("000{}", below);
    assert_eq!(identify_input_type(&padded), Ok(InputType::Felt));
    let padded_over = format!("000{}", MODULUS_DEC);
    assert!(identify_input_type(&padded_over).is_err());
}

#[test]
fn test_identify_string_too_long() {
    let s = "a".repeat(32);
    assert_eq!(
        identify_input_type(&s),
        Err("String too long (max 31 characters)".to_string())
    );
    let s31 = "a".repeat(31);
    assert_eq!(identify_input_type(&s31), Ok(InputType::ShortString));
}

#[test]
fn test_hex_parity() {
    assert_eq!(identify_input_type("0x1"), Ok(InputType::Hex));
    let r = convert("0x1", InputType::Hex).unwrap();
    assert_eq!(r.felt, Some("1".to_string()));
}

#[test]
fn test_odd_length_hex_padding() {
    let r = convert("0x123abc", InputType::Hex).unwrap();
    assert_eq!(r.felt, Some("1194684".to_string()));
    // an odd-length hex input pads to a whole byte; the value is unchanged
    let odd = convert("0xabc", InputType::Hex).unwrap();
    assert_eq!(odd.felt, Some("2748".to_string()));
    assert_eq!(odd.hex, Some("0xabc".to_string()));
    let even = convert("0x0abc", InputType::Hex).unwrap();
    assert_eq!(even.felt, Some("2748".to_string()));
}

#[test]
fn test_hex_out_of_range() {
    let r = convert(MODULUS_HEX, InputType::Hex);
    assert_eq!(r.unwrap_err(), "invalid felt: value out of range".to_string());
    let below = "0x800000000000011000000000000000000000000000000000000000000000000";
    assert!(convert(below, InputType::Hex).is_ok());
}

#[test]
fn test_felt_out_of_range_conversion() {
    let r = convert(MODULUS_DEC, InputType::Felt);
    assert_eq!(r.unwrap_err(), "invalid felt: value out of range".to_string());
}

#[test]
fn test_malformed_numeral() {
    let r = convert("12a4", InputType::Felt);
    assert_eq!(r.unwrap_err(), "invalid felt: malformed numeral".to_string());
    let r = convert("", InputType::Felt);
    assert!(r.is_err());
}

#[test]
fn test_non_ascii_short_string() {
    let r = convert("h\u{e9}llo", InputType::ShortString);
    assert_eq!(
        r.unwrap_err(),
        "string contains non-ASCII characters".to_string()
    );
}

#[test]
fn test_binary_hex_has_no_short_string() {
    // 0xff is not ASCII, so the short-string field stays absent
    let r = convert("0xff", InputType::Hex).unwrap();
    assert_eq!(r.short_string, None);
    assert_eq!(r.felt, Some("255".to_string()));
}

#[test]
fn test_hex_leading_zero_byte_keeps_nul() {
    // the hex path decodes the padded bytes as they are, leading NUL included
    let r = convert("0x0048", InputType::Hex).unwrap();
    assert_eq!(r.short_string, Some("\u{0}H".to_string()));
    assert_eq!(r.felt, Some("72".to_string()));
}

#[test]
fn test_zero_values() {
    let r = convert("0", InputType::Felt).unwrap();
    assert_eq!(r.hex, Some("0x".to_string()));
    assert_eq!(r.felt, Some("0".to_string()));
    assert_eq!(r.short_string, Some("".to_string()));

    let r = convert("0x", InputType::Hex).unwrap();
    assert_eq!(r.felt, Some("0".to_string()));
    assert_eq!(r.short_string, Some("".to_string()));

    let r = convert("", InputType::ShortString).unwrap();
    assert_eq!(r.hex, Some("0x".to_string()));
    assert_eq!(r.felt, Some("0".to_string()));
}

#[test]
fn test_round_trip_short_string() {
    let first = convert("Hello", InputType::ShortString).unwrap();
    let felt = first.felt.unwrap();
    let back = convert(&felt, InputType::Felt).unwrap();
    assert_eq!(back.short_string, Some("Hello".to_string()));
    assert_eq!(back.felt, Some(felt));
}

#[test]
fn test_round_trip_hex_value() {
    let first = convert("0x0ABC", InputType::Hex).unwrap();
    let felt = first.felt.unwrap();
    let back = convert(&felt, InputType::Felt).unwrap();
    // the numeric value survives, with canonical lowercase text
    assert_eq!(back.hex, Some("0x0abc".to_string()));
}

#[test]
fn test_boundary_31_bytes_of_max_ascii() {
    // the largest 31-byte ASCII string still packs below the modulus
    let s = "\u{7f}".repeat(31);
    let r = convert(&s, InputType::ShortString).unwrap();
    assert_eq!(r.hex, Some(format!("0x{}", "7f".repeat(31))));
    assert!(r.felt.is_some());

    let too_long = "\u{7f}".repeat(32);
    assert!(convert(&too_long, InputType::ShortString).is_err());
}

#[test]
fn test_hex_conversion_without_prefix() {
    // convert tolerates a missing 0x prefix when the kind is already known
    let r = convert("123abc", InputType::Hex).unwrap();
    assert_eq!(r.felt, Some("1194684".to_string()));
    assert_eq!(r.hex, Some("123abc".to_string()));
}
