use felt_convert::convert::{convert, InputType};
use felt_convert::render::{render_lines, OutputSelection};

#[test]
fn test_render_default_shows_all() {
    let r = convert("Hello", InputType::ShortString).unwrap();
    let sel = OutputSelection { hex: false, felt: false, string: false };
    let lines = render_lines(&r, sel);
    assert_eq!(
        lines,
        vec![
            "Hex: 0x48656c6c6f".to_string(),
            "Felt: 310939249775".to_string(),
            "Short String: Hello".to_string(),
        ]
    );
}

#[test]
fn test_render_single_flag() {
    let r = convert("Hello", InputType::ShortString).unwrap();
    let sel = OutputSelection { hex: false, felt: true, string: false };
    let lines = render_lines(&r, sel);
    assert_eq!(lines, vec!["Felt: 310939249775".to_string()]);
}

#[test]
fn test_render_absent_field_shows_na() {
    let r = convert("0xff", InputType::Hex).unwrap();
    let sel = OutputSelection { hex: true, felt: false, string: true };
    let lines = render_lines(&r, sel);
    assert_eq!(
        lines,
        vec!["Hex: 0xff".to_string(), "Short String: N/A".to_string()]
    );
}
