//! Output selection for the presentation layer: which fields to show, the
//! default-all rule when no field is selected, and the exact lines shown.

use vstd::prelude::*;
use vstd::string::StringExecFns;
use crate::convert::ConversionResult;

verus! {

/// Which representations the caller asked to display.
#[derive(Debug, Clone, Copy, PartialEq, Eq, Structural)]
pub struct OutputSelection {
    pub hex: bool,
    pub felt: bool,
    pub string: bool,
}

/// The selection actually displayed: when no field is selected, all three
/// are shown.
pub open spec fn effective(sel: OutputSelection) -> OutputSelection {
    if !sel.hex && !sel.felt && !sel.string {
        OutputSelection { hex: true, felt: true, string: true }
    } else {
        sel
    }
}

/// The line shown for one field: its label, then the value, or `N/A` when
/// the field is absent.
pub open spec fn field_line(label: Seq<char>, v: Option<String>) -> Seq<char> {
    match v {
        Some(s) => label + s@,
        None => label + "N/A"@,
    }
}

/// The lines that present a conversion result under a selection, in the
/// fixed order hex, felt, short string.
pub open spec fn render_spec(r: ConversionResult, sel: OutputSelection) -> Seq<Seq<char>> {
    let e = effective(sel);
    (if e.hex {
        seq![field_line("Hex: "@, r.hex)]
    } else {
        Seq::empty()
    }) + (if e.felt {
        seq![field_line("Felt: "@, r.felt)]
    } else {
        Seq::empty()
    }) + (if e.string {
        seq![field_line("Short String: "@, r.short_string)]
    } else {
        Seq::empty()
    })
}

/// One displayed line: the label, then the value or `N/A`.
fn field_text(label: &str, v: &Option<String>) -> (t: String)
    ensures
        t@ == field_line(label@, *v),
{
    let mut t = String::from_str(label);
    match v {
        Some(s) => t.append(s.as_str()),
        None => t.append("N/A"),
    }
    t
}

/// The lines to print for a conversion result under a selection.
pub fn render_lines(result: &ConversionResult, sel: OutputSelection) -> (lines: Vec<String>)
    ensures
        (lines@.map_values(|s: String| s@)) == render_spec(*result, sel),
{
    let show_all = !sel.hex && !sel.felt && !sel.string;
    let mut lines: Vec<String> = Vec::new();
    if sel.hex || show_all {
        lines.push(field_text("Hex: ", &result.hex));
    }
    if sel.felt || show_all {
        lines.push(field_text("Felt: ", &result.felt));
    }
    if sel.string || show_all {
        lines.push(field_text("Short String: ", &result.short_string));
    }
    proof {
        assert(lines@.map_values(|s: String| s@) =~= render_spec(*result, sel));
    }
    lines
}

} // verus!
