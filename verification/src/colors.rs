//! Colors of the styling markup: the fixed name table, indexed colors,
//! and RGB triples, parsed from the bracket contents of a `color[...]`
//! directive.

use crate::strutil::{
    contains_sub, is_prefix, lower_seq, parse_u8_dec, spec_dec_u8, split_char, split_char_exec,
    str_eq, str_starts_with, strip_lead_char, strip_lead_char_exec, strip_prefix_reps,
    strip_reps_exec, strip_trail_char, strip_trail_char_exec, trim_exec, trim_spaces, ascii_lower,
};
use vstd::prelude::*;

verus! {

/// The nineteen fixed color names of the markup.
#[derive(Clone, Copy, PartialEq, Eq, Debug)]
pub enum NamedColor {
    Black,
    Blue,
    Cyan,
    DarkGray,
    DefaultColor,
    Green,
    LightBlue,
    LightCyan,
    LightGray,
    LightGreen,
    LightMagenta,
    LightPurple,
    LightRed,
    LightYellow,
    Magenta,
    Purple,
    Red,
    White,
    Yellow,
}

/// A concrete color: one of the fixed names, an indexed terminal color,
/// or an RGB triple.
#[derive(Clone, Copy, PartialEq, Eq, Debug)]
pub enum ColorValue {
    Named(NamedColor),
    Indexed(u8),
    Rgb(u8, u8, u8),
}

/// The fixed name table.
pub open spec fn spec_named_color(s: Seq<char>) -> Option<NamedColor> {
    if s == "black"@ {
        Some(NamedColor::Black)
    } else if s == "blue"@ {
        Some(NamedColor::Blue)
    } else if s == "cyan"@ {
        Some(NamedColor::Cyan)
    } else if s == "darkgray"@ {
        Some(NamedColor::DarkGray)
    } else if s == "default"@ {
        Some(NamedColor::DefaultColor)
    } else if s == "green"@ {
        Some(NamedColor::Green)
    } else if s == "lightblue"@ {
        Some(NamedColor::LightBlue)
    } else if s == "lightcyan"@ {
        Some(NamedColor::LightCyan)
    } else if s == "lightgray"@ {
        Some(NamedColor::LightGray)
    } else if s == "lightgreen"@ {
        Some(NamedColor::LightGreen)
    } else if s == "lightmagenta"@ {
        Some(NamedColor::LightMagenta)
    } else if s == "lightpurple"@ {
        Some(NamedColor::LightPurple)
    } else if s == "lightred"@ {
        Some(NamedColor::LightRed)
    } else if s == "lightyellow"@ {
        Some(NamedColor::LightYellow)
    } else if s == "magenta"@ {
        Some(NamedColor::Magenta)
    } else if s == "purple"@ {
        Some(NamedColor::Purple)
    } else if s == "red"@ {
        Some(NamedColor::Red)
    } else if s == "white"@ {
        Some(NamedColor::White)
    } else if s == "yellow"@ {
        Some(NamedColor::Yellow)
    } else {
        None
    }
}

/// Looks a color name up in the fixed table, after trimming whitespace
/// and folding ASCII case.
pub fn ansi_color_from_str(string: &str) -> (r: Option<NamedColor>)
    ensures
        r == spec_named_color(lower_seq(trim_spaces(string@))),
{
    let lowered = ascii_lower(trim_exec(string));
    let t = lowered.as_str();
    if str_eq(t, "black") {
        Some(NamedColor::Black)
    } else if str_eq(t, "blue") {
        Some(NamedColor::Blue)
    } else if str_eq(t, "cyan") {
        Some(NamedColor::Cyan)
    } else if str_eq(t, "darkgray") {
        Some(NamedColor::DarkGray)
    } else if str_eq(t, "default") {
        Some(NamedColor::DefaultColor)
    } else if str_eq(t, "green") {
        Some(NamedColor::Green)
    } else if str_eq(t, "lightblue") {
        Some(NamedColor::LightBlue)
    } else if str_eq(t, "lightcyan") {
        Some(NamedColor::LightCyan)
    } else if str_eq(t, "lightgray") {
        Some(NamedColor::LightGray)
    } else if str_eq(t, "lightgreen") {
        Some(NamedColor::LightGreen)
    } else if str_eq(t, "lightmagenta") {
        Some(NamedColor::LightMagenta)
    } else if str_eq(t, "lightpurple") {
        Some(NamedColor::LightPurple)
    } else if str_eq(t, "lightred") {
        Some(NamedColor::LightRed)
    } else if str_eq(t, "lightyellow") {
        Some(NamedColor::LightYellow)
    } else if str_eq(t, "magenta") {
        Some(NamedColor::Magenta)
    } else if str_eq(t, "purple") {
        Some(NamedColor::Purple)
    } else if str_eq(t, "red") {
        Some(NamedColor::Red)
    } else if str_eq(t, "white") {
        Some(NamedColor::White)
    } else if str_eq(t, "yellow") {
        Some(NamedColor::Yellow)
    } else {
        None
    }
}

/// What the bracket contents of one `color[...]` directive mean: a
/// channel (foreground or background) and a color, or the token that
/// failed to parse.
pub ghost enum ColorSpecResult {
    Color(bool, ColorValue),
    Bad(Seq<char>),
}

/// Parses one directive's raw bracket contents: strip stray brackets,
/// read the `bg`/`fg` channel tag, split the rest on `;`; fewer than
/// three parts name a color or give a color index, three or more give an
/// RGB triple (parts beyond the third are ignored).
pub open spec fn spec_color_directive(raw: Seq<char>) -> ColorSpecResult {
    let args0 = strip_lead_char(strip_trail_char(raw, ']'), '[');
    let is_fg = !is_prefix("bg"@, args0);
    let args1 = strip_prefix_reps(args0, "bg;"@);
    let args2 = strip_prefix_reps(args1, "fg;"@);
    let parts = split_char(args2, ';');
    if parts.len() < 3 {
        match spec_named_color(lower_seq(trim_spaces(parts[0]))) {
            Some(n) => ColorSpecResult::Color(is_fg, ColorValue::Named(n)),
            None => match spec_dec_u8(parts[0]) {
                Some(v) => ColorSpecResult::Color(is_fg, ColorValue::Indexed(v)),
                None => ColorSpecResult::Bad(parts[0]),
            },
        }
    } else {
        match spec_dec_u8(parts[0]) {
            None => ColorSpecResult::Bad(parts[0]),
            Some(rv) => match spec_dec_u8(parts[1]) {
                None => ColorSpecResult::Bad(parts[1]),
                Some(gv) => match spec_dec_u8(parts[2]) {
                    None => ColorSpecResult::Bad(parts[2]),
                    Some(bv) => ColorSpecResult::Color(is_fg, ColorValue::Rgb(rv, gv, bv)),
                },
            },
        }
    }
}

/// Parses one directive's raw bracket contents; `Err` carries the token
/// that failed to parse as a color.
pub fn color_directive(raw: &str) -> (r: Result<(bool, ColorValue), String>)
    ensures
        match r {
            Ok(c) => spec_color_directive(raw@) == ColorSpecResult::Color(c.0, c.1),
            Err(tok) => spec_color_directive(raw@) == ColorSpecResult::Bad(tok@),
        },
{
    proof {
        reveal_strlit("bg;");
        reveal_strlit("fg;");
    }
    let a0 = strip_lead_char_exec(strip_trail_char_exec(raw, ']'), '[');
    let is_fg = !str_starts_with(a0, "bg");
    let a1 = strip_reps_exec(a0, "bg;");
    let a2 = strip_reps_exec(a1, "fg;");
    let parts = split_char_exec(a2, ';');
    let ghost sparts = split_char(a2@, ';');
    assert(parts@.len() >= 1) by {
        assert(parts@.map_values(|t: String| t@).len() == sparts.len());
    }
    assert(parts@[0]@ == sparts[0]) by {
        assert(parts@.map_values(|t: String| t@)[0] == sparts[0]);
    }
    if parts.len() < 3 {
        let p0 = &parts[0];
        match ansi_color_from_str(p0.as_str()) {
            Some(n) => Ok((is_fg, ColorValue::Named(n))),
            None => match parse_u8_dec(p0.as_str()) {
                Some(v) => Ok((is_fg, ColorValue::Indexed(v))),
                None => Err(p0.clone()),
            },
        }
    } else {
        assert(parts@[1]@ == sparts[1] && parts@[2]@ == sparts[2]) by {
            assert(parts@.map_values(|t: String| t@)[1] == sparts[1]);
            assert(parts@.map_values(|t: String| t@)[2] == sparts[2]);
        }
        let v0 = match parse_u8_dec(parts[0].as_str()) {
            Some(v) => v,
            None => {
                return Err(parts[0].clone());
            },
        };
        let v1 = match parse_u8_dec(parts[1].as_str()) {
            Some(v) => v,
            None => {
                return Err(parts[1].clone());
            },
        };
        let v2 = match parse_u8_dec(parts[2].as_str()) {
            Some(v) => v,
            None => {
                return Err(parts[2].clone());
            },
        };
        Ok((is_fg, ColorValue::Rgb(v0, v1, v2)))
    }
}

} // verus!
