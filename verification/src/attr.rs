//! Colors and text styles, and their encoding as 16-bit cell attributes.

use vstd::prelude::*;

verus! {

/// The eight terminal colors.
#[allow(non_camel_case_types)]
#[derive(Clone, Copy, Debug, PartialEq, Eq, Structural)]
pub enum color {
    black,
    red,
    green,
    yellow,
    blue,
    magenta,
    cyan,
    white,
}

/// The text styles a foreground attribute can carry.
#[allow(non_camel_case_types)]
#[derive(Clone, Copy, Debug, PartialEq, Eq, Structural)]
pub enum style {
    normal,
    bold,
    underline,
    bold_underline,
}

/// Attribute bit that selects bold text.
pub const BOLD: u16 = 0x10;

/// Attribute bit that selects underlined text.
pub const UNDERLINE: u16 = 0x20;

/// The attribute value of a color: its index in the ANSI palette.
pub open spec fn color_code(c: color) -> u16 {
    match c {
        color::black => 0x00,
        color::red => 0x01,
        color::green => 0x02,
        color::yellow => 0x03,
        color::blue => 0x04,
        color::magenta => 0x05,
        color::cyan => 0x06,
        color::white => 0x07,
    }
}

/// The attribute bits of a style.
pub open spec fn style_bits(sty: style) -> u16 {
    match sty {
        style::normal => 0x00,
        style::bold => 0x10,
        style::underline => 0x20,
        style::bold_underline => 0x30,
    }
}

/// Converts a color to its attribute value.
pub fn convert_color(c: color) -> (code: u16)
    ensures
        code == color_code(c),
        code <= 7,
{
    match c {
        color::black => 0x00,
        color::red => 0x01,
        color::green => 0x02,
        color::yellow => 0x03,
        color::blue => 0x04,
        color::magenta => 0x05,
        color::cyan => 0x06,
        color::white => 0x07,
    }
}

/// Converts a style to its attribute bits.
pub fn convert_style(sty: style) -> (bits: u16)
    ensures
        bits == style_bits(sty),
{
    match sty {
        style::normal => 0x00,
        style::bold => 0x10,
        style::underline => 0x20,
        style::bold_underline => 0x30,
    }
}

pub fn probe(t: libc::c_int) -> (r: i32)
    ensures r == t,
{
    t
}

} // verus!
