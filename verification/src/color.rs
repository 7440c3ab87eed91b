//! Colors and the built-in color command table: named CSS-style colors and
//! `#hex` literals with 3, 4, 6 or 8 digits.
//!
//! Colors are carried as four 8-bit sRGB channels; a host converts to
//! whatever floating-point color space its renderer wants.

use vstd::prelude::*;

use crate::chars::{eq_chars_str, str_chars};

verus! {

/// An sRGB color with alpha, one byte per channel.
#[derive(Clone, Copy, PartialEq, Eq, Structural, Debug)]
pub struct Color {
    pub red: u8,
    pub green: u8,
    pub blue: u8,
    pub alpha: u8,
}

impl Color {
    /// Opaque color from three channels.
    pub fn rgb(red: u8, green: u8, blue: u8) -> (c: Color)
        ensures
            c == (Color { red, green, blue, alpha: 255 }),
    {
        Color { red, green, blue, alpha: 255 }
    }

    /// Opaque white, the default fill and stroke color.
    pub fn white() -> (c: Color)
        ensures
            c == (Color { red: 255, green: 255, blue: 255, alpha: 255 }),
    {
        Color { red: 255, green: 255, blue: 255, alpha: 255 }
    }
}

/// Value of one hexadecimal digit.
pub open spec fn spec_hex_digit(c: char) -> Option<u8> {
    let u = c as u32;
    if 48 <= u && u <= 57 {
        Some((u - 48) as u8)
    } else if 97 <= u && u <= 102 {
        Some((u - 87) as u8)
    } else if 65 <= u && u <= 70 {
        Some((u - 55) as u8)
    } else {
        None
    }
}

fn hex_digit(c: char) -> (r: Option<u8>)
    ensures
        r == spec_hex_digit(c),
{
    let u = c as u32;
    if 48 <= u && u <= 57 {
        Some((u - 48) as u8)
    } else if 97 <= u && u <= 102 {
        Some((u - 87) as u8)
    } else if 65 <= u && u <= 70 {
        Some((u - 55) as u8)
    } else {
        None
    }
}

/// One channel from a single hex digit, doubled: `f` means `0xff`.
pub open spec fn spec_hex_nibble(c: char) -> Option<u8> {
    match spec_hex_digit(c) {
        Some(d) => Some((17 * d) as u8),
        None => None,
    }
}

/// One channel from two hex digits.
pub open spec fn spec_hex_byte(hi: char, lo: char) -> Option<u8> {
    match (spec_hex_digit(hi), spec_hex_digit(lo)) {
        (Some(h), Some(l)) => Some((16 * h + l) as u8),
        _ => None,
    }
}

/// The color denoted by a run of hex digits (without the leading `#`):
/// `rgb`, `rgba`, `rrggbb` or `rrggbbaa`; alpha defaults to opaque.
pub open spec fn spec_hex_color(s: Seq<char>) -> Option<Color> {
    if s.len() == 3 {
        match (spec_hex_nibble(s[0]), spec_hex_nibble(s[1]), spec_hex_nibble(s[2])) {
            (Some(r), Some(g), Some(b)) => Some(Color { red: r, green: g, blue: b, alpha: 255 }),
            _ => None,
        }
    } else if s.len() == 4 {
        match (
            spec_hex_nibble(s[0]),
            spec_hex_nibble(s[1]),
            spec_hex_nibble(s[2]),
            spec_hex_nibble(s[3]),
        ) {
            (Some(r), Some(g), Some(b), Some(a)) => Some(
                Color { red: r, green: g, blue: b, alpha: a },
            ),
            _ => None,
        }
    } else if s.len() == 6 {
        match (spec_hex_byte(s[0], s[1]), spec_hex_byte(s[2], s[3]), spec_hex_byte(s[4], s[5])) {
            (Some(r), Some(g), Some(b)) => Some(Color { red: r, green: g, blue: b, alpha: 255 }),
            _ => None,
        }
    } else if s.len() == 8 {
        match (spec_hex_byte(s[0], s[1]), spec_hex_byte(s[2], s[3]), spec_hex_byte(s[4], s[5]), spec_hex_byte(s[6], s[7])) {
            (Some(r), Some(g), Some(b), Some(a)) => Some(
                Color { red: r, green: g, blue: b, alpha: a },
            ),
            _ => None,
        }
    } else {
        None
    }
}

fn hex_nibble(c: char) -> (r: Option<u8>)
    ensures
        r == spec_hex_nibble(c),
{
    match hex_digit(c) {
        Some(d) => Some(17 * d),
        None => None,
    }
}

fn hex_byte(hi: char, lo: char) -> (r: Option<u8>)
    ensures
        r == spec_hex_byte(hi, lo),
{
    match (hex_digit(hi), hex_digit(lo)) {
        (Some(h), Some(l)) => Some(16 * h + l),
        _ => None,
    }
}

fn hex_color(v: &Vec<char>) -> (r: Option<Color>)
    ensures
        r == spec_hex_color(v@),
{
    if v.len() == 3 {
        match (hex_nibble(v[0]), hex_nibble(v[1]), hex_nibble(v[2])) {
            (Some(red), Some(green), Some(blue)) => Some(Color { red, green, blue, alpha: 255 }),
            _ => None,
        }
    } else if v.len() == 4 {
        match (hex_nibble(v[0]), hex_nibble(v[1]), hex_nibble(v[2]), hex_nibble(v[3])) {
            (Some(red), Some(green), Some(blue), Some(alpha)) => Some(
                Color { red, green, blue, alpha },
            ),
            _ => None,
        }
    } else if v.len() == 6 {
        match (hex_byte(v[0], v[1]), hex_byte(v[2], v[3]), hex_byte(v[4], v[5])) {
            (Some(red), Some(green), Some(blue)) => Some(Color { red, green, blue, alpha: 255 }),
            _ => None,
        }
    } else if v.len() == 8 {
        match (hex_byte(v[0], v[1]), hex_byte(v[2], v[3]), hex_byte(v[4], v[5]), hex_byte(v[6], v[7])) {
            (Some(red), Some(green), Some(blue), Some(alpha)) => Some(
                Color { red, green, blue, alpha },
            ),
            _ => None,
        }
    } else {
        None
    }
}

/// Shorthand for an opaque named color.
pub open spec fn spec_rgb(red: u8, green: u8, blue: u8) -> Color {
    Color { red, green, blue, alpha: 255 }
}

/// The color a name denotes, over the built-in table of CSS color names.
pub open spec fn spec_named_color(s: Seq<char>) -> Option<Color> {
    if s == "black"@ {
        Some(spec_rgb(0x00, 0x00, 0x00))
    } else if s == "silver"@ {
        Some(spec_rgb(0xc0, 0xc0, 0xc0))
    } else if s == "gray"@ {
        Some(spec_rgb(0x80, 0x80, 0x80))
    } else if s == "white"@ {
        Some(spec_rgb(0xff, 0xff, 0xff))
    } else if s == "maroon"@ {
        Some(spec_rgb(0x80, 0x00, 0x00))
    } else if s == "red"@ {
        Some(spec_rgb(0xff, 0x00, 0x00))
    } else if s == "purple"@ {
        Some(spec_rgb(0x80, 0x00, 0x80))
    } else if s == "fuchsia"@ {
        Some(spec_rgb(0xff, 0x00, 0xff))
    } else if s == "magenta"@ {
        Some(spec_rgb(0xff, 0x00, 0xff))
    } else if s == "green"@ {
        Some(spec_rgb(0x00, 0x80, 0x00))
    } else if s == "lime"@ {
        Some(spec_rgb(0x00, 0xff, 0x00))
    } else if s == "olive"@ {
        Some(spec_rgb(0x80, 0x80, 0x00))
    } else if s == "yellow"@ {
        Some(spec_rgb(0xff, 0xff, 0x00))
    } else if s == "navy"@ {
        Some(spec_rgb(0x00, 0x00, 0x80))
    } else if s == "blue"@ {
        Some(spec_rgb(0x00, 0x00, 0xff))
    } else if s == "teal"@ {
        Some(spec_rgb(0x00, 0x80, 0x80))
    } else if s == "aqua"@ {
        Some(spec_rgb(0x00, 0xff, 0xff))
    } else if s == "cyan"@ {
        Some(spec_rgb(0x00, 0xff, 0xff))
    } else if s == "orange"@ {
        Some(spec_rgb(0xff, 0xa5, 0x00))
    } else if s == "transparent"@ {
        Some(Color { red: 0, green: 0, blue: 0, alpha: 0 })
    } else {
        None
    }
}

fn named_color(v: &Vec<char>) -> (r: Option<Color>)
    ensures
        r == spec_named_color(v@),
{
    if eq_chars_str(v, "black") {
        Some(Color::rgb(0x00, 0x00, 0x00))
    } else if eq_chars_str(v, "silver") {
        Some(Color::rgb(0xc0, 0xc0, 0xc0))
    } else if eq_chars_str(v, "gray") {
        Some(Color::rgb(0x80, 0x80, 0x80))
    } else if eq_chars_str(v, "white") {
        Some(Color::rgb(0xff, 0xff, 0xff))
    } else if eq_chars_str(v, "maroon") {
        Some(Color::rgb(0x80, 0x00, 0x00))
    } else if eq_chars_str(v, "red") {
        Some(Color::rgb(0xff, 0x00, 0x00))
    } else if eq_chars_str(v, "purple") {
        Some(Color::rgb(0x80, 0x00, 0x80))
    } else if eq_chars_str(v, "fuchsia") {
        Some(Color::rgb(0xff, 0x00, 0xff))
    } else if eq_chars_str(v, "magenta") {
        Some(Color::rgb(0xff, 0x00, 0xff))
    } else if eq_chars_str(v, "green") {
        Some(Color::rgb(0x00, 0x80, 0x00))
    } else if eq_chars_str(v, "lime") {
        Some(Color::rgb(0x00, 0xff, 0x00))
    } else if eq_chars_str(v, "olive") {
        Some(Color::rgb(0x80, 0x80, 0x00))
    } else if eq_chars_str(v, "yellow") {
        Some(Color::rgb(0xff, 0xff, 0x00))
    } else if eq_chars_str(v, "navy") {
        Some(Color::rgb(0x00, 0x00, 0x80))
    } else if eq_chars_str(v, "blue") {
        Some(Color::rgb(0x00, 0x00, 0xff))
    } else if eq_chars_str(v, "teal") {
        Some(Color::rgb(0x00, 0x80, 0x80))
    } else if eq_chars_str(v, "aqua") {
        Some(Color::rgb(0x00, 0xff, 0xff))
    } else if eq_chars_str(v, "cyan") {
        Some(Color::rgb(0x00, 0xff, 0xff))
    } else if eq_chars_str(v, "orange") {
        Some(Color::rgb(0xff, 0xa5, 0x00))
    } else if eq_chars_str(v, "transparent") {
        Some(Color { red: 0, green: 0, blue: 0, alpha: 0 })
    } else {
        None
    }
}

/// The color a style token denotes: a known color name, or `#` followed by
/// 3, 4, 6 or 8 hex digits.
pub open spec fn spec_parse_color(s: Seq<char>) -> Option<Color> {
    if s.len() > 0 && s[0] == '#' {
        spec_hex_color(s.drop_first())
    } else {
        spec_named_color(s)
    }
}

/// Parse a color token, already split out of a style command list.
pub fn parse_color_chars(v: &Vec<char>) -> (r: Option<Color>)
    ensures
        r == spec_parse_color(v@),
{
    if v.len() > 0 && v[0] == '#' {
        let mut rest: Vec<char> = Vec::new();
        let mut i: usize = 1;
        while i < v.len()
            invariant
                1 <= i <= v@.len(),
                rest@ == v@.subrange(1, i as int),
            decreases v@.len() - i,
        {
            rest.push(v[i]);
            proof {
                assert(rest@ =~= v@.subrange(1, i + 1));
            }
            i += 1;
        }
        proof {
            assert(v@.subrange(1, v@.len() as int) =~= v@.drop_first());
        }
        hex_color(&rest)
    } else {
        named_color(v)
    }
}

/// Parse a color token given as a string slice.
pub fn parse_color(s: &str) -> (r: Option<Color>)
    ensures
        r == spec_parse_color(s@),
{
    let v = str_chars(s);
    parse_color_chars(&v)
}

} // verus!
