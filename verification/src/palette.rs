//! Colors and the fixed palette.
//!
//! A [`Color`] is the model's own value for a terminal color: the sixteen
//! named colors the editor draws with, or a true-color triple. The palette
//! maps a small integer code — the digit key that selects it, and the number
//! written in the text save format — to a color and back. Both lookups are
//! total: an unknown code resolves to the background color, an off-palette
//! color resolves to code 0, so palette misses are lossy but never fail.

use vstd::prelude::*;
use crate::input::KEY;

verus! {

/// A terminal color, by value. The display layer outside this crate converts
/// it to whatever its terminal library expects.
#[derive(Clone, Copy, PartialEq, Eq, Structural, Debug)]
pub enum Color {
    Black,
    DarkGrey,
    Grey,
    White,
    Red,
    DarkRed,
    Green,
    DarkGreen,
    Blue,
    DarkBlue,
    Yellow,
    DarkYellow,
    Magenta,
    DarkMagenta,
    Cyan,
    DarkCyan,
    Rgb { r: u8, g: u8, b: u8 },
}

/// The background color: what an empty cell shows, and what erasing a cell
/// stores in its place.
pub const BACKGROUND: Color = Color::White;

/// The color a palette code selects. Codes 1 through 9 and 0 name the ten
/// palette colors; any other code resolves to the background.
pub open spec fn spec_color_for_code(code: u32) -> Color {
    if code == 1 {
        Color::Black
    } else if code == 2 {
        Color::Blue
    } else if code == 3 {
        Color::Green
    } else if code == 4 {
        Color::Cyan
    } else if code == 5 {
        Color::Red
    } else if code == 6 {
        Color::Magenta
    } else if code == 7 {
        Color::Rgb { r: 170, g: 85, b: 0 }
    } else if code == 8 {
        Color::Grey
    } else if code == 9 {
        Color::Yellow
    } else if code == 0 {
        Color::White
    } else {
        BACKGROUND
    }
}

/// Executable counterpart of [`spec_color_for_code`].
pub fn color_for_code(code: u32) -> (c: Color)
    ensures
        c == spec_color_for_code(code),
{
    match code {
        1 => Color::Black,
        2 => Color::Blue,
        3 => Color::Green,
        4 => Color::Cyan,
        5 => Color::Red,
        6 => Color::Magenta,
        7 => Color::Rgb { r: 170, g: 85, b: 0 },
        8 => Color::Grey,
        9 => Color::Yellow,
        0 => Color::White,
        _ => BACKGROUND,
    }
}

/// The palette code that stands for a color in the text save format. A color
/// not in the palette falls back to code 0, the background's code.
pub open spec fn spec_code_for_color(c: Color) -> u32 {
    match c {
        Color::Black => 1u32,
        Color::Blue => 2u32,
        Color::Green => 3u32,
        Color::Cyan => 4u32,
        Color::Red => 5u32,
        Color::Magenta => 6u32,
        Color::Rgb { r, g, b } => if r == 170 && g == 85 && b == 0 {
            7u32
        } else {
            0u32
        },
        Color::Grey => 8u32,
        Color::Yellow => 9u32,
        Color::White => 0u32,
        _ => 0u32,
    }
}

/// Executable counterpart of [`spec_code_for_color`].
pub fn code_for_color(c: Color) -> (code: u32)
    ensures
        code == spec_code_for_color(c),
{
    match c {
        Color::Black => 1u32,
        Color::Blue => 2u32,
        Color::Green => 3u32,
        Color::Cyan => 4u32,
        Color::Red => 5u32,
        Color::Magenta => 6u32,
        Color::Rgb { r, g, b } => if r == 170 && g == 85 && b == 0 {
            7u32
        } else {
            0u32
        },
        Color::Grey => 8u32,
        Color::Yellow => 9u32,
        Color::White => 0u32,
        _ => 0u32,
    }
}

/// Whether a color is one of the ten the palette can name exactly.
pub open spec fn spec_palette_color(c: Color) -> bool {
    spec_color_for_code(spec_code_for_color(c)) == c
}

/// Writing a color as its palette code and reading the code back: the color
/// the palette resolves it to. Palette colors come back unchanged; everything
/// else lands on the background.
pub open spec fn spec_resolve(c: Color) -> Color {
    spec_color_for_code(spec_code_for_color(c))
}

/// Resolving is idempotent: a color that has been through the palette once
/// is a palette color, so a second pass keeps it.
pub proof fn lemma_resolve_idempotent(c: Color)
    ensures
        spec_resolve(spec_resolve(c)) == spec_resolve(c),
        spec_palette_color(spec_resolve(c)),
{
}

/// Every palette code below ten names a distinct color that maps back to the
/// same code.
pub proof fn lemma_code_round_trip(code: u32)
    requires
        code <= 9,
    ensures
        spec_code_for_color(spec_color_for_code(code)) == code,
{
}

/// The color a key-selection command sets as the pending paint color.
pub open spec fn spec_key_color(key: KEY) -> Option<Color> {
    match crate::input::spec_color_code_of_key(key) {
        Some(code) => Some(spec_color_for_code(code)),
        None => None,
    }
}

/// The color a color-selection command stands for, or black for any command
/// that selects none.
pub fn return_color(key: KEY) -> (c: Color)
    ensures
        c == match spec_key_color(key) {
            Some(color) => color,
            None => Color::Black,
        },
{
    match crate::input::color_code_of_key(key) {
        Some(code) => color_for_code(code),
        None => Color::Black,
    }
}

/// The color-selection command that would pick a color again: the inverse of
/// [`return_color`] on the palette, with off-palette colors falling back to
/// `C0`, the background's key.
pub fn return_color_int(c: Color) -> (key: KEY)
    ensures
        crate::input::spec_color_code_of_key(key) == Some(spec_code_for_color(c)),
{
    match code_for_color(c) {
        1 => KEY::C1,
        2 => KEY::C2,
        3 => KEY::C3,
        4 => KEY::C4,
        5 => KEY::C5,
        6 => KEY::C6,
        7 => KEY::C7,
        8 => KEY::C8,
        9 => KEY::C9,
        _ => KEY::C0,
    }
}

/// The raster pixel value of a color: the true-color triple the image export
/// writes for it.
pub open spec fn spec_rgb_of_color(c: Color) -> (u8, u8, u8) {
    match c {
        Color::Black => (0u8, 0u8, 0u8),
        Color::DarkGrey => (64u8, 64u8, 64u8),
        Color::Grey => (128u8, 128u8, 128u8),
        Color::White => (255u8, 255u8, 255u8),
        Color::Red => (255u8, 0u8, 0u8),
        Color::DarkRed => (128u8, 0u8, 0u8),
        Color::Green => (0u8, 255u8, 0u8),
        Color::DarkGreen => (0u8, 128u8, 0u8),
        Color::Blue => (0u8, 0u8, 255u8),
        Color::DarkBlue => (0u8, 0u8, 128u8),
        Color::Yellow => (255u8, 255u8, 0u8),
        Color::DarkYellow => (128u8, 128u8, 0u8),
        Color::Magenta => (255u8, 0u8, 255u8),
        Color::DarkMagenta => (128u8, 0u8, 128u8),
        Color::Cyan => (0u8, 255u8, 255u8),
        Color::DarkCyan => (0u8, 128u8, 128u8),
        Color::Rgb { r, g, b } => (r, g, b),
    }
}

/// Executable counterpart of [`spec_rgb_of_color`].
pub fn rgb_of_color(c: Color) -> (rgb: (u8, u8, u8))
    ensures
        rgb == spec_rgb_of_color(c),
{
    match c {
        Color::Black => (0u8, 0u8, 0u8),
        Color::DarkGrey => (64u8, 64u8, 64u8),
        Color::Grey => (128u8, 128u8, 128u8),
        Color::White => (255u8, 255u8, 255u8),
        Color::Red => (255u8, 0u8, 0u8),
        Color::DarkRed => (128u8, 0u8, 0u8),
        Color::Green => (0u8, 255u8, 0u8),
        Color::DarkGreen => (0u8, 128u8, 0u8),
        Color::Blue => (0u8, 0u8, 255u8),
        Color::DarkBlue => (0u8, 0u8, 128u8),
        Color::Yellow => (255u8, 255u8, 0u8),
        Color::DarkYellow => (128u8, 128u8, 0u8),
        Color::Magenta => (255u8, 0u8, 255u8),
        Color::DarkMagenta => (128u8, 0u8, 128u8),
        Color::Cyan => (0u8, 255u8, 255u8),
        Color::DarkCyan => (0u8, 128u8, 128u8),
        Color::Rgb { r, g, b } => (r, g, b),
    }
}

/// The color a raster pixel loads as: its triple taken as a true color.
pub fn color_of_rgb(r: u8, g: u8, b: u8) -> (c: Color)
    ensures
        c == (Color::Rgb { r, g, b }),
{
    Color::Rgb { r, g, b }
}

} // verus!
