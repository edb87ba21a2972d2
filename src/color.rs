//! Terminal colors and the 256-entry palette.
use vstd::prelude::*;

verus! {

/// A color as the terminal stores it in a cell.
#[derive(Clone, Copy, Debug, PartialEq, Eq, Structural)]
pub enum Color {
    /// The terminal's default color (not black: whatever the renderer uses).
    Default,
    /// An index into the 256-color palette.
    Idx(u8),
    /// A 24-bit color.
    Rgb(u8, u8, u8),
}

/// A resolved 24-bit color.
#[derive(Clone, Copy, Debug, PartialEq, Eq, Structural)]
pub struct Rgb {
    pub r: u8,
    pub g: u8,
    pub b: u8,
}

/// The sixteen standard and bright colors.
pub open spec fn spec_base16(n: int) -> (int, int, int) {
    if n == 0 { (0, 0, 0) }
    else if n == 1 { (205, 49, 49) }
    else if n == 2 { (13, 188, 121) }
    else if n == 3 { (229, 229, 16) }
    else if n == 4 { (36, 114, 200) }
    else if n == 5 { (188, 63, 188) }
    else if n == 6 { (17, 168, 205) }
    else if n == 7 { (229, 229, 229) }
    else if n == 8 { (102, 102, 102) }
    else if n == 9 { (241, 76, 76) }
    else if n == 10 { (35, 209, 139) }
    else if n == 11 { (245, 245, 67) }
    else if n == 12 { (59, 142, 234) }
    else if n == 13 { (214, 112, 214) }
    else if n == 14 { (41, 184, 219) }
    else { (255, 255, 255) }
}

/// The 6x6x6 color cube, for indices 16 to 231.
pub open spec fn spec_cube(n: int) -> (int, int, int) {
    (51 * ((n - 16) / 36), 51 * (((n - 16) / 6) % 6), 51 * ((n - 16) % 6))
}

/// The grayscale ramp, for indices 232 to 255.
pub open spec fn spec_gray(n: int) -> int {
    8 + 10 * (n - 232)
}

/// The RGB value of a palette index.
pub open spec fn spec_palette(n: u8) -> (int, int, int) {
    if n < 16 {
        spec_base16(n as int)
    } else if n < 232 {
        spec_cube(n as int)
    } else {
        (spec_gray(n as int), spec_gray(n as int), spec_gray(n as int))
    }
}

pub open spec fn rgb_is(c: Rgb, v: (int, int, int)) -> bool {
    c.r as int == v.0 && c.g as int == v.1 && c.b as int == v.2
}

/// What a color resolves to: `None` for the default color.
pub open spec fn spec_resolve(c: Color) -> Option<(int, int, int)> {
    match c {
        Color::Default => None,
        Color::Idx(n) => Some(spec_palette(n)),
        Color::Rgb(r, g, b) => Some((r as int, g as int, b as int)),
    }
}

fn rgb(r: u8, g: u8, b: u8) -> (c: Rgb)
    ensures
        c.r == r && c.g == g && c.b == b,
{
    Rgb { r, g, b }
}

/// The RGB value of a palette index: the sixteen base colors, the color
/// cube, then the grayscale ramp.
pub fn palette_rgb(n: u8) -> (c: Rgb)
    ensures
        rgb_is(c, spec_palette(n)),
{
    if n < 16 {
        match n {
            0 => rgb(0, 0, 0),
            1 => rgb(205, 49, 49),
            2 => rgb(13, 188, 121),
            3 => rgb(229, 229, 16),
            4 => rgb(36, 114, 200),
            5 => rgb(188, 63, 188),
            6 => rgb(17, 168, 205),
            7 => rgb(229, 229, 229),
            8 => rgb(102, 102, 102),
            9 => rgb(241, 76, 76),
            10 => rgb(35, 209, 139),
            11 => rgb(245, 245, 67),
            12 => rgb(59, 142, 234),
            13 => rgb(214, 112, 214),
            14 => rgb(41, 184, 219),
            _ => rgb(255, 255, 255),
        }
    } else if n < 232 {
        let k: u8 = n - 16;
        let r: u8 = 51 * (k / 36);
        let g: u8 = 51 * ((k / 6) % 6);
        let b: u8 = 51 * (k % 6);
        rgb(r, g, b)
    } else {
        let v: u8 = 8 + 10 * (n - 232);
        rgb(v, v, v)
    }
}

/// Resolves a cell color: `None` means "use the terminal default".
pub fn resolve_color(c: Color) -> (r: Option<Rgb>)
    ensures
        match spec_resolve(c) {
            None => r is None,
            Some(v) => r is Some && rgb_is(r->0, v),
        },
{
    match c {
        Color::Default => None,
        Color::Idx(n) => Some(palette_rgb(n)),
        Color::Rgb(r, g, b) => Some(rgb(r, g, b)),
    }
}

/// Indices 16 to 231 follow the 6x6x6 cube formula, and the grayscale ramp
/// at 232 to 255 strictly increases with the index.
pub proof fn lemma_palette_laws(n: u8, m: u8)
    ensures
        16 <= n <= 231 ==> spec_palette(n) == (
            51 * ((n - 16) / 36),
            51 * (((n - 16) / 6) % 6),
            51 * ((n - 16) % 6),
        ),
        232 <= n < m ==> spec_palette(n).0 < spec_palette(m).0
            && spec_palette(n).1 < spec_palette(m).1
            && spec_palette(n).2 < spec_palette(m).2
            && spec_palette(n).0 == spec_palette(n).1 == spec_palette(n).2,
{
}

} // verus!
