use vstd::prelude::*;

verus! {

/// An sRGB colour with alpha, one byte per channel.
#[derive(Clone, Copy, Debug, PartialEq, Eq, Structural)]
pub struct Rgba {
    pub r: u8,
    pub g: u8,
    pub b: u8,
    pub a: u8,
}

impl Rgba {
    /// The opaque colour with the given channels.
    pub open spec fn rgb(r: u8, g: u8, b: u8) -> Rgba {
        Rgba { r, g, b, a: 255 }
    }

    pub fn from_rgb(r: u8, g: u8, b: u8) -> (c: Rgba)
        ensures
            c == Rgba::rgb(r, g, b),
    {
        Rgba { r, g, b, a: 255 }
    }

    /// Opaque white.
    pub fn white() -> (c: Rgba)
        ensures
            c == Rgba::rgb(255, 255, 255),
    {
        Rgba { r: 255, g: 255, b: 255, a: 255 }
    }

    /// Fully transparent black.
    pub fn transparent() -> (c: Rgba)
        ensures
            c == (Rgba { r: 0, g: 0, b: 0, a: 0 }),
    {
        Rgba { r: 0, g: 0, b: 0, a: 0 }
    }
}

/// One axis of the 6x6x6 colour cube: level 0 is off, level `v` is `55 + 40 v`.
pub open spec fn cube_level(v: int) -> int {
    if v == 0 {
        0
    } else {
        55 + v * 40
    }
}

/// The xterm 256-colour palette with macOS Terminal's sixteen base colours:
/// 0-15 the base colours, 16-231 the colour cube, 232-255 a grey ramp.
pub open spec fn spec_ansi_256_to_rgb(color_idx: u8) -> Rgba {
    match color_idx {
        0 => Rgba::rgb(0, 0, 0),
        1 => Rgba::rgb(194, 54, 33),
        2 => Rgba::rgb(37, 188, 36),
        3 => Rgba::rgb(173, 173, 39),
        4 => Rgba::rgb(73, 46, 225),
        5 => Rgba::rgb(211, 56, 211),
        6 => Rgba::rgb(51, 187, 200),
        7 => Rgba::rgb(203, 204, 205),
        8 => Rgba::rgb(129, 131, 131),
        9 => Rgba::rgb(252, 57, 31),
        10 => Rgba::rgb(49, 231, 34),
        11 => Rgba::rgb(234, 236, 35),
        12 => Rgba::rgb(88, 51, 255),
        13 => Rgba::rgb(249, 53, 248),
        14 => Rgba::rgb(20, 240, 240),
        15 => Rgba::rgb(233, 235, 235),
        _ => if color_idx <= 231 {
            let idx = color_idx - 16;
            Rgba::rgb(
                cube_level((idx / 36) % 6) as u8,
                cube_level((idx / 6) % 6) as u8,
                cube_level(idx % 6) as u8,
            )
        } else {
            let gray = (8 + (color_idx - 232) * 10) as u8;
            Rgba::rgb(gray, gray, gray)
        },
    }
}

/// Colour of entry `color_idx` of the 256-colour palette.
pub fn ansi_256_to_rgb(color_idx: u8) -> (c: Rgba)
    ensures
        c == spec_ansi_256_to_rgb(color_idx),
{
    match color_idx {
        0 => Rgba::from_rgb(0, 0, 0),
        1 => Rgba::from_rgb(194, 54, 33),
        2 => Rgba::from_rgb(37, 188, 36),
        3 => Rgba::from_rgb(173, 173, 39),
        4 => Rgba::from_rgb(73, 46, 225),
        5 => Rgba::from_rgb(211, 56, 211),
        6 => Rgba::from_rgb(51, 187, 200),
        7 => Rgba::from_rgb(203, 204, 205),
        8 => Rgba::from_rgb(129, 131, 131),
        9 => Rgba::from_rgb(252, 57, 31),
        10 => Rgba::from_rgb(49, 231, 34),
        11 => Rgba::from_rgb(234, 236, 35),
        12 => Rgba::from_rgb(88, 51, 255),
        13 => Rgba::from_rgb(249, 53, 248),
        14 => Rgba::from_rgb(20, 240, 240),
        15 => Rgba::from_rgb(233, 235, 235),
        16..=231 => {
            let idx = color_idx - 16;
            let r = (idx / 36) % 6;
            let g = (idx / 6) % 6;
            let b = idx % 6;
            let r = if r == 0 { 0 } else { 55 + r * 40 };
            let g = if g == 0 { 0 } else { 55 + g * 40 };
            let b = if b == 0 { 0 } else { 55 + b * 40 };
            Rgba::from_rgb(r, g, b)
        },
        232..=255 => {
            let gray = 8 + (color_idx - 232) * 10;
            Rgba::from_rgb(gray, gray, gray)
        },
    }
}

/// The sixteen base colours are macOS Terminal's: black, red, green, yellow,
/// blue, magenta, cyan and white, then their bright forms, all opaque.
pub proof fn lemma_palette_base_colours()
    ensures
        spec_ansi_256_to_rgb(0) == (Rgba { r: 0, g: 0, b: 0, a: 255 }),
        spec_ansi_256_to_rgb(1) == (Rgba { r: 194, g: 54, b: 33, a: 255 }),
        spec_ansi_256_to_rgb(2) == (Rgba { r: 37, g: 188, b: 36, a: 255 }),
        spec_ansi_256_to_rgb(3) == (Rgba { r: 173, g: 173, b: 39, a: 255 }),
        spec_ansi_256_to_rgb(4) == (Rgba { r: 73, g: 46, b: 225, a: 255 }),
        spec_ansi_256_to_rgb(5) == (Rgba { r: 211, g: 56, b: 211, a: 255 }),
        spec_ansi_256_to_rgb(6) == (Rgba { r: 51, g: 187, b: 200, a: 255 }),
        spec_ansi_256_to_rgb(7) == (Rgba { r: 203, g: 204, b: 205, a: 255 }),
        spec_ansi_256_to_rgb(8) == (Rgba { r: 129, g: 131, b: 131, a: 255 }),
        spec_ansi_256_to_rgb(9) == (Rgba { r: 252, g: 57, b: 31, a: 255 }),
        spec_ansi_256_to_rgb(10) == (Rgba { r: 49, g: 231, b: 34, a: 255 }),
        spec_ansi_256_to_rgb(11) == (Rgba { r: 234, g: 236, b: 35, a: 255 }),
        spec_ansi_256_to_rgb(12) == (Rgba { r: 88, g: 51, b: 255, a: 255 }),
        spec_ansi_256_to_rgb(13) == (Rgba { r: 249, g: 53, b: 248, a: 255 }),
        spec_ansi_256_to_rgb(14) == (Rgba { r: 20, g: 240, b: 240, a: 255 }),
        spec_ansi_256_to_rgb(15) == (Rgba { r: 233, g: 235, b: 235, a: 255 }),
{
}

/// In the base colours each hue shows in its channels: red is mostly red,
/// green mostly green, blue mostly blue; yellow has red and green over blue,
/// magenta red and blue over green, cyan green and blue over red; and each
/// bright form (entry `i + 8`) has the same dominant channels.
pub proof fn lemma_palette_hues(i: u8)
    requires
        i < 16,
    ensures
        ({
            let c = spec_ansi_256_to_rgb(i);
            &&& c.a == 255
            &&& i % 8 == 1 ==> c.r > c.g && c.r > c.b
            &&& i % 8 == 2 ==> c.g > c.r && c.g > c.b
            &&& i % 8 == 4 ==> c.b > c.r && c.b > c.g
            &&& i % 8 == 3 ==> c.r > c.b && c.g > c.b
            &&& i % 8 == 5 ==> c.r > c.g && c.b > c.g
            &&& i % 8 == 6 ==> c.g > c.r && c.b > c.r
            &&& i < 8 ==> spec_ansi_256_to_rgb(i).r as int + spec_ansi_256_to_rgb(i).g as int
                + spec_ansi_256_to_rgb(i).b as int <= spec_ansi_256_to_rgb((i + 8) as u8).r as int
                + spec_ansi_256_to_rgb((i + 8) as u8).g as int + spec_ansi_256_to_rgb((i + 8) as u8).b as int
        }),
{
}

/// Entry `16 + 36 r + 6 g + b` (each of `r`, `g`, `b` below 6) is the colour
/// cube's: each channel is at level 0, 95, 135, 175, 215 or 255 as its
/// coordinate is 0 to 5.
pub proof fn lemma_palette_cube(r: u8, g: u8, b: u8)
    requires
        r < 6,
        g < 6,
        b < 6,
    ensures
        ({
            let levels = seq![0u8, 95u8, 135u8, 175u8, 215u8, 255u8];
            spec_ansi_256_to_rgb((16 + 36 * r + 6 * g + b) as u8)
                == (Rgba { r: levels[r as int], g: levels[g as int], b: levels[b as int], a: 255 })
        }),
{
    let idx: int = 36 * r + 6 * g + b;
    assert(idx / 36 == r as int && (idx / 6) % 6 == g as int && idx % 6 == b as int) by (nonlinear_arith)
        requires
            idx == 36 * r + 6 * g + b,
            r < 6,
            g < 6,
            b < 6,
    ;
    let c = (16 + idx) as u8;
    assert(c - 16 == idx);
}

/// Entries 232 to 255 are a grey ramp from 8 in steps of 10.
pub proof fn lemma_palette_greys(k: u8)
    requires
        k < 24,
    ensures
        spec_ansi_256_to_rgb((232 + k) as u8) == (Rgba { r: (8 + 10 * k) as u8, g: (8 + 10 * k) as u8, b: (8 + 10 * k) as u8, a: 255 }),
{
}

} // verus!
