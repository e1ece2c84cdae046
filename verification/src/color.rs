//! RGBA colors and the two fixed ANSI lookup tables: the 16-entry table
//! for SGR codes 30-37/90-97 (foreground) and 40-47/100-107 (background),
//! and the 256-entry xterm palette used by `38;5;N` / `48;5;N` sequences.

use vstd::prelude::*;

verus! {

/// One opaque RGBA pixel value; every ANSI-resolved color has alpha 255.
#[derive(Clone, Copy, Debug, PartialEq, Eq, Structural)]
pub struct Color {
    pub r: u8,
    pub g: u8,
    pub b: u8,
    pub a: u8,
}

/// Opaque color from three channel values.
pub open spec fn rgb(r: u8, g: u8, b: u8) -> Color {
    Color { r, g, b, a: 255 }
}

/// Default foreground: white, as on a dark terminal theme.
pub open spec fn default_foreground() -> Color {
    rgb(255, 255, 255)
}

/// Default background: black, as on a dark terminal theme.
pub open spec fn default_background() -> Color {
    rgb(0, 0, 0)
}

/// The 16-entry ANSI table, keyed by the SGR code itself. Codes 30-37
/// (standard) and 90-97 (bright) select a foreground color; 40-47 and
/// 100-107 select the same colors for the background. Any other code has
/// no entry.
pub open spec fn ansi_color_spec(code: u32) -> Option<Color> {
    if 40 <= code <= 47 || 100 <= code <= 107 {
        ansi_foreground_spec((code - 10) as u32)
    } else {
        ansi_foreground_spec(code)
    }
}

/// The foreground half of the 16-entry table: codes 30-37 and 90-97.
pub open spec fn ansi_foreground_spec(code: u32) -> Option<Color> {
    if code == 30 {
        Some(rgb(0, 0, 0))
    } else if code == 31 {
        Some(rgb(128, 0, 0))
    } else if code == 32 {
        Some(rgb(0, 128, 0))
    } else if code == 33 {
        Some(rgb(128, 128, 0))
    } else if code == 34 {
        Some(rgb(0, 0, 128))
    } else if code == 35 {
        Some(rgb(128, 0, 128))
    } else if code == 36 {
        Some(rgb(0, 128, 128))
    } else if code == 37 {
        Some(rgb(192, 192, 192))
    } else if code == 90 {
        Some(rgb(128, 128, 128))
    } else if code == 91 {
        Some(rgb(255, 0, 0))
    } else if code == 92 {
        Some(rgb(0, 255, 0))
    } else if code == 93 {
        Some(rgb(255, 255, 0))
    } else if code == 94 {
        Some(rgb(0, 0, 255))
    } else if code == 95 {
        Some(rgb(255, 0, 255))
    } else if code == 96 {
        Some(rgb(0, 255, 255))
    } else if code == 97 {
        Some(rgb(255, 255, 255))
    } else {
        None
    }
}

/// Looks up an SGR code in the 16-entry ANSI table.
pub fn ansi_color(code: u32) -> (r: Option<Color>)
    ensures
        r == ansi_color_spec(code),
{
    let key = if 40 <= code && code <= 47 || 100 <= code && code <= 107 {
        code - 10
    } else {
        code
    };
    match key {
        30 => Some(Color { r: 0, g: 0, b: 0, a: 255 }),
        31 => Some(Color { r: 128, g: 0, b: 0, a: 255 }),
        32 => Some(Color { r: 0, g: 128, b: 0, a: 255 }),
        33 => Some(Color { r: 128, g: 128, b: 0, a: 255 }),
        34 => Some(Color { r: 0, g: 0, b: 128, a: 255 }),
        35 => Some(Color { r: 128, g: 0, b: 128, a: 255 }),
        36 => Some(Color { r: 0, g: 128, b: 128, a: 255 }),
        37 => Some(Color { r: 192, g: 192, b: 192, a: 255 }),
        90 => Some(Color { r: 128, g: 128, b: 128, a: 255 }),
        91 => Some(Color { r: 255, g: 0, b: 0, a: 255 }),
        92 => Some(Color { r: 0, g: 255, b: 0, a: 255 }),
        93 => Some(Color { r: 255, g: 255, b: 0, a: 255 }),
        94 => Some(Color { r: 0, g: 0, b: 255, a: 255 }),
        95 => Some(Color { r: 255, g: 0, b: 255, a: 255 }),
        96 => Some(Color { r: 0, g: 255, b: 255, a: 255 }),
        97 => Some(Color { r: 255, g: 255, b: 255, a: 255 }),
        _ => None,
    }
}

/// One channel of the 6x6x6 color cube: level 0 is 0, levels 1-5 are
/// 95, 135, 175, 215, 255, the standard xterm ramp.
pub open spec fn cube_channel_spec(level: u32) -> u8 {
    if level == 0 {
        0
    } else {
        (55 + 40 * level) as u8
    }
}

/// The 256-entry xterm palette: entries 0-15 mirror the 16-entry ANSI
/// table (0-7 are codes 30-37, 8-15 are codes 90-97), entries 16-231
/// form the 6x6x6 color cube, and entries 232-255 form a grayscale ramp
/// from 8 to 238 in steps of 10.
pub open spec fn palette_color_spec(index: u8) -> Color {
    if index < 8 {
        ansi_color_spec((30 + index) as u32)->Some_0
    } else if index < 16 {
        ansi_color_spec((82 + index) as u32)->Some_0
    } else if index < 232 {
        let n = (index - 16) as u32;
        rgb(
            cube_channel_spec(n / 36),
            cube_channel_spec((n / 6) % 6),
            cube_channel_spec(n % 6),
        )
    } else {
        let v = (8 + 10 * (index - 232)) as u8;
        rgb(v, v, v)
    }
}

/// Looks up an index in the 256-entry xterm palette. Every 8-bit index
/// has an entry, so the lookup always succeeds.
pub fn palette_color(index: u8) -> (r: Color)
    ensures
        r == palette_color_spec(index),
{
    if index < 8 {
        let c = ansi_color(30 + index as u32);
        c.unwrap()
    } else if index < 16 {
        let c = ansi_color(82 + index as u32);
        c.unwrap()
    } else if index < 232 {
        let n = (index - 16) as u32;
        Color {
            r: cube_channel(n / 36),
            g: cube_channel((n / 6) % 6),
            b: cube_channel(n % 6),
            a: 255,
        }
    } else {
        let v = 8 + 10 * (index - 232);
        Color { r: v, g: v, b: v, a: 255 }
    }
}

/// One channel of the 6x6x6 color cube.
fn cube_channel(level: u32) -> (r: u8)
    requires
        level < 6,
    ensures
        r == cube_channel_spec(level),
{
    if level == 0 {
        0
    } else {
        (55 + 40 * level) as u8
    }
}

/// Entries 0-15 of the 256-entry palette really do mirror the 16-entry
/// ANSI table: the palette entry for a small index equals the table
/// entry for the corresponding foreground code.
pub proof fn lemma_palette_mirrors_ansi_table(index: u8)
    requires
        index < 16,
    ensures
        index < 8 ==> Some(palette_color_spec(index)) == ansi_color_spec((30 + index) as u32),
        8 <= index ==> Some(palette_color_spec(index)) == ansi_color_spec((90 + index - 8) as u32),
{
}

} // verus!
