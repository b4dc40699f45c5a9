//! The colours the window is drawn in, as the hex values the palette is written in.
use vstd::prelude::*;

verus! {

/// The red, green and blue bytes of `0xRRGGBB`.
pub fn rgb_parts(hex: u32) -> (c: (u8, u8, u8))
    ensures
        c.0 == (hex / 0x1_0000) % 0x100,
        c.1 == (hex / 0x100) % 0x100,
        c.2 == hex % 0x100,
{
    let r = (hex >> 16) & 0xff;
    let g = (hex >> 8) & 0xff;
    let b = hex & 0xff;
    assert(r == (hex / 0x1_0000) % 0x100 && r < 0x100) by (bit_vector)
        requires
            r == (hex >> 16) & 0xff,
    ;
    assert(g == (hex / 0x100) % 0x100 && g < 0x100) by (bit_vector)
        requires
            g == (hex >> 8) & 0xff,
    ;
    assert(b == hex % 0x100 && b < 0x100) by (bit_vector)
        requires
            b == hex & 0xff,
    ;
    (r as u8, g as u8, b as u8)
}

/// Every colour role the window draws with, as `0xRRGGBB`.
#[derive(Debug, Clone, Copy, PartialEq, Eq, Structural)]
pub struct PaletteHex {
    pub background: u32,
    pub surface: u32,
    pub surface_alt: u32,
    pub border: u32,
    /// Hairline between chrome segments and table rows.
    pub rule: u32,
    pub row_even: u32,
    pub row_odd: u32,
    pub row_hover: u32,
    pub fg: u32,
    pub fg_muted: u32,
    /// Pumpkin's orange, lightened for dark backgrounds.
    pub accent: u32,
    pub good: u32,
    pub warn: u32,
    pub danger: u32,
}

pub open spec fn dark_palette() -> PaletteHex {
    PaletteHex {
        background: 0x16181d,
        surface: 0x1e2128,
        surface_alt: 0x262a33,
        border: 0x333844,
        rule: 0x4a5160,
        row_even: 0x1e2128,
        row_odd: 0x252a33,
        row_hover: 0x30363f,
        fg: 0xffffff,
        fg_muted: 0x9aa1ae,
        accent: 0xff9d4d,
        good: 0x5ac37f,
        warn: 0xe8c05a,
        danger: 0xe8705f,
    }
}

pub open spec fn light_palette() -> PaletteHex {
    PaletteHex {
        background: 0xf6f7f9,
        surface: 0xffffff,
        surface_alt: 0xeef0f4,
        border: 0xd8dce4,
        rule: 0xb8c0cc,
        row_even: 0xffffff,
        row_odd: 0xeef1f5,
        row_hover: 0xe2e7ee,
        fg: 0x000000,
        fg_muted: 0x5c6472,
        accent: 0xe0701a,
        good: 0x2f8f52,
        warn: 0xa97a10,
        danger: 0xc2412e,
    }
}

/// The palette for the dark or the light theme.
pub fn palette_hex(dark: bool) -> (p: PaletteHex)
    ensures
        p == (if dark {
            dark_palette()
        } else {
            light_palette()
        }),
{
    if dark {
        PaletteHex {
            background: 0x16181d,
            surface: 0x1e2128,
            surface_alt: 0x262a33,
            border: 0x333844,
            rule: 0x4a5160,
            row_even: 0x1e2128,
            row_odd: 0x252a33,
            row_hover: 0x30363f,
            fg: 0xffffff,
            fg_muted: 0x9aa1ae,
            accent: 0xff9d4d,
            good: 0x5ac37f,
            warn: 0xe8c05a,
            danger: 0xe8705f,
        }
    } else {
        PaletteHex {
            background: 0xf6f7f9,
            surface: 0xffffff,
            surface_alt: 0xeef0f4,
            border: 0xd8dce4,
            rule: 0xb8c0cc,
            row_even: 0xffffff,
            row_odd: 0xeef1f5,
            row_hover: 0xe2e7ee,
            fg: 0x000000,
            fg_muted: 0x5c6472,
            accent: 0xe0701a,
            good: 0x2f8f52,
            warn: 0xa97a10,
            danger: 0xc2412e,
        }
    }
}

/// Which of a table's two stripes row `index` gets: even rows the first.
pub fn is_even_row(index: usize) -> (b: bool)
    ensures
        b == (index % 2 == 0),
{
    index % 2 == 0
}

} // verus!
