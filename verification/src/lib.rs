//! Rendering and layout engine for a kiosk-style clock and weather display.
//!
//! The library owns the pixel surface, the bitmap glyph and icon
//! rasterizers, the centering arithmetic that lays glyph runs out in
//! horizontal bands, and the normalizer that reduces a raw forecast
//! payload to the slice the renderer draws. All drawing is specified
//! pixel-exactly: each draw function's contract states which pixels it
//! colors and that it leaves every other pixel unchanged.

use vstd::prelude::*;

pub mod clock;
pub mod forecast;
mod framebuffer;
pub mod font;
pub mod layout;
pub mod render;
pub mod weather;

pub use framebuffer::FrameBuffer;

verus! {

/// The color an overlay leaves at one pixel: `Some(c)` where the
/// overlay paints, `None` where it leaves the background visible.
/// `paint_or` resolves such an overlay against a background pixel.
pub open spec fn paint_or(p: Option<u32>, base: u32) -> u32 {
    match p {
        Option::Some(c) => c,
        Option::None => base,
    }
}

/// Stacks two overlays: where `top` paints it wins, elsewhere `bot`
/// shows through. Draw calls compose in this order, later call on top.
pub open spec fn over(top: Option<u32>, bot: Option<u32>) -> Option<u32> {
    match top {
        Option::Some(_) => top,
        Option::None => bot,
    }
}

/// Packs three 8-bit color channels into the `0x00RRGGBB` word a
/// [`FrameBuffer`] stores per pixel.
pub open spec fn rgb_spec(r: u8, g: u8, b: u8) -> int {
    r * 0x1_0000 + g * 0x100 + b
}

/// Packs red, green and blue channels into one `0x00RRGGBB` pixel word.
pub fn rgb(r: u8, g: u8, b: u8) -> (c: u32)
    ensures
        c == rgb_spec(r, g, b),
{
    (r as u32) * 0x1_0000 + (g as u32) * 0x100 + (b as u32)
}

} // verus!
