//! RGB565 pixel colours, packed by embedded-graphics.

use embedded_graphics::pixelcolor::IntoStorage;
use vstd::prelude::*;

verus! {

/// The 16-bit RGB565 word of the channels `r` (5 bits), `g` (6 bits) and
/// `b` (5 bits); bits above a channel's width are dropped.
pub open spec fn pack_rgb565(r: u8, g: u8, b: u8) -> u16 {
    ((r % 32) as int * 2048 + (g % 64) as int * 32 + (b % 32) as int) as u16
}

/// Packs a colour with embedded-graphics:
/// `Rgb565::new(r, g, b).into_storage()`.  The crate masks each channel to
/// its width and shifts red to bits 11..16, green to bits 5..11 and blue to
/// bits 0..5; the contract states that packing.
#[verifier::external_body]
fn eg_rgb565_storage(r: u8, g: u8, b: u8) -> (raw: u16)
    ensures
        raw == pack_rgb565(r, g, b),
{
    embedded_graphics::pixelcolor::Rgb565::new(r, g, b).into_storage()
}

/// An RGB565 colour, held as its raw 16-bit word.
#[derive(Clone, Copy, Debug, PartialEq, Eq, Structural)]
pub struct Rgb565 {
    raw: u16,
}

impl Rgb565 {
    /// The raw word of the colour.
    pub closed spec fn storage(self) -> u16 {
        self.raw
    }

    /// The colour with channels `r`, `g` and `b` (red and blue 0..=31,
    /// green 0..=63; larger values lose their high bits).
    pub fn new(r: u8, g: u8, b: u8) -> (c: Self)
        ensures
            c.storage() == pack_rgb565(r, g, b),
    {
        Rgb565 { raw: eg_rgb565_storage(r, g, b) }
    }

    /// The raw RGB565 word.
    pub fn into_storage(&self) -> (raw: u16)
        ensures
            raw == self.storage(),
    {
        self.raw
    }
}

} // verus!
