//! Layout of the Bongo Cat sprite frames: 64×64 pixels at one bit per
//! pixel, row-major, eight pixels per byte, most significant bit first.

use vstd::prelude::*;

verus! {

/// Width of a sprite frame, in pixels.
pub const FRAME_W: u16 = 64;

/// Height of a sprite frame, in pixels.
pub const FRAME_H: u16 = 64;

/// Bytes in one sprite frame.
pub const FRAME_BYTES: usize = 512;

/// A frame holds exactly one bit per pixel.
pub proof fn law_frame_bytes()
    ensures
        FRAME_BYTES == (FRAME_W as int * FRAME_H as int) / 8,
{
}

} // verus!
