//! Geometry of the display: a 600 x 448 canvas of 4-bit pixels, two pixels
//! packed in each byte.

use vstd::prelude::*;

verus! {

/// Width of the display in pixels.
pub const EPD_WIDTH: usize = 600;

/// Height of the display in pixels, which is also its number of byte rows.
pub const EPD_HEIGHT: usize = 448;

/// Bytes in one row of a full-width picture.
pub const ROW_BYTES: usize = 300;

/// Bytes in one row of a half-width (portrait) picture.
pub const HALF_ROW_BYTES: usize = 150;

/// Bytes in a full frame.
pub const FRAME_BYTES: usize = 134400;

/// Bytes in a stored portrait picture.
pub const PORTRAIT_BYTES: usize = 67200;

/// Column at which a lone portrait picture starts, in bytes.
pub const CENTRED_OFFSET: usize = 75;

/// A byte of two white pixels.
pub const BLANK: u8 = 0x11;

/// What the last byte of a left-hand row keeps where two pictures meet:
/// its first pixel.
pub const LEFT_SEAM_KEEPS: u8 = 0xF0;

/// What the last byte of a left-hand row shows instead of its second
/// pixel: white.
pub const LEFT_SEAM_SHOWS: u8 = 0x01;

/// What the first byte of a right-hand row keeps where two pictures meet:
/// its second pixel.
pub const RIGHT_SEAM_KEEPS: u8 = 0x0F;

/// What the first byte of a right-hand row shows instead of its first
/// pixel: white.
pub const RIGHT_SEAM_SHOWS: u8 = 0x10;

/// Proves that the byte counts are those of the pixel geometry.
pub proof fn lemma_geometry()
    ensures
        ROW_BYTES == EPD_WIDTH / 2,
        HALF_ROW_BYTES == ROW_BYTES / 2,
        CENTRED_OFFSET == ROW_BYTES / 4,
        FRAME_BYTES == ROW_BYTES * EPD_HEIGHT,
        PORTRAIT_BYTES == HALF_ROW_BYTES * EPD_HEIGHT,
{
}

} // verus!
