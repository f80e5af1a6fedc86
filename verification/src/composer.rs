//! Packs a selection into one frame of exactly the size of the canvas.
//!
//! A landscape picture is the frame as it is stored. A lone portrait
//! picture stands in the middle of a white canvas. Two portrait pictures
//! stand side by side, parted by a seam of two white pixels: the last pixel
//! of the left picture's rows and the first pixel of the right picture's
//! rows give way to it.

use crate::canvas::{
    BLANK, CENTRED_OFFSET, EPD_HEIGHT, EPD_WIDTH, FRAME_BYTES, HALF_ROW_BYTES, LEFT_SEAM_KEEPS,
    LEFT_SEAM_SHOWS, PORTRAIT_BYTES, RIGHT_SEAM_KEEPS, RIGHT_SEAM_SHOWS, ROW_BYTES,
};
use crate::media::{MediaItemView, Orientation};
use crate::selector::{Selection, SelectionView};
use vstd::prelude::*;

verus! {

/// Why no frame was made.
#[derive(Clone, Copy, Debug, PartialEq, Eq, Structural)]
pub enum ComposeError {
    /// A stored picture does not have the size of its orientation.
    DataCorruption,
}

/// The picture's buffer has the size that its orientation calls for.
pub open spec fn well_sized(item: MediaItemView) -> bool {
    item.pixels.len() == if item.is_portrait() {
        PORTRAIT_BYTES
    } else {
        FRAME_BYTES
    }
}

/// Every picture of the selection is well sized.
pub open spec fn all_well_sized(selection: SelectionView) -> bool {
    forall|i: int| 0 <= i < selection.items.len() ==> well_sized(#[trigger] selection.items[i])
}

/// The last byte of a left-hand row: its first pixel stays, its second
/// pixel turns white.
pub open spec fn left_seam(byte: u8) -> u8 {
    (byte & LEFT_SEAM_KEEPS) | LEFT_SEAM_SHOWS
}

/// The first byte of a right-hand row: its first pixel turns white, its
/// second pixel stays.
pub open spec fn right_seam(byte: u8) -> u8 {
    RIGHT_SEAM_SHOWS | (byte & RIGHT_SEAM_KEEPS)
}

/// The byte at `row` and `column` of the frame that shows one portrait
/// picture in the middle.
pub open spec fn centred_byte(pixels: Seq<u8>, row: int, column: int) -> u8 {
    if CENTRED_OFFSET <= column < CENTRED_OFFSET + HALF_ROW_BYTES {
        pixels[row * HALF_ROW_BYTES + column - CENTRED_OFFSET]
    } else {
        BLANK
    }
}

/// The byte at `row` and `column` of the frame that shows two portrait
/// pictures side by side.
pub open spec fn paired_byte(left: Seq<u8>, right: Seq<u8>, row: int, column: int) -> u8 {
    if column < HALF_ROW_BYTES - 1 {
        left[row * HALF_ROW_BYTES + column]
    } else if column == HALF_ROW_BYTES - 1 {
        left_seam(left[row * HALF_ROW_BYTES + column])
    } else if column == HALF_ROW_BYTES {
        right_seam(right[row * HALF_ROW_BYTES])
    } else {
        right[row * HALF_ROW_BYTES + column - HALF_ROW_BYTES]
    }
}

/// The frame that shows one portrait picture in the middle.
pub open spec fn centred(pixels: Seq<u8>) -> Seq<u8> {
    Seq::new(
        FRAME_BYTES as nat,
        |k: int| centred_byte(pixels, k / ROW_BYTES as int, k % ROW_BYTES as int),
    )
}

/// The frame that shows two portrait pictures side by side.
pub open spec fn side_by_side(left: Seq<u8>, right: Seq<u8>) -> Seq<u8> {
    Seq::new(
        FRAME_BYTES as nat,
        |k: int| paired_byte(left, right, k / ROW_BYTES as int, k % ROW_BYTES as int),
    )
}

/// The frame of a selection.
pub open spec fn composed(selection: SelectionView) -> Seq<u8> {
    if selection.items.len() == 2 {
        side_by_side(selection.items[0].pixels, selection.items[1].pixels)
    } else if selection.items[0].is_portrait() {
        centred(selection.items[0].pixels)
    } else {
        selection.items[0].pixels
    }
}

/// A frame made of well-sized pictures has the size of the canvas, for
/// one landscape picture, one portrait picture and two portrait pictures
/// alike.
pub proof fn lemma_composed_len(selection: SelectionView)
    requires
        selection.wf(),
        all_well_sized(selection),
    ensures
        composed(selection).len() == (EPD_WIDTH as int / 2) * EPD_HEIGHT as int,
{
    assert(well_sized(selection.items[0]));
}

/// At the seam a byte keeps the pixel of its own picture and shows white
/// where its neighbour's pixel would be.
pub proof fn lemma_seam_nibbles(byte: u8)
    by (bit_vector)
    ensures
        left_seam(byte) & 0xF0 == byte & 0xF0,
        left_seam(byte) & 0x0F == BLANK & 0x0F,
        right_seam(byte) & 0x0F == byte & 0x0F,
        right_seam(byte) & 0xF0 == BLANK & 0xF0,
{
}

/// Swapping the two pictures of a pair swaps the halves of the frame.
///
/// For a row and a column within one half: away from the seam the byte of
/// either half is the byte of the other half after the swap. The first and
/// the last column of a half are whole at the edge of the canvas and meet
/// the seam in the middle, where they take the seam's form.
pub proof fn lemma_swap_mirrors(a: Seq<u8>, b: Seq<u8>, row: int, column: int)
    requires
        0 <= row < EPD_HEIGHT,
        0 <= column < HALF_ROW_BYTES,
    ensures
        ({
            let ab = side_by_side(a, b);
            let ba = side_by_side(b, a);
            let left = row * ROW_BYTES + column;
            let right = left + HALF_ROW_BYTES;
            &&& 0 < column < HALF_ROW_BYTES - 1 ==> ab[left] == ba[right] && ab[right] == ba[left]
            &&& column == 0 ==> ba[right] == right_seam(ab[left]) && ab[right] == right_seam(
                ba[left],
            )
            &&& column == HALF_ROW_BYTES - 1 ==> ab[left] == left_seam(ba[right]) && ba[left]
                == left_seam(ab[right])
        }),
{
    let left = row * ROW_BYTES + column;
    let right = left + HALF_ROW_BYTES;
    assert(left / ROW_BYTES as int == row && left % ROW_BYTES as int == column);
    assert(right / ROW_BYTES as int == row && right % ROW_BYTES as int == column
        + HALF_ROW_BYTES);
}

fn left_seam_of(byte: u8) -> (out: u8)
    ensures
        out == left_seam(byte),
{
    (byte & LEFT_SEAM_KEEPS) | LEFT_SEAM_SHOWS
}

fn right_seam_of(byte: u8) -> (out: u8)
    ensures
        out == right_seam(byte),
{
    RIGHT_SEAM_SHOWS | (byte & RIGHT_SEAM_KEEPS)
}

/// Sets one portrait picture in the middle of a white canvas.
fn centre(pixels: &Vec<u8>) -> (frame: Vec<u8>)
    requires
        pixels@.len() == PORTRAIT_BYTES,
    ensures
        frame@ == centred(pixels@),
{
    let mut frame: Vec<u8> = Vec::with_capacity(FRAME_BYTES);
    let mut row: usize = 0;
    while row < EPD_HEIGHT
        invariant
            row <= EPD_HEIGHT,
            pixels@.len() == PORTRAIT_BYTES,
            frame@.len() == row * ROW_BYTES,
            forall|k: int| 0 <= k < frame@.len() ==> #[trigger] frame@[k] == centred(pixels@)[k],
        decreases EPD_HEIGHT - row,
    {
        let mut column: usize = 0;
        while column < ROW_BYTES
            invariant
                row < EPD_HEIGHT,
                column <= ROW_BYTES,
                pixels@.len() == PORTRAIT_BYTES,
                frame@.len() == row * ROW_BYTES + column,
                forall|k: int|
                    0 <= k < frame@.len() ==> #[trigger] frame@[k] == centred(pixels@)[k],
            decreases ROW_BYTES - column,
        {
            let byte = if CENTRED_OFFSET <= column && column < CENTRED_OFFSET + HALF_ROW_BYTES {
                pixels[row * HALF_ROW_BYTES + column - CENTRED_OFFSET]
            } else {
                BLANK
            };
            frame.push(byte);
            column += 1;
        }
        row += 1;
    }
    assert(frame@ =~= centred(pixels@));
    frame
}

/// Sets two portrait pictures side by side.
fn join(left: &Vec<u8>, right: &Vec<u8>) -> (frame: Vec<u8>)
    requires
        left@.len() == PORTRAIT_BYTES,
        right@.len() == PORTRAIT_BYTES,
    ensures
        frame@ == side_by_side(left@, right@),
{
    let mut frame: Vec<u8> = Vec::with_capacity(FRAME_BYTES);
    let mut row: usize = 0;
    while row < EPD_HEIGHT
        invariant
            row <= EPD_HEIGHT,
            left@.len() == PORTRAIT_BYTES,
            right@.len() == PORTRAIT_BYTES,
            frame@.len() == row * ROW_BYTES,
            forall|k: int|
                0 <= k < frame@.len() ==> #[trigger] frame@[k] == side_by_side(left@, right@)[k],
        decreases EPD_HEIGHT - row,
    {
        let mut column: usize = 0;
        while column < ROW_BYTES
            invariant
                row < EPD_HEIGHT,
                column <= ROW_BYTES,
                left@.len() == PORTRAIT_BYTES,
                right@.len() == PORTRAIT_BYTES,
                frame@.len() == row * ROW_BYTES + column,
                forall|k: int|
                    0 <= k < frame@.len() ==> #[trigger] frame@[k] == side_by_side(
                        left@,
                        right@,
                    )[k],
            decreases ROW_BYTES - column,
        {
            let byte = if column < HALF_ROW_BYTES - 1 {
                left[row * HALF_ROW_BYTES + column]
            } else if column == HALF_ROW_BYTES - 1 {
                left_seam_of(left[row * HALF_ROW_BYTES + column])
            } else if column == HALF_ROW_BYTES {
                right_seam_of(right[row * HALF_ROW_BYTES])
            } else {
                right[row * HALF_ROW_BYTES + column - HALF_ROW_BYTES]
            };
            frame.push(byte);
            column += 1;
        }
        row += 1;
    }
    assert(frame@ =~= side_by_side(left@, right@));
    frame
}

/// Makes the frame of a selection.
///
/// The frame always has the size of the canvas. A picture whose stored
/// buffer has another size than its orientation calls for yields
/// `DataCorruption` and no frame. The selection itself is only read.
pub fn compose(selection: &Selection) -> (r: Result<Vec<u8>, ComposeError>)
    ensures
        match r {
            Ok(frame) => {
                &&& all_well_sized(selection@)
                &&& frame@ == composed(selection@)
                &&& frame@.len() == FRAME_BYTES
            },
            Err(e) => e == ComposeError::DataCorruption && !all_well_sized(selection@),
        },
{
    proof {
        use_type_invariant(selection);
    }
    let first = selection.first();
    match selection.second() {
        Some(second) => {
            if first.pixels.len() == PORTRAIT_BYTES && second.pixels.len() == PORTRAIT_BYTES {
                Ok(join(&first.pixels, &second.pixels))
            } else {
                assert(!well_sized(selection@.items[0]) || !well_sized(selection@.items[1]));
                Err(ComposeError::DataCorruption)
            }
        },
        None => {
            let wanted = match first.orientation {
                Orientation::Portrait => PORTRAIT_BYTES,
                Orientation::Landscape => FRAME_BYTES,
            };
            if first.pixels.len() != wanted {
                assert(!well_sized(selection@.items[0]));
                Err(ComposeError::DataCorruption)
            } else {
                match first.orientation {
                    Orientation::Portrait => Ok(centre(&first.pixels)),
                    Orientation::Landscape => Ok(first.pixels.clone()),
                }
            }
        },
    }
}

} // verus!
