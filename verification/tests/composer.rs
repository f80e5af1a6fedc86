use frame::canvas::{
    BLANK, CENTRED_OFFSET, EPD_HEIGHT, EPD_WIDTH, FRAME_BYTES, HALF_ROW_BYTES, LEFT_SEAM_KEEPS,
    LEFT_SEAM_SHOWS, PORTRAIT_BYTES, RIGHT_SEAM_KEEPS, RIGHT_SEAM_SHOWS, ROW_BYTES,
};
use frame::composer::{compose, ComposeError};
use frame::media::{MediaItem, Orientation};
use frame::selector::Selection;

fn picture(id: &str, orientation: Orientation, pixels: Vec<u8>) -> MediaItem {
    MediaItem {
        id: id.to_string(),
        product_url: String::new(),
        last_shown: 0,
        orientation,
        pixels,
    }
}

/// A portrait buffer whose bytes tell their row and column apart.
fn portrait_pixels(salt: usize) -> Vec<u8> {
    let mut pixels = Vec::with_capacity(PORTRAIT_BYTES);
    for row in 0..EPD_HEIGHT {
        for column in 0..HALF_ROW_BYTES {
            pixels.push(((row * 31 + column * 7 + salt) % 256) as u8);
        }
    }
    pixels
}

fn landscape_pixels() -> Vec<u8> {
    (0..FRAME_BYTES).map(|k| (k % 253) as u8).collect()
}

fn portrait(id: &str, salt: usize) -> MediaItem {
    picture(id, Orientation::Portrait, portrait_pixels(salt))
}

#[test]
fn canvas_is_600_by_448_pixels_packed_in_pairs() {
    assert_eq!(EPD_WIDTH, 600);
    assert_eq!(EPD_HEIGHT, 448);
    assert_eq!(ROW_BYTES, 300);
    assert_eq!(HALF_ROW_BYTES, 150);
    assert_eq!(CENTRED_OFFSET, 75);
    assert_eq!(FRAME_BYTES, 134400);
    assert_eq!(PORTRAIT_BYTES, 67200);
    assert_eq!(BLANK, 0b0001_0001);
}

#[test]
fn seam_keeps_the_outer_pixel_and_shows_white_for_the_inner_one() {
    assert_eq!(LEFT_SEAM_KEEPS, 0b1111_0000);
    assert_eq!(LEFT_SEAM_SHOWS, 0b0000_0001);
    assert_eq!(RIGHT_SEAM_KEEPS, 0b0000_1111);
    assert_eq!(RIGHT_SEAM_SHOWS, 0b0001_0000);
    assert_eq!(LEFT_SEAM_SHOWS | RIGHT_SEAM_SHOWS, BLANK);
}

#[test]
fn landscape_is_returned_unchanged() {
    let pixels = landscape_pixels();
    let selection = Selection::single(picture("l", Orientation::Landscape, pixels.clone()));
    assert_eq!(compose(&selection), Ok(pixels));
}

#[test]
fn frame_has_the_size_of_the_canvas_for_every_kind_of_selection() {
    let zero = Selection::single(picture("l", Orientation::Landscape, landscape_pixels()));
    let one = Selection::single(portrait("p", 1));
    let two = Selection::pair(portrait("p", 1), portrait("q", 2), true).unwrap();
    assert_eq!(compose(&zero).unwrap().len(), (600 / 2) * 448);
    assert_eq!(compose(&one).unwrap().len(), (600 / 2) * 448);
    assert_eq!(compose(&two).unwrap().len(), (600 / 2) * 448);
}

#[test]
fn lone_portrait_stands_in_the_middle_of_a_white_canvas() {
    let pixels = portrait_pixels(5);
    let selection = Selection::single(picture("p", Orientation::Portrait, pixels.clone()));
    let frame = compose(&selection).unwrap();
    for row in 0..EPD_HEIGHT {
        for column in 0..ROW_BYTES {
            let got = frame[row * ROW_BYTES + column];
            if column < 75 || column >= 225 {
                assert_eq!(got, 0x11, "row {} column {}", row, column);
            } else {
                assert_eq!(got, pixels[row * 150 + column - 75], "row {} column {}", row, column);
            }
        }
    }
}

#[test]
fn lone_portrait_bytes_at_chosen_places() {
    let mut pixels = vec![0x00u8; PORTRAIT_BYTES];
    pixels[0] = 0xA7;
    pixels[149] = 0x3C;
    pixels[150] = 0x5E;
    pixels[PORTRAIT_BYTES - 1] = 0xF2;
    let selection = Selection::single(picture("p", Orientation::Portrait, pixels));
    let frame = compose(&selection).unwrap();
    assert_eq!(frame[0], 0x11);
    assert_eq!(frame[74], 0x11);
    assert_eq!(frame[75], 0xA7);
    assert_eq!(frame[76], 0x00);
    assert_eq!(frame[224], 0x3C);
    assert_eq!(frame[225], 0x11);
    assert_eq!(frame[299], 0x11);
    assert_eq!(frame[300 + 75], 0x5E);
    assert_eq!(frame[447 * 300 + 224], 0xF2);
    assert_eq!(frame[FRAME_BYTES - 1], 0x11);
}

#[test]
fn pair_stands_side_by_side_with_a_white_seam() {
    let left = portrait_pixels(3);
    let right = portrait_pixels(101);
    let selection = Selection::pair(
        picture("p", Orientation::Portrait, left.clone()),
        picture("q", Orientation::Portrait, right.clone()),
        true,
    )
    .unwrap();
    let frame = compose(&selection).unwrap();
    for row in 0..EPD_HEIGHT {
        for column in 0..ROW_BYTES {
            let got = frame[row * ROW_BYTES + column];
            let want = if column < 149 {
                left[row * 150 + column]
            } else if column == 149 {
                (left[row * 150 + 149] & 0xF0) | 0x01
            } else if column == 150 {
                0x10 | (right[row * 150] & 0x0F)
            } else {
                right[row * 150 + column - 150]
            };
            assert_eq!(got, want, "row {} column {}", row, column);
        }
    }
}

#[test]
fn seam_bytes_are_golden() {
    let mut left = vec![0x22u8; PORTRAIT_BYTES];
    let mut right = vec![0x33u8; PORTRAIT_BYTES];
    left[0] = 0xAB;
    left[149] = 0xAB;
    right[0] = 0xCD;
    right[149] = 0xCD;
    left[150 + 149] = 0x00;
    right[150] = 0x00;
    left[2 * 150 + 149] = 0xFF;
    right[2 * 150] = 0xFF;
    let selection = Selection::pair(
        picture("p", Orientation::Portrait, left),
        picture("q", Orientation::Portrait, right),
        false,
    )
    .unwrap();
    let frame = compose(&selection).unwrap();
    // first row: the edges are whole, the seam is white on both sides
    assert_eq!(frame[0], 0xAB);
    assert_eq!(frame[148], 0x22);
    assert_eq!(frame[149], 0xA1);
    assert_eq!(frame[150], 0x1D);
    assert_eq!(frame[151], 0x33);
    assert_eq!(frame[299], 0xCD);
    // second row: black pixels beside the seam
    assert_eq!(frame[300 + 149], 0x01);
    assert_eq!(frame[300 + 150], 0x10);
    // third row: all bits set beside the seam
    assert_eq!(frame[600 + 149], 0xF1);
    assert_eq!(frame[600 + 150], 0x1F);
}

#[test]
fn which_picture_is_primary_does_not_move_the_pictures() {
    let as_first = Selection::pair(portrait("p", 1), portrait("q", 2), true).unwrap();
    let as_second = Selection::pair(portrait("p", 1), portrait("q", 2), false).unwrap();
    assert_eq!(compose(&as_first), compose(&as_second));
}

#[test]
fn swapping_the_pair_swaps_the_halves_except_at_the_seam() {
    let a = portrait_pixels(11);
    let b = portrait_pixels(200);
    let ab = compose(&Selection::pair(portrait("a", 11), portrait("b", 200), true).unwrap())
        .unwrap();
    let ba = compose(&Selection::pair(portrait("b", 200), portrait("a", 11), true).unwrap())
        .unwrap();
    for row in 0..EPD_HEIGHT {
        for column in 0..HALF_ROW_BYTES {
            let left = row * ROW_BYTES + column;
            let right = left + HALF_ROW_BYTES;
            if column == 0 {
                assert_eq!(ab[left], a[row * 150]);
                assert_eq!(ba[left], b[row * 150]);
                assert_eq!(ba[right], 0x10 | (ab[left] & 0x0F));
                assert_eq!(ab[right], 0x10 | (ba[left] & 0x0F));
            } else if column == 149 {
                assert_eq!(ba[right], a[row * 150 + 149]);
                assert_eq!(ab[right], b[row * 150 + 149]);
                assert_eq!(ab[left], (ba[right] & 0xF0) | 0x01);
                assert_eq!(ba[left], (ab[right] & 0xF0) | 0x01);
            } else {
                assert_eq!(ab[left], ba[right], "row {} column {}", row, column);
                assert_eq!(ab[right], ba[left], "row {} column {}", row, column);
            }
        }
    }
}

#[test]
fn composing_leaves_the_selection_as_it_was() {
    let selection = Selection::pair(portrait("p", 1), portrait("q", 2), true).unwrap();
    let before = Selection::pair(portrait("p", 1), portrait("q", 2), true).unwrap();
    let once = compose(&selection);
    let again = compose(&selection);
    assert_eq!(selection, before);
    assert_eq!(once, again);
}

#[test]
fn landscape_of_the_wrong_size_is_data_corruption() {
    let short = Selection::single(picture("l", Orientation::Landscape, vec![0; FRAME_BYTES - 1]));
    let long = Selection::single(picture("l", Orientation::Landscape, vec![0; FRAME_BYTES + 1]));
    let half = Selection::single(picture("l", Orientation::Landscape, vec![0; PORTRAIT_BYTES]));
    let empty = Selection::single(picture("l", Orientation::Landscape, Vec::new()));
    assert_eq!(compose(&short), Err(ComposeError::DataCorruption));
    assert_eq!(compose(&long), Err(ComposeError::DataCorruption));
    assert_eq!(compose(&half), Err(ComposeError::DataCorruption));
    assert_eq!(compose(&empty), Err(ComposeError::DataCorruption));
}

#[test]
fn portrait_of_the_wrong_size_is_data_corruption() {
    let short = Selection::single(picture("p", Orientation::Portrait, vec![0; PORTRAIT_BYTES - 1]));
    let long = Selection::single(picture("p", Orientation::Portrait, vec![0; PORTRAIT_BYTES + 1]));
    let full = Selection::single(picture("p", Orientation::Portrait, vec![0; FRAME_BYTES]));
    assert_eq!(compose(&short), Err(ComposeError::DataCorruption));
    assert_eq!(compose(&long), Err(ComposeError::DataCorruption));
    assert_eq!(compose(&full), Err(ComposeError::DataCorruption));
}

#[test]
fn pair_with_one_picture_of_the_wrong_size_is_data_corruption() {
    let bad = |id: &str| picture(id, Orientation::Portrait, vec![0; PORTRAIT_BYTES - 150]);
    let left_bad = Selection::pair(bad("p"), portrait("q", 2), true).unwrap();
    let right_bad = Selection::pair(portrait("p", 1), bad("q"), true).unwrap();
    let both_bad = Selection::pair(bad("p"), bad("q"), true).unwrap();
    assert_eq!(compose(&left_bad), Err(ComposeError::DataCorruption));
    assert_eq!(compose(&right_bad), Err(ComposeError::DataCorruption));
    assert_eq!(compose(&both_bad), Err(ComposeError::DataCorruption));
}
