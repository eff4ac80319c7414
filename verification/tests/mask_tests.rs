use crop_export::error::ExportError;
use crop_export::mask::{apply_rounded_mask, MaskRegion};
use crop_export::pixels::{PixelBuffer, Rgba};

const WHITE: Rgba = Rgba { r: 255, g: 255, b: 255, a: 255 };
const CLEAR: Rgba = Rgba { r: 0, g: 0, b: 0, a: 0 };

fn gradient(width: u32, height: u32) -> PixelBuffer {
    let mut data = Vec::new();
    for y in 0..height {
        for x in 0..width {
            data.push((x * 7 + 1) as u8);
            data.push((y * 11 + 2) as u8);
            data.push((x + y + 3) as u8);
            data.push(200);
        }
    }
    PixelBuffer::from_raw(width, height, data).unwrap()
}

fn inside_map(image: &PixelBuffer, before: &PixelBuffer, fill: Rgba) -> Vec<String> {
    let mut rows = Vec::new();
    for y in 0..image.height() {
        let mut row = String::new();
        for x in 0..image.width() {
            let now = image.get_pixel(x, y);
            if now == before.get_pixel(x, y) {
                row.push('#');
            } else {
                assert_eq!(now, fill);
                row.push('.');
            }
        }
        rows.push(row);
    }
    rows
}

#[test]
fn region_for_plain_image() {
    let region = MaskRegion::for_image(10, 6, 2, 1).unwrap();
    assert_eq!(region, MaskRegion { left: 1, top: 1, right: 9, bottom: 5, radius: 2 });
}

#[test]
fn region_clamps_inset_to_half_of_each_side() {
    let region = MaskRegion::for_image(9, 5, 0, 100).unwrap();
    assert_eq!(region, MaskRegion { left: 2, top: 2, right: 7, bottom: 3, radius: 0 });
}

#[test]
fn region_clamps_radius_to_half_of_shorter_side_rounded_down() {
    let region = MaskRegion::for_image(20, 7, 100, 1).unwrap();
    assert_eq!(region, MaskRegion { left: 1, top: 1, right: 19, bottom: 6, radius: 2 });
}

#[test]
fn region_of_empty_image_is_invalid_geometry() {
    assert_eq!(MaskRegion::for_image(0, 5, 1, 1), Err(ExportError::InvalidGeometry));
    assert_eq!(MaskRegion::for_image(5, 0, 1, 1), Err(ExportError::InvalidGeometry));
}

#[test]
fn region_with_inset_that_leaves_nothing_is_refused() {
    assert_eq!(MaskRegion::for_image(4, 8, 0, 2), Err(ExportError::InsetTooLarge));
    assert_eq!(MaskRegion::for_image(8, 4, 0, 9), Err(ExportError::InsetTooLarge));
}

#[test]
fn covers_follows_centre_distance_in_corners() {
    let region = MaskRegion::for_image(8, 8, 4, 0).unwrap();
    assert!(!region.covers(0, 0));
    assert!(!region.covers(1, 0));
    assert!(region.covers(2, 0));
    assert!(region.covers(1, 1));
    assert!(!region.covers(0, 1));
    assert!(region.covers(0, 2));
    assert!(!region.covers(7, 7));
    assert!(region.covers(6, 6));
    assert!(!region.covers(8, 3));
    assert!(!region.covers(3, 8));
}

#[test]
fn mask_with_radius_two_cuts_only_the_corner_pixels_of_four_by_four() {
    let before = gradient(4, 4);
    let mut image = before.clone();
    assert_eq!(apply_rounded_mask(&mut image, 2, 0, true), Ok(()));
    assert_eq!(inside_map(&image, &before, CLEAR), vec![".##.", "####", "####", ".##."]);
}

#[test]
fn mask_with_full_radius_on_eight_by_eight() {
    let before = gradient(8, 8);
    let mut image = before.clone();
    assert_eq!(apply_rounded_mask(&mut image, 4, 0, false), Ok(()));
    assert_eq!(
        inside_map(&image, &before, WHITE),
        vec![
            "..####..",
            ".######.",
            "########",
            "########",
            "########",
            "########",
            ".######.",
            "..####..",
        ]
    );
}

#[test]
fn zero_radius_gives_plain_inset_rectangle() {
    let before = gradient(6, 5);
    let mut image = before.clone();
    assert_eq!(apply_rounded_mask(&mut image, 0, 1, false), Ok(()));
    assert_eq!(
        inside_map(&image, &before, WHITE),
        vec!["......", ".####.", ".####.", ".####.", "......"]
    );
}

#[test]
fn zero_radius_and_zero_inset_leave_the_image_alone() {
    let before = gradient(5, 3);
    let mut image = before.clone();
    assert_eq!(apply_rounded_mask(&mut image, 0, 0, true), Ok(()));
    assert_eq!(image, before);
}

#[test]
fn odd_side_rounds_the_largest_radius_down() {
    let before = gradient(5, 5);
    let mut image = before.clone();
    assert_eq!(apply_rounded_mask(&mut image, 100, 0, true), Ok(()));
    assert_eq!(
        inside_map(&image, &before, CLEAR),
        vec![".###.", "#####", "#####", "#####", ".###."]
    );
}

#[test]
fn edge_midpoints_stay_with_largest_radius() {
    let before = gradient(6, 6);
    let mut image = before.clone();
    assert_eq!(apply_rounded_mask(&mut image, 3, 0, true), Ok(()));
    for (x, y) in [(2, 0), (3, 0), (2, 5), (3, 5), (0, 2), (0, 3), (5, 2), (5, 3)] {
        assert_eq!(image.get_pixel(x, y), before.get_pixel(x, y));
    }
    assert_eq!(image.get_pixel(0, 0), CLEAR);
    assert_eq!(image.get_pixel(5, 5), CLEAR);
}

#[test]
fn large_inset_is_clamped_and_keeps_the_middle() {
    let before = gradient(5, 5);
    let mut image = before.clone();
    assert_eq!(apply_rounded_mask(&mut image, 3, 10, false), Ok(()));
    assert_eq!(
        inside_map(&image, &before, WHITE),
        vec![".....", ".....", "..#..", ".....", "....."]
    );
}

#[test]
fn transparent_fill_has_no_opacity_outside() {
    let mut image = gradient(8, 8);
    assert_eq!(apply_rounded_mask(&mut image, 4, 1, true), Ok(()));
    let region = MaskRegion::for_image(8, 8, 4, 1).unwrap();
    for y in 0..8 {
        for x in 0..8 {
            if !region.covers(x, y) {
                assert_eq!(image.get_pixel(x, y).a, 0);
                assert_eq!(image.get_pixel(x, y), CLEAR);
            }
        }
    }
}

#[test]
fn white_fill_is_opaque_white_outside() {
    let mut image = gradient(7, 9);
    assert_eq!(apply_rounded_mask(&mut image, 3, 1, false), Ok(()));
    let region = MaskRegion::for_image(7, 9, 3, 1).unwrap();
    for y in 0..9 {
        for x in 0..7 {
            if !region.covers(x, y) {
                assert_eq!(image.get_pixel(x, y), WHITE);
            }
        }
    }
}

#[test]
fn masking_twice_is_masking_once() {
    let mut once = gradient(9, 7);
    assert_eq!(apply_rounded_mask(&mut once, 3, 1, true), Ok(()));
    let mut twice = once.clone();
    assert_eq!(apply_rounded_mask(&mut twice, 3, 1, true), Ok(()));
    assert_eq!(twice, once);
}

#[test]
fn transparent_mask_after_white_mask_clears_the_outside() {
    let mut image = gradient(8, 8);
    assert_eq!(apply_rounded_mask(&mut image, 4, 0, false), Ok(()));
    assert_eq!(image.get_pixel(0, 0), WHITE);
    assert_eq!(apply_rounded_mask(&mut image, 4, 0, true), Ok(()));
    assert_eq!(image.get_pixel(0, 0), CLEAR);
    assert_eq!(image.get_pixel(7, 0).a, 0);
}

#[test]
fn mask_of_empty_image_fails_and_changes_nothing() {
    let mut image = PixelBuffer::from_raw(0, 0, Vec::new()).unwrap();
    assert_eq!(apply_rounded_mask(&mut image, 1, 0, true), Err(ExportError::InvalidGeometry));
    assert_eq!(image.width(), 0);
    assert_eq!(image.as_raw().len(), 0);
}

#[test]
fn mask_with_inset_of_half_an_even_side_fails_and_changes_nothing() {
    let before = gradient(4, 6);
    let mut image = before.clone();
    assert_eq!(apply_rounded_mask(&mut image, 1, 2, true), Err(ExportError::InsetTooLarge));
    assert_eq!(image, before);
}

#[test]
fn buffer_from_raw_wants_exactly_four_samples_per_pixel() {
    assert!(PixelBuffer::from_raw(2, 2, vec![0; 16]).is_some());
    assert!(PixelBuffer::from_raw(2, 2, vec![0; 15]).is_none());
    assert!(PixelBuffer::from_raw(2, 2, vec![0; 17]).is_none());
    assert!(PixelBuffer::from_raw(0, 7, Vec::new()).is_some());
}

#[test]
fn put_pixel_changes_one_pixel() {
    let before = gradient(3, 2);
    let mut image = before.clone();
    let red = Rgba { r: 9, g: 8, b: 7, a: 6 };
    image.put_pixel(2, 1, red);
    for y in 0..2 {
        for x in 0..3 {
            let want = if (x, y) == (2, 1) { red } else { before.get_pixel(x, y) };
            assert_eq!(image.get_pixel(x, y), want);
        }
    }
    assert_eq!(&image.into_raw()[20..24], &[9, 8, 7, 6]);
}

#[test]
fn fill_colours() {
    assert_eq!(Rgba::white(), WHITE);
    assert_eq!(Rgba::transparent(), CLEAR);
}
