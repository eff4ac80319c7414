use crop_export::error::ExportError;
use crop_export::mask::{MaskParams, MaskRegion};
use crop_export::pixels::{PixelBuffer, Rgba};
use crop_export::transform::{
    can_resize, crop, export_single, transform, CropRect, MaskShape, TargetSize, MAX_RESIZE_SIDE,
};

fn numbered(width: u32, height: u32) -> PixelBuffer {
    let mut data = Vec::new();
    for y in 0..height {
        for x in 0..width {
            data.push(x as u8);
            data.push(y as u8);
            data.push((x + 16 * y) as u8);
            data.push(255);
        }
    }
    PixelBuffer::from_raw(width, height, data).unwrap()
}

fn uniform(width: u32, height: u32, color: Rgba) -> PixelBuffer {
    let mut data = Vec::new();
    for _ in 0..width * height {
        data.extend_from_slice(&[color.r, color.g, color.b, color.a]);
    }
    PixelBuffer::from_raw(width, height, data).unwrap()
}

fn no_mask() -> MaskParams {
    MaskParams { radius_px: 0, inset_px: 0, transparent: true }
}

#[test]
fn crop_yields_exactly_the_rectangle() {
    let source = numbered(10, 8);
    let cut = crop(&source, CropRect { x: 3, y: 2, w: 4, h: 5 }).unwrap();
    assert_eq!(cut.width(), 4);
    assert_eq!(cut.height(), 5);
    assert_eq!(cut.as_raw().len(), 4 * 4 * 5);
    for j in 0..5 {
        for i in 0..4 {
            assert_eq!(cut.get_pixel(i, j), source.get_pixel(3 + i, 2 + j));
        }
    }
}

#[test]
fn crop_of_whole_image_is_the_image() {
    let source = numbered(6, 4);
    assert_eq!(crop(&source, CropRect { x: 0, y: 0, w: 6, h: 4 }), Ok(source.clone()));
}

#[test]
fn crop_that_touches_the_far_corner_fits() {
    let source = numbered(6, 4);
    let cut = crop(&source, CropRect { x: 5, y: 3, w: 1, h: 1 }).unwrap();
    assert_eq!(cut.get_pixel(0, 0), source.get_pixel(5, 3));
}

#[test]
fn crop_without_area_is_invalid() {
    let source = numbered(6, 4);
    assert_eq!(crop(&source, CropRect { x: 0, y: 0, w: 0, h: 2 }), Err(ExportError::InvalidCrop));
    assert_eq!(crop(&source, CropRect { x: 0, y: 0, w: 2, h: 0 }), Err(ExportError::InvalidCrop));
    assert_eq!(crop(&source, CropRect { x: 9, y: 9, w: 0, h: 0 }), Err(ExportError::InvalidCrop));
}

#[test]
fn crop_beyond_the_image_is_out_of_bounds() {
    let source = numbered(6, 4);
    for rect in [
        CropRect { x: 0, y: 0, w: 7, h: 4 },
        CropRect { x: 0, y: 0, w: 6, h: 5 },
        CropRect { x: 5, y: 0, w: 2, h: 1 },
        CropRect { x: 0, y: 3, w: 1, h: 2 },
        CropRect { x: 6, y: 0, w: 1, h: 1 },
        CropRect { x: 0, y: 4, w: 1, h: 1 },
        CropRect { x: u32::MAX, y: 0, w: 2, h: 1 },
        CropRect { x: 1, y: 1, w: u32::MAX, h: u32::MAX },
    ] {
        assert_eq!(crop(&source, rect), Err(ExportError::CropOutOfBounds));
        assert_eq!(rect.check(6, 4), Err(ExportError::CropOutOfBounds));
    }
}

#[test]
fn shape_names() {
    assert_eq!(MaskShape::parse("rounded"), MaskShape::Rounded);
    assert_eq!(MaskShape::parse("rectangular"), MaskShape::Rectangular);
    assert_eq!(MaskShape::parse("Rounded"), MaskShape::Rectangular);
    assert_eq!(MaskShape::parse(""), MaskShape::Rectangular);
}

#[test]
fn target_without_pixels_is_refused_before_anything_else() {
    let source = numbered(6, 4);
    let inside = CropRect { x: 0, y: 0, w: 2, h: 2 };
    let beyond = CropRect { x: 9, y: 9, w: 2, h: 2 };
    let flat = CropRect { x: 0, y: 0, w: 0, h: 2 };
    for target in [
        TargetSize { width: 0, height: 5 },
        TargetSize { width: 5, height: 0 },
        TargetSize { width: 0, height: 0 },
    ] {
        for rect in [inside, beyond, flat] {
            assert_eq!(
                transform(&source, rect, MaskShape::Rounded, no_mask(), target),
                Err(ExportError::InvalidTargetSize)
            );
        }
    }
}

#[test]
fn resize_is_possible_below_the_side_limit_and_within_memory() {
    assert_eq!(MAX_RESIZE_SIDE, 1 << 20);
    let small = TargetSize { width: 64, height: 64 };
    assert!(can_resize(100, 100, small));
    assert!(can_resize(MAX_RESIZE_SIDE - 1, 1, small));
    assert!(!can_resize(MAX_RESIZE_SIDE, 1, small));
    assert!(!can_resize(1, MAX_RESIZE_SIDE, small));
    assert!(!can_resize(1, 1, TargetSize { width: MAX_RESIZE_SIDE, height: 1 }));
    assert!(!can_resize(1, 1, TargetSize { width: 1, height: MAX_RESIZE_SIDE }));
    assert!(!can_resize(1, 1, TargetSize { width: u32::MAX, height: u32::MAX }));
    let wide = TargetSize { width: MAX_RESIZE_SIDE - 1, height: MAX_RESIZE_SIDE - 1 };
    assert_eq!(can_resize(1, 1, wide), 4 * (wide.width as u128).pow(2) <= isize::MAX as u128);
}

#[test]
fn target_beyond_the_side_limit_is_too_large() {
    let source = numbered(6, 4);
    let rect = CropRect { x: 1, y: 1, w: 2, h: 2 };
    for target in [
        TargetSize { width: MAX_RESIZE_SIDE, height: 1 },
        TargetSize { width: 1, height: MAX_RESIZE_SIDE },
        TargetSize { width: u32::MAX, height: u32::MAX },
    ] {
        assert_eq!(
            transform(&source, rect, MaskShape::Rectangular, no_mask(), target),
            Err(ExportError::ResizeTooLarge)
        );
    }
}

#[test]
fn errors_of_crop_and_mask_come_before_the_size_limit() {
    let source = numbered(6, 4);
    let target = TargetSize { width: u32::MAX, height: u32::MAX };
    let mask = MaskParams { radius_px: 0, inset_px: 1, transparent: true };
    assert_eq!(
        transform(&source, CropRect { x: 5, y: 0, w: 4294967293, h: 5 }, MaskShape::Rectangular, mask, target),
        Err(ExportError::CropOutOfBounds)
    );
    assert_eq!(
        transform(&source, CropRect { x: 9, y: 0, w: 0, h: 5 }, MaskShape::Rectangular, mask, target),
        Err(ExportError::InvalidCrop)
    );
    assert_eq!(
        transform(&source, CropRect { x: 0, y: 0, w: 2, h: 2 }, MaskShape::Rounded, mask, target),
        Err(ExportError::InsetTooLarge)
    );
}

#[test]
fn resize_to_the_longest_side_allowed() {
    let color = Rgba { r: 1, g: 2, b: 3, a: 4 };
    let source = uniform(2, 2, color);
    let rect = CropRect { x: 0, y: 0, w: 1, h: 1 };
    let target = TargetSize { width: MAX_RESIZE_SIDE - 1, height: 1 };
    let out = transform(&source, rect, MaskShape::Rectangular, no_mask(), target).unwrap();
    assert_eq!((out.width(), out.height()), (MAX_RESIZE_SIDE - 1, 1));
    assert_eq!(out.get_pixel(0, 0), color);
    assert_eq!(out.get_pixel(MAX_RESIZE_SIDE - 2, 0), color);
}

#[test]
fn pure_crop_needs_no_resize_whatever_the_size() {
    let source = numbered(3, 2);
    let rect = CropRect { x: 0, y: 0, w: 3, h: 2 };
    let target = TargetSize { width: 3, height: 2 };
    let mask = MaskParams { radius_px: 77, inset_px: 99, transparent: false };
    assert_eq!(transform(&source, rect, MaskShape::Rectangular, mask, target), Ok(source.clone()));
}

#[test]
fn single_export_reads_the_shape_from_its_name() {
    let source = numbered(8, 8);
    let rect = CropRect { x: 0, y: 0, w: 8, h: 8 };
    let mask = MaskParams { radius_px: 4, inset_px: 0, transparent: true };
    let target = TargetSize { width: 8, height: 8 };
    assert_eq!(
        export_single(&source, rect, "rounded", 4, 0, 8, 8, true),
        transform(&source, rect, MaskShape::Rounded, mask, target)
    );
    assert_eq!(export_single(&source, rect, "rectangular", 4, 0, 8, 8, true), Ok(source.clone()));
    assert_eq!(export_single(&source, rect, "", 4, 0, 8, 8, true), Ok(source.clone()));
    assert_eq!(
        export_single(&source, rect, "rounded", 4, 0, 0, 8, true),
        Err(ExportError::InvalidTargetSize)
    );
    assert_eq!(
        export_single(&source, CropRect { x: 5, y: 0, w: 4294967293, h: 5 }, "rectangular", 0, 0, 4, 4, true),
        Err(ExportError::CropOutOfBounds)
    );
    assert_eq!(
        export_single(&source, CropRect { x: 50, y: 0, w: 0, h: 5 }, "rounded", 0, 0, 4, 4, true),
        Err(ExportError::InvalidCrop)
    );
}

#[test]
fn rectangular_transform_at_crop_size_is_a_pure_crop() {
    let source = numbered(12, 9);
    let rect = CropRect { x: 2, y: 1, w: 7, h: 5 };
    let target = TargetSize { width: 7, height: 5 };
    let out = transform(&source, rect, MaskShape::Rectangular, no_mask(), target).unwrap();
    assert_eq!((out.width(), out.height()), (7, 5));
    for j in 0..5 {
        for i in 0..7 {
            assert_eq!(out.get_pixel(i, j), source.get_pixel(2 + i, 1 + j));
        }
    }
    assert_eq!(Ok(out), crop(&source, rect));
}

#[test]
fn rounded_transform_at_crop_size_is_the_masked_crop() {
    let source = numbered(12, 9);
    let rect = CropRect { x: 1, y: 1, w: 8, h: 8 };
    let mask = MaskParams { radius_px: 4, inset_px: 0, transparent: false };
    let target = TargetSize { width: 8, height: 8 };
    let out = transform(&source, rect, MaskShape::Rounded, mask, target).unwrap();
    let region = MaskRegion::for_image(8, 8, 4, 0).unwrap();
    for j in 0..8 {
        for i in 0..8 {
            let want = if region.covers(i, j) {
                source.get_pixel(1 + i, 1 + j)
            } else {
                Rgba::white()
            };
            assert_eq!(out.get_pixel(i, j), want);
        }
    }
}

#[test]
fn transform_resizes_to_the_target() {
    let source = numbered(12, 9);
    let rect = CropRect { x: 0, y: 0, w: 8, h: 6 };
    let target = TargetSize { width: 4, height: 3 };
    let out = transform(&source, rect, MaskShape::Rectangular, no_mask(), target).unwrap();
    assert_eq!((out.width(), out.height()), (4, 3));
    assert_eq!(out.as_raw().len(), 4 * 4 * 3);
    let larger = TargetSize { width: 16, height: 12 };
    let out = transform(&source, rect, MaskShape::Rectangular, no_mask(), larger).unwrap();
    assert_eq!((out.width(), out.height()), (16, 12));
    assert_eq!(out.as_raw().len(), 4 * 16 * 12);
}

#[test]
fn resizing_one_colour_keeps_the_colour() {
    let color = Rgba { r: 40, g: 80, b: 120, a: 255 };
    let source = uniform(9, 9, color);
    let rect = CropRect { x: 1, y: 1, w: 6, h: 6 };
    for (w, h) in [(3, 3), (12, 12), (5, 7)] {
        let target = TargetSize { width: w, height: h };
        let out = transform(&source, rect, MaskShape::Rectangular, no_mask(), target).unwrap();
        assert_eq!(out, uniform(w, h, color));
    }
}

#[test]
fn resizing_is_repeatable() {
    let source = numbered(12, 9);
    let rect = CropRect { x: 1, y: 2, w: 9, h: 6 };
    let mask = MaskParams { radius_px: 3, inset_px: 1, transparent: true };
    let target = TargetSize { width: 5, height: 4 };
    let first = transform(&source, rect, MaskShape::Rounded, mask, target);
    let second = transform(&source, rect, MaskShape::Rounded, mask, target);
    assert!(first.is_ok());
    assert_eq!(first, second);
}

#[test]
fn transform_leaves_the_source_alone() {
    let source = numbered(8, 8);
    let copy = source.clone();
    let rect = CropRect { x: 0, y: 0, w: 8, h: 8 };
    let mask = MaskParams { radius_px: 4, inset_px: 0, transparent: true };
    let target = TargetSize { width: 8, height: 8 };
    let out = transform(&source, rect, MaskShape::Rounded, mask, target).unwrap();
    assert_eq!(source, copy);
    assert_ne!(out, source);
}

#[test]
fn transform_reports_crop_errors_first() {
    let source = numbered(8, 8);
    let mask = MaskParams { radius_px: 1, inset_px: 4, transparent: true };
    let target = TargetSize { width: 4, height: 4 };
    assert_eq!(
        transform(&source, CropRect { x: 0, y: 0, w: 0, h: 4 }, MaskShape::Rounded, mask, target),
        Err(ExportError::InvalidCrop)
    );
    assert_eq!(
        transform(&source, CropRect { x: 5, y: 0, w: 4, h: 4 }, MaskShape::Rounded, mask, target),
        Err(ExportError::CropOutOfBounds)
    );
}

#[test]
fn transform_passes_on_mask_errors() {
    let source = numbered(8, 8);
    let mask = MaskParams { radius_px: 1, inset_px: 2, transparent: true };
    let target = TargetSize { width: 4, height: 4 };
    let rect = CropRect { x: 0, y: 0, w: 4, h: 6 };
    assert_eq!(
        transform(&source, rect, MaskShape::Rounded, mask, target),
        Err(ExportError::InsetTooLarge)
    );
    assert!(transform(&source, rect, MaskShape::Rectangular, mask, target).is_ok());
}

#[test]
fn error_messages() {
    assert_eq!(ExportError::LoadFailed("no such file".to_string()).message(), "Load failed: no such file");
    assert_eq!(ExportError::InvalidCrop.message(), "Crop size must be greater than zero.");
    assert_eq!(ExportError::CropOutOfBounds.message(), "Crop rectangle is out of bounds.");
    assert_eq!(ExportError::InvalidGeometry.message(), "Image has invalid dimensions.");
    assert_eq!(ExportError::InsetTooLarge.message(), "Inset is too large for the crop size.");
    assert_eq!(ExportError::InvalidTargetSize.message(), "Target size must be greater than zero.");
    assert_eq!(ExportError::ResizeTooLarge.message(), "Image is too large to resize.");
    assert_eq!(
        ExportError::DirectoryCreateFailed("denied".to_string()).message(),
        "Create folder failed: denied"
    );
    assert_eq!(ExportError::WriteFailed("disk full".to_string()).message(), "Write failed: disk full");
    assert_eq!(ExportError::InvalidConfig.message(), "Invalid filename mode.");
    assert_eq!(ExportError::Cancelled.message(), "Export cancelled.");
}
