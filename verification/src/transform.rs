use crate::error::ExportError;
use crate::mask::{apply_rounded_mask, fill_color, mask_region, masked, MaskParams};
use crate::pixels::{lemma_from_fn_pixel, lemma_offset_in_range, PixelBuffer, PixelGrid};
use vstd::prelude::*;
use vstd::string::StringExecFns;

verus! {

/// The rectangle to cut out of a source image: its top-left corner and its
/// size, in source pixels.
#[derive(Clone, Copy, Debug, PartialEq, Eq, Structural)]
pub struct CropRect {
    pub x: u32,
    pub y: u32,
    pub w: u32,
    pub h: u32,
}

/// Whether the cropped image keeps its rectangular outline or is masked to a
/// rounded rectangle.
#[derive(Clone, Copy, Debug, PartialEq, Eq, Structural)]
pub enum MaskShape {
    Rectangular,
    Rounded,
}

/// The size of the exported image, in pixels.
#[derive(Clone, Copy, Debug, PartialEq, Eq, Structural)]
pub struct TargetSize {
    pub width: u32,
    pub height: u32,
}

impl CropRect {
    /// Why the rectangle cannot be cut out of an image of the given size, if
    /// it cannot: it has no area, or it reaches beyond the image.
    pub open spec fn check_spec(self, width: int, height: int) -> Result<(), ExportError> {
        if self.w == 0 || self.h == 0 {
            Err(ExportError::InvalidCrop)
        } else if self.x + self.w > width || self.y + self.h > height {
            Err(ExportError::CropOutOfBounds)
        } else {
            Ok(())
        }
    }

    /// Checks the rectangle against an image of the given size.
    pub fn check(&self, width: u32, height: u32) -> (verdict: Result<(), ExportError>)
        ensures
            verdict == self.check_spec(width as int, height as int),
    {
        if self.w == 0 || self.h == 0 {
            Err(ExportError::InvalidCrop)
        } else if self.x >= width || self.y >= height || self.w > width - self.x || self.h > height
            - self.y {
            Err(ExportError::CropOutOfBounds)
        } else {
            Ok(())
        }
    }
}

impl MaskShape {
    /// The shape that a name stands for.
    pub open spec fn parse_spec(name: Seq<char>) -> MaskShape {
        if name == "rounded"@ {
            MaskShape::Rounded
        } else {
            MaskShape::Rectangular
        }
    }

    /// Reads a shape from its name: `rounded` asks for the mask, any other
    /// name for none.
    pub fn parse(name: &str) -> (shape: MaskShape)
        ensures
            shape == MaskShape::parse_spec(name@),
    {
        if String::from_str(name) == String::from_str("rounded") {
            MaskShape::Rounded
        } else {
            MaskShape::Rectangular
        }
    }
}

/// The part of `grid` that `rect` covers, as a grid of its own: its pixel
/// `(i, j)` is the pixel `(rect.x + i, rect.y + j)` of `grid`.
pub open spec fn cropped(grid: PixelGrid, rect: CropRect) -> PixelGrid {
    PixelGrid::from_fn(
        rect.w as nat,
        rect.h as nat,
        |i: int, j: int| grid.pixel(rect.x + i, rect.y + j),
    )
}

/// Cuts `rect` out of `source` into a buffer of its own. A rectangle without
/// area, or one that is not wholly inside the source, is refused.
pub fn crop(source: &PixelBuffer, rect: CropRect) -> (result: Result<PixelBuffer, ExportError>)
    requires
        source.wf(),
    ensures
        match rect.check_spec(source@.width as int, source@.height as int) {
            Ok(_) => result matches Ok(cut) && cut.wf() && cut@ == cropped(source@, rect),
            Err(reason) => result == Err::<PixelBuffer, ExportError>(reason),
        },
{
    match rect.check(source.width(), source.height()) {
        Err(reason) => {
            return Err(reason);
        },
        Ok(_) => {},
    }
    let ghost goal = cropped(source@, rect);
    let mut data: Vec<u8> = Vec::new();
    let mut j: u32 = 0;
    while j < rect.h
        invariant
            source.wf(),
            rect.x + rect.w <= source@.width,
            rect.y + rect.h <= source@.height,
            rect.w > 0,
            j <= rect.h,
            goal == cropped(source@, rect),
            data@.len() == 4 * (j * rect.w),
            forall|k: int| 0 <= k < data@.len() ==> data@[k] == goal.samples[k],
        decreases rect.h - j,
    {
        let mut i: u32 = 0;
        while i < rect.w
            invariant
                source.wf(),
                rect.x + rect.w <= source@.width,
                rect.y + rect.h <= source@.height,
                rect.w > 0,
                j < rect.h,
                i <= rect.w,
                goal == cropped(source@, rect),
                data@.len() == 4 * (j * rect.w + i),
                forall|k: int| 0 <= k < data@.len() ==> data@[k] == goal.samples[k],
            decreases rect.w - i,
        {
            let color = source.get_pixel(rect.x + i, rect.y + j);
            proof {
                lemma_offset_in_range(rect.w as nat, rect.h as nat, i as int, j as int);
                lemma_from_fn_pixel(
                    rect.w as nat,
                    rect.h as nat,
                    |i: int, j: int| source@.pixel(rect.x + i, rect.y + j),
                    i as int,
                    j as int,
                );
                assert(goal.pixel(i as int, j as int) == color);
                assert(goal.offset(i as int, j as int) == data@.len());
            }
            data.push(color.r);
            data.push(color.g);
            data.push(color.b);
            data.push(color.a);
            i = i + 1;
        }
        proof {
            assert((j + 1) * rect.w == j * rect.w + rect.w) by (nonlinear_arith);
        }
        j = j + 1;
    }
    proof {
        assert(4 * (rect.h * rect.w) == 4 * rect.w * rect.h) by (nonlinear_arith);
        assert(data@ =~= goal.samples);
    }
    Ok(PixelBuffer::from_samples(rect.w, rect.h, data))
}

/// The samples that Lanczos resampling with three lobes makes of an image of
/// `width` by `height` pixels when it is brought to `target_w` by `target_h`.
pub uninterp spec fn lanczos3_resampled(
    width: nat,
    height: nat,
    samples: Seq<u8>,
    target_w: nat,
    target_h: nat,
) -> Seq<u8>;

/// The resampling places its samples in single precision. Only an image and
/// a target whose sides all stay below this many pixels are resampled: there
/// the place of a sample is off by less than a quarter of a pixel, so that at
/// least one source pixel lies within the filter's main lobe.
pub const MAX_RESIZE_SIDE: u32 = 0x10_0000;

/// Whether an image of `width` by `height` pixels can be resampled to
/// `target_w` by `target_h`. Every side must stay below `MAX_RESIZE_SIDE`.
/// The resampling allocates one intermediate image of four-byte samples, as
/// wide as the source and as high as the target, and the result; both must
/// stay within what one allocation can hold.
pub open spec fn resize_fits(width: int, height: int, target_w: int, target_h: int) -> bool {
    &&& width < MAX_RESIZE_SIDE
    &&& height < MAX_RESIZE_SIDE
    &&& target_w < MAX_RESIZE_SIDE
    &&& target_h < MAX_RESIZE_SIDE
    &&& 16 * width * target_h <= isize::MAX
    &&& 4 * target_w * target_h <= isize::MAX
}

/// The grid brought to another size, or the reason why it cannot be. At its
/// own size it stays as it is; otherwise it is resampled, if it can be.
pub open spec fn resized(grid: PixelGrid, target_w: nat, target_h: nat) -> Result<
    PixelGrid,
    ExportError,
> {
    if target_w == grid.width && target_h == grid.height {
        Ok(grid)
    } else if resize_fits(grid.width as int, grid.height as int, target_w as int, target_h as int) {
        Ok(
            PixelGrid {
                width: target_w,
                height: target_h,
                samples: lanczos3_resampled(
                    grid.width,
                    grid.height,
                    grid.samples,
                    target_w,
                    target_h,
                ),
            },
        )
    } else {
        Err(ExportError::ResizeTooLarge)
    }
}

/// Calls `image::imageops::resize` with the Lanczos3 filter on the samples
/// taken as an RGBA image. Believed of it, for an image and a target with
/// pixels, of sides below `MAX_RESIZE_SIDE` and within the allocation limit:
/// the call returns; the result has four samples for each pixel of the target
/// size; and it is what the resampling computes from the size, the samples
/// and the target size alone.
#[verifier::external_body]
fn resize_lanczos3(width: u32, height: u32, samples: &Vec<u8>, target_w: u32, target_h: u32) -> (out:
    Vec<u8>)
    requires
        width > 0,
        height > 0,
        target_w > 0,
        target_h > 0,
        samples@.len() == 4 * width * height,
        resize_fits(width as int, height as int, target_w as int, target_h as int),
    ensures
        out@.len() == 4 * target_w * target_h,
        out@ == lanczos3_resampled(
            width as nat,
            height as nat,
            samples@,
            target_w as nat,
            target_h as nat,
        ),
{
    let source = image::ImageBuffer::<image::Rgba<u8>, &[u8]>::from_raw(
        width,
        height,
        samples.as_slice(),
    ).unwrap();
    let filter = image::imageops::FilterType::Lanczos3;
    image::imageops::resize(&source, target_w, target_h, filter).into_raw()
}

/// Tells whether an image of `width` by `height` pixels can be resampled to
/// `target`.
pub fn can_resize(width: u32, height: u32, target: TargetSize) -> (fits: bool)
    ensures
        fits == resize_fits(
            width as int,
            height as int,
            target.width as int,
            target.height as int,
        ),
{
    if width >= MAX_RESIZE_SIDE || height >= MAX_RESIZE_SIDE || target.width >= MAX_RESIZE_SIDE
        || target.height >= MAX_RESIZE_SIDE {
        return false;
    }
    let limit: u128 = isize::MAX as u128;
    let th: u128 = target.height as u128;
    let tw: u128 = target.width as u128;
    let w: u128 = width as u128;
    assert(w * th <= 0xffff_ffff * 0xffff_ffff) by (nonlinear_arith)
        requires
            w <= 0xffff_ffff,
            th <= 0xffff_ffff,
    ;
    assert(tw * th <= 0xffff_ffff * 0xffff_ffff) by (nonlinear_arith)
        requires
            tw <= 0xffff_ffff,
            th <= 0xffff_ffff,
    ;
    let between: u128 = 16 * (w * th);
    let result: u128 = 4 * (tw * th);
    assert(16 * (w * th) == 16 * w * th && 4 * (tw * th) == 4 * tw * th) by (nonlinear_arith);
    between <= limit && result <= limit
}

/// Brings `image` to the size `target`. An image that has that size already
/// is handed back as it is.
fn resize(image: PixelBuffer, target: TargetSize) -> (result: Result<PixelBuffer, ExportError>)
    requires
        image.wf(),
        image@.width > 0,
        image@.height > 0,
        target.width > 0,
        target.height > 0,
    ensures
        match resized(image@, target.width as nat, target.height as nat) {
            Ok(grid) => result matches Ok(out) && out.wf() && out@ == grid,
            Err(reason) => result == Err::<PixelBuffer, ExportError>(reason),
        },
{
    if image.width() == target.width && image.height() == target.height {
        return Ok(image);
    }
    if !can_resize(image.width(), image.height(), target) {
        return Err(ExportError::ResizeTooLarge);
    }
    let samples = resize_lanczos3(
        image.width(),
        image.height(),
        image.as_raw(),
        target.width,
        target.height,
    );
    Ok(PixelBuffer::from_samples(target.width, target.height, samples))
}

/// What `transform` makes of a source grid. A target with a zero side is
/// refused before anything else. Then comes the crop, the mask where the
/// shape is rounded, and the resize to the target; the first of them that
/// fails gives the error.
pub open spec fn transformed(
    source: PixelGrid,
    rect: CropRect,
    shape: MaskShape,
    mask: MaskParams,
    target_w: nat,
    target_h: nat,
) -> Result<PixelGrid, ExportError> {
    if target_w == 0 || target_h == 0 {
        Err(ExportError::InvalidTargetSize)
    } else {
        match rect.check_spec(source.width as int, source.height as int) {
            Err(reason) => Err(reason),
            Ok(_) => {
                let cut = cropped(source, rect);
                match shape {
                    MaskShape::Rectangular => resized(cut, target_w, target_h),
                    MaskShape::Rounded => match mask_region(
                        rect.w as int,
                        rect.h as int,
                        mask.radius_px as int,
                        mask.inset_px as int,
                    ) {
                        Err(reason) => Err(reason),
                        Ok(region) => resized(
                            masked(cut, region, fill_color(mask.transparent)),
                            target_w,
                            target_h,
                        ),
                    },
                }
            },
        }
    }
}

/// Crops `source` to `rect`, masks the crop to a rounded rectangle where
/// `shape` asks for it, and resizes the outcome to `target`. The source is
/// left as it is; the result is a buffer of its own.
pub fn transform(
    source: &PixelBuffer,
    rect: CropRect,
    shape: MaskShape,
    mask: MaskParams,
    target: TargetSize,
) -> (result: Result<PixelBuffer, ExportError>)
    requires
        source.wf(),
    ensures
        match transformed(source@, rect, shape, mask, target.width as nat, target.height as nat) {
            Ok(grid) => result matches Ok(image) && image.wf() && image@ == grid,
            Err(reason) => result == Err::<PixelBuffer, ExportError>(reason),
        },
{
    if target.width == 0 || target.height == 0 {
        return Err(ExportError::InvalidTargetSize);
    }
    let mut cut = match crop(source, rect) {
        Ok(cut) => cut,
        Err(reason) => {
            return Err(reason);
        },
    };
    proof {
        lemma_from_fn_pixel(
            rect.w as nat,
            rect.h as nat,
            |i: int, j: int| source@.pixel(rect.x + i, rect.y + j),
            0,
            0,
        );
    }
    match shape {
        MaskShape::Rectangular => {},
        MaskShape::Rounded => {
            match apply_rounded_mask(&mut cut, mask.radius_px, mask.inset_px, mask.transparent) {
                Ok(_) => {},
                Err(reason) => {
                    return Err(reason);
                },
            }
        },
    }
    resize(cut, target)
}

/// What `export_single` makes of a source grid: the transform, with the
/// shape read from its name.
pub open spec fn exported_single(
    source: PixelGrid,
    rect: CropRect,
    shape: Seq<char>,
    mask: MaskParams,
    target_w: nat,
    target_h: nat,
) -> Result<PixelGrid, ExportError> {
    transformed(source, rect, MaskShape::parse_spec(shape), mask, target_w, target_h)
}

/// Makes the image of a single export from the decoded source and the
/// settings as the caller gives them: the shape by its name, the mask and the
/// target by their numbers.
pub fn export_single(
    source: &PixelBuffer,
    crop: CropRect,
    shape: &str,
    radius_px: u32,
    inset_px: u32,
    target_w: u32,
    target_h: u32,
    transparent_png: bool,
) -> (result: Result<PixelBuffer, ExportError>)
    requires
        source.wf(),
    ensures
        match exported_single(
            source@,
            crop,
            shape@,
            MaskParams { radius_px, inset_px, transparent: transparent_png },
            target_w as nat,
            target_h as nat,
        ) {
            Ok(grid) => result matches Ok(image) && image.wf() && image@ == grid,
            Err(reason) => result == Err::<PixelBuffer, ExportError>(reason),
        },
{
    let mask = MaskParams { radius_px, inset_px, transparent: transparent_png };
    let target = TargetSize { width: target_w, height: target_h };
    transform(source, crop, MaskShape::parse(shape), mask, target)
}

/// A rectangle with an area that lies wholly inside the source is cut out at
/// exactly its size, and each pixel of the cut is the source's pixel at the
/// same place within the rectangle.
pub proof fn lemma_crop_inside_is_exact(source: PixelGrid, rect: CropRect, i: int, j: int)
    requires
        rect.w > 0,
        rect.h > 0,
        rect.x + rect.w <= source.width,
        rect.y + rect.h <= source.height,
        0 <= i < rect.w,
        0 <= j < rect.h,
    ensures
        rect.check_spec(source.width as int, source.height as int) is Ok,
        cropped(source, rect).wf(),
        cropped(source, rect).width == rect.w,
        cropped(source, rect).height == rect.h,
        cropped(source, rect).pixel(i, j) == source.pixel(rect.x + i, rect.y + j),
{
    lemma_from_fn_pixel(
        rect.w as nat,
        rect.h as nat,
        |i: int, j: int| source.pixel(rect.x + i, rect.y + j),
        i,
        j,
    );
}

/// A rectangle with an area that reaches beyond the source is refused as out
/// of bounds, whatever the shape and the mask are and whatever target with
/// pixels is asked for.
pub proof fn lemma_crop_beyond_is_refused(
    source: PixelGrid,
    rect: CropRect,
    shape: MaskShape,
    mask: MaskParams,
    target_w: nat,
    target_h: nat,
)
    requires
        rect.w > 0,
        rect.h > 0,
        rect.x + rect.w > source.width || rect.y + rect.h > source.height,
        target_w > 0,
        target_h > 0,
    ensures
        transformed(source, rect, shape, mask, target_w, target_h) == Err::<
            PixelGrid,
            ExportError,
        >(ExportError::CropOutOfBounds),
{
}

/// A rectangle without area is refused as such whatever else holds of it,
/// also where it lies beyond the source.
pub proof fn lemma_crop_without_area_is_refused(
    source: PixelGrid,
    rect: CropRect,
    shape: MaskShape,
    mask: MaskParams,
    target_w: nat,
    target_h: nat,
)
    requires
        rect.w == 0 || rect.h == 0,
        target_w > 0,
        target_h > 0,
    ensures
        transformed(source, rect, shape, mask, target_w, target_h) == Err::<
            PixelGrid,
            ExportError,
        >(ExportError::InvalidCrop),
{
}

/// A rectangle inside the source, transformed to a target with pixels that
/// the resampling can reach, gives an image of exactly the target's size: the
/// crop, masked where the shape is rounded and the mask applies, and resized.
pub proof fn lemma_transform_of_crop_inside(
    source: PixelGrid,
    rect: CropRect,
    shape: MaskShape,
    mask: MaskParams,
    target_w: nat,
    target_h: nat,
)
    requires
        rect.w > 0,
        rect.h > 0,
        rect.x + rect.w <= source.width,
        rect.y + rect.h <= source.height,
        target_w > 0,
        target_h > 0,
        (target_w == rect.w && target_h == rect.h) || resize_fits(
            rect.w as int,
            rect.h as int,
            target_w as int,
            target_h as int,
        ),
    ensures
        shape == MaskShape::Rectangular ==> transformed(
            source,
            rect,
            shape,
            mask,
            target_w,
            target_h,
        ) == resized(cropped(source, rect), target_w, target_h),
        shape == MaskShape::Rounded ==> (match mask_region(
            rect.w as int,
            rect.h as int,
            mask.radius_px as int,
            mask.inset_px as int,
        ) {
            Ok(region) => transformed(source, rect, shape, mask, target_w, target_h) == resized(
                masked(cropped(source, rect), region, fill_color(mask.transparent)),
                target_w,
                target_h,
            ),
            Err(reason) => transformed(source, rect, shape, mask, target_w, target_h) == Err::<
                PixelGrid,
                ExportError,
            >(reason),
        }),
        transformed(source, rect, shape, mask, target_w, target_h) matches Ok(image) ==> image.width
            == target_w && image.height == target_h,
        shape == MaskShape::Rectangular ==> transformed(
            source,
            rect,
            shape,
            mask,
            target_w,
            target_h,
        ) is Ok,
{
}

/// With a rectangular shape and a target of the crop's own size, the
/// transform is the crop and nothing else, whatever the mask's settings are:
/// pixel `(i, j)` of the result is pixel `(rect.x + i, rect.y + j)` of the
/// source.
pub proof fn lemma_same_size_is_pure_crop(
    source: PixelGrid,
    rect: CropRect,
    mask: MaskParams,
    i: int,
    j: int,
)
    requires
        rect.check_spec(source.width as int, source.height as int) is Ok,
        0 <= i < rect.w,
        0 <= j < rect.h,
    ensures
        transformed(
            source,
            rect,
            MaskShape::Rectangular,
            mask,
            rect.w as nat,
            rect.h as nat,
        ) == Ok::<PixelGrid, ExportError>(cropped(source, rect)),
        cropped(source, rect).width == rect.w,
        cropped(source, rect).height == rect.h,
        cropped(source, rect).pixel(i, j) == source.pixel(rect.x + i, rect.y + j),
{
    lemma_from_fn_pixel(
        rect.w as nat,
        rect.h as nat,
        |i: int, j: int| source.pixel(rect.x + i, rect.y + j),
        i,
        j,
    );
}

} // verus!
