use crate::error::ExportError;
use crate::pixels::{lemma_from_fn_pixel, lemma_grid_ext, PixelBuffer, PixelGrid, Rgba};
use vstd::prelude::*;

verus! {

/// How the rounded mask is to be cut: the corner radius and the inward margin
/// in pixels, and whether what falls outside becomes transparent or white.
#[derive(Clone, Copy, Debug, PartialEq, Eq, Structural)]
pub struct MaskParams {
    pub radius_px: u32,
    pub inset_px: u32,
    pub transparent: bool,
}

/// A rounded rectangle on the pixel grid. The rectangle spans from
/// `(left, top)` to `(right, bottom)`, measured in pixels from the top-left
/// corner of the image, and each corner is a quarter circle of `radius`.
#[derive(Clone, Copy, Debug, PartialEq, Eq, Structural)]
pub struct MaskRegion {
    pub left: u32,
    pub top: u32,
    pub right: u32,
    pub bottom: u32,
    pub radius: u32,
}

/// The inset in use: the requested one, cut down to half the width and half
/// the height.
pub open spec fn effective_inset(width: int, height: int, inset_px: int) -> int {
    let by_width = if inset_px <= width / 2 {
        inset_px
    } else {
        width / 2
    };
    if by_width <= height / 2 {
        by_width
    } else {
        height / 2
    }
}

/// The radius in use: the requested one, cut down to half the shorter side
/// of what the inset leaves, rounded down.
pub open spec fn effective_radius(inner_w: int, inner_h: int, radius_px: int) -> int {
    let shorter = if inner_w <= inner_h {
        inner_w
    } else {
        inner_h
    };
    if radius_px <= shorter / 2 {
        radius_px
    } else {
        shorter / 2
    }
}

/// The region that a mask with the given radius and inset cuts out of an
/// image of the given size, or the reason why there is none.
pub open spec fn mask_region(width: int, height: int, radius_px: int, inset_px: int) -> Result<
    MaskRegion,
    ExportError,
> {
    let inset = effective_inset(width, height, inset_px);
    let inner_w = width - 2 * inset;
    let inner_h = height - 2 * inset;
    if width <= 0 || height <= 0 {
        Err(ExportError::InvalidGeometry)
    } else if inner_w <= 0 || inner_h <= 0 {
        Err(ExportError::InsetTooLarge)
    } else {
        Ok(
            MaskRegion {
                left: inset as u32,
                top: inset as u32,
                right: (inset + inner_w) as u32,
                bottom: (inset + inner_h) as u32,
                radius: effective_radius(inner_w, inner_h, radius_px) as u32,
            },
        )
    }
}

impl MaskRegion {
    /// The rectangle is not inverted and the corner circles fit into it.
    pub open spec fn wf(self) -> bool {
        &&& self.left <= self.right
        &&& self.top <= self.bottom
        &&& 2 * self.radius <= self.right - self.left
        &&& 2 * self.radius <= self.bottom - self.top
    }

    /// Whether the centre of pixel `(x, y)` lies in the region, borders
    /// included. All lengths are doubled, so that the centre of a pixel,
    /// half a pixel from its edges, has whole coordinates.
    ///
    /// Between the corner circles' centres, horizontally, only the top and
    /// bottom edges bound the region; between them vertically, only the left
    /// and right edges; elsewhere the pixel is in a corner square and must be
    /// within `radius` of that corner's circle centre.
    pub open spec fn contains(self, x: int, y: int) -> bool {
        let px = 2 * x + 1;
        let py = 2 * y + 1;
        let left = 2 * self.left;
        let top = 2 * self.top;
        let right = 2 * self.right;
        let bottom = 2 * self.bottom;
        let reach = 2 * self.radius;
        if left + reach <= px <= right - reach {
            top <= py <= bottom
        } else if top + reach <= py <= bottom - reach {
            left <= px <= right
        } else {
            let cx = if px < left + reach {
                left + reach
            } else {
                right - reach
            };
            let cy = if py < top + reach {
                top + reach
            } else {
                bottom - reach
            };
            (px - cx) * (px - cx) + (py - cy) * (py - cy) <= reach * reach
        }
    }

    /// Works out the region for an image of the given size. The inset and the
    /// radius are cut down silently to what the image allows; an image without
    /// pixels, or an inset that leaves nothing, is an error.
    pub fn for_image(width: u32, height: u32, radius_px: u32, inset_px: u32) -> (made: Result<
        MaskRegion,
        ExportError,
    >)
        ensures
            made == mask_region(width as int, height as int, radius_px as int, inset_px as int),
            made matches Ok(region) ==> region.wf() && region.right <= width && region.bottom
                <= height,
    {
        if width == 0 || height == 0 {
            return Err(ExportError::InvalidGeometry);
        }
        let by_width: u32 = if inset_px <= width / 2 {
            inset_px
        } else {
            width / 2
        };
        let inset: u32 = if by_width <= height / 2 {
            by_width
        } else {
            height / 2
        };
        let inner_w: u32 = width - 2 * inset;
        let inner_h: u32 = height - 2 * inset;
        if inner_w == 0 || inner_h == 0 {
            return Err(ExportError::InsetTooLarge);
        }
        let shorter: u32 = if inner_w <= inner_h {
            inner_w
        } else {
            inner_h
        };
        let radius: u32 = if radius_px <= shorter / 2 {
            radius_px
        } else {
            shorter / 2
        };
        Ok(
            MaskRegion {
                left: inset,
                top: inset,
                right: inset + inner_w,
                bottom: inset + inner_h,
                radius,
            },
        )
    }

    /// Decides whether the centre of pixel `(x, y)` lies in the region.
    pub fn covers(&self, x: u32, y: u32) -> (inside: bool)
        requires
            self.wf(),
        ensures
            inside == self.contains(x as int, y as int),
    {
        let px: u64 = 2 * (x as u64) + 1;
        let py: u64 = 2 * (y as u64) + 1;
        let left: u64 = 2 * (self.left as u64);
        let top: u64 = 2 * (self.top as u64);
        let right: u64 = 2 * (self.right as u64);
        let bottom: u64 = 2 * (self.bottom as u64);
        let reach: u64 = 2 * (self.radius as u64);
        if left + reach <= px && px <= right - reach {
            top <= py && py <= bottom
        } else if top + reach <= py && py <= bottom - reach {
            left <= px && px <= right
        } else {
            let cx: u64 = if px < left + reach {
                left + reach
            } else {
                right - reach
            };
            let cy: u64 = if py < top + reach {
                top + reach
            } else {
                bottom - reach
            };
            let dx: u64 = if px < cx {
                cx - px
            } else {
                px - cx
            };
            let dy: u64 = if py < cy {
                cy - py
            } else {
                py - cy
            };
            assert(dx * dx <= 0x4_0000_0000 * 0x4_0000_0000) by (nonlinear_arith)
                requires
                    dx <= 0x4_0000_0000,
            ;
            assert(dy * dy <= 0x4_0000_0000 * 0x4_0000_0000) by (nonlinear_arith)
                requires
                    dy <= 0x4_0000_0000,
            ;
            assert(reach * reach <= 0x4_0000_0000 * 0x4_0000_0000) by (nonlinear_arith)
                requires
                    reach <= 0x4_0000_0000,
            ;
            assert(dx * dx == (px - cx) * (px - cx)) by (nonlinear_arith)
                requires
                    dx == px - cx || dx == cx - px,
            ;
            assert(dy * dy == (py - cy) * (py - cy)) by (nonlinear_arith)
                requires
                    dy == py - cy || dy == cy - py,
            ;
            let far: u128 = (dx as u128) * (dx as u128) + (dy as u128) * (dy as u128);
            far <= (reach as u128) * (reach as u128)
        }
    }
}

/// Whatever the region contains lies within its bounding rectangle.
pub proof fn lemma_region_within_bounds(region: MaskRegion, x: int, y: int)
    requires
        region.wf(),
        region.contains(x, y),
    ensures
        region.left <= x < region.right,
        region.top <= y < region.bottom,
{
    let px = 2 * x + 1;
    let py = 2 * y + 1;
    let left = 2 * region.left;
    let top = 2 * region.top;
    let right = 2 * region.right;
    let bottom = 2 * region.bottom;
    let reach = 2 * region.radius;
    if left + reach <= px <= right - reach {
    } else if top + reach <= py <= bottom - reach {
    } else {
        let cx = if px < left + reach {
            left + reach
        } else {
            right - reach
        };
        let cy = if py < top + reach {
            top + reach
        } else {
            bottom - reach
        };
        let dx = px - cx;
        let dy = py - cy;
        assert(-reach <= dx <= reach) by (nonlinear_arith)
            requires
                dx * dx + dy * dy <= reach * reach,
                reach >= 0,
        ;
        assert(-reach <= dy <= reach) by (nonlinear_arith)
            requires
                dx * dx + dy * dy <= reach * reach,
                reach >= 0,
        ;
    }
}

/// With a radius of zero the region is the plain rectangle: a pixel is in it
/// exactly if it is one of the columns `left..right` and rows `top..bottom`.
pub proof fn lemma_zero_radius_is_rectangle(region: MaskRegion, x: int, y: int)
    requires
        region.wf(),
        region.radius == 0,
    ensures
        region.contains(x, y) <==> (region.left <= x < region.right && region.top <= y
            < region.bottom),
{
    let px = 2 * x + 1;
    let py = 2 * y + 1;
    let left = 2 * region.left;
    let top = 2 * region.top;
    let right = 2 * region.right;
    let bottom = 2 * region.bottom;
    if left <= px <= right {
    } else if top <= py <= bottom {
    } else {
        let cx = if px < left {
            left
        } else {
            right
        };
        let dx = px - cx;
        let dy = py - (if py < top {
            top
        } else {
            bottom
        });
        assert(dx * dx + dy * dy > 0) by (nonlinear_arith)
            requires
                dx != 0,
        ;
    }
}

/// Each corner of the region is a quarter circle. A pixel whose centre lies in
/// the square of side `radius` at a corner of the bounding rectangle is in the
/// region exactly if its centre is no farther than `radius` from the inner
/// vertex of that square. Lengths are doubled, as in `contains`.
pub proof fn lemma_corners_are_quarter_circles(region: MaskRegion, x: int, y: int)
    requires
        region.wf(),
        region.left <= x < region.right,
        region.top <= y < region.bottom,
    ensures
        ({
            let px = 2 * x + 1;
            let py = 2 * y + 1;
            let reach = 2 * region.radius;
            let west = 2 * region.left + reach;
            let east = 2 * region.right - reach;
            let north = 2 * region.top + reach;
            let south = 2 * region.bottom - reach;
            &&& px < west && py < north ==> (region.contains(x, y) <==> (px - west) * (px - west)
                + (py - north) * (py - north) <= reach * reach)
            &&& px > east && py < north ==> (region.contains(x, y) <==> (px - east) * (px - east)
                + (py - north) * (py - north) <= reach * reach)
            &&& px < west && py > south ==> (region.contains(x, y) <==> (px - west) * (px - west)
                + (py - south) * (py - south) <= reach * reach)
            &&& px > east && py > south ==> (region.contains(x, y) <==> (px - east) * (px - east)
                + (py - south) * (py - south) <= reach * reach)
            &&& (west <= px <= east || north <= py <= south) ==> region.contains(x, y)
        }),
{
}

/// However large the radius, the pixels next to the midpoint of each edge of
/// the bounding rectangle stay in the region.
pub proof fn lemma_edge_midpoints_inside(region: MaskRegion, mid_x: int, mid_y: int)
    requires
        region.wf(),
        region.left < region.right,
        region.top < region.bottom,
        mid_x == (region.left + region.right) / 2 || mid_x == (region.left + region.right - 1) / 2,
        mid_y == (region.top + region.bottom) / 2 || mid_y == (region.top + region.bottom - 1) / 2,
    ensures
        region.contains(mid_x, region.top as int),
        region.contains(mid_x, region.bottom - 1),
        region.contains(region.left as int, mid_y),
        region.contains(region.right - 1, mid_y),
{
    lemma_midpoint_column(region, mid_x, region.top as int);
    lemma_midpoint_column(region, mid_x, region.bottom - 1);
    lemma_midpoint_row(region, region.left as int, mid_y);
    lemma_midpoint_row(region, region.right - 1, mid_y);
}

proof fn lemma_midpoint_column(region: MaskRegion, x: int, y: int)
    requires
        region.wf(),
        region.left < region.right,
        region.top < region.bottom,
        x == (region.left + region.right) / 2 || x == (region.left + region.right - 1) / 2,
        y == region.top || y == region.bottom - 1,
    ensures
        region.contains(x, y),
{
    let px = 2 * x + 1;
    let py = 2 * y + 1;
    let reach = 2 * region.radius;
    let west = 2 * region.left + reach;
    let east = 2 * region.right - reach;
    let north = 2 * region.top + reach;
    let south = 2 * region.bottom - reach;
    if west <= px <= east {
    } else if north <= py <= south {
    } else {
        let cx = if px < west {
            west
        } else {
            east
        };
        let cy = if py < north {
            north
        } else {
            south
        };
        let dx = px - cx;
        let dy = py - cy;
        assert(dx == 1 || dx == -1);
        assert(reach >= 2);
        assert(dy == 1 - reach || dy == reach - 1);
        assert(dx * dx + dy * dy <= reach * reach) by (nonlinear_arith)
            requires
                dx == 1 || dx == -1,
                dy == 1 - reach || dy == reach - 1,
                reach >= 2,
        ;
    }
}

proof fn lemma_midpoint_row(region: MaskRegion, x: int, y: int)
    requires
        region.wf(),
        region.left < region.right,
        region.top < region.bottom,
        x == region.left || x == region.right - 1,
        y == (region.top + region.bottom) / 2 || y == (region.top + region.bottom - 1) / 2,
    ensures
        region.contains(x, y),
{
    let px = 2 * x + 1;
    let py = 2 * y + 1;
    let reach = 2 * region.radius;
    let west = 2 * region.left + reach;
    let east = 2 * region.right - reach;
    let north = 2 * region.top + reach;
    let south = 2 * region.bottom - reach;
    if west <= px <= east {
    } else if north <= py <= south {
    } else {
        let cx = if px < west {
            west
        } else {
            east
        };
        let cy = if py < north {
            north
        } else {
            south
        };
        let dx = px - cx;
        let dy = py - cy;
        assert(dy == 1 || dy == -1);
        assert(reach >= 2);
        assert(dx == 1 - reach || dx == reach - 1);
        assert(dx * dx + dy * dy <= reach * reach) by (nonlinear_arith)
            requires
                dy == 1 || dy == -1,
                dx == 1 - reach || dx == reach - 1,
                reach >= 2,
        ;
    }
}

/// What takes the place of a pixel outside the region: black without any
/// opacity, or opaque white.
pub open spec fn fill_color(transparent: bool) -> Rgba {
    if transparent {
        Rgba::transparent_spec()
    } else {
        Rgba::white_spec()
    }
}

/// The grid after masking: pixels whose centre lies in the region stay, all
/// others become `fill`.
pub open spec fn masked(grid: PixelGrid, region: MaskRegion, fill: Rgba) -> PixelGrid {
    PixelGrid::from_fn(
        grid.width,
        grid.height,
        |x: int, y: int|
            if region.contains(x, y) {
                grid.pixel(x, y)
            } else {
                fill
            },
    )
}

/// Masking keeps the size of the grid, keeps each pixel of the region and
/// puts `fill` in the place of every other pixel.
pub proof fn lemma_masked_pixel(grid: PixelGrid, region: MaskRegion, fill: Rgba, x: int, y: int)
    requires
        grid.has(x, y),
    ensures
        masked(grid, region, fill).wf(),
        masked(grid, region, fill).width == grid.width,
        masked(grid, region, fill).height == grid.height,
        masked(grid, region, fill).pixel(x, y) == if region.contains(x, y) {
            grid.pixel(x, y)
        } else {
            fill
        },
{
    lemma_from_fn_pixel(
        grid.width,
        grid.height,
        |x: int, y: int|
            if region.contains(x, y) {
                grid.pixel(x, y)
            } else {
                fill
            },
        x,
        y,
    );
}

/// Whatever the image held before, also the result of an earlier masking, a
/// pixel outside the region has no opacity left after a transparent mask and
/// is opaque white after a white one.
pub proof fn lemma_outside_is_filled(
    grid: PixelGrid,
    region: MaskRegion,
    transparent: bool,
    x: int,
    y: int,
)
    requires
        grid.has(x, y),
        !region.contains(x, y),
    ensures
        transparent ==> masked(grid, region, fill_color(transparent)).pixel(x, y).a == 0,
        transparent ==> masked(grid, region, fill_color(transparent)).pixel(x, y)
            == Rgba::transparent_spec(),
        !transparent ==> masked(grid, region, fill_color(transparent)).pixel(x, y)
            == Rgba::white_spec(),
{
    lemma_masked_pixel(grid, region, fill_color(transparent), x, y);
}

/// Masking twice with the same region and fill changes nothing more than
/// masking once.
pub proof fn lemma_mask_idempotent(grid: PixelGrid, region: MaskRegion, fill: Rgba)
    ensures
        masked(masked(grid, region, fill), region, fill) == masked(grid, region, fill),
{
    let once = masked(grid, region, fill);
    let twice = masked(once, region, fill);
    assert(4 * (grid.width * grid.height) == 4 * grid.width * grid.height) by (nonlinear_arith);
    assert forall|x: int, y: int| once.has(x, y) implies twice.pixel(x, y) == once.pixel(
        x,
        y,
    ) by {
        lemma_masked_pixel(grid, region, fill, x, y);
        lemma_masked_pixel(once, region, fill, x, y);
    }
    lemma_grid_ext(twice, once);
}

/// Masks `image` in place to a rounded rectangle. Every pixel whose centre
/// lies outside the region becomes transparent black, or opaque white where
/// `transparent` is off; every pixel inside stays as it is. The image is left
/// alone where the mask cannot be applied.
pub fn apply_rounded_mask(
    image: &mut PixelBuffer,
    radius_px: u32,
    inset_px: u32,
    transparent: bool,
) -> (result: Result<(), ExportError>)
    requires
        old(image).wf(),
    ensures
        final(image).wf(),
        match mask_region(
            old(image)@.width as int,
            old(image)@.height as int,
            radius_px as int,
            inset_px as int,
        ) {
            Ok(region) => result is Ok && final(image)@ == masked(
                old(image)@,
                region,
                fill_color(transparent),
            ),
            Err(reason) => result == Err::<(), ExportError>(reason) && final(image)@ == old(
                image,
            )@,
        },
{
    let width: u32 = image.width();
    let height: u32 = image.height();
    let region = match MaskRegion::for_image(width, height, radius_px, inset_px) {
        Ok(region) => region,
        Err(reason) => {
            return Err(reason);
        },
    };
    let fill = if transparent {
        Rgba::transparent()
    } else {
        Rgba::white()
    };
    let ghost before = image@;
    let ghost after = masked(before, region, fill);
    let mut y: u32 = 0;
    while y < height
        invariant
            image.wf(),
            region.wf(),
            image@.width == before.width,
            image@.height == before.height,
            width == before.width,
            height == before.height,
            y <= height,
            after == masked(before, region, fill),
            forall|i: int, j: int|
                before.has(i, j) ==> #[trigger] image@.pixel(i, j) == if j < y {
                    after.pixel(i, j)
                } else {
                    before.pixel(i, j)
                },
        decreases height - y,
    {
        let mut x: u32 = 0;
        while x < width
            invariant
                image.wf(),
                region.wf(),
                image@.width == before.width,
                image@.height == before.height,
                width == before.width,
                height == before.height,
                y < height,
                x <= width,
                after == masked(before, region, fill),
                forall|i: int, j: int|
                    before.has(i, j) ==> #[trigger] image@.pixel(i, j) == if j < y || (j == y && i
                        < x) {
                        after.pixel(i, j)
                    } else {
                        before.pixel(i, j)
                    },
            decreases width - x,
        {
            proof {
                lemma_from_fn_pixel(
                    before.width,
                    before.height,
                    |x: int, y: int|
                        if region.contains(x, y) {
                            before.pixel(x, y)
                        } else {
                            fill
                        },
                    x as int,
                    y as int,
                );
            }
            if !region.covers(x, y) {
                image.put_pixel(x, y, fill);
            }
            x = x + 1;
        }
        y = y + 1;
    }
    proof {
        assert forall|i: int, j: int| before.has(i, j) implies image@.pixel(i, j) == after.pixel(
            i,
            j,
        ) by {}
        if width > 0 && height > 0 {
            lemma_from_fn_pixel(
                before.width,
                before.height,
                |x: int, y: int|
                    if region.contains(x, y) {
                        before.pixel(x, y)
                    } else {
                        fill
                    },
                0,
                0,
            );
        }
        lemma_grid_ext(image@, after);
    }
    Ok(())
}

} // verus!
