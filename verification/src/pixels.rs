use vstd::prelude::*;

verus! {

/// One pixel: red, green, blue and alpha, eight bits each.
#[derive(Clone, Copy, Debug, PartialEq, Eq, Structural)]
pub struct Rgba {
    pub r: u8,
    pub g: u8,
    pub b: u8,
    pub a: u8,
}

impl Rgba {
    /// Black with no opacity at all.
    pub open spec fn transparent_spec() -> Rgba {
        Rgba { r: 0, g: 0, b: 0, a: 0 }
    }

    /// White at full opacity.
    pub open spec fn white_spec() -> Rgba {
        Rgba { r: 255, g: 255, b: 255, a: 255 }
    }

    /// The sample of this pixel at position `c` of its four.
    pub open spec fn channel(self, c: int) -> u8 {
        if c == 0 {
            self.r
        } else if c == 1 {
            self.g
        } else if c == 2 {
            self.b
        } else {
            self.a
        }
    }

    pub fn transparent() -> (color: Rgba)
        ensures
            color == Rgba::transparent_spec(),
    {
        Rgba { r: 0, g: 0, b: 0, a: 0 }
    }

    pub fn white() -> (color: Rgba)
        ensures
            color == Rgba::white_spec(),
    {
        Rgba { r: 255, g: 255, b: 255, a: 255 }
    }
}

/// The mathematical content of a pixel buffer: its size and its samples, row
/// by row from the top, four samples per pixel.
pub struct PixelGrid {
    pub width: nat,
    pub height: nat,
    pub samples: Seq<u8>,
}

impl PixelGrid {
    /// The grid holds exactly the samples of `width * height` pixels.
    pub open spec fn wf(self) -> bool {
        self.samples.len() == 4 * self.width * self.height
    }

    /// Whether `(x, y)` names a pixel of the grid.
    pub open spec fn has(self, x: int, y: int) -> bool {
        0 <= x < self.width && 0 <= y < self.height
    }

    /// Where the first sample of pixel `(x, y)` lies.
    pub open spec fn offset(self, x: int, y: int) -> int {
        4 * (y * self.width + x)
    }

    /// The pixel at column `x` of row `y`.
    pub open spec fn pixel(self, x: int, y: int) -> Rgba {
        let at = self.offset(x, y);
        Rgba {
            r: self.samples[at],
            g: self.samples[at + 1],
            b: self.samples[at + 2],
            a: self.samples[at + 3],
        }
    }

    /// The grid of the given size whose pixel at `(x, y)` is `paint(x, y)`.
    pub open spec fn from_fn(width: nat, height: nat, paint: spec_fn(int, int) -> Rgba) -> PixelGrid {
        PixelGrid {
            width,
            height,
            samples: Seq::new(
                4 * width * height,
                |k: int| paint((k / 4) % (width as int), (k / 4) / (width as int)).channel(k % 4),
            ),
        }
    }
}

/// Pixels of one row lie side by side and rows follow each other, so a pixel
/// inside the grid has its four samples inside the sample sequence.
pub proof fn lemma_offset_in_range(width: nat, height: nat, x: int, y: int)
    requires
        0 <= x < width,
        0 <= y < height,
    ensures
        0 <= 4 * (y * width + x),
        4 * (y * width + x) + 4 <= 4 * width * height,
        (y * width + x) % (width as int) == x,
        (y * width + x) / (width as int) == y,
{
    assert(y * width + x < width * height) by (nonlinear_arith)
        requires
            0 <= x < width,
            0 <= y < height,
    ;
    assert(0 <= y * width) by (nonlinear_arith)
        requires
            0 <= y,
            0 <= width,
    ;
    assert(4 * (width * height) == 4 * width * height) by (nonlinear_arith);
    vstd::arithmetic::div_mod::lemma_fundamental_div_mod_converse(
        y * width + x,
        width as int,
        y,
        x,
    );
}

/// A grid built by `from_fn` shows at each of its pixels what `paint` gives.
pub proof fn lemma_from_fn_pixel(
    width: nat,
    height: nat,
    paint: spec_fn(int, int) -> Rgba,
    x: int,
    y: int,
)
    requires
        0 <= x < width,
        0 <= y < height,
    ensures
        PixelGrid::from_fn(width, height, paint).wf(),
        PixelGrid::from_fn(width, height, paint).pixel(x, y) == paint(x, y),
{
    lemma_offset_in_range(width, height, x, y);
    let grid = PixelGrid::from_fn(width, height, paint);
    let at = grid.offset(x, y);
    let p = y * width + x;
    assert(at == 4 * p);
    assert(at / 4 == p && (at + 1) / 4 == p && (at + 2) / 4 == p && (at + 3) / 4 == p);
    assert(at % 4 == 0 && (at + 1) % 4 == 1 && (at + 2) % 4 == 2 && (at + 3) % 4 == 3);
}

/// Two grids of one size that agree pixel by pixel are the same grid.
pub proof fn lemma_grid_ext(a: PixelGrid, b: PixelGrid)
    requires
        a.wf(),
        b.wf(),
        a.width == b.width,
        a.height == b.height,
        forall|x: int, y: int| a.has(x, y) ==> a.pixel(x, y) == b.pixel(x, y),
    ensures
        a == b,
{
    assert forall|k: int| 0 <= k < a.samples.len() implies a.samples[k] == b.samples[k] by {
        let w = a.width as int;
        let p = k / 4;
        let c = k % 4;
        assert(4 * (a.width * a.height) == 4 * a.width * a.height) by (nonlinear_arith);
        assert(0 <= p < a.width * a.height);
        assert(w > 0) by (nonlinear_arith)
            requires
                0 <= p < w * a.height,
                w >= 0,
        ;
        let x = p % w;
        let y = p / w;
        vstd::arithmetic::div_mod::lemma_fundamental_div_mod(p, w);
        assert(0 <= x < w);
        assert(0 <= y < a.height) by (nonlinear_arith)
            requires
                p == w * y + x,
                0 <= x < w,
                0 <= p < w * a.height,
        ;
        assert(y * w + x == p) by (nonlinear_arith)
            requires
                p == w * y + x,
        ;
        assert(a.has(x, y));
        assert(a.pixel(x, y) == b.pixel(x, y));
        assert(a.offset(x, y) == 4 * p);
        assert(b.offset(x, y) == 4 * p);
        assert(k == 4 * p + c);
    }
    assert(a.samples =~= b.samples);
}

/// A rectangular image of RGBA pixels, eight bits per channel, stored row by
/// row from the top.
#[derive(Clone, Debug, PartialEq, Eq)]
pub struct PixelBuffer {
    width: u32,
    height: u32,
    data: Vec<u8>,
}

impl View for PixelBuffer {
    type V = PixelGrid;

    closed spec fn view(&self) -> PixelGrid {
        PixelGrid { width: self.width as nat, height: self.height as nat, samples: self.data@ }
    }
}

impl PixelBuffer {
    /// The buffer holds exactly the samples of its pixels, and its sides fit
    /// the integer type they are kept in.
    pub open spec fn wf(&self) -> bool {
        &&& self@.wf()
        &&& self@.width <= u32::MAX
        &&& self@.height <= u32::MAX
    }

    /// Takes over `data` as the samples of a `width` by `height` image, if it
    /// holds exactly that many.
    pub fn from_raw(width: u32, height: u32, data: Vec<u8>) -> (made: Option<PixelBuffer>)
        ensures
            made.is_some() <==> data@.len() == 4 * width * height,
            made matches Some(buffer) ==> {
                &&& buffer.wf()
                &&& buffer@ == (PixelGrid {
                    width: width as nat,
                    height: height as nat,
                    samples: data@,
                })
            },
    {
        assert(width * height <= 0xffff_ffff * 0xffff_ffff) by (nonlinear_arith)
            requires
                width <= 0xffff_ffff,
                height <= 0xffff_ffff,
        ;
        let area: u128 = (width as u128) * (height as u128);
        let need: u128 = 4u128 * area;
        assert(need == 4 * width * height) by (nonlinear_arith)
            requires
                need == 4 * (width * height),
        ;
        if data.len() as u128 == need {
            Some(PixelBuffer { width, height, data })
        } else {
            None
        }
    }

    /// Makes a buffer of samples that are known to be as many as the size
    /// asks for.
    pub(crate) fn from_samples(width: u32, height: u32, data: Vec<u8>) -> (buffer: PixelBuffer)
        requires
            data@.len() == 4 * width * height,
        ensures
            buffer.wf(),
            buffer@ == (PixelGrid { width: width as nat, height: height as nat, samples: data@ }),
    {
        PixelBuffer { width, height, data }
    }

    /// The number of columns.
    pub fn width(&self) -> (w: u32)
        ensures
            w == self@.width,
    {
        self.width
    }

    /// The number of rows.
    pub fn height(&self) -> (h: u32)
        ensures
            h == self@.height,
    {
        self.height
    }

    /// The samples, row by row, four per pixel.
    pub fn as_raw(&self) -> (data: &Vec<u8>)
        ensures
            data@ == self@.samples,
    {
        &self.data
    }

    /// Gives up the buffer for its samples.
    pub fn into_raw(self) -> (data: Vec<u8>)
        ensures
            data@ == self@.samples,
    {
        self.data
    }

    /// Where the first sample of the pixel at column `x` of row `y` lies.
    fn offset_of(&self, x: u32, y: u32) -> (at: usize)
        requires
            self.wf(),
            self@.has(x as int, y as int),
        ensures
            at == self@.offset(x as int, y as int),
            at + 4 <= self@.samples.len(),
    {
        let len: usize = self.data.len();
        proof {
            lemma_offset_in_range(self@.width, self@.height, x as int, y as int);
            assert(0 <= y * self.width) by (nonlinear_arith)
                requires
                    0 <= y,
                    0 <= self.width,
            ;
            assert(4 * (y * self.width + x) + 4 <= len);
        }
        let row: usize = (y as usize) * (self.width as usize);
        4 * (row + (x as usize))
    }

    /// Reads the pixel at column `x` of row `y`.
    pub fn get_pixel(&self, x: u32, y: u32) -> (color: Rgba)
        requires
            self.wf(),
            self@.has(x as int, y as int),
        ensures
            color == self@.pixel(x as int, y as int),
    {
        let at: usize = self.offset_of(x, y);
        Rgba {
            r: self.data[at],
            g: self.data[at + 1],
            b: self.data[at + 2],
            a: self.data[at + 3],
        }
    }

    /// Replaces the pixel at column `x` of row `y` and leaves every other
    /// pixel as it was.
    pub fn put_pixel(&mut self, x: u32, y: u32, color: Rgba)
        requires
            old(self).wf(),
            old(self)@.has(x as int, y as int),
        ensures
            final(self).wf(),
            final(self)@.width == old(self)@.width,
            final(self)@.height == old(self)@.height,
            forall|i: int, j: int|
                old(self)@.has(i, j) ==> #[trigger] final(self)@.pixel(i, j) == if i == x && j == y {
                    color
                } else {
                    old(self)@.pixel(i, j)
                },
    {
        let at: usize = self.offset_of(x, y);
        self.data.set(at, color.r);
        self.data.set(at + 1, color.g);
        self.data.set(at + 2, color.b);
        self.data.set(at + 3, color.a);
        proof {
            let w = self@.width as int;
            assert forall|i: int, j: int| old(self)@.has(i, j) implies #[trigger] self@.pixel(i, j)
                == if i == x && j == y {
                color
            } else {
                old(self)@.pixel(i, j)
            } by {
                lemma_offset_in_range(self@.width, self@.height, i, j);
                lemma_offset_in_range(self@.width, self@.height, x as int, y as int);
                if !(i == x && j == y) {
                    assert(j * w + i != y * w + x) by {
                        if j * w + i == y * w + x {
                            assert((j * w + i) % w == i);
                            assert((y * w + x) % w == x as int);
                            assert((j * w + i) / w == j);
                            assert((y * w + x) / w == y as int);
                        }
                    }
                }
            }
        }
    }
}

} // verus!
