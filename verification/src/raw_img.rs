use vstd::prelude::*;

use vstd::pervasive::VecAdditionalExecFns;

verus! {

/// One RGBA pixel of the atlas, one byte per channel.
#[derive(Clone, Copy, PartialEq, Eq, Structural, Debug)]
pub struct Pixel {
    pub r: u8,
    pub g: u8,
    pub b: u8,
    pub a: u8,
}

impl Pixel {
    /// The background value the atlas is cleared to.
    pub fn zero() -> (r: Pixel)
        ensures
            r == (Pixel { r: 0u8, g: 0u8, b: 0u8, a: 0u8 }),
    {
        Pixel { r: 0, g: 0, b: 0, a: 0 }
    }
}

/// Converting an `(x, y)` coordinate to a row-major index is injective while
/// `x` stays inside the row.
pub proof fn lemma_xy_index_injective(w: int, x1: int, y1: int, x2: int, y2: int)
    requires
        0 <= x1 < w,
        0 <= x2 < w,
        0 <= y1,
        0 <= y2,
        y1 * w + x1 == y2 * w + x2,
    ensures
        x1 == x2 && y1 == y2,
{
    assert(x1 == x2 && y1 == y2) by (nonlinear_arith)
        requires
            0 <= x1 < w,
            0 <= x2 < w,
            0 <= y1,
            0 <= y2,
            y1 * w + x1 == y2 * w + x2,
    ;
}

/// A row-major index of an in-bounds coordinate lies inside the buffer.
pub proof fn lemma_xy_index_in_bounds(w: int, h: int, x: int, y: int)
    requires
        0 <= x < w,
        0 <= y < h,
    ensures
        0 <= y * w + x < w * h,
{
    assert(0 <= y * w + x < w * h) by (nonlinear_arith)
        requires
            0 <= x < w,
            0 <= y < h,
    ;
}

/// The shared atlas pixel buffer: a single row-major array of
/// `width * height` pixels that every glyph's bitmap is composited into.
pub struct RawImage {
    pub data: Vec<Pixel>,
    pub width: u32,
    pub height: u32,
}

impl RawImage {
    /// The buffer holds exactly one pixel per coordinate.
    pub open spec fn spec_wf(self) -> bool {
        self.data@.len() == self.width * self.height && self.width * self.height <= u32::MAX
    }

    /// The pixel at an in-bounds coordinate.
    pub open spec fn pix(self, x: int, y: int) -> Pixel {
        self.data@[y * self.width + x]
    }

    /// Wraps a pixel buffer of exactly `width * height` entries as an image.
    pub fn new(data: Vec<Pixel>, width: u32, height: u32) -> (r: RawImage)
        requires
            data@.len() == width * height,
            width * height <= u32::MAX,
        ensures
            r.data == data,
            r.width == width,
            r.height == height,
            r.spec_wf(),
    {
        RawImage { data, width, height }
    }

    /// Allocates an image of the given dimensions, cleared to the background
    /// value.
    pub fn new_cleared(width: u32, height: u32) -> (r: RawImage)
        requires
            width * height <= 0x1000_0000,
        ensures
            r.width == width,
            r.height == height,
            r.spec_wf(),
            forall|x: int, y: int|
                0 <= x < width && 0 <= y < height ==> r.pix(x, y) == (Pixel {
                    r: 0u8,
                    g: 0u8,
                    b: 0u8,
                    a: 0u8,
                }),
    {
        proof {
            assert(0 <= width * height <= 0x1000_0000) by (nonlinear_arith)
                requires
                    width >= 0,
                    height >= 0,
                    width * height <= 0x1000_0000,
            ;
        }
        let total: usize = (width as usize) * (height as usize);
        let mut data: Vec<Pixel> = Vec::new();
        let mut i: usize = 0;
        while i < total
            invariant
                0 <= i <= total,
                data@.len() == i,
                forall|k: int|
                    0 <= k < i ==> data@[k] == (Pixel { r: 0u8, g: 0u8, b: 0u8, a: 0u8 }),
            decreases total - i,
        {
            data.push(Pixel::zero());
            i = i + 1;
        }
        let r = RawImage { data, width, height };
        proof {
            assert forall|x: int, y: int|
                0 <= x < width && 0 <= y < height implies r.pix(x, y) == (Pixel {
                r: 0u8,
                g: 0u8,
                b: 0u8,
                a: 0u8,
            }) by {
                lemma_xy_index_in_bounds(width as int, height as int, x, y);
            }
        }
        r
    }

    /// Converts an `(x, y)` coordinate to its row-major index.
    pub fn convert_xy_to_index(&self, x: u32, y: u32) -> (r: usize)
        requires
            self.spec_wf(),
            x < self.width,
            y < self.height,
        ensures
            r == y * self.width + x,
            r < self.data@.len(),
    {
        proof {
            lemma_xy_index_in_bounds(self.width as int, self.height as int, x as int, y as int);
        }
        (y * self.width + x) as usize
    }

    /// Reinterprets the image as a flat byte array, four bytes per pixel in
    /// row-major order, ready for the external encoder.
    pub fn process_as_byte_array(&self) -> (r: Vec<u8>)
        requires
            self.spec_wf(),
            4 * self.data@.len() <= usize::MAX,
        ensures
            r@.len() == 4 * self.data@.len(),
            forall|k: int|
                0 <= k < self.data@.len() ==> r@[4 * k] == (#[trigger] self.data@[k]).r && r@[4
                    * k + 1] == self.data@[k].g && r@[4 * k + 2] == self.data@[k].b && r@[4 * k
                    + 3] == self.data@[k].a,
    {
        let n = self.data.len();
        let mut out: Vec<u8> = Vec::new();
        let mut i: usize = 0;
        while i < n
            invariant
                0 <= i <= n,
                n == self.data@.len(),
                4 * n <= usize::MAX,
                out@.len() == 4 * i,
                forall|k: int|
                    0 <= k < i ==> out@[4 * k] == (#[trigger] self.data@[k]).r && out@[4 * k + 1]
                        == self.data@[k].g && out@[4 * k + 2] == self.data@[k].b && out@[4 * k
                        + 3] == self.data@[k].a,
            decreases n - i,
        {
            let p = self.data[i];
            out.push(p.r);
            out.push(p.g);
            out.push(p.b);
            out.push(p.a);
            i = i + 1;
        }
        out
    }
}

/// One glyph's rendered bitmap after channel quantization: the dense pixel
/// block the renderer produced at the planner's requested size.
pub struct GlyphBitmap {
    pub width: u32,
    pub height: u32,
    pub pixels: Vec<Pixel>,
}

impl GlyphBitmap {
    /// The bitmap holds exactly one pixel per coordinate.
    pub open spec fn spec_wf(self) -> bool {
        self.pixels@.len() == self.width * self.height && self.width * self.height <= u32::MAX
    }

    /// The pixel at an in-bounds coordinate.
    pub open spec fn pix(self, x: int, y: int) -> Pixel {
        self.pixels@[y * self.width + x]
    }

    /// Wraps a pixel block of exactly `width * height` entries as a bitmap.
    pub fn new(pixels: Vec<Pixel>, width: u32, height: u32) -> (r: GlyphBitmap)
        requires
            pixels@.len() == width * height,
            width * height <= u32::MAX,
        ensures
            r.pixels == pixels,
            r.width == width,
            r.height == height,
            r.spec_wf(),
    {
        GlyphBitmap { pixels, width, height }
    }
}

/// A non-owning rectangular window into the shared atlas buffer. Two views
/// built from two disjoint placement rectangles never touch the same pixel,
/// which is what makes handing one view per glyph out safe.
#[derive(Clone, Copy)]
pub struct RawImageView {
    pub offset_x: u32,
    pub offset_y: u32,
    pub width: u32,
    pub height: u32,
}

impl RawImageView {
    /// The view's window lies inside the image.
    pub open spec fn spec_fits(self, img: RawImage) -> bool {
        self.offset_x + self.width <= img.width && self.offset_y + self.height <= img.height
    }

    /// Whether an atlas coordinate lies inside the view's window.
    pub open spec fn spec_contains(self, gx: int, gy: int) -> bool {
        self.offset_x <= gx < self.offset_x + self.width && self.offset_y <= gy < self.offset_y
            + self.height
    }

    /// A window of the given offset and size into the image.
    pub fn new(img: &RawImage, offset_x: u32, offset_y: u32, width: u32, height: u32) -> (r:
        RawImageView)
        requires
            offset_x + width <= img.width,
            offset_y + height <= img.height,
        ensures
            r.offset_x == offset_x,
            r.offset_y == offset_y,
            r.width == width,
            r.height == height,
            r.spec_fits(*img),
    {
        RawImageView { offset_x, offset_y, width, height }
    }

    /// Writes one pixel of the view; every other pixel of the image keeps its
    /// value.
    pub fn set_pixel_unchecked(&self, img: &mut RawImage, x: u32, y: u32, color: Pixel)
        requires
            old(img).spec_wf(),
            self.spec_fits(*old(img)),
            x < self.width,
            y < self.height,
        ensures
            final(img).spec_wf(),
            final(img).width == old(img).width,
            final(img).height == old(img).height,
            final(img).pix(self.offset_x + x, self.offset_y + y) == color,
            forall|gx: int, gy: int|
                0 <= gx < final(img).width && 0 <= gy < final(img).height && !(gx == self.offset_x
                    + x && gy == self.offset_y + y) ==> final(img).pix(gx, gy) == old(img).pix(
                    gx,
                    gy,
                ),
    {
        let gx = self.offset_x + x;
        let gy = self.offset_y + y;
        let idx = img.convert_xy_to_index(gx, gy);
        img.data.set(idx, color);
        proof {
            let w = img.width as int;
            assert forall|ox: int, oy: int|
                0 <= ox < img.width && 0 <= oy < img.height && !(ox == gx && oy == gy)
                    implies img.pix(ox, oy) == old(img).pix(ox, oy) by {
                lemma_xy_index_in_bounds(w, img.height as int, ox, oy);
                if oy * w + ox == gy * w + gx {
                    lemma_xy_index_injective(w, ox, oy, gx as int, gy as int);
                }
            }
        }
    }

    /// Reads one pixel of the view.
    pub fn get_pixel_unchecked(&self, img: &RawImage, x: u32, y: u32) -> (r: Pixel)
        requires
            img.spec_wf(),
            self.spec_fits(*img),
            x < self.width,
            y < self.height,
        ensures
            r == img.pix(self.offset_x + x, self.offset_y + y),
    {
        let idx = img.convert_xy_to_index(self.offset_x + x, self.offset_y + y);
        img.data[idx]
    }

    /// Replaces every pixel of the view, in row-major order, with what `f`
    /// returns for its coordinates and current value; every pixel outside the
    /// view keeps its value.
    pub fn for_each_mut<F: Fn(u32, u32, Pixel) -> Pixel>(&self, img: &mut RawImage, f: &F)
        requires
            old(img).spec_wf(),
            self.spec_fits(*old(img)),
            forall|x: u32, y: u32|
                x < self.width && y < self.height ==> #[trigger] call_requires(
                    *f,
                    (x, y, old(img).pix(self.offset_x + x, self.offset_y + y)),
                ),
        ensures
            final(img).spec_wf(),
            final(img).width == old(img).width,
            final(img).height == old(img).height,
            forall|lx: u32, ly: u32|
                lx < self.width && ly < self.height ==> #[trigger] call_ensures(
                    *f,
                    (lx, ly, old(img).pix(self.offset_x + lx, self.offset_y + ly)),
                    final(img).pix(self.offset_x + lx, self.offset_y + ly),
                ),
            forall|gx: int, gy: int|
                0 <= gx < final(img).width && 0 <= gy < final(img).height && !self.spec_contains(
                    gx,
                    gy,
                ) ==> final(img).pix(gx, gy) == old(img).pix(gx, gy),
    {
        let mut ly: u32 = 0;
        while ly < self.height
            invariant
                0 <= ly <= self.height,
                img.spec_wf(),
                img.width == old(img).width,
                img.height == old(img).height,
                self.spec_fits(*img),
                forall|x: u32, y: u32|
                    x < self.width && y < self.height ==> #[trigger] call_requires(
                        *f,
                        (x, y, old(img).pix(self.offset_x + x, self.offset_y + y)),
                    ),
                forall|px: u32, py: u32|
                    px < self.width && py < ly ==> #[trigger] call_ensures(
                        *f,
                        (px, py, old(img).pix(self.offset_x + px, self.offset_y + py)),
                        img.pix(self.offset_x + px, self.offset_y + py),
                    ),
                forall|gx: int, gy: int|
                    0 <= gx < img.width && 0 <= gy < img.height && !(self.offset_x <= gx
                        < self.offset_x + self.width && self.offset_y <= gy < self.offset_y
                        + ly) ==> img.pix(gx, gy) == old(img).pix(gx, gy),
            decreases self.height - ly,
        {
            let mut lx: u32 = 0;
            while lx < self.width
                invariant
                    0 <= lx <= self.width,
                    0 <= ly < self.height,
                    img.spec_wf(),
                    img.width == old(img).width,
                    img.height == old(img).height,
                    self.spec_fits(*img),
                    forall|x: u32, y: u32|
                        x < self.width && y < self.height ==> #[trigger] call_requires(
                            *f,
                            (x, y, old(img).pix(self.offset_x + x, self.offset_y + y)),
                        ),
                    forall|px: u32, py: u32|
                        px < self.width && py < ly ==> #[trigger] call_ensures(
                            *f,
                            (px, py, old(img).pix(self.offset_x + px, self.offset_y + py)),
                            img.pix(self.offset_x + px, self.offset_y + py),
                        ),
                    forall|px: u32|
                        px < lx ==> #[trigger] call_ensures(
                            *f,
                            (px, ly, old(img).pix(self.offset_x + px, self.offset_y + ly)),
                            img.pix(self.offset_x + px, self.offset_y + ly),
                        ),
                    forall|gx: int, gy: int|
                        0 <= gx < img.width && 0 <= gy < img.height && !(self.offset_x <= gx
                            < self.offset_x + self.width && self.offset_y <= gy < self.offset_y
                            + ly) && !(self.offset_x <= gx < self.offset_x + lx && gy
                            == self.offset_y + ly) ==> img.pix(gx, gy) == old(img).pix(gx, gy),
                decreases self.width - lx,
            {
                let p = self.get_pixel_unchecked(img, lx, ly);
                let updated = f(lx, ly, p);
                self.set_pixel_unchecked(img, lx, ly, updated);
                lx = lx + 1;
            }
            ly = ly + 1;
        }
    }

    /// Visits every pixel of the view in row-major order, handing `f` its
    /// coordinates and value.
    pub fn for_each<F: Fn(u32, u32, Pixel)>(&self, img: &RawImage, f: &F)
        requires
            img.spec_wf(),
            self.spec_fits(*img),
            forall|x: u32, y: u32|
                x < self.width && y < self.height ==> #[trigger] call_requires(
                    *f,
                    (x, y, img.pix(self.offset_x + x, self.offset_y + y)),
                ),
    {
        let mut ly: u32 = 0;
        while ly < self.height
            invariant
                0 <= ly <= self.height,
                img.spec_wf(),
                self.spec_fits(*img),
                forall|x: u32, y: u32|
                    x < self.width && y < self.height ==> #[trigger] call_requires(
                        *f,
                        (x, y, img.pix(self.offset_x + x, self.offset_y + y)),
                    ),
            decreases self.height - ly,
        {
            let mut lx: u32 = 0;
            while lx < self.width
                invariant
                    0 <= lx <= self.width,
                    0 <= ly < self.height,
                    img.spec_wf(),
                    self.spec_fits(*img),
                    forall|x: u32, y: u32|
                        x < self.width && y < self.height ==> #[trigger] call_requires(
                            *f,
                            (x, y, img.pix(self.offset_x + x, self.offset_y + y)),
                        ),
                decreases self.width - lx,
            {
                let p = self.get_pixel_unchecked(img, lx, ly);
                f(lx, ly, p);
                lx = lx + 1;
            }
            ly = ly + 1;
        }
    }

    /// Copies a bitmap of the view's exact size into the view: afterwards the
    /// window holds the bitmap's pixels and every pixel outside the window
    /// keeps its value.
    pub fn blit(&self, img: &mut RawImage, bitmap: &GlyphBitmap)
        requires
            old(img).spec_wf(),
            self.spec_fits(*old(img)),
            bitmap.spec_wf(),
            bitmap.width == self.width,
            bitmap.height == self.height,
        ensures
            final(img).spec_wf(),
            final(img).width == old(img).width,
            final(img).height == old(img).height,
            forall|lx: int, ly: int|
                0 <= lx < self.width && 0 <= ly < self.height ==> final(img).pix(
                    self.offset_x + lx,
                    self.offset_y + ly,
                ) == bitmap.pix(lx, ly),
            forall|gx: int, gy: int|
                0 <= gx < final(img).width && 0 <= gy < final(img).height && !self.spec_contains(
                    gx,
                    gy,
                ) ==> final(img).pix(gx, gy) == old(img).pix(gx, gy),
    {
        let mut ly: u32 = 0;
        while ly < self.height
            invariant
                0 <= ly <= self.height,
                img.spec_wf(),
                img.width == old(img).width,
                img.height == old(img).height,
                self.spec_fits(*img),
                bitmap.spec_wf(),
                bitmap.width == self.width,
                bitmap.height == self.height,
                forall|lx: int, py: int|
                    0 <= lx < self.width && 0 <= py < ly ==> img.pix(
                        self.offset_x + lx,
                        self.offset_y + py,
                    ) == bitmap.pix(lx, py),
                forall|gx: int, gy: int|
                    0 <= gx < img.width && 0 <= gy < img.height && !(self.offset_x <= gx
                        < self.offset_x + self.width && self.offset_y <= gy < self.offset_y
                        + ly) ==> img.pix(gx, gy) == old(img).pix(gx, gy),
            decreases self.height - ly,
        {
            let mut lx: u32 = 0;
            while lx < self.width
                invariant
                    0 <= lx <= self.width,
                    0 <= ly < self.height,
                    img.spec_wf(),
                    img.width == old(img).width,
                    img.height == old(img).height,
                    self.spec_fits(*img),
                    bitmap.spec_wf(),
                    bitmap.width == self.width,
                    bitmap.height == self.height,
                    forall|px: int, py: int|
                        0 <= px < self.width && 0 <= py < ly ==> img.pix(
                            self.offset_x + px,
                            self.offset_y + py,
                        ) == bitmap.pix(px, py),
                    forall|px: int|
                        0 <= px < lx ==> img.pix(self.offset_x + px, self.offset_y + ly)
                            == bitmap.pix(px, ly as int),
                    forall|gx: int, gy: int|
                        0 <= gx < img.width && 0 <= gy < img.height && !(self.offset_x <= gx
                            < self.offset_x + self.width && self.offset_y <= gy < self.offset_y
                            + ly) && !(self.offset_x <= gx < self.offset_x + lx && gy
                            == self.offset_y + ly) ==> img.pix(gx, gy) == old(img).pix(gx, gy),
                decreases self.width - lx,
            {
                let bidx = bitmap.convert_xy_to_index(lx, ly);
                let color = bitmap.pixels[bidx];
                self.set_pixel_unchecked(img, lx, ly, color);
                lx = lx + 1;
            }
            ly = ly + 1;
        }
    }
}

impl GlyphBitmap {
    /// Converts an `(x, y)` coordinate of the bitmap to its row-major index.
    pub fn convert_xy_to_index(&self, x: u32, y: u32) -> (r: usize)
        requires
            self.spec_wf(),
            x < self.width,
            y < self.height,
        ensures
            r == y * self.width + x,
            r < self.pixels@.len(),
            self.pixels@[r as int] == self.pix(x as int, y as int),
    {
        proof {
            lemma_xy_index_in_bounds(self.width as int, self.height as int, x as int, y as int);
        }
        (y * self.width + x) as usize
    }
}

} // verus!
