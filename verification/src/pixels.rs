use vstd::prelude::*;

verus! {

/// A monochrome intensity grid of fixed dimensions, row-major with the
/// origin at the top left.  A pixel holds an intensity from 0 (background)
/// to 255 (fully inked).
pub struct PixelBuffer {
    width: u32,
    height: u32,
    pixels: Vec<u8>,
}

impl View for PixelBuffer {
    type V = Seq<u8>;

    closed spec fn view(&self) -> Seq<u8> {
        self.pixels@
    }
}

impl PixelBuffer {
    pub closed spec fn spec_width(&self) -> u32 {
        self.width
    }

    pub closed spec fn spec_height(&self) -> u32 {
        self.height
    }

    /// The grid holds exactly one intensity per pixel of the canvas.
    pub open spec fn wf(&self) -> bool {
        self@.len() == self.spec_width() * self.spec_height()
    }

    pub fn width(&self) -> (w: u32)
        ensures
            w == self.spec_width(),
    {
        self.width
    }

    pub fn height(&self) -> (h: u32)
        ensures
            h == self.spec_height(),
    {
        self.height
    }

    /// A fresh canvas with every pixel at intensity 0.
    pub fn new(width: u32, height: u32) -> (r: PixelBuffer)
        requires
            width * height <= usize::MAX,
        ensures
            r.wf(),
            r.spec_width() == width,
            r.spec_height() == height,
            forall|i: int| 0 <= i < r@.len() ==> r@[i] == 0u8,
    {
        let total: usize = (width as usize) * (height as usize);
        let mut pixels: Vec<u8> = Vec::new();
        let mut i: usize = 0;
        while i < total
            invariant
                i <= total,
                pixels@.len() == i,
                forall|j: int| 0 <= j < i ==> pixels@[j] == 0u8,
            decreases total - i,
        {
            pixels.push(0u8);
            i = i + 1;
        }
        PixelBuffer { width, height, pixels }
    }

    /// The intensity stored for pixel (x, y).
    pub fn get_pixel(&self, x: u32, y: u32) -> (p: u8)
        requires
            self.wf(),
            x < self.spec_width(),
            y < self.spec_height(),
        ensures
            p == self@[y * self.spec_width() + x],
    {
        proof {
            assert(y * self.spec_width() + x < self.spec_width() * self.spec_height())
                by (nonlinear_arith)
                requires
                    x < self.spec_width(),
                    y < self.spec_height(),
            ;
        }
        // reading the length reminds the solver that the grid fits in usize
        let total = self.pixels.len();
        let idx: usize = (y as usize) * (self.width as usize) + (x as usize);
        self.pixels[idx]
    }

    /// Overwrite the intensity of pixel (x, y), leaving every other pixel
    /// as it was.
    pub fn put_pixel(&mut self, x: u32, y: u32, value: u8)
        requires
            old(self).wf(),
            x < old(self).spec_width(),
            y < old(self).spec_height(),
        ensures
            final(self).wf(),
            final(self).spec_width() == old(self).spec_width(),
            final(self).spec_height() == old(self).spec_height(),
            final(self)@ == old(self)@.update(y * old(self).spec_width() + x, value),
    {
        proof {
            assert(y * self.spec_width() + x < self.spec_width() * self.spec_height())
                by (nonlinear_arith)
                requires
                    x < self.spec_width(),
                    y < self.spec_height(),
            ;
        }
        // reading the length reminds the solver that the grid fits in usize
        let total = self.pixels.len();
        let idx: usize = (y as usize) * (self.width as usize) + (x as usize);
        self.pixels[idx] = value;
    }
}

/// The mathematical shape of a positioned, rasterized glyph: a rectangle of
/// intensities whose top-left corner sits at (min_x, min_y) in canvas
/// coordinates.  The corner may lie outside the canvas, even at negative
/// coordinates.
pub ghost struct GlyphModel {
    pub min_x: int,
    pub min_y: int,
    pub width: int,
    pub height: int,
    pub coverage: Seq<u8>,
}

impl GlyphModel {
    /// One intensity per cell of the bounding box.
    pub open spec fn wf(&self) -> bool {
        self.coverage.len() == self.width * self.height
    }

    /// Whether canvas position (x, y) falls inside the glyph's bounding box.
    pub open spec fn covers(&self, x: int, y: int) -> bool {
        self.min_x <= x < self.min_x + self.width && self.min_y <= y < self.min_y + self.height
    }

    /// The row-major cell index of canvas position (x, y) inside the box.
    pub open spec fn cell(&self, x: int, y: int) -> int {
        (y - self.min_y) * self.width + (x - self.min_x)
    }

    /// The intensity the glyph carries for canvas position (x, y).
    pub open spec fn intensity_at(&self, x: int, y: int) -> u8 {
        self.coverage[self.cell(x, y)]
    }
}

/// A positioned, rasterized glyph, ready to be stamped onto a canvas.
pub struct Glyph {
    min_x: i32,
    min_y: i32,
    width: u32,
    height: u32,
    coverage: Vec<u8>,
}

impl View for Glyph {
    type V = GlyphModel;

    closed spec fn view(&self) -> GlyphModel {
        GlyphModel {
            min_x: self.min_x as int,
            min_y: self.min_y as int,
            width: self.width as int,
            height: self.height as int,
            coverage: self.coverage@,
        }
    }
}

impl Glyph {
    /// Build a glyph from its bounding box and its row-major coverage
    /// intensities; refused unless the box and the coverage agree in size.
    pub fn new(min_x: i32, min_y: i32, width: u32, height: u32, coverage: Vec<u8>) -> (r: Option<
        Glyph,
    >)
        ensures
            r is Some <==> coverage@.len() == width * height,
            r matches Some(g) ==> g@ == (GlyphModel {
                min_x: min_x as int,
                min_y: min_y as int,
                width: width as int,
                height: height as int,
                coverage: coverage@,
            }) && g@.wf(),
    {
        proof {
            assert((width as int) * (height as int) == (width as u64) * (height as u64))
                by (nonlinear_arith);
            assert((width as int) * (height as int) <= 0xffff_ffff * 0xffff_ffff)
                by (nonlinear_arith)
                requires
                    width <= 0xffff_ffffu32,
                    height <= 0xffff_ffffu32,
            ;
        }
        if (coverage.len() as u64) == (width as u64) * (height as u64) {
            Some(Glyph { min_x, min_y, width, height, coverage })
        } else {
            None
        }
    }
}

/// The grid after one glyph is stamped: positions inside the glyph's
/// bounding box take the glyph's intensity, every other position keeps its
/// old value.  Positions of the box that fall outside the canvas are
/// silently clipped.
pub open spec fn stamp_pixel(pix: Seq<u8>, w: int, g: GlyphModel, i: int) -> u8 {
    if g.covers(i % w, i / w) {
        g.intensity_at(i % w, i / w)
    } else {
        pix[i]
    }
}

pub open spec fn stamped(pix: Seq<u8>, w: int, g: GlyphModel) -> Seq<u8> {
    Seq::new(pix.len(), |i: int| stamp_pixel(pix, w, g, i))
}

/// Like `stamped`, but with only the first n cells of the glyph's bounding
/// box (in row-major order) applied; describes the grid mid-stamping.
pub open spec fn stamp_pixel_upto(pix: Seq<u8>, w: int, g: GlyphModel, n: int, i: int) -> u8 {
    if g.covers(i % w, i / w) && g.cell(i % w, i / w) < n {
        g.intensity_at(i % w, i / w)
    } else {
        pix[i]
    }
}

pub open spec fn stamped_upto(pix: Seq<u8>, w: int, g: GlyphModel, n: int) -> Seq<u8> {
    Seq::new(pix.len(), |i: int| stamp_pixel_upto(pix, w, g, n, i))
}

/// Stamp one glyph onto the canvas.  Cells of the bounding box whose
/// canvas position falls outside the grid are dropped; in-bounds cells
/// overwrite their pixel.
pub fn stamp_glyph(image: &mut PixelBuffer, glyph: &Glyph)
    requires
        old(image).wf(),
        glyph@.wf(),
    ensures
        final(image).wf(),
        final(image).spec_width() == old(image).spec_width(),
        final(image).spec_height() == old(image).spec_height(),
        final(image)@ == stamped(old(image)@, old(image).spec_width() as int, glyph@),
{
    let w = image.width();
    let h = image.height();
    let ghost pix0 = image@;
    let ghost gm = glyph@;
    let gw = glyph.width;
    let gh = glyph.height;
    let cov_len = glyph.coverage.len();
    proof {
        assert(stamped_upto(pix0, w as int, gm, 0) =~= pix0);
    }
    let mut gy: u32 = 0;
    while gy < gh
        invariant
            image.wf(),
            image.spec_width() == w,
            image.spec_height() == h,
            glyph@ == gm,
            gw == gm.width,
            gh == gm.height,
            cov_len == gm.coverage.len(),
            gm.wf(),
            gy <= gh,
            image@ == stamped_upto(pix0, w as int, gm, gy * gw),
            pix0.len() == image@.len(),
        decreases gh - gy,
    {
        let mut gx: u32 = 0;
        while gx < gw
            invariant
                image.wf(),
                image.spec_width() == w,
                image.spec_height() == h,
                glyph@ == gm,
                gw == gm.width,
                gh == gm.height,
                cov_len == gm.coverage.len(),
                gm.wf(),
                gy < gh,
                gx <= gw,
                image@ == stamped_upto(pix0, w as int, gm, gy * gw + gx),
                pix0.len() == image@.len(),
            decreases gw - gx,
        {
            let ghost n = gy * gw + gx as int;
            proof {
                assert(n + 1 <= gw * gh) by (nonlinear_arith)
                    requires
                        n == gy * gw + gx,
                        gy < gh,
                        gx < gw,
                ;
            }
            let idx: usize = (gy as usize) * (gw as usize) + (gx as usize);
            let v = glyph.coverage[idx];
            let tx: i64 = (glyph.min_x as i64) + (gx as i64);
            let ty: i64 = (glyph.min_y as i64) + (gy as i64);
            let ghost before = image@;
            if 0 <= tx && tx < w as i64 && 0 <= ty && ty < h as i64 {
                image.put_pixel(tx as u32, ty as u32, v);
                proof {
                    let ti = ty * (w as int) + tx;
                    assert(ti < (w as int) * (h as int)) by (nonlinear_arith)
                        requires
                            0 <= tx < w as int,
                            0 <= ty < h as int,
                            ti == ty * (w as int) + tx,
                    ;
                    assert(0 <= ti < before.len());
                    vstd::arithmetic::div_mod::lemma_fundamental_div_mod_converse(
                        ti,
                        w as int,
                        ty as int,
                        tx as int,
                    );
                    vstd::arithmetic::div_mod::lemma_fundamental_div_mod_converse(
                        n,
                        gw as int,
                        gy as int,
                        gx as int,
                    );
                    assert(gm.covers(tx as int, ty as int));
                    assert(gm.cell(tx as int, ty as int) == n);
                    assert forall|i: int|
                        0 <= i < before.len() implies before.update(ti, v)[i] == stamp_pixel_upto(
                        pix0,
                        w as int,
                        gm,
                        n + 1,
                        i,
                    ) by {
                        if i != ti {
                            if gm.covers(i % (w as int), i / (w as int)) && gm.cell(
                                i % (w as int),
                                i / (w as int),
                            ) == n {
                                vstd::arithmetic::div_mod::lemma_fundamental_div_mod_converse(
                                    n,
                                    gw as int,
                                    i / (w as int) - gm.min_y,
                                    i % (w as int) - gm.min_x,
                                );
                                vstd::arithmetic::div_mod::lemma_fundamental_div_mod(i, w as int);
                                assert(i / (w as int) == ty as int);
                                assert(i % (w as int) == tx as int);
                                assert((w as int) * (ty as int) == (ty as int) * (w as int))
                                    by (nonlinear_arith);
                                assert(i == ti);
                            }
                        }
                    }
                    assert(image@ =~= stamped_upto(pix0, w as int, gm, n + 1));
                }
            } else {
                proof {
                    vstd::arithmetic::div_mod::lemma_fundamental_div_mod_converse(
                        n,
                        gw as int,
                        gy as int,
                        gx as int,
                    );
                    assert forall|i: int|
                        0 <= i < before.len() implies before[i] == stamp_pixel_upto(
                        pix0,
                        w as int,
                        gm,
                        n + 1,
                        i,
                    ) by {
                        let x = i % (w as int);
                        let y = i / (w as int);
                        if gm.covers(x, y) && gm.cell(x, y) == n {
                            vstd::arithmetic::div_mod::lemma_fundamental_div_mod_converse(
                                n,
                                gw as int,
                                y - gm.min_y,
                                x - gm.min_x,
                            );
                            assert(x == tx as int && y == ty as int);
                            assert(0 <= x < w);
                            assert(i < (w as int) * (h as int));
                            vstd::arithmetic::div_mod::lemma_multiply_divide_lt(
                                i,
                                w as int,
                                h as int,
                            );
                            assert(false);
                        }
                    }
                    assert(image@ =~= stamped_upto(pix0, w as int, gm, n + 1));
                }
            }
            gx = gx + 1;
        }
        proof {
            assert(gy * gw + gw == (gy + 1) * gw) by (nonlinear_arith);
        }
        gy = gy + 1;
    }
    proof {
        assert forall|i: int|
            0 <= i < pix0.len() implies stamped_upto(pix0, w as int, gm, gh * gw)[i] == stamp_pixel(
            pix0,
            w as int,
            gm,
            i,
        ) by {
            let x = i % (w as int);
            let y = i / (w as int);
            if gm.covers(x, y) {
                assert(gm.cell(x, y) < gh * gw) by (nonlinear_arith)
                    requires
                        gm.cell(x, y) == (y - gm.min_y) * gm.width + (x - gm.min_x),
                        0 <= y - gm.min_y < gm.height,
                        0 <= x - gm.min_x < gm.width,
                        gw == gm.width,
                        gh == gm.height,
                ;
            }
        }
        assert(stamped_upto(pix0, w as int, gm, gh * gw) =~= stamped(pix0, w as int, gm));
    }
}

/// Clipping drops a fully off-screen glyph without touching any pixel: a
/// glyph whose bounding box lies entirely outside the canvas leaves the
/// grid exactly as it was.
pub proof fn lemma_offscreen_glyph_dropped(pix: Seq<u8>, w: int, h: int, g: GlyphModel)
    requires
        0 <= w,
        0 <= h,
        pix.len() == w * h,
        g.min_x + g.width <= 0 || g.min_x >= w || g.min_y + g.height <= 0 || g.min_y >= h,
    ensures
        stamped(pix, w, g) == pix,
{
    assert forall|i: int| 0 <= i < pix.len() implies stamped(pix, w, g)[i] == pix[i] by {
        assert(w > 0) by (nonlinear_arith)
            requires
                0 <= i < w * h,
                0 <= w,
        ;
        let x = i % w;
        let y = i / w;
        vstd::arithmetic::div_mod::lemma_mod_pos_bound(i, w);
        vstd::arithmetic::div_mod::lemma_multiply_divide_lt(i, w, h);
        assert(0 <= x < w);
        assert(0 <= y < h);
        assert(!g.covers(x, y));
    }
    assert(stamped(pix, w, g) =~= pix);
}

} // verus!
