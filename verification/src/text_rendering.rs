use vstd::prelude::*;

use crate::packing::{pack, packed};
use crate::pixels::{stamp_glyph, stamped, Glyph, GlyphModel, PixelBuffer};

verus! {

/// The fixed pixel geometry of the target panel.
pub struct ImageSize {
    x_size: u32,
    y_size: u32,
}

impl ImageSize {
    pub closed spec fn spec_x_size(&self) -> u32 {
        self.x_size
    }

    pub closed spec fn spec_y_size(&self) -> u32 {
        self.y_size
    }

    /// The panel has at least one pixel each way, and a grid of its size
    /// can be addressed.
    pub open spec fn wf(&self) -> bool {
        self.spec_x_size() > 0 && self.spec_y_size() > 0 && self.spec_x_size() * self.spec_y_size()
            <= usize::MAX
    }

    /// A panel geometry of x_size by y_size pixels.  Both dimensions must
    /// be positive and the pixel count must be addressable.
    pub fn new(x_size: u32, y_size: u32) -> (r: ImageSize)
        requires
            x_size > 0,
            y_size > 0,
            x_size * y_size <= usize::MAX,
        ensures
            r.wf(),
            r.spec_x_size() == x_size,
            r.spec_y_size() == y_size,
    {
        ImageSize { x_size, y_size }
    }

    pub fn x_size(&self) -> (r: u32)
        ensures
            r == self.spec_x_size(),
    {
        self.x_size
    }

    pub fn y_size(&self) -> (r: u32)
        ensures
            r == self.spec_y_size(),
    {
        self.y_size
    }
}

/// The glyph shapes of a sequence of glyphs.
pub open spec fn glyph_models(gs: Seq<Glyph>) -> Seq<GlyphModel> {
    gs.map_values(|g: Glyph| g@)
}

pub open spec fn all_wf(gs: Seq<Glyph>) -> bool {
    forall|i: int| 0 <= i < gs.len() ==> (#[trigger] gs[i])@.wf()
}

/// The grid after a sequence of glyphs is stamped in order.  Later glyphs
/// overwrite earlier ones where they overlap: last write wins.
pub open spec fn stamped_all(pix: Seq<u8>, w: int, gs: Seq<GlyphModel>) -> Seq<u8>
    decreases gs.len(),
{
    if gs.len() == 0 {
        pix
    } else {
        stamped(stamped_all(pix, w, gs.drop_last()), w, gs.last())
    }
}

/// A canvas of the given size with every pixel untouched.
pub open spec fn blank(w: int, h: int) -> Seq<u8> {
    Seq::new((w * h) as nat, |i: int| 0u8)
}

/// The pixel grid produced by rendering the given positioned glyphs on a
/// fresh w-by-h canvas.
pub open spec fn rendered(w: int, h: int, gs: Seq<GlyphModel>) -> Seq<u8> {
    stamped_all(blank(w, h), w, gs)
}

/// Stamp one line's glyphs onto the canvas, in order.  Glyphs or parts of
/// glyphs outside the canvas are dropped; there is no wrapping and no
/// scrolling.
pub fn set_line(image: &mut PixelBuffer, glyphs: &Vec<Glyph>)
    requires
        old(image).wf(),
        all_wf(glyphs@),
    ensures
        final(image).wf(),
        final(image).spec_width() == old(image).spec_width(),
        final(image).spec_height() == old(image).spec_height(),
        final(image)@ == stamped_all(
            old(image)@,
            old(image).spec_width() as int,
            glyph_models(glyphs@),
        ),
{
    let ghost pix0 = image@;
    let ghost w = image.spec_width() as int;
    let mut j: usize = 0;
    proof {
        assert(glyph_models(glyphs@.take(0)) =~= Seq::<GlyphModel>::empty());
    }
    while j < glyphs.len()
        invariant
            image.wf(),
            image.spec_width() as int == w,
            image.spec_height() == old(image).spec_height(),
            j <= glyphs.len(),
            all_wf(glyphs@),
            image@ == stamped_all(pix0, w, glyph_models(glyphs@.take(j as int))),
        decreases glyphs.len() - j,
    {
        stamp_glyph(image, &glyphs[j]);
        proof {
            let taken = glyph_models(glyphs@.take(j + 1));
            assert(taken.drop_last() =~= glyph_models(glyphs@.take(j as int)));
            assert(taken.last() == glyphs@[j as int]@);
        }
        j = j + 1;
    }
    proof {
        assert(glyphs@.take(glyphs@.len() as int) =~= glyphs@);
    }
}

/// Render positioned glyphs onto a fresh canvas of the panel's size.
///
/// The caller lays the text out line by line (splitting on newlines and
/// placing each line's glyphs at its baseline) and hands every line's
/// glyphs here in order.
pub fn render_image(size: &ImageSize, glyphs: &Vec<Glyph>) -> (image: PixelBuffer)
    requires
        size.wf(),
        all_wf(glyphs@),
    ensures
        image.wf(),
        image.spec_width() == size.spec_x_size(),
        image.spec_height() == size.spec_y_size(),
        image@ == rendered(
            size.spec_x_size() as int,
            size.spec_y_size() as int,
            glyph_models(glyphs@),
        ),
{
    let mut image = PixelBuffer::new(size.x_size(), size.y_size());
    proof {
        assert(image@ =~= blank(size.spec_x_size() as int, size.spec_y_size() as int));
    }
    set_line(&mut image, glyphs);
    image
}

/// Render positioned glyphs and pack the result into the panel's
/// bit-stream in one step.
pub fn render_text(size: &ImageSize, glyphs: &Vec<Glyph>) -> (data: Vec<u8>)
    requires
        size.wf(),
        all_wf(glyphs@),
    ensures
        data@ == packed(
            rendered(size.spec_x_size() as int, size.spec_y_size() as int, glyph_models(glyphs@)),
            size.spec_x_size() as nat,
            size.spec_y_size() as nat,
        ),
{
    let image = render_image(size, glyphs);
    pack(&image)
}

/// Rendering no glyphs at all (the empty string, or text made only of
/// newlines, lays out no glyph) leaves the canvas blank, and the blank
/// canvas packs to a bit-stream of zero bytes.
pub proof fn lemma_render_nothing_packs_zero(w: nat, h: nat)
    ensures
        rendered(w as int, h as int, Seq::<GlyphModel>::empty()) == blank(w as int, h as int),
        forall|j: int|
            0 <= j < packed(blank(w as int, h as int), w, h).len() ==> packed(
                blank(w as int, h as int),
                w,
                h,
            )[j] == 0u8,
{
    let b = blank(w as int, h as int);
    assert(b.len() == w * h);
    crate::packing::lemma_pack_all_zero(b, w, h);
}

} // verus!
