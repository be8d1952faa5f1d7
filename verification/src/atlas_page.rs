//! One page of a font's atlas: a square image that glyph bitmaps are packed
//! into, one beside the other, until no more fit.

use crate::bitmap::blit;
use crate::bitmap::blit_spec;
use crate::bitmap::RasterizedBitmap;
use crate::font::GlyphId;
use crate::packer;
use crate::rect::PixelRect;
use crate::rect::UvRect;
use guillotiere::AtlasAllocator;
use std::collections::HashMap;
use vstd::prelude::*;

verus! {

/// What a page holds.
pub struct FontAtlasView {
    /// The side of the page in texels.
    pub size: u32,
    /// The place of every bitmap packed so far, in the order of packing.
    pub rects: Seq<PixelRect>,
    /// For each glyph on the page, which of `rects` is its place.
    pub glyphs: Map<GlyphId, usize>,
    /// The image, four bytes a texel, row after row.
    pub pixels: Seq<u8>,
    /// A bitmap was packed since the image was last taken for upload.
    pub dirty: bool,
}

impl FontAtlasView {
    /// The image has the page's size; every place, with the gap that goes
    /// with it, lies on the page; no two places, gaps included, have a texel
    /// in common; and every glyph has a place of its own.
    pub open spec fn wf(&self) -> bool {
        &&& 0 < self.size <= i32::MAX
        &&& self.pixels.len() == 4 * self.size * self.size
        &&& forall|i: int|
            0 <= i < self.rects.len() ==> (#[trigger] self.rects[i]).fits_padded(self.size as int)
        &&& forall|i: int, j: int|
            0 <= i < j < self.rects.len() ==> !(#[trigger] self.rects[i]).crowds(
                #[trigger] self.rects[j],
            )
        &&& forall|g: GlyphId| #[trigger]
            self.glyphs.contains_key(g) ==> self.glyphs[g] < self.rects.len()
        &&& forall|a: GlyphId, b: GlyphId|
            #![trigger self.glyphs[a], self.glyphs[b]]
            self.glyphs.contains_key(a) && self.glyphs.contains_key(b) && a != b
                ==> self.glyphs[a] != self.glyphs[b]
    }

    /// A page of side `size` with nothing on it.
    pub open spec fn empty(size: u32) -> FontAtlasView {
        FontAtlasView {
            size,
            rects: Seq::empty(),
            glyphs: Map::empty(),
            pixels: Seq::new((4 * size * size) as nat, |i: int| 0u8),
            dirty: false,
        }
    }

    /// The page after the bitmap `pixels` of `glyph` was packed at `rect`.
    pub open spec fn insert(self, glyph: GlyphId, rect: PixelRect, pixels: Seq<u8>) -> FontAtlasView {
        FontAtlasView {
            size: self.size,
            rects: self.rects.push(rect),
            glyphs: self.glyphs.insert(glyph, self.rects.len() as usize),
            pixels: blit_spec(self.pixels, self.size as int, rect, pixels),
            dirty: true,
        }
    }

    /// Packing a bitmap keeps every glyph on the page, and adds the new one.
    pub proof fn lemma_insert_keeps(self, glyph: GlyphId, rect: PixelRect, pixels: Seq<u8>)
        ensures
            self.insert(glyph, rect, pixels).glyphs.contains_key(glyph),
            forall|g: GlyphId| #[trigger]
                self.glyphs.contains_key(g) ==> self.insert(glyph, rect, pixels).glyphs.contains_key(
                    g,
                ),
            self.insert(glyph, rect, pixels).size == self.size,
    {
    }

    /// Where the bitmap of `glyph` lies, if it is on the page.
    pub open spec fn placement(&self, glyph: GlyphId) -> Option<PixelRect> {
        if self.glyphs.contains_key(glyph) {
            Some(self.rects[self.glyphs[glyph] as int])
        } else {
            None
        }
    }

    /// The texture coordinates of `glyph` without the `range` texels of
    /// falloff around it, if it is on the page.
    pub open spec fn lookup(&self, glyph: GlyphId, range: u8) -> Option<UvRect> {
        match self.placement(glyph) {
            Some(rect) => Some(UvRect::of(rect, range as int, self.size)),
            None => None,
        }
    }
}

/// The image of a page, with the places of the bitmaps that lie on it.
pub struct AtlasTexture {
    size: u32,
    rects: Vec<PixelRect>,
    glyph_to_atlas_index: HashMap<GlyphId, usize>,
    pixels: Vec<u8>,
    dirty: bool,
}

impl View for AtlasTexture {
    type V = FontAtlasView;

    closed spec fn view(&self) -> FontAtlasView {
        FontAtlasView {
            size: self.size,
            rects: self.rects@,
            glyphs: self.glyph_to_atlas_index@,
            pixels: self.pixels@,
            dirty: self.dirty,
        }
    }
}

impl AtlasTexture {
    /// An image of `size` by `size` texels, all bytes zero, with no bitmap
    /// on it.
    pub fn new(size: u32) -> (texture: AtlasTexture)
        requires
            0 < size <= i32::MAX,
            4 * size * size <= usize::MAX,
        ensures
            texture@ == FontAtlasView::empty(size),
            texture@.wf(),
    {
        assert(0 <= size * size && 4 * size * size == 4 * (size * size)) by (nonlinear_arith)
            requires
                0 < size,
        ;
        let side: usize = size as usize;
        let bytes: usize = side * side * 4;
        let pixels: Vec<u8> = vec![0u8; bytes];
        let texture = AtlasTexture {
            size,
            rects: Vec::new(),
            glyph_to_atlas_index: HashMap::new(),
            pixels,
            dirty: false,
        };
        assert(texture@.pixels =~= FontAtlasView::empty(size).pixels);
        assert(texture@.glyphs =~= FontAtlasView::empty(size).glyphs);
        texture
    }

    /// Puts the bitmap `texture` of the glyph `glyph_id` at `rect`, which
    /// it fills: the bitmap is copied there, and the place is recorded as
    /// that of the glyph. The place, with its gap, has to lie on the page
    /// clear of every place that is taken.
    pub fn insert(&mut self, glyph_id: GlyphId, rect: PixelRect, texture: &RasterizedBitmap)
        requires
            old(self)@.wf(),
            texture.wf(),
            rect.fits_padded(old(self)@.size as int),
            rect.spec_width() == texture.spec_width(),
            rect.spec_height() == texture.spec_height(),
            forall|i: int|
                0 <= i < old(self)@.rects.len() ==> !(#[trigger] old(self)@.rects[i]).crowds(rect),
        ensures
            final(self)@ == old(self)@.insert(glyph_id, rect, texture.pixels()),
            final(self)@.wf(),
    {
        blit(&mut self.pixels, self.size, rect, texture);
        let index: usize = self.rects.len();
        self.rects.push(rect);
        self.glyph_to_atlas_index.insert(glyph_id, index);
        self.dirty = true;
        proof {
            let before = old(self)@;
            let after = self@;
            assert(after == before.insert(glyph_id, rect, texture.pixels()));
            assert forall|a: GlyphId, b: GlyphId|
                #![trigger after.glyphs[a], after.glyphs[b]]
                after.glyphs.contains_key(a) && after.glyphs.contains_key(b) && a
                    != b implies after.glyphs[a] != after.glyphs[b] by {
                if a != glyph_id {
                    assert(before.glyphs.contains_key(a));
                }
                if b != glyph_id {
                    assert(before.glyphs.contains_key(b));
                }
            }
        }
    }

    /// The texture coordinates of the glyph `glyph_id` on this page, with
    /// `range` texels taken off every edge of its place: none if the glyph
    /// is not on this page.
    pub fn lookup_glyph(&self, glyph_id: GlyphId, range: u8) -> (uv: Option<UvRect>)
        requires
            self@.wf(),
        ensures
            uv == self@.lookup(glyph_id, range),
            uv matches Some(r) ==> r.wf(),
    {
        match self.glyph_to_atlas_index.get(&glyph_id) {
            Some(index) => {
                assert(self@.glyphs.contains_key(glyph_id));
                let rect = self.rects[*index];
                assert(self@.rects[*index as int].fits_padded(self.size as int));
                let inner = rect.shrink(range);
                Some(
                    UvRect {
                        min_x: inner.min_x,
                        min_y: inner.min_y,
                        max_x: inner.max_x,
                        max_y: inner.max_y,
                        size: self.size,
                    },
                )
            },
            None => None,
        }
    }

    /// Where the bitmap of the glyph `glyph_id` lies, if it is on the page.
    pub fn placement(&self, glyph_id: GlyphId) -> (rect: Option<PixelRect>)
        requires
            self@.wf(),
        ensures
            rect == self@.placement(glyph_id),
    {
        match self.glyph_to_atlas_index.get(&glyph_id) {
            Some(index) => {
                assert(self@.glyphs.contains_key(glyph_id));
                Some(self.rects[*index])
            },
            None => None,
        }
    }

    /// The side of the page in texels.
    pub fn size(&self) -> (size: u32)
        ensures
            size == self@.size,
    {
        self.size
    }

    /// How many bitmaps lie on the page.
    pub fn len(&self) -> (count: usize)
        ensures
            count == self@.rects.len(),
    {
        self.rects.len()
    }

    /// The image, four bytes a texel, row after row.
    pub fn pixels(&self) -> (pixels: &Vec<u8>)
        ensures
            pixels@ == self@.pixels,
    {
        &self.pixels
    }

    /// Whether a bitmap was put on the page since the image was last taken
    /// for upload.
    pub fn is_dirty(&self) -> (dirty: bool)
        ensures
            dirty == self@.dirty,
    {
        self.dirty
    }

    /// Says that the image was taken for upload as it is now.
    pub fn clear_dirty(&mut self)
        ensures
            final(self)@ == (FontAtlasView { dirty: false, ..old(self)@ }),
    {
        self.dirty = false;
    }
}

/// One page of an atlas: an image, and the allocator that finds room on it.
pub struct FontAtlas {
    allocator: AtlasAllocator,
    texture: AtlasTexture,
}

impl View for FontAtlas {
    type V = FontAtlasView;

    closed spec fn view(&self) -> FontAtlasView {
        self.texture@
    }
}

impl FontAtlas {
    /// The page is as its view says, and its allocator knows every place
    /// that was given out.
    pub closed spec fn wf(&self) -> bool {
        &&& self@.wf()
        &&& packer::allocator_size(self.allocator) == self@.size
        &&& forall|i: int|
            0 <= i < self@.rects.len() ==> packer::allocated(self.allocator).contains(
                (#[trigger] self@.rects[i]).padded(),
            )
    }

    /// Where a bitmap of `width` by `height` texels would be packed: the
    /// allocator is asked for one texel more each way, and the bitmap takes
    /// the upper left of what it gives.
    pub closed spec fn fit(&self, width: int, height: int) -> Option<PixelRect> {
        if width < i32::MAX && height < i32::MAX {
            match packer::next_allocation(self.allocator, width + 1, height + 1) {
                Some(room) => Some(
                    PixelRect {
                        min_x: room.min_x,
                        min_y: room.min_y,
                        max_x: (room.max_x - 1) as u32,
                        max_y: (room.max_y - 1) as u32,
                    },
                ),
                None => None,
            }
        } else {
            None
        }
    }

    /// Where a bitmap of `width` by `height` texels is packed on an empty
    /// page of side `size`: in the upper left corner, if it fits with its
    /// gap.
    pub open spec fn fresh_fit(size: u32, width: int, height: int) -> Option<PixelRect> {
        if 0 <= width < size && 0 <= height < size {
            Some(PixelRect { min_x: 0, min_y: 0, max_x: width as u32, max_y: height as u32 })
        } else {
            None
        }
    }

    /// A well-formed page has a well-formed view.
    pub proof fn lemma_view_wf(&self)
        requires
            self.wf(),
        ensures
            self@.wf(),
    {
    }

    /// An empty page of `size` by `size` texels, all bytes zero.
    pub fn new(size: u32) -> (page: FontAtlas)
        requires
            0 < size <= i32::MAX,
            4 * size * size <= usize::MAX,
        ensures
            page.wf(),
            page@ == FontAtlasView::empty(size),
            forall|width: int, height: int|
                0 <= width && 0 <= height ==> #[trigger] page.fit(width, height)
                    == FontAtlas::fresh_fit(size, width, height),
    {
        FontAtlas { allocator: packer::new_allocator(size), texture: AtlasTexture::new(size) }
    }

    /// Packs the bitmap `texture` of the glyph `glyph_id` into the page, if
    /// there is room: the bitmap is copied to the place found for it, and
    /// the place is recorded as that of the glyph. Without room nothing
    /// changes.
    pub fn add_glyph(&mut self, glyph_id: GlyphId, texture: &RasterizedBitmap) -> (added: bool)
        requires
            old(self).wf(),
            texture.wf(),
        ensures
            final(self).wf(),
            added == old(self).fit(texture.spec_width(), texture.spec_height()).is_some(),
            final(self)@ == match old(self).fit(texture.spec_width(), texture.spec_height()) {
                Some(rect) => old(self)@.insert(glyph_id, rect, texture.pixels()),
                None => old(self)@,
            },
            old(self).fit(texture.spec_width(), texture.spec_height()) matches Some(rect) ==> {
                &&& rect.spec_width() == texture.spec_width()
                &&& rect.spec_height() == texture.spec_height()
                &&& rect.fits_padded(old(self)@.size as int)
            },
    {
        let width: u32 = texture.width();
        let height: u32 = texture.height();
        if width >= i32::MAX as u32 || height >= i32::MAX as u32 {
            return false;
        }
        let room = match packer::allocate(&mut self.allocator, width + 1, height + 1) {
            Some(room) => room,
            None => {
                return false;
            },
        };
        let rect = PixelRect {
            min_x: room.min_x,
            min_y: room.min_y,
            max_x: room.max_x - 1,
            max_y: room.max_y - 1,
        };
        proof {
            let before = old(self)@;
            assert(rect.padded() == room);
            assert forall|i: int| 0 <= i < before.rects.len() implies !(
            #[trigger] before.rects[i]).crowds(rect) by {
                assert(before.rects[i].fits_padded(before.size as int));
                assert(packer::allocated(old(self).allocator).contains(before.rects[i].padded()));
                assert(!room.overlaps(before.rects[i].padded()));
            }
        }
        self.texture.insert(glyph_id, rect, texture);
        proof {
            let before = old(self)@;
            assert forall|i: int| 0 <= i < self@.rects.len() implies packer::allocated(
                self.allocator,
            ).contains((#[trigger] self@.rects[i]).padded()) by {
                if i < before.rects.len() {
                    assert(packer::allocated(old(self).allocator).contains(
                        before.rects[i].padded(),
                    ));
                }
            }
        }
        true
    }

    /// The texture coordinates of the glyph `glyph_id` on this page, with
    /// `range` texels taken off every edge of its place: none if the glyph
    /// was never packed into this page.
    pub fn lookup_glyph(&self, glyph_id: GlyphId, range: u8) -> (uv: Option<UvRect>)
        requires
            self.wf(),
        ensures
            uv == self@.lookup(glyph_id, range),
            uv matches Some(r) ==> r.wf(),
    {
        self.texture.lookup_glyph(glyph_id, range)
    }

    /// The image of the page and the places on it.
    pub fn texture(&self) -> (texture: &AtlasTexture)
        ensures
            texture@ == self@,
    {
        &self.texture
    }

    /// Says that the image was taken for upload as it is now.
    pub fn clear_dirty(&mut self)
        requires
            old(self).wf(),
        ensures
            final(self).wf(),
            final(self)@ == (FontAtlasView { dirty: false, ..old(self)@ }),
    {
        self.texture.clear_dirty();
    }
}

/// On one page, the places of two different glyphs have no texel in common,
/// and both lie on the page.
pub proof fn lemma_placements_disjoint(page: FontAtlasView, a: GlyphId, b: GlyphId)
    requires
        page.wf(),
        a != b,
        page.placement(a) is Some,
        page.placement(b) is Some,
    ensures
        !page.placement(a).unwrap().overlaps(page.placement(b).unwrap()),
        page.placement(a).unwrap().within(page.size as int),
        page.placement(b).unwrap().within(page.size as int),
{
    let i = page.glyphs[a] as int;
    let j = page.glyphs[b] as int;
    assert(page.glyphs.contains_key(a) && page.glyphs.contains_key(b));
    assert(page.glyphs[a] != page.glyphs[b]);
    assert(page.rects[i].fits_padded(page.size as int));
    assert(page.rects[j].fits_padded(page.size as int));
    if i < j {
        assert(!page.rects[i].crowds(page.rects[j]));
    } else {
        assert(!page.rects[j].crowds(page.rects[i]));
    }
}

} // verus!
